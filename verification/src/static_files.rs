//! Static files of a site: which requests are static assets, the content
//! type of a file, and the checks made on a requested path before the file
//! system is touched.

use vstd::prelude::*;
use crate::text::{
    before_char, before_char_exec, chars_of, contains, rfind_char, rfind_char_range, split_char,
    split_ranges, str_contains, str_eq, substring, trim_start_char, trim_start_char_range,
};

verus! {

/// The last path component that names something (`Path::file_name`): the
/// last `/`-separated segment that is neither empty nor `.`; `None` when
/// there is none or it is `..`.
pub open spec fn file_name(path: Seq<char>) -> Option<Seq<char>> {
    match last_named(split_char(path, '/')) {
        Some(n) => if n == ".."@ {
            None
        } else {
            Some(n)
        },
        None => None,
    }
}

/// The last segment that is neither empty nor `.`.
pub open spec fn last_named(segs: Seq<Seq<char>>) -> Option<Seq<char>>
    decreases segs.len(),
{
    if segs.len() == 0 {
        None
    } else if segs.last().len() > 0 && segs.last() != "."@ {
        Some(segs.last())
    } else {
        last_named(segs.drop_last())
    }
}

/// The extension of a file name (`Path::extension`): what follows its
/// last `.`, unless that `.` is the first character.
pub open spec fn name_extension(name: Seq<char>) -> Option<Seq<char>> {
    match rfind_char(name, '.') {
        Some(i) => if i > 0 {
            Some(name.subrange(i + 1, name.len() as int))
        } else {
            None
        },
        None => None,
    }
}

/// The extension of a path.
pub open spec fn path_extension(path: Seq<char>) -> Option<Seq<char>> {
    match file_name(path) {
        Some(n) => name_extension(n),
        None => None,
    }
}

/// `Path::extension` of a path written with `/` separators.
pub fn extension_of(path: &str) -> (r: Option<String>)
    ensures
        match r {
            Some(e) => path_extension(path@) == Some(e@),
            None => path_extension(path@) is None,
        },
{
    let v = chars_of(path);
    let segs = split_ranges(&v, '/');
    let ghost ss = split_char(v@, '/');
    let mut k = segs.len();
    assert(ss.take(k as int) =~= ss);
    while k > 0
        invariant
            k <= segs@.len(),
            segs@.len() == ss.len(),
            v@ == path@,
            ss == split_char(v@, '/'),
            forall|j: int| 0 <= j < segs@.len() ==> (#[trigger] segs@[j]).0 <= segs@[j].1 <= v@.len(),
            forall|j: int|
                0 <= j < segs@.len() ==> v@.subrange((#[trigger] segs@[j]).0 as int, segs@[j].1 as int)
                    == ss[j],
            last_named(ss) == last_named(ss.take(k as int)),
        decreases k,
    {
        let (a, b) = segs[k - 1];
        let seg = substring(&v, a, b);
        proof {
            assert(ss.take(k as int).drop_last() =~= ss.take(k - 1));
            assert(ss.take(k as int).last() == ss[k - 1]);
        }
        if a < b && !str_eq(seg.as_str(), ".") {
            if str_eq(seg.as_str(), "..") {
                return None;
            }
            let sv = chars_of(seg.as_str());
            proof {
                assert(sv@.subrange(0, sv@.len() as int) =~= sv@);
            }
            match rfind_char_range(&sv, 0, sv.len(), '.') {
                Some(i) => {
                    if i > 0 {
                        return Some(substring(&sv, i + 1, sv.len()));
                    } else {
                        return None;
                    }
                },
                None => return None,
            }
        }
        k -= 1;
    }
    assert(ss.take(0) =~= Seq::<Seq<char>>::empty());
    None
}

/// Extensions served as static assets.
pub open spec fn is_asset_extension(e: Seq<char>) -> bool {
    e == "css"@ || e == "js"@ || e == "png"@ || e == "jpg"@ || e == "jpeg"@ || e == "gif"@ || e
        == "svg"@ || e == "ico"@ || e == "woff"@ || e == "woff2"@ || e == "txt"@ || e == "map"@
        || e == "mp4"@ || e == "webm"@ || e == "mp3"@
}

fn asset_extension(e: &str) -> (b: bool)
    ensures
        b == is_asset_extension(e@),
{
    str_eq(e, "css") || str_eq(e, "js") || str_eq(e, "png") || str_eq(e, "jpg") || str_eq(e, "jpeg")
        || str_eq(e, "gif") || str_eq(e, "svg") || str_eq(e, "ico") || str_eq(e, "woff") || str_eq(
        e,
        "woff2",
    ) || str_eq(e, "txt") || str_eq(e, "map") || str_eq(e, "mp4") || str_eq(e, "webm") || str_eq(
        e,
        "mp3",
    )
}

/// Whether a request (its path before any `?`) asks for a static asset,
/// judged by the extension.
pub fn is_static_asset(request_path: &str) -> (b: bool)
    ensures
        b == (path_extension(before_char(request_path@, '?')) matches Some(e)
            && is_asset_extension(e)),
{
    let path = before_char_exec(request_path, '?');
    match extension_of(path.as_str()) {
        Some(e) => asset_extension(e.as_str()),
        None => false,
    }
}

/// The content type of a file by its extension.
pub open spec fn content_type_of(ext: Seq<char>) -> Seq<char> {
    if ext == "html"@ || ext == "htm"@ {
        "text/html; charset=utf-8"@
    } else if ext == "css"@ {
        "text/css; charset=utf-8"@
    } else if ext == "js"@ {
        "application/javascript; charset=utf-8"@
    } else if ext == "json"@ {
        "application/json"@
    } else if ext == "png"@ {
        "image/png"@
    } else if ext == "jpg"@ || ext == "jpeg"@ {
        "image/jpeg"@
    } else if ext == "gif"@ {
        "image/gif"@
    } else if ext == "svg"@ {
        "image/svg+xml"@
    } else if ext == "ico"@ {
        "image/x-icon"@
    } else if ext == "txt"@ {
        "text/plain; charset=utf-8"@
    } else if ext == "xml"@ {
        "application/xml"@
    } else if ext == "woff"@ {
        "font/woff"@
    } else if ext == "woff2"@ {
        "font/woff2"@
    } else {
        "application/octet-stream"@
    }
}

/// The content type for a file path (no extension: the bytes type).
pub fn guess_content_type(path: &str) -> (r: &'static str)
    ensures
        r@ == content_type_of(
            match path_extension(path@) {
                Some(e) => e,
                None => Seq::empty(),
            },
        ),
{
    let e = match extension_of(path) {
        Some(e) => e,
        None => String::new(),
    };
    let e = e.as_str();
    if str_eq(e, "html") || str_eq(e, "htm") {
        "text/html; charset=utf-8"
    } else if str_eq(e, "css") {
        "text/css; charset=utf-8"
    } else if str_eq(e, "js") {
        "application/javascript; charset=utf-8"
    } else if str_eq(e, "json") {
        "application/json"
    } else if str_eq(e, "png") {
        "image/png"
    } else if str_eq(e, "jpg") || str_eq(e, "jpeg") {
        "image/jpeg"
    } else if str_eq(e, "gif") {
        "image/gif"
    } else if str_eq(e, "svg") {
        "image/svg+xml"
    } else if str_eq(e, "ico") {
        "image/x-icon"
    } else if str_eq(e, "txt") {
        "text/plain; charset=utf-8"
    } else if str_eq(e, "xml") {
        "application/xml"
    } else if str_eq(e, "woff") {
        "font/woff"
    } else if str_eq(e, "woff2") {
        "font/woff2"
    } else {
        "application/octet-stream"
    }
}

/// What serving a static request starts from.
#[derive(Debug, Clone, PartialEq, Eq)]
pub enum StaticTarget {
    /// Refused outright: the path tries to leave the document root.
    Traversal,
    /// The file to read, relative to the document root.
    File(String),
}

/// The file a request asks for: its path before any `?` is refused when
/// it holds `..`; otherwise leading `/`s are dropped, and an empty rest
/// means `index.html`.
pub open spec fn static_target_spec(request_path: Seq<char>) -> (bool, Seq<char>) {
    let p = before_char(request_path, '?');
    if contains(p, ".."@) {
        (true, Seq::empty())
    } else {
        let rel = trim_start_char(p, '/');
        if rel.len() == 0 {
            (false, "index.html"@)
        } else {
            (false, rel)
        }
    }
}

/// Decides the file a static request asks for.
pub fn static_target(request_path: &str) -> (r: StaticTarget)
    ensures
        static_target_spec(request_path@).0 ==> r == StaticTarget::Traversal,
        !static_target_spec(request_path@).0 ==> (r matches StaticTarget::File(f) && f@
            == static_target_spec(request_path@).1),
{
    let p = before_char_exec(request_path, '?');
    if str_contains(p.as_str(), "..") {
        return StaticTarget::Traversal;
    }
    let v = chars_of(p.as_str());
    proof {
        assert(v@.subrange(0, v@.len() as int) =~= v@);
    }
    let a = trim_start_char_range(&v, 0, v.len(), '/');
    if a == v.len() {
        let mut f = String::new();
        crate::text::push_str(&mut f, "index.html");
        StaticTarget::File(f)
    } else {
        StaticTarget::File(substring(&v, a, v.len()))
    }
}


proof fn lemma_content_type_table()
    ensures
        content_type_of("html"@) == "text/html; charset=utf-8"@,
        content_type_of("htm"@) == "text/html; charset=utf-8"@,
        content_type_of("css"@) == "text/css; charset=utf-8"@,
        content_type_of("js"@) == "application/javascript; charset=utf-8"@,
        content_type_of("json"@) == "application/json"@,
        content_type_of("png"@) == "image/png"@,
        content_type_of("jpg"@) == "image/jpeg"@,
        content_type_of("jpeg"@) == "image/jpeg"@,
        content_type_of("gif"@) == "image/gif"@,
        content_type_of("svg"@) == "image/svg+xml"@,
        content_type_of("ico"@) == "image/x-icon"@,
        content_type_of("txt"@) == "text/plain; charset=utf-8"@,
        content_type_of("xml"@) == "application/xml"@,
        content_type_of("woff"@) == "font/woff"@,
        content_type_of("woff2"@) == "font/woff2"@,
        content_type_of(Seq::empty()) == "application/octet-stream"@,
{
    reveal_strlit("html");
    assert("html"@.len() == 4);
    reveal_strlit("htm");
    assert("htm"@.len() == 3);
    reveal_strlit("css");
    assert("css"@.len() == 3);
    reveal_strlit("js");
    assert("js"@.len() == 2);
    reveal_strlit("json");
    assert("json"@.len() == 4);
    reveal_strlit("png");
    assert("png"@.len() == 3);
    reveal_strlit("jpg");
    assert("jpg"@.len() == 3);
    reveal_strlit("jpeg");
    assert("jpeg"@.len() == 4);
    reveal_strlit("gif");
    assert("gif"@.len() == 3);
    reveal_strlit("svg");
    assert("svg"@.len() == 3);
    reveal_strlit("ico");
    assert("ico"@.len() == 3);
    reveal_strlit("txt");
    assert("txt"@.len() == 3);
    reveal_strlit("xml");
    assert("xml"@.len() == 3);
    reveal_strlit("woff");
    assert("woff"@.len() == 4);
    reveal_strlit("woff2");
    assert("woff2"@.len() == 5);
    reveal_strlit("");
    assert("css"@[0] != "htm"@[0]);
    assert("json"@[0] != "html"@[0]);
    assert("png"@[0] != "htm"@[0]);
    assert("png"@[0] != "css"@[0]);
    assert("jpg"@[0] != "htm"@[0]);
    assert("jpg"@[0] != "css"@[0]);
    assert("jpg"@[0] != "png"@[0]);
    assert("jpeg"@[0] != "html"@[0]);
    assert("jpeg"@[1] != "json"@[1]);
    assert("gif"@[0] != "htm"@[0]);
    assert("gif"@[0] != "css"@[0]);
    assert("gif"@[0] != "png"@[0]);
    assert("gif"@[0] != "jpg"@[0]);
    assert("svg"@[0] != "htm"@[0]);
    assert("svg"@[0] != "css"@[0]);
    assert("svg"@[0] != "png"@[0]);
    assert("svg"@[0] != "jpg"@[0]);
    assert("svg"@[0] != "gif"@[0]);
    assert("ico"@[0] != "htm"@[0]);
    assert("ico"@[0] != "css"@[0]);
    assert("ico"@[0] != "png"@[0]);
    assert("ico"@[0] != "jpg"@[0]);
    assert("ico"@[0] != "gif"@[0]);
    assert("ico"@[0] != "svg"@[0]);
    assert("txt"@[0] != "htm"@[0]);
    assert("txt"@[0] != "css"@[0]);
    assert("txt"@[0] != "png"@[0]);
    assert("txt"@[0] != "jpg"@[0]);
    assert("txt"@[0] != "gif"@[0]);
    assert("txt"@[0] != "svg"@[0]);
    assert("txt"@[0] != "ico"@[0]);
    assert("xml"@[0] != "htm"@[0]);
    assert("xml"@[0] != "css"@[0]);
    assert("xml"@[0] != "png"@[0]);
    assert("xml"@[0] != "jpg"@[0]);
    assert("xml"@[0] != "gif"@[0]);
    assert("xml"@[0] != "svg"@[0]);
    assert("xml"@[0] != "ico"@[0]);
    assert("xml"@[0] != "txt"@[0]);
    assert("woff"@[0] != "html"@[0]);
    assert("woff"@[0] != "json"@[0]);
    assert("woff"@[0] != "jpeg"@[0]);
    assert(Seq::<char>::empty().len() == 0);
}

/// The content type follows the file's extension, one fact per known
/// extension (`jpg` and `jpeg` both give `image/jpeg`); a file without an
/// extension is sent as bytes.
pub proof fn law_content_type_by_extension(path: Seq<char>)
    ensures
        ({
            let ct = content_type_of(
                match path_extension(path) {
                    Some(e) => e,
                    None => Seq::empty(),
                },
            );
            &&& path_extension(path) == Some("html"@) ==> ct == "text/html; charset=utf-8"@
            &&& path_extension(path) == Some("htm"@) ==> ct == "text/html; charset=utf-8"@
            &&& path_extension(path) == Some("css"@) ==> ct == "text/css; charset=utf-8"@
            &&& path_extension(path) == Some("js"@) ==> ct == "application/javascript; charset=utf-8"@
            &&& path_extension(path) == Some("json"@) ==> ct == "application/json"@
            &&& path_extension(path) == Some("png"@) ==> ct == "image/png"@
            &&& path_extension(path) == Some("jpg"@) ==> ct == "image/jpeg"@
            &&& path_extension(path) == Some("jpeg"@) ==> ct == "image/jpeg"@
            &&& path_extension(path) == Some("gif"@) ==> ct == "image/gif"@
            &&& path_extension(path) == Some("svg"@) ==> ct == "image/svg+xml"@
            &&& path_extension(path) == Some("ico"@) ==> ct == "image/x-icon"@
            &&& path_extension(path) == Some("txt"@) ==> ct == "text/plain; charset=utf-8"@
            &&& path_extension(path) == Some("xml"@) ==> ct == "application/xml"@
            &&& path_extension(path) == Some("woff"@) ==> ct == "font/woff"@
            &&& path_extension(path) == Some("woff2"@) ==> ct == "font/woff2"@
            &&& path_extension(path) is None ==> ct == "application/octet-stream"@
        }),
{
    lemma_content_type_table();
}

} // verus!
