//! Character-level text helpers: whitespace classification, trimming,
//! prefix handling, searching and line splitting.
//!
//! Text is modelled as `Seq<char>` (the view of `str`/`String`). The
//! executable helpers work on a `Vec<char>` together with a half-open
//! range `[lo, hi)`, so that a parser can look at pieces of its input
//! without copying them; each helper states its result over
//! `v@.subrange(lo, hi)`.

use vstd::prelude::*;

verus! {

// ---------------------------------------------------------------------------
// Specifications
// ---------------------------------------------------------------------------

/// A lowercase hexadecimal digit: `0`-`9` or `a`-`f`.
pub open spec fn is_lower_hex_digit(c: char) -> bool {
    (48 <= c as u32 && c as u32 <= 57) || (97 <= c as u32 && c as u32 <= 102)
}

/// Unicode `White_Space`, the set that `char::is_whitespace` tests.
pub open spec fn is_ws(c: char) -> bool {
    let u = c as u32;
    ||| (0x09 <= u && u <= 0x0d)
    ||| u == 0x20
    ||| u == 0x85
    ||| u == 0xa0
    ||| u == 0x1680
    ||| (0x2000 <= u && u <= 0x200a)
    ||| u == 0x2028
    ||| u == 0x2029
    ||| u == 0x202f
    ||| u == 0x205f
    ||| u == 0x3000
}

/// ASCII case folding of one character (non-ASCII characters unchanged).
pub open spec fn ascii_lower(c: char) -> char {
    if 'A' <= c && c <= 'Z' {
        ((c as u32) + 32) as char
    } else {
        c
    }
}

/// `s` without its leading whitespace.
pub open spec fn trim_start(s: Seq<char>) -> Seq<char>
    decreases s.len(),
{
    if s.len() > 0 && is_ws(s[0]) {
        trim_start(s.drop_first())
    } else {
        s
    }
}

/// `s` without its trailing whitespace.
pub open spec fn trim_end(s: Seq<char>) -> Seq<char>
    decreases s.len(),
{
    if s.len() > 0 && is_ws(s.last()) {
        trim_end(s.drop_last())
    } else {
        s
    }
}

/// `s` without leading and trailing whitespace (`str::trim`).
pub open spec fn trim(s: Seq<char>) -> Seq<char> {
    trim_end(trim_start(s))
}

/// `s` without any number of trailing `c` (`str::trim_end_matches` of a char).
pub open spec fn trim_end_char(s: Seq<char>, c: char) -> Seq<char>
    decreases s.len(),
{
    if s.len() > 0 && s.last() == c {
        trim_end_char(s.drop_last(), c)
    } else {
        s
    }
}

/// `s` without any number of leading `c` (`str::trim_start_matches` of a char).
pub open spec fn trim_start_char(s: Seq<char>, c: char) -> Seq<char>
    decreases s.len(),
{
    if s.len() > 0 && s[0] == c {
        trim_start_char(s.drop_first(), c)
    } else {
        s
    }
}

/// Whether `p` is a prefix of `s`.
pub open spec fn starts_with(s: Seq<char>, p: Seq<char>) -> bool {
    p.len() <= s.len() && s.subrange(0, p.len() as int) == p
}

/// Whether `p` is a suffix of `s`.
pub open spec fn ends_with(s: Seq<char>, p: Seq<char>) -> bool {
    p.len() <= s.len() && s.subrange(s.len() - p.len(), s.len() as int) == p
}

/// Whether `p` occurs in `s` at position `i`.
pub open spec fn occurs_at(s: Seq<char>, p: Seq<char>, i: int) -> bool {
    0 <= i && i + p.len() <= s.len() && s.subrange(i, i + p.len()) == p
}

/// Whether `p` occurs anywhere in `s` (`str::contains`).
pub open spec fn contains(s: Seq<char>, p: Seq<char>) -> bool {
    exists|i: int| occurs_at(s, p, i)
}

/// `str::strip_prefix`.
pub open spec fn strip_prefix(s: Seq<char>, p: Seq<char>) -> Option<Seq<char>> {
    if starts_with(s, p) {
        Some(s.skip(p.len() as int))
    } else {
        None
    }
}

/// Index of the first `c` in `s` (`str::find` of a char).
pub open spec fn find_char(s: Seq<char>, c: char) -> Option<int>
    decreases s.len(),
{
    if s.len() == 0 {
        None
    } else if s[0] == c {
        Some(0)
    } else {
        match find_char(s.drop_first(), c) {
            Some(i) => Some(i + 1),
            None => None,
        }
    }
}

/// Index of the first whitespace character in `s`.
pub open spec fn find_ws(s: Seq<char>) -> Option<int>
    decreases s.len(),
{
    if s.len() == 0 {
        None
    } else if is_ws(s[0]) {
        Some(0)
    } else {
        match find_ws(s.drop_first()) {
            Some(i) => Some(i + 1),
            None => None,
        }
    }
}

/// Index of the last `c` in `s` (`str::rfind` of a char).
pub open spec fn rfind_char(s: Seq<char>, c: char) -> Option<int>
    decreases s.len(),
{
    if s.len() == 0 {
        None
    } else if s.last() == c {
        Some(s.len() - 1)
    } else {
        rfind_char(s.drop_last(), c)
    }
}

/// Number of leading characters of `s` that are not whitespace.
pub open spec fn non_ws_len(s: Seq<char>) -> nat
    decreases s.len(),
{
    if s.len() == 0 || is_ws(s[0]) {
        0
    } else {
        1 + non_ws_len(s.drop_first())
    }
}

/// The first whitespace-separated token of `s`
/// (`s.split_whitespace().next()`).
pub open spec fn first_token(s: Seq<char>) -> Option<Seq<char>> {
    let t = trim_start(s);
    if t.len() == 0 {
        None
    } else {
        Some(t.take(non_ws_len(t) as int))
    }
}

/// The first token of `s`, or `s` itself when it has none
/// (`s.split_whitespace().next().unwrap_or(s)`).
pub open spec fn first_token_or_all(s: Seq<char>) -> Seq<char> {
    match first_token(s) {
        Some(t) => t,
        None => s,
    }
}

/// What remains of `s` after its first whitespace-separated token.
pub open spec fn after_first_token(s: Seq<char>) -> Seq<char> {
    let t = trim_start(s);
    t.skip(non_ws_len(t) as int)
}

/// The second whitespace-separated token of `s`.
pub open spec fn second_token(s: Seq<char>) -> Option<Seq<char>> {
    first_token(after_first_token(s))
}

/// The third whitespace-separated token of `s`.
pub open spec fn third_token(s: Seq<char>) -> Option<Seq<char>> {
    first_token(after_first_token(after_first_token(s)))
}

/// Unicode lower-casing as `str::to_lowercase` performs it.
pub uninterp spec fn unicode_lowercase(s: Seq<char>) -> Seq<char>;

/// `str::eq_ignore_ascii_case`.
pub open spec fn eq_ignore_ascii_case(a: Seq<char>, b: Seq<char>) -> bool {
    a.len() == b.len() && forall|i: int| 0 <= i < a.len() ==> ascii_lower(a[i]) == ascii_lower(b[i])
}

/// `s` with one trailing carriage return removed, if it has one.
pub open spec fn strip_cr(s: Seq<char>) -> Seq<char> {
    if s.len() > 0 && s.last() == '\r' {
        s.drop_last()
    } else {
        s
    }
}

/// The lines of `s` as `str::lines` yields them: split at `\n`, a
/// `\r` right before a `\n` dropped, and no empty last line after a
/// final line ending.
pub open spec fn lines(s: Seq<char>) -> Seq<Seq<char>>
    decreases s.len(),
{
    if s.len() == 0 {
        seq![]
    } else {
        match find_char(s, '\n') {
            Some(i) => {
                proof {
                    lemma_find_char_bounds(s, '\n');
                }
                seq![strip_cr(s.take(i))] + lines(s.skip(i + 1))
            },
            None => seq![s],
        }
    }
}

// ---------------------------------------------------------------------------
// Lemmas
// ---------------------------------------------------------------------------

/// A found index lies inside the text and holds the searched character,
/// and no earlier character is that character.
pub proof fn lemma_find_char_bounds(s: Seq<char>, c: char)
    ensures
        find_char(s, c) matches Some(i) ==> 0 <= i < s.len() && s[i] == c && forall|k: int|
            0 <= k < i ==> s[k] != c,
        find_char(s, c) is None ==> forall|k: int| 0 <= k < s.len() ==> s[k] != c,
    decreases s.len(),
{
    if s.len() > 0 && s[0] != c {
        lemma_find_char_bounds(s.drop_first(), c);
        assert forall|k: int| 1 <= k < s.len() implies s[k] == s.drop_first()[k - 1] by {}
    }
}

/// `find_char` returns the first position holding `c`.
pub proof fn lemma_find_char_is(s: Seq<char>, c: char, i: int)
    requires
        0 <= i <= s.len(),
        forall|k: int| 0 <= k < i ==> s[k] != c,
        i == s.len() || s[i] == c,
    ensures
        find_char(s, c) == (if i == s.len() {
            None::<int>
        } else {
            Some(i)
        }),
    decreases i,
{
    if i > 0 {
        lemma_find_char_is(s.drop_first(), c, i - 1);
    }
}

/// `find_ws` returns the first whitespace position.
pub proof fn lemma_find_ws_is(s: Seq<char>, i: int)
    requires
        0 <= i <= s.len(),
        forall|k: int| 0 <= k < i ==> !is_ws(s[k]),
        i == s.len() || is_ws(s[i]),
    ensures
        find_ws(s) == (if i == s.len() {
            None::<int>
        } else {
            Some(i)
        }),
    decreases i,
{
    if i > 0 {
        lemma_find_ws_is(s.drop_first(), i - 1);
    }
}

/// `rfind_char` returns the last position holding `c`.
pub proof fn lemma_rfind_char_is(s: Seq<char>, c: char, i: int)
    requires
        -1 <= i < s.len(),
        forall|k: int| i < k < s.len() ==> s[k] != c,
        i == -1 || s[i] == c,
    ensures
        rfind_char(s, c) == (if i == -1 {
            None::<int>
        } else {
            Some(i)
        }),
    decreases s.len(),
{
    if s.len() > 0 && s.last() != c {
        lemma_rfind_char_is(s.drop_last(), c, i);
    }
}

/// Trimming leading whitespace skips exactly the whitespace run.
pub proof fn lemma_trim_start_is(s: Seq<char>, i: int)
    requires
        0 <= i <= s.len(),
        forall|k: int| 0 <= k < i ==> is_ws(s[k]),
        i == s.len() || !is_ws(s[i]),
    ensures
        trim_start(s) == s.skip(i),
    decreases i,
{
    if i > 0 {
        lemma_trim_start_is(s.drop_first(), i - 1);
        assert(s.drop_first().skip(i - 1) =~= s.skip(i));
    } else {
        assert(s.skip(0) =~= s);
    }
}

/// Trimming trailing whitespace keeps exactly the part before the run.
pub proof fn lemma_trim_end_is(s: Seq<char>, j: int)
    requires
        0 <= j <= s.len(),
        forall|k: int| j <= k < s.len() ==> is_ws(s[k]),
        j == 0 || !is_ws(s[j - 1]),
    ensures
        trim_end(s) == s.take(j),
    decreases s.len(),
{
    if s.len() > j {
        lemma_trim_end_is(s.drop_last(), j);
        assert(s.drop_last().take(j) =~= s.take(j));
    } else {
        assert(s.take(j) =~= s);
    }
}

/// What `trim_end_char` leaves: a prefix of `s`, not ending with `c`,
/// after which `s` holds only `c`s.
pub proof fn lemma_trim_end_char_shape(s: Seq<char>, c: char)
    ensures
        trim_end_char(s, c).len() <= s.len(),
        s.take(trim_end_char(s, c).len() as int) == trim_end_char(s, c),
        forall|k: int| trim_end_char(s, c).len() <= k < s.len() ==> s[k] == c,
        trim_end_char(s, c).len() == 0 || trim_end_char(s, c).last() != c,
    decreases s.len(),
{
    if s.len() > 0 && s.last() == c {
        lemma_trim_end_char_shape(s.drop_last(), c);
        let t = trim_end_char(s, c);
        assert(s.drop_last().take(t.len() as int) =~= s.take(t.len() as int));
        assert forall|k: int| t.len() <= k < s.len() implies s[k] == c by {
            if k < s.len() - 1 {
                assert(s.drop_last()[k] == s[k]);
            }
        }
    } else {
        assert(s.take(s.len() as int) =~= s);
    }
}

/// Stripping trailing `c` keeps exactly the part before the run.
pub proof fn lemma_trim_end_char_is(s: Seq<char>, c: char, j: int)
    requires
        0 <= j <= s.len(),
        forall|k: int| j <= k < s.len() ==> s[k] == c,
        j == 0 || s[j - 1] != c,
    ensures
        trim_end_char(s, c) == s.take(j),
    decreases s.len(),
{
    if s.len() > j {
        lemma_trim_end_char_is(s.drop_last(), c, j);
        assert(s.drop_last().take(j) =~= s.take(j));
    } else {
        assert(s.take(j) =~= s);
    }
}

/// Stripping leading `c` skips exactly the run.
pub proof fn lemma_trim_start_char_is(s: Seq<char>, c: char, i: int)
    requires
        0 <= i <= s.len(),
        forall|k: int| 0 <= k < i ==> s[k] == c,
        i == s.len() || s[i] != c,
    ensures
        trim_start_char(s, c) == s.skip(i),
    decreases i,
{
    if i > 0 {
        lemma_trim_start_char_is(s.drop_first(), c, i - 1);
        assert(s.drop_first().skip(i - 1) =~= s.skip(i));
    } else {
        assert(s.skip(0) =~= s);
    }
}

/// The leading non-whitespace run has exactly the length found by a scan.
pub proof fn lemma_non_ws_len_is(s: Seq<char>, i: int)
    requires
        0 <= i <= s.len(),
        forall|k: int| 0 <= k < i ==> !is_ws(s[k]),
        i == s.len() || is_ws(s[i]),
    ensures
        non_ws_len(s) == i,
    decreases i,
{
    if i > 0 {
        lemma_non_ws_len_is(s.drop_first(), i - 1);
    }
}

// ---------------------------------------------------------------------------
// Executable helpers
// ---------------------------------------------------------------------------

/// Whether `c` is Unicode whitespace (`char::is_whitespace`).
pub fn is_whitespace(c: char) -> (b: bool)
    ensures
        b == is_ws(c),
{
    let u = c as u32;
    (0x09 <= u && u <= 0x0d) || u == 0x20 || u == 0x85 || u == 0xa0 || u == 0x1680 || (0x2000
        <= u && u <= 0x200a) || u == 0x2028 || u == 0x2029 || u == 0x202f || u == 0x205f || u
        == 0x3000
}

/// ASCII case folding of one character.
pub fn to_ascii_lower(c: char) -> (r: char)
    ensures
        r == ascii_lower(c),
{
    if 'A' <= c && c <= 'Z' {
        let u = (c as u32) + 32;
        assert(0x61 <= u <= 0x7a);
        char_from_ascii(u as u8)
    } else {
        c
    }
}

/// The character with the given ASCII code.
pub fn char_from_ascii(b: u8) -> (c: char)
    requires
        b < 128,
    ensures
        c as u32 == b as u32,
{
    b as char
}

/// The characters of `s`, in order.
pub fn chars_of(s: &str) -> (v: Vec<char>)
    ensures
        v@ == s@,
{
    let mut v: Vec<char> = Vec::new();
    for c in it: s.chars()
        invariant
            v@ == it.seq().take(it.index() as int),
    {
        v.push(c);
    }
    v
}

/// Whether two strings hold the same characters.
pub fn str_eq(a: &str, b: &str) -> (r: bool)
    ensures
        r == (a@ == b@),
{
    let va = chars_of(a);
    let vb = chars_of(b);
    proof {
        assert(va@.subrange(0, va@.len() as int) =~= va@);
    }
    eq_range(&va, 0, va.len(), &vb)
}

/// `str::to_lowercase`. The contract claims the result is the named
/// Unicode lower-casing of the argument.
#[verifier::external_body]
pub(crate) fn to_lowercase(s: &str) -> (r: String)
    ensures
        r@ == unicode_lowercase(s@),
{
    s.to_lowercase()
}

/// An owned copy of `s`.
pub fn owned(s: &str) -> (r: String)
    ensures
        r@ == s@,
{
    let v = chars_of(s);
    string_of(&v)
}

/// Appends `c` to `s` (`String::push`).
#[verifier::external_body]
pub(crate) fn push_char(s: &mut String, c: char)
    ensures
        final(s)@ == old(s)@.push(c),
{
    s.push(c)
}

/// A new string holding `v@.subrange(lo, hi)`.
pub fn substring(v: &Vec<char>, lo: usize, hi: usize) -> (s: String)
    requires
        lo <= hi <= v.len(),
    ensures
        s@ == v@.subrange(lo as int, hi as int),
{
    let mut s = String::new();
    let mut i = lo;
    while i < hi
        invariant
            lo <= i <= hi <= v.len(),
            s@ == v@.subrange(lo as int, i as int),
        decreases hi - i,
    {
        push_char(&mut s, v[i]);
        assert(v@.subrange(lo as int, i + 1) =~= v@.subrange(lo as int, i as int).push(v@[i as int]));
        i += 1;
    }
    s
}

/// A new string holding all of `v@`.
pub fn string_of(v: &Vec<char>) -> (s: String)
    ensures
        s@ == v@,
{
    let s = substring(v, 0, v.len());
    assert(v@.subrange(0, v@.len() as int) =~= v@);
    s
}

/// The sub-range of `[lo, hi)` that remains after `str::trim_start`.
pub fn trim_start_range(v: &Vec<char>, lo: usize, hi: usize) -> (a: usize)
    requires
        lo <= hi <= v.len(),
    ensures
        lo <= a <= hi,
        v@.subrange(a as int, hi as int) == trim_start(v@.subrange(lo as int, hi as int)),
{
    let mut a = lo;
    while a < hi && is_whitespace(v[a])
        invariant
            lo <= a <= hi <= v.len(),
            forall|k: int| lo <= k < a ==> is_ws(v@[k]),
        decreases hi - a,
    {
        a += 1;
    }
    proof {
        let s = v@.subrange(lo as int, hi as int);
        lemma_trim_start_is(s, a - lo);
        assert(s.skip(a - lo) =~= v@.subrange(a as int, hi as int));
    }
    a
}

/// The sub-range of `[lo, hi)` that remains after `str::trim_end`.
pub fn trim_end_range(v: &Vec<char>, lo: usize, hi: usize) -> (b: usize)
    requires
        lo <= hi <= v.len(),
    ensures
        lo <= b <= hi,
        v@.subrange(lo as int, b as int) == trim_end(v@.subrange(lo as int, hi as int)),
{
    let mut b = hi;
    while b > lo && is_whitespace(v[b - 1])
        invariant
            lo <= b <= hi <= v.len(),
            forall|k: int| b <= k < hi ==> is_ws(v@[k]),
        decreases b - lo,
    {
        b -= 1;
    }
    proof {
        let s = v@.subrange(lo as int, hi as int);
        lemma_trim_end_is(s, b - lo);
        assert(s.take(b - lo) =~= v@.subrange(lo as int, b as int));
    }
    b
}

/// The sub-range of `[lo, hi)` that remains after `str::trim`.
pub fn trim_range(v: &Vec<char>, lo: usize, hi: usize) -> (r: (usize, usize))
    requires
        lo <= hi <= v.len(),
    ensures
        lo <= r.0 <= r.1 <= hi,
        v@.subrange(r.0 as int, r.1 as int) == trim(v@.subrange(lo as int, hi as int)),
{
    let a = trim_start_range(v, lo, hi);
    let b = trim_end_range(v, a, hi);
    (a, b)
}

/// The sub-range of `[lo, hi)` that remains after `trim_end_matches(c)`.
pub fn trim_end_char_range(v: &Vec<char>, lo: usize, hi: usize, c: char) -> (b: usize)
    requires
        lo <= hi <= v.len(),
    ensures
        lo <= b <= hi,
        v@.subrange(lo as int, b as int) == trim_end_char(v@.subrange(lo as int, hi as int), c),
{
    let mut b = hi;
    while b > lo && v[b - 1] == c
        invariant
            lo <= b <= hi <= v.len(),
            forall|k: int| b <= k < hi ==> v@[k] == c,
        decreases b - lo,
    {
        b -= 1;
    }
    proof {
        let s = v@.subrange(lo as int, hi as int);
        lemma_trim_end_char_is(s, c, b - lo);
        assert(s.take(b - lo) =~= v@.subrange(lo as int, b as int));
    }
    b
}

/// The sub-range of `[lo, hi)` that remains after `trim_start_matches(c)`.
pub fn trim_start_char_range(v: &Vec<char>, lo: usize, hi: usize, c: char) -> (a: usize)
    requires
        lo <= hi <= v.len(),
    ensures
        lo <= a <= hi,
        v@.subrange(a as int, hi as int) == trim_start_char(v@.subrange(lo as int, hi as int), c),
{
    let mut a = lo;
    while a < hi && v[a] == c
        invariant
            lo <= a <= hi <= v.len(),
            forall|k: int| lo <= k < a ==> v@[k] == c,
        decreases hi - a,
    {
        a += 1;
    }
    proof {
        let s = v@.subrange(lo as int, hi as int);
        lemma_trim_start_char_is(s, c, a - lo);
        assert(s.skip(a - lo) =~= v@.subrange(a as int, hi as int));
    }
    a
}

/// Whether `p@` is a prefix of `v@.subrange(lo, hi)`.
pub fn starts_with_range(v: &Vec<char>, lo: usize, hi: usize, p: &Vec<char>) -> (b: bool)
    requires
        lo <= hi <= v.len(),
    ensures
        b == starts_with(v@.subrange(lo as int, hi as int), p@),
{
    let ghost s = v@.subrange(lo as int, hi as int);
    if p.len() > hi - lo {
        return false;
    }
    let mut k: usize = 0;
    while k < p.len()
        invariant
            lo <= hi <= v.len(),
            p.len() <= hi - lo,
            k <= p.len(),
            s == v@.subrange(lo as int, hi as int),
            forall|j: int| 0 <= j < k ==> v@[lo + j] == p@[j],
        decreases p.len() - k,
    {
        if v[lo + k] != p[k] {
            assert(s.subrange(0, p.len() as int)[k as int] != p@[k as int]);
            return false;
        }
        k += 1;
    }
    assert(s.subrange(0, p.len() as int) =~= p@);
    true
}

/// Whether `p@` is a suffix of `v@.subrange(lo, hi)`.
pub fn ends_with_range(v: &Vec<char>, lo: usize, hi: usize, p: &Vec<char>) -> (b: bool)
    requires
        lo <= hi <= v.len(),
    ensures
        b == ends_with(v@.subrange(lo as int, hi as int), p@),
{
    let ghost s = v@.subrange(lo as int, hi as int);
    if p.len() > hi - lo {
        return false;
    }
    let start = hi - p.len();
    let mut k: usize = 0;
    while k < p.len()
        invariant
            lo <= start <= hi <= v.len(),
            start + p.len() == hi,
            k <= p.len(),
            s == v@.subrange(lo as int, hi as int),
            forall|j: int| 0 <= j < k ==> v@[start + j] == p@[j],
        decreases p.len() - k,
    {
        if v[start + k] != p[k] {
            assert(s.subrange(s.len() - p.len(), s.len() as int)[k as int] != p@[k as int]);
            return false;
        }
        k += 1;
    }
    assert(s.subrange(s.len() - p.len(), s.len() as int) =~= p@);
    true
}

/// Whether `p@` occurs in `v@` at position `i`.
pub fn occurs_at_exec(v: &Vec<char>, p: &Vec<char>, i: usize) -> (b: bool)
    ensures
        b == occurs_at(v@, p@, i as int),
{
    if i > v.len() || p.len() > v.len() - i {
        return false;
    }
    let r = starts_with_range(v, i, v.len(), p);
    proof {
        let s = v@.subrange(i as int, v.len() as int);
        if r {
            assert(v@.subrange(i as int, i + p.len()) =~= s.subrange(0, p.len() as int));
        } else {
            assert(v@.subrange(i as int, i + p.len()) =~= s.subrange(0, p.len() as int));
        }
    }
    r
}

/// Whether `p@` occurs anywhere in `v@` (`str::contains`).
pub fn contains_exec(v: &Vec<char>, p: &Vec<char>) -> (b: bool)
    ensures
        b == contains(v@, p@),
{
    let mut i: usize = 0;
    while i < v.len()
        invariant
            i <= v.len(),
            forall|k: int| 0 <= k < i ==> !occurs_at(v@, p@, k),
        decreases v.len() - i,
    {
        if occurs_at_exec(v, p, i) {
            return true;
        }
        i += 1;
    }
    if occurs_at_exec(v, p, i) {
        return true;
    }
    assert forall|k: int| !occurs_at(v@, p@, k) by {
        if 0 <= k <= i {
        } else {
        }
    }
    false
}

/// Index (absolute, in `v`) of the first `c` in `[lo, hi)`.
pub fn find_char_range(v: &Vec<char>, lo: usize, hi: usize, c: char) -> (r: Option<usize>)
    requires
        lo <= hi <= v.len(),
    ensures
        match r {
            Some(i) => lo <= i < hi && find_char(v@.subrange(lo as int, hi as int), c) == Some(
                i - lo,
            ),
            None => find_char(v@.subrange(lo as int, hi as int), c) is None,
        },
{
    let ghost s = v@.subrange(lo as int, hi as int);
    let mut i = lo;
    while i < hi
        invariant
            lo <= i <= hi <= v.len(),
            s == v@.subrange(lo as int, hi as int),
            forall|k: int| lo <= k < i ==> v@[k] != c,
        decreases hi - i,
    {
        if v[i] == c {
            proof {
                lemma_find_char_is(s, c, i - lo);
            }
            return Some(i);
        }
        i += 1;
    }
    proof {
        lemma_find_char_is(s, c, hi - lo);
    }
    None
}

/// Index (absolute, in `v`) of the first whitespace character in `[lo, hi)`.
pub fn find_ws_range(v: &Vec<char>, lo: usize, hi: usize) -> (r: Option<usize>)
    requires
        lo <= hi <= v.len(),
    ensures
        match r {
            Some(i) => lo <= i < hi && find_ws(v@.subrange(lo as int, hi as int)) == Some(i - lo),
            None => find_ws(v@.subrange(lo as int, hi as int)) is None,
        },
{
    let ghost s = v@.subrange(lo as int, hi as int);
    let mut i = lo;
    while i < hi
        invariant
            lo <= i <= hi <= v.len(),
            s == v@.subrange(lo as int, hi as int),
            forall|k: int| lo <= k < i ==> !is_ws(v@[k]),
        decreases hi - i,
    {
        if is_whitespace(v[i]) {
            proof {
                lemma_find_ws_is(s, i - lo);
            }
            return Some(i);
        }
        i += 1;
    }
    proof {
        lemma_find_ws_is(s, hi - lo);
    }
    None
}

/// Index (absolute, in `v`) of the last `c` in `[lo, hi)`.
pub fn rfind_char_range(v: &Vec<char>, lo: usize, hi: usize, c: char) -> (r: Option<usize>)
    requires
        lo <= hi <= v.len(),
    ensures
        match r {
            Some(i) => lo <= i < hi && rfind_char(v@.subrange(lo as int, hi as int), c) == Some(
                i - lo,
            ),
            None => rfind_char(v@.subrange(lo as int, hi as int), c) is None,
        },
{
    let ghost s = v@.subrange(lo as int, hi as int);
    let mut j = hi;
    while j > lo
        invariant
            lo <= j <= hi <= v.len(),
            s == v@.subrange(lo as int, hi as int),
            forall|k: int| j <= k < hi ==> v@[k] != c,
        decreases j - lo,
    {
        if v[j - 1] == c {
            proof {
                lemma_rfind_char_is(s, c, j - 1 - lo);
            }
            return Some(j - 1);
        }
        j -= 1;
    }
    proof {
        lemma_rfind_char_is(s, c, -1);
    }
    None
}

/// The first whitespace-separated token of `v@.subrange(lo, hi)`.
pub fn first_token_range(v: &Vec<char>, lo: usize, hi: usize) -> (r: Option<(usize, usize)>)
    requires
        lo <= hi <= v.len(),
    ensures
        match r {
            Some((a, b)) => lo <= a <= b <= hi && first_token(v@.subrange(lo as int, hi as int))
                == Some(v@.subrange(a as int, b as int)),
            None => first_token(v@.subrange(lo as int, hi as int)) is None,
        },
{
    let a = trim_start_range(v, lo, hi);
    if a == hi {
        return None;
    }
    let mut b = a;
    while b < hi && !is_whitespace(v[b])
        invariant
            lo <= a <= b <= hi <= v.len(),
            forall|k: int| a <= k < b ==> !is_ws(v@[k]),
        decreases hi - b,
    {
        b += 1;
    }
    proof {
        let t = v@.subrange(a as int, hi as int);
        lemma_non_ws_len_is(t, b - a);
        assert(t.take(b - a) =~= v@.subrange(a as int, b as int));
    }
    Some((a, b))
}

/// The start (absolute, in `v`) of what follows the first token of `[lo, hi)`.
pub fn after_first_token_range(v: &Vec<char>, lo: usize, hi: usize) -> (b: usize)
    requires
        lo <= hi <= v.len(),
    ensures
        lo <= b <= hi,
        v@.subrange(b as int, hi as int) == after_first_token(v@.subrange(lo as int, hi as int)),
{
    let a = trim_start_range(v, lo, hi);
    let mut b = a;
    while b < hi && !is_whitespace(v[b])
        invariant
            lo <= a <= b <= hi <= v.len(),
            forall|k: int| a <= k < b ==> !is_ws(v@[k]),
        decreases hi - b,
    {
        b += 1;
    }
    proof {
        let t = v@.subrange(a as int, hi as int);
        lemma_non_ws_len_is(t, b - a);
        assert(t.skip(b - a) =~= v@.subrange(b as int, hi as int));
    }
    b
}

/// The first token of `[lo, hi)`, or the whole range when there is none.
pub fn first_token_or_all_range(v: &Vec<char>, lo: usize, hi: usize) -> (r: (usize, usize))
    requires
        lo <= hi <= v.len(),
    ensures
        lo <= r.0 <= r.1 <= hi,
        v@.subrange(r.0 as int, r.1 as int) == first_token_or_all(
            v@.subrange(lo as int, hi as int),
        ),
{
    match first_token_range(v, lo, hi) {
        Some(t) => t,
        None => (lo, hi),
    }
}

/// `str::eq_ignore_ascii_case` between `v@.subrange(lo, hi)` and `p@`.
pub fn eq_ignore_ascii_case_range(v: &Vec<char>, lo: usize, hi: usize, p: &Vec<char>) -> (b: bool)
    requires
        lo <= hi <= v.len(),
    ensures
        b == eq_ignore_ascii_case(v@.subrange(lo as int, hi as int), p@),
{
    let ghost s = v@.subrange(lo as int, hi as int);
    if hi - lo != p.len() {
        return false;
    }
    let mut k: usize = 0;
    while k < p.len()
        invariant
            lo <= hi <= v.len(),
            hi - lo == p.len(),
            k <= p.len(),
            s == v@.subrange(lo as int, hi as int),
            forall|j: int| 0 <= j < k ==> ascii_lower(s[j]) == ascii_lower(p@[j]),
        decreases p.len() - k,
    {
        if to_ascii_lower(v[lo + k]) != to_ascii_lower(p[k]) {
            return false;
        }
        k += 1;
    }
    true
}

/// Whether `v@.subrange(lo, hi)` equals `p@`.
pub fn eq_range(v: &Vec<char>, lo: usize, hi: usize, p: &Vec<char>) -> (b: bool)
    requires
        lo <= hi <= v.len(),
    ensures
        b == (v@.subrange(lo as int, hi as int) == p@),
{
    if hi - lo != p.len() {
        return false;
    }
    let r = starts_with_range(v, lo, hi, p);
    proof {
        let s = v@.subrange(lo as int, hi as int);
        assert(s.subrange(0, p.len() as int) =~= s);
    }
    r
}

/// Index (absolute, in `v`) just past the first line of `[lo, hi)` and the
/// end of that line's text: `(end, next)` where the line is
/// `strip_cr(v[lo..end'])` and the rest starts at `next`.
pub fn next_line(v: &Vec<char>, lo: usize, hi: usize) -> (r: (usize, usize))
    requires
        lo < hi <= v.len(),
    ensures
        lo <= r.0 <= r.1 <= hi,
        r.1 > lo,
        lines(v@.subrange(lo as int, hi as int)) == seq![v@.subrange(lo as int, r.0 as int)]
            + lines(v@.subrange(r.1 as int, hi as int)),
{
    let ghost s = v@.subrange(lo as int, hi as int);
    match find_char_range(v, lo, hi, '\n') {
        Some(i) => {
            let end = if i > lo && v[i - 1] == '\r' {
                i - 1
            } else {
                i
            };
            proof {
                assert(s.take(i - lo) =~= v@.subrange(lo as int, i as int));
                assert(strip_cr(s.take(i - lo)) =~= v@.subrange(lo as int, end as int));
                assert(s.skip(i - lo + 1) =~= v@.subrange(i + 1, hi as int));
            }
            (end, i + 1)
        },
        None => {
            proof {
                assert(v@.subrange(hi as int, hi as int) =~= Seq::<char>::empty());
                assert(s =~= v@.subrange(lo as int, hi as int));
            }
            (hi, hi)
        },
    }
}

/// The `(start, end)` ranges of the lines of `v@` (`str::lines`).
pub fn line_ranges(v: &Vec<char>) -> (r: Vec<(usize, usize)>)
    ensures
        r@.len() == lines(v@).len(),
        forall|k: int| 0 <= k < r@.len() ==> (#[trigger] r@[k]).0 <= r@[k].1 <= v@.len(),
        forall|k: int|
            0 <= k < r@.len() ==> v@.subrange((#[trigger] r@[k]).0 as int, r@[k].1 as int)
                == lines(v@)[k],
{
    let mut r: Vec<(usize, usize)> = Vec::new();
    let mut pos: usize = 0;
    let ghost done: Seq<Seq<char>> = seq![];
    assert(v@.subrange(0, v@.len() as int) =~= v@);
    while pos < v.len()
        invariant
            pos <= v.len(),
            done + lines(v@.subrange(pos as int, v@.len() as int)) == lines(v@),
            r@.len() == done.len(),
            forall|k: int| 0 <= k < r@.len() ==> (#[trigger] r@[k]).0 <= r@[k].1 <= v@.len(),
            forall|k: int|
                0 <= k < r@.len() ==> v@.subrange((#[trigger] r@[k]).0 as int, r@[k].1 as int)
                    == done[k],
        decreases v.len() - pos,
    {
        let (end, next) = next_line(v, pos, v.len());
        let ghost old_r = r@;
        r.push((pos, end));
        proof {
            let line = v@.subrange(pos as int, end as int);
            let rest = lines(v@.subrange(next as int, v@.len() as int));
            assert(done + (seq![line] + rest) =~= done.push(line) + rest);
            let old_done = done;
            done = done.push(line);
            assert forall|k: int| 0 <= k < r@.len() implies v@.subrange(
                (#[trigger] r@[k]).0 as int,
                r@[k].1 as int,
            ) == done[k] by {
                if k < old_done.len() {
                    assert(r@[k] == old_r[k]);
                    assert(done[k] == old_done[k]);
                }
            }
        }
        pos = next;
    }
    proof {
        assert(v@.subrange(pos as int, v@.len() as int) =~= Seq::<char>::empty());
        assert(done + seq![] =~= done);
        assert(done == lines(v@));
    }
    r
}


/// Appends `t` to `s` (`String::push_str`).
#[verifier::external_body]
pub(crate) fn push_str(s: &mut String, t: &str)
    ensures
        final(s)@ == old(s)@ + t@,
{
    s.push_str(t)
}

/// The part of `s` before the first `c`, or all of `s` (`s.split(c).next()`).
pub open spec fn before_char(s: Seq<char>, c: char) -> Seq<char> {
    match find_char(s, c) {
        Some(i) => s.subrange(0, i),
        None => s,
    }
}

/// `before_char` on a string.
pub fn before_char_exec(s: &str, c: char) -> (r: String)
    ensures
        r@ == before_char(s@, c),
{
    let v = chars_of(s);
    proof {
        assert(v@.subrange(0, v@.len() as int) =~= v@);
    }
    match find_char_range(&v, 0, v.len(), c) {
        Some(i) => substring(&v, 0, i),
        None => string_of(&v),
    }
}

/// Whether `s` starts with `p` (`str::starts_with`).
pub fn str_starts_with(s: &str, p: &str) -> (b: bool)
    ensures
        b == starts_with(s@, p@),
{
    let v = chars_of(s);
    let pv = chars_of(p);
    proof {
        assert(v@.subrange(0, v@.len() as int) =~= v@);
    }
    starts_with_range(&v, 0, v.len(), &pv)
}

/// Whether `s` ends with `p` (`str::ends_with`).
pub fn str_ends_with(s: &str, p: &str) -> (b: bool)
    ensures
        b == ends_with(s@, p@),
{
    let v = chars_of(s);
    let pv = chars_of(p);
    proof {
        assert(v@.subrange(0, v@.len() as int) =~= v@);
    }
    ends_with_range(&v, 0, v.len(), &pv)
}

/// Whether `s` contains `p` (`str::contains`).
pub fn str_contains(s: &str, p: &str) -> (b: bool)
    ensures
        b == contains(s@, p@),
{
    let v = chars_of(s);
    let pv = chars_of(p);
    contains_exec(&v, &pv)
}

/// Whether `s` holds the character `c`.
pub fn str_has_char(s: &str, c: char) -> (b: bool)
    ensures
        b == (find_char(s@, c) is Some),
{
    let v = chars_of(s);
    proof {
        assert(v@.subrange(0, v@.len() as int) =~= v@);
    }
    find_char_range(&v, 0, v.len(), c).is_some()
}


/// The fields of `s` separated by `c` (`str::split` of a char).
pub open spec fn split_char(s: Seq<char>, c: char) -> Seq<Seq<char>>
    decreases s.len(),
{
    match find_char(s, c) {
        Some(i) => if 0 <= i < s.len() {
            seq![s.subrange(0, i)] + split_char(s.subrange(i + 1, s.len() as int), c)
        } else {
            seq![s]
        },
        None => seq![s],
    }
}

/// The fields joined back with the separator between them.
pub open spec fn join_with(fields: Seq<Seq<char>>, c: char) -> Seq<char>
    decreases fields.len(),
{
    if fields.len() <= 1 {
        if fields.len() == 1 {
            fields[0]
        } else {
            Seq::empty()
        }
    } else {
        fields[0] + seq![c] + join_with(fields.drop_first(), c)
    }
}

/// Splitting at `c` gives at least one field, none holding `c`, and the
/// fields joined with `c` give the text back.
pub proof fn lemma_split_char_parts(s: Seq<char>, c: char)
    ensures
        split_char(s, c).len() >= 1,
        join_with(split_char(s, c), c) == s,
        forall|i: int, k: int|
            0 <= i < split_char(s, c).len() && 0 <= k < split_char(s, c)[i].len() ==> #[trigger] split_char(
                s,
                c,
            )[i][k] != c,
    decreases s.len(),
{
    lemma_find_char_bounds(s, c);
    match find_char(s, c) {
        Some(i) => {
            let head = s.subrange(0, i);
            let rest = s.subrange(i + 1, s.len() as int);
            lemma_split_char_parts(rest, c);
            let sr = split_char(rest, c);
            let sp = split_char(s, c);
            assert(sp == seq![head] + sr);
            assert(sp.drop_first() =~= sr);
            assert(join_with(sp, c) == head + seq![c] + join_with(sr, c));
            assert(s =~= head + seq![c] + rest);
            assert forall|j: int, k: int| 0 <= j < sp.len() && 0 <= k < sp[j].len() implies #[trigger] sp[j][k]
                != c by {
                if j > 0 {
                    assert(sp[j] == sr[j - 1]);
                }
            }
        },
        None => {},
    }
}

/// A field without the separator is split into itself alone.
pub proof fn lemma_split_char_single(a: Seq<char>, c: char)
    requires
        forall|k: int| 0 <= k < a.len() ==> a[k] != c,
    ensures
        split_char(a, c) == seq![a],
{
    lemma_find_char_is(a, c, a.len() as int);
}

/// Splitting a field, the separator and a rest gives the field followed
/// by the fields of the rest.
pub proof fn lemma_split_char_cons(a: Seq<char>, c: char, b: Seq<char>)
    requires
        forall|k: int| 0 <= k < a.len() ==> a[k] != c,
    ensures
        split_char(a + seq![c] + b, c) == seq![a] + split_char(b, c),
{
    let s = a + seq![c] + b;
    lemma_find_char_is(s, c, a.len() as int);
    assert(s.subrange(0, a.len() as int) =~= a);
    assert(s.subrange(a.len() as int + 1, s.len() as int) =~= b);
}

/// The `(start, end)` ranges of the fields of `v@` separated by `c`.
pub fn split_ranges(v: &Vec<char>, c: char) -> (r: Vec<(usize, usize)>)
    ensures
        r@.len() == split_char(v@, c).len(),
        forall|k: int| 0 <= k < r@.len() ==> (#[trigger] r@[k]).0 <= r@[k].1 <= v@.len(),
        forall|k: int|
            0 <= k < r@.len() ==> v@.subrange((#[trigger] r@[k]).0 as int, r@[k].1 as int)
                == split_char(v@, c)[k],
{
    let mut r: Vec<(usize, usize)> = Vec::new();
    let mut pos: usize = 0;
    let ghost done: Seq<Seq<char>> = seq![];
    assert(v@.subrange(0, v@.len() as int) =~= v@);
    loop
        invariant
            pos <= v.len(),
            done + split_char(v@.subrange(pos as int, v@.len() as int), c) == split_char(v@, c),
            r@.len() == done.len(),
            forall|k: int| 0 <= k < r@.len() ==> (#[trigger] r@[k]).0 <= r@[k].1 <= v@.len(),
            forall|k: int|
                0 <= k < r@.len() ==> v@.subrange((#[trigger] r@[k]).0 as int, r@[k].1 as int)
                    == done[k],
        decreases v.len() - pos,
    {
        let ghost rest = v@.subrange(pos as int, v@.len() as int);
        let ghost old_r = r@;
        let ghost old_done = done;
        proof {
            lemma_find_char_bounds(rest, c);
        }
        match find_char_range(v, pos, v.len(), c) {
            Some(i) => {
                r.push((pos, i));
                proof {
                    let field = v@.subrange(pos as int, i as int);
                    assert(rest.subrange(0, i - pos) =~= field);
                    assert(rest.subrange(i - pos + 1, rest.len() as int) =~= v@.subrange(
                        i + 1,
                        v@.len() as int,
                    ));
                    let tail = split_char(v@.subrange(i + 1, v@.len() as int), c);
                    assert(done + (seq![field] + tail) =~= done.push(field) + tail);
                    done = done.push(field);
                    assert forall|k: int| 0 <= k < r@.len() implies v@.subrange(
                        (#[trigger] r@[k]).0 as int,
                        r@[k].1 as int,
                    ) == done[k] by {
                        if k < old_done.len() {
                            assert(r@[k] == old_r[k]);
                        }
                    }
                }
                pos = i + 1;
            },
            None => {
                r.push((pos, v.len()));
                proof {
                    assert(done + seq![rest] =~= done.push(rest));
                    done = done.push(rest);
                    assert forall|k: int| 0 <= k < r@.len() implies v@.subrange(
                        (#[trigger] r@[k]).0 as int,
                        r@[k].1 as int,
                    ) == done[k] by {
                        if k < old_done.len() {
                            assert(r@[k] == old_r[k]);
                        }
                    }
                }
                return r;
            },
        }
    }
}

/// Value of a decimal digit character.
pub open spec fn digit_value(c: char) -> int {
    c as int - '0' as int
}

/// Whether `c` is an ASCII decimal digit.
pub open spec fn is_digit(c: char) -> bool {
    '0' <= c && c <= '9'
}

/// Whether every character of `s` is an ASCII decimal digit.
pub open spec fn all_digits(s: Seq<char>) -> bool {
    forall|i: int| 0 <= i < s.len() ==> is_digit(#[trigger] s[i])
}

/// The decimal value of a string of digits.
pub open spec fn decimal_value(s: Seq<char>) -> nat
    decreases s.len(),
{
    if s.len() == 0 {
        0
    } else {
        (decimal_value(s.drop_last()) * 10 + digit_value(s.last())) as nat
    }
}

/// `u64::from_str`: an optional `+`, then one or more decimal digits whose
/// value fits.
pub open spec fn parse_u64_spec(s: Seq<char>) -> Option<u64> {
    let body = if s.len() > 0 && s[0] == '+' {
        s.drop_first()
    } else {
        s
    };
    if body.len() > 0 && all_digits(body) && decimal_value(body) <= u64::MAX {
        Some(decimal_value(body) as u64)
    } else {
        None
    }
}

proof fn lemma_decimal_prefix_le(s: Seq<char>, i: int)
    requires
        0 <= i <= s.len(),
        all_digits(s),
    ensures
        decimal_value(s.subrange(0, i)) <= decimal_value(s),
    decreases s.len() - i,
{
    if i < s.len() {
        lemma_decimal_prefix_le(s, i + 1);
        let t = s.subrange(0, i + 1);
        assert(t.drop_last() =~= s.subrange(0, i));
        assert(is_digit(s[i]));
    } else {
        assert(s.subrange(0, i) =~= s);
    }
}

/// `u64::from_str` on `v@.subrange(lo, hi)`.
pub fn parse_u64_range(v: &Vec<char>, lo: usize, hi: usize) -> (r: Option<u64>)
    requires
        lo <= hi <= v.len(),
    ensures
        r == parse_u64_spec(v@.subrange(lo as int, hi as int)),
{
    let ghost s = v@.subrange(lo as int, hi as int);
    let start: usize = if lo < hi && v[lo] == '+' {
        lo + 1
    } else {
        lo
    };
    let ghost body = v@.subrange(start as int, hi as int);
    assert(body =~= (if s.len() > 0 && s[0] == '+' {
        s.drop_first()
    } else {
        s
    }));
    if start == hi {
        return None;
    }
    let mut acc: u64 = 0;
    let mut i = start;
    while i < hi
        invariant
            lo <= start <= i <= hi <= v.len(),
            s == v@.subrange(lo as int, hi as int),
            body == v@.subrange(start as int, hi as int),
            body == (if s.len() > 0 && s[0] == '+' {
                s.drop_first()
            } else {
                s
            }),
            start < hi,
            all_digits(v@.subrange(start as int, i as int)),
            acc == decimal_value(v@.subrange(start as int, i as int)),
        decreases hi - i,
    {
        let ch = v[i];
        if !('0' <= ch && ch <= '9') {
            assert(!is_digit(body[i - start]));
            return None;
        }
        let d = (ch as u32 - '0' as u32) as u64;
        let ghost t = v@.subrange(start as int, i + 1);
        assert(t.drop_last() =~= v@.subrange(start as int, i as int));
        assert(t.last() == ch);
        if acc > (u64::MAX - d) / 10 {
            proof {
                assert(decimal_value(t) == acc * 10 + d);
                assert(acc * 10 + d > u64::MAX) by (nonlinear_arith)
                    requires
                        acc > (u64::MAX - d) / 10,
                        d <= 9,
                ;
                if all_digits(body) {
                    assert(body.subrange(0, i + 1 - start) =~= t);
                    lemma_decimal_prefix_le(body, i + 1 - start);
                }
            }
            return None;
        }
        proof {
            assert(acc * 10 + d <= u64::MAX) by (nonlinear_arith)
                requires
                    acc <= (u64::MAX - d) / 10,
                    d <= 9,
            ;
        }
        acc = acc * 10 + d;
        assert(all_digits(t)) by {
            assert forall|k: int| 0 <= k < t.len() implies is_digit(#[trigger] t[k]) by {
                if k < t.len() - 1 {
                    assert(t[k] == v@.subrange(start as int, i as int)[k]);
                }
            }
        }
        i += 1;
    }
    assert(v@.subrange(start as int, i as int) =~= body);
    Some(acc)
}


/// What `String::from_utf8_lossy` makes of a byte string.
pub uninterp spec fn utf8_lossy(bytes: Seq<u8>) -> Seq<char>;

/// `String::from_utf8_lossy(..).into_owned()`: the contract claims the
/// result is the named decoding, and that bytes which are the UTF-8 form of
/// a text decode to that text.
#[verifier::external_body]
pub(crate) fn from_utf8_lossy(bytes: &[u8]) -> (r: String)
    ensures
        r@ == utf8_lossy(bytes@),
        forall|s: Seq<char>| #[trigger] vstd::utf8::encode_utf8(s) == bytes@ ==> r@ == s,
{
    String::from_utf8_lossy(bytes).into_owned()
}


/// Lexicographic order of texts by character code (the order of
/// `String`'s `Ord`, since UTF-8 keeps code point order).
pub open spec fn lex_lt(a: Seq<char>, b: Seq<char>) -> bool
    decreases a.len(),
{
    if a.len() == 0 {
        b.len() > 0
    } else if b.len() == 0 {
        false
    } else if a[0] != b[0] {
        a[0] < b[0]
    } else {
        lex_lt(a.drop_first(), b.drop_first())
    }
}

/// `lex_lt` is irreflexive.
pub proof fn lemma_lex_irreflexive(a: Seq<char>)
    ensures
        !lex_lt(a, a),
    decreases a.len(),
{
    if a.len() > 0 {
        lemma_lex_irreflexive(a.drop_first());
    }
}

/// `lex_lt` is asymmetric and total on distinct texts.
pub proof fn lemma_lex_total(a: Seq<char>, b: Seq<char>)
    ensures
        lex_lt(a, b) ==> !lex_lt(b, a),
        a != b ==> lex_lt(a, b) || lex_lt(b, a),
    decreases a.len(),
{
    if a.len() > 0 && b.len() > 0 {
        lemma_lex_total(a.drop_first(), b.drop_first());
        if a != b && a[0] == b[0] {
            assert(a.drop_first() != b.drop_first()) by {
                if a.drop_first() == b.drop_first() {
                    assert(a =~= seq![a[0]] + a.drop_first());
                    assert(b =~= seq![b[0]] + b.drop_first());
                }
            }
        }
    }
    if a.len() == 0 && b.len() == 0 {
        assert(a =~= b);
    }
}

/// `lex_lt` is transitive.
pub proof fn lemma_lex_transitive(a: Seq<char>, b: Seq<char>, c: Seq<char>)
    ensures
        lex_lt(a, b) && lex_lt(b, c) ==> lex_lt(a, c),
    decreases a.len(),
{
    if a.len() > 0 && b.len() > 0 && c.len() > 0 {
        lemma_lex_transitive(a.drop_first(), b.drop_first(), c.drop_first());
    }
}

/// `lex_lt` on two strings.
pub fn lex_less(a: &str, b: &str) -> (r: bool)
    ensures
        r == lex_lt(a@, b@),
{
    let va = chars_of(a);
    let vb = chars_of(b);
    let mut i: usize = 0;
    assert(va@.skip(0) =~= va@);
    assert(vb@.skip(0) =~= vb@);
    while i < va.len() && i < vb.len()
        invariant
            va@ == a@,
            vb@ == b@,
            i <= va@.len(),
            i <= vb@.len(),
            va@.take(i as int) == vb@.take(i as int),
            lex_lt(va@, vb@) == lex_lt(va@.skip(i as int), vb@.skip(i as int)),
        decreases va.len() - i,
    {
        let ghost sa = va@.skip(i as int);
        let ghost sb = vb@.skip(i as int);
        assert(sa.len() > 0 && sb.len() > 0);
        assert(sa[0] == va@[i as int] && sb[0] == vb@[i as int]);
        if va[i] != vb[i] {
            assert(lex_lt(sa, sb) == (sa[0] < sb[0]));
            let x = va[i];
            let y = vb[i];
            let r = x < y;
            assert(x == sa[0]);
            assert(y == sb[0]);
            return r;
        }
        assert(sa.drop_first() =~= va@.skip(i + 1));
        assert(sb.drop_first() =~= vb@.skip(i + 1));
        assert(va@.take(i + 1) =~= va@.take(i as int).push(va@[i as int]));
        assert(vb@.take(i + 1) =~= vb@.take(i as int).push(vb@[i as int]));
        i += 1;
    }
    let ghost sa = va@.skip(i as int);
    let ghost sb = vb@.skip(i as int);
    assert(sa.len() == va@.len() - i);
    assert(sb.len() == vb@.len() - i);
    i >= va.len() && i < vb.len()
}


/// Decimal digits of `n`, without leading zeros (`u64::to_string`).
pub open spec fn decimal_digits(n: nat) -> Seq<char>
    decreases n,
{
    if n < 10 {
        seq![(48 + n) as char]
    } else {
        decimal_digits(n / 10).push((48 + n % 10) as char)
    }
}

/// `n.to_string()`.
pub fn u64_to_decimal(n: u64) -> (r: String)
    ensures
        r@ == decimal_digits(n as nat),
    decreases n,
{
    if n < 10 {
        let mut r = String::new();
        push_char(&mut r, char_from_ascii(48 + n as u8));
        r
    } else {
        let mut r = u64_to_decimal(n / 10);
        push_char(&mut r, char_from_ascii(48 + (n % 10) as u8));
        r
    }
}


/// A copy of a list of strings.
pub fn clone_strings(v: &Vec<String>) -> (r: Vec<String>)
    ensures
        r@ == v@,
{
    let mut r: Vec<String> = Vec::new();
    let mut i: usize = 0;
    while i < v.len()
        invariant
            i <= v@.len(),
            r@ == v@.take(i as int),
        decreases v.len() - i,
    {
        r.push(v[i].clone());
        assert(r@ =~= v@.take(i + 1));
        i += 1;
    }
    assert(v@.take(i as int) =~= v@);
    r
}


/// The part of `s` after its last `c`, or all of `s`
/// (`s.rsplit(c).next()`).
pub open spec fn after_last_char(s: Seq<char>, c: char) -> Seq<char> {
    match rfind_char(s, c) {
        Some(i) => s.subrange(i + 1, s.len() as int),
        None => s,
    }
}

} // verus!
