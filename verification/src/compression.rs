//! gzip compression of response bodies for clients that accept it.

use vstd::prelude::*;
use crate::text::{split_char, starts_with, str_starts_with, trim};
use std::io::Write;

verus! {

/// Bodies shorter than this are sent as they are.
pub const COMPRESSION_MIN_SIZE: usize = 256;

/// Whether an `Accept-Encoding` value accepts gzip: one of its
/// comma-separated parts starts with `gzip` once trimmed.
pub open spec fn accepts_gzip_spec(accept_encoding: Option<Seq<char>>) -> bool {
    match accept_encoding {
        Some(v) => exists|i: int|
            0 <= i < split_char(v, ',').len() && starts_with(trim(#[trigger] split_char(v, ',')[i]), "gzip"@),
        None => false,
    }
}

/// Whether the client accepts gzip.
pub fn accepts_gzip(accept_encoding: Option<&str>) -> (b: bool)
    ensures
        b == accepts_gzip_spec(
            match accept_encoding {
                Some(v) => Some(v@),
                None => None,
            },
        ),
{
    let v = match accept_encoding {
        Some(v) => v,
        None => return false,
    };
    let cv = crate::text::chars_of(v);
    let parts = crate::text::split_ranges(&cv, ',');
    let ghost ps = split_char(cv@, ',');
    let mut i: usize = 0;
    while i < parts.len()
        invariant
            i <= parts@.len(),
            accept_encoding == Some(v),
            cv@ == v@,
            ps == split_char(cv@, ','),
            parts@.len() == ps.len(),
            forall|j: int| 0 <= j < parts@.len() ==> (#[trigger] parts@[j]).0 <= parts@[j].1 <= cv@.len(),
            forall|j: int|
                0 <= j < parts@.len() ==> cv@.subrange((#[trigger] parts@[j]).0 as int, parts@[j].1 as int)
                    == ps[j],
            forall|j: int| 0 <= j < i ==> !starts_with(trim(#[trigger] ps[j]), "gzip"@),
        decreases parts@.len() - i,
    {
        let (lo, hi) = parts[i];
        let part = crate::text::substring(&cv, lo, hi);
        let pv = crate::text::chars_of(part.as_str());
        proof {
            assert(pv@.subrange(0, pv@.len() as int) =~= pv@);
        }
        let (a, b) = crate::text::trim_range(&pv, 0, pv.len());
        let t = crate::text::substring(&pv, a, b);
        if str_starts_with(t.as_str(), "gzip") {
            proof {
                lemma_accepts_gzip_unfold(v@);
                assert(starts_with(trim(split_char(v@, ',')[i as int]), "gzip"@));
            }
            return true;
        }
        i += 1;
    }
    false
}

/// What gzip compression with flate2's default level makes of `data`.
pub uninterp spec fn flate2_gzip(data: Seq<u8>) -> Seq<u8>;

/// `flate2::write::GzEncoder` with `Compression::default()` over a `Vec`,
/// written `data` and finished: the contract claims a stream is always
/// produced (the only errors `write_all` and `finish` report are those of
/// the underlying writer, and writing to a `Vec` does not fail) and that it
/// is the named compression of `data`.
#[verifier::external_body]
fn gzip(data: &[u8]) -> (r: Option<Vec<u8>>)
    ensures
        r is Some,
        r matches Some(v) ==> v@ == flate2_gzip(data@),
{
    let mut encoder = flate2::write::GzEncoder::new(Vec::new(), flate2::Compression::default());
    match encoder.write_all(data).and_then(|_| encoder.finish()) {
        Ok(v) => Some(v),
        Err(_) => None,
    }
}

/// The body sent for a response: compressed (and then marked
/// `Content-Encoding: gzip`, the second value `true`) when the client
/// accepts gzip, the response is not encoded already and the body has at
/// least `COMPRESSION_MIN_SIZE` bytes; otherwise unchanged.
pub fn maybe_gzip(accept_encoding: Option<&str>, already_encoded: bool, body: Vec<u8>) -> (r: (Vec<u8>, bool))
    ensures
        ({
            let wanted = accepts_gzip_spec(
                match accept_encoding {
                    Some(v) => Some(v@),
                    None => None,
                },
            ) && !already_encoded && body@.len() >= COMPRESSION_MIN_SIZE;
            &&& r.1 == wanted
            &&& wanted ==> r.0@ == flate2_gzip(body@)
            &&& !wanted ==> r.0@ == body@
        }),
{
    if !accepts_gzip(accept_encoding) || already_encoded || body.len() < COMPRESSION_MIN_SIZE {
        return (body, false);
    }
    match gzip(body.as_slice()) {
        Some(c) => (c, true),
        None => (body, false),
    }
}

proof fn lemma_accepts_gzip_unfold(v: Seq<char>)
    ensures
        accepts_gzip_spec(Some(v)) == (exists|j: int|
            0 <= j < split_char(v, ',').len() && starts_with(trim(#[trigger] split_char(v, ',')[j]), "gzip"@)),
{
}

} // verus!
