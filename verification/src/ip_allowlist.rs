//! Source address allowlist of the administration API: single addresses
//! and CIDR ranges, IPv4 and IPv6.

use vstd::prelude::*;
use crate::text::{
    chars_of, find_char, find_char_range, parse_u64_range, parse_u64_spec, split_char,
    split_ranges, substring, trim, trim_range,
};

verus! {

/// An IP address as a number: IPv4 as 32 bits, IPv6 as 128 bits, both
/// most significant octet first.
#[derive(Debug, Clone, Copy, PartialEq, Eq, Structural)]
pub enum IpValue {
    V4(u32),
    V6(u128),
}

/// One allowlist entry.
#[derive(Debug, Clone, Copy, PartialEq, Eq, Structural)]
pub enum AllowEntry {
    Exact(IpValue),
    Cidr { network: IpValue, prefix_len: u8 },
}

/// Longest prefix of an address family.
pub open spec fn max_prefix(a: IpValue) -> u64 {
    match a {
        IpValue::V4(_) => 32,
        IpValue::V6(_) => 128,
    }
}

/// The parts of an entry as written, after trimming: the address text
/// and, for a CIDR entry, the prefix length (`None` inside when it is not
/// a number); `None` for a blank entry.
pub open spec fn split_entry_spec(raw: Seq<char>) -> Option<(Seq<char>, Option<Option<u64>>)> {
    let s = trim(raw);
    if s.len() == 0 {
        None
    } else {
        match find_char(s, '/') {
            Some(i) => Some(
                (s.subrange(0, i), Some(parse_u64_spec(s.subrange(i + 1, s.len() as int)))),
            ),
            None => Some((s, None)),
        }
    }
}

/// Splits an entry into its address text and optional prefix length.
pub fn split_entry(raw: &str) -> (r: Option<(String, Option<Option<u64>>)>)
    ensures
        match split_entry_spec(raw@) {
            Some((a, p)) => r matches Some((ra, rp)) && ra@ == a && rp == p,
            None => r is None,
        },
{
    let v = chars_of(raw);
    proof {
        assert(v@.subrange(0, v@.len() as int) =~= v@);
    }
    let (a, b) = trim_range(&v, 0, v.len());
    if a == b {
        return None;
    }
    let ghost s = v@.subrange(a as int, b as int);
    match find_char_range(&v, a, b, '/') {
        Some(i) => {
            let addr = substring(&v, a, i);
            proof {
                assert(s.subrange(0, i - a) =~= addr@);
                assert(s.subrange(i - a + 1, s.len() as int) =~= v@.subrange(i + 1, b as int));
            }
            let p = parse_u64_range(&v, i + 1, b);
            Some((addr, Some(p)))
        },
        None => Some((substring(&v, a, b), None)),
    }
}

/// The entry made of a parsed address (`None` when the address text did
/// not read as one) and the prefix part of `split_entry`.
pub open spec fn build_entry_spec(addr: Option<IpValue>, prefix: Option<Option<u64>>) -> Option<AllowEntry> {
    match addr {
        None => None,
        Some(a) => match prefix {
            None => Some(AllowEntry::Exact(a)),
            Some(None) => None,
            Some(Some(p)) => if p <= max_prefix(a) {
                Some(AllowEntry::Cidr { network: a, prefix_len: p as u8 })
            } else {
                None
            },
        },
    }
}

/// Builds an entry; a prefix longer than the address family allows, or
/// unreadable, makes the entry unusable.
pub fn build_entry(addr: Option<IpValue>, prefix: Option<Option<u64>>) -> (r: Option<AllowEntry>)
    ensures
        r == build_entry_spec(addr, prefix),
{
    match addr {
        None => None,
        Some(a) => match prefix {
            None => Some(AllowEntry::Exact(a)),
            Some(None) => None,
            Some(Some(p)) => {
                let max: u64 = match a {
                    IpValue::V4(_) => 32,
                    IpValue::V6(_) => 128,
                };
                if p <= max {
                    Some(AllowEntry::Cidr { network: a, prefix_len: p as u8 })
                } else {
                    None
                }
            },
        },
    }
}

/// Whether an entry's prefix suits its address family.
pub open spec fn entry_ok(e: AllowEntry) -> bool {
    e matches AllowEntry::Cidr { network, prefix_len } ==> prefix_len as u64 <= max_prefix(network)
}

/// The network mask of a prefix length for IPv4.
pub open spec fn mask4(p: u8) -> u32 {
    if p == 0 {
        0
    } else {
        u32::MAX << ((32 - p) as u32)
    }
}

/// The network mask of a prefix length for IPv6.
pub open spec fn mask6(p: u8) -> u128 {
    if p == 0 {
        0
    } else {
        u128::MAX << ((128 - p) as u128)
    }
}

/// Whether `candidate` is covered by `entry`.
pub open spec fn entry_matches(entry: AllowEntry, candidate: IpValue) -> bool {
    match entry {
        AllowEntry::Exact(a) => a == candidate,
        AllowEntry::Cidr { network, prefix_len } => match (network, candidate) {
            (IpValue::V4(n), IpValue::V4(c)) => (n & mask4(prefix_len)) == (c & mask4(prefix_len)),
            (IpValue::V6(n), IpValue::V6(c)) => (n & mask6(prefix_len)) == (c & mask6(prefix_len)),
            _ => false,
        },
    }
}

/// Whether `candidate` is covered by `entry` (prefix lengths are at most
/// 32 for IPv4 and 128 for IPv6, as `parse_entry` gives them).
pub fn matches(entry: &AllowEntry, candidate: IpValue) -> (b: bool)
    requires
        entry_ok(*entry),
    ensures
        b == entry_matches(*entry, candidate),
{
    match entry {
        AllowEntry::Exact(a) => *a == candidate,
        AllowEntry::Cidr { network, prefix_len } => match (network, candidate) {
            (IpValue::V4(n), IpValue::V4(c)) => {
                let mask: u32 = if *prefix_len == 0 {
                    0
                } else {
                    u32::MAX << ((32 - *prefix_len) as u32)
                };
                (*n & mask) == (c & mask)
            },
            (IpValue::V6(n), IpValue::V6(c)) => {
                let mask: u128 = if *prefix_len == 0 {
                    0
                } else {
                    u128::MAX << ((128 - *prefix_len) as u128)
                };
                (*n & mask) == (c & mask)
            },
            _ => false,
        },
    }
}

/// Whether some entry covers `candidate`.
pub open spec fn allowed_spec(entries: Seq<AllowEntry>, candidate: IpValue) -> bool {
    exists|i: int| 0 <= i < entries.len() && entry_matches(#[trigger] entries[i], candidate)
}

/// Whether `candidate` is allowed by the readable entries of the list.
pub fn is_allowed(entries: &[AllowEntry], candidate: IpValue) -> (b: bool)
    requires
        forall|i: int| 0 <= i < entries@.len() ==> entry_ok(#[trigger] entries@[i]),
    ensures
        b == allowed_spec(entries@, candidate),
{
    let mut i: usize = 0;
    while i < entries.len()
        invariant
            i <= entries@.len(),
            forall|k: int| 0 <= k < entries@.len() ==> entry_ok(#[trigger] entries@[k]),
            forall|k: int| 0 <= k < i ==> !entry_matches(#[trigger] entries@[k], candidate),
        decreases entries.len() - i,
    {
        assert(entry_ok(entries@[i as int]));
        if matches(&entries[i], candidate) {
            return true;
        }
        i += 1;
    }
    false
}

/// The configured allowlist from its raw setting: comma-separated
/// entries, trimmed, blanks dropped; `None` (no allowlist) when nothing is
/// left.
pub open spec fn allowlist_spec(raw: Seq<char>) -> Seq<Seq<char>> {
    nonblank_trimmed(split_char(raw, ','))
}

/// The trimmed, non-blank fields, in order.
pub open spec fn nonblank_trimmed(fields: Seq<Seq<char>>) -> Seq<Seq<char>>
    decreases fields.len(),
{
    if fields.len() == 0 {
        Seq::empty()
    } else {
        let rest = nonblank_trimmed(fields.drop_last());
        if trim(fields.last()).len() > 0 {
            rest.push(trim(fields.last()))
        } else {
            rest
        }
    }
}

/// Splits a comma-separated setting into trimmed, non-blank entries;
/// `None` when there are none.
pub fn parse_list_setting(raw: &str) -> (r: Option<Vec<String>>)
    ensures
        match r {
            Some(v) => v@.map_values(|s: String| s@) == allowlist_spec(raw@) && v@.len() > 0,
            None => allowlist_spec(raw@).len() == 0,
        },
{
    let v = chars_of(raw);
    let fields = split_ranges(&v, ',');
    let ghost fs = split_char(v@, ',');
    let mut out: Vec<String> = Vec::new();
    let mut k: usize = 0;
    while k < fields.len()
        invariant
            k <= fields@.len(),
            v@ == raw@,
            fields@.len() == fs.len(),
            fs == split_char(v@, ','),
            forall|j: int| 0 <= j < fields@.len() ==> (#[trigger] fields@[j]).0 <= fields@[j].1 <= v@.len(),
            forall|j: int|
                0 <= j < fields@.len() ==> v@.subrange((#[trigger] fields@[j]).0 as int, fields@[j].1 as int)
                    == fs[j],
            out@.map_values(|s: String| s@) == nonblank_trimmed(fs.take(k as int)),
        decreases fields.len() - k,
    {
        let (lo, hi) = fields[k];
        let (a, b) = trim_range(&v, lo, hi);
        proof {
            assert(fs.take(k + 1).drop_last() =~= fs.take(k as int));
            assert(fs.take(k + 1).last() == fs[k as int]);
        }
        if a < b {
            let ghost before = out@;
            out.push(substring(&v, a, b));
            assert(out@.map_values(|s: String| s@) =~= before.map_values(|s: String| s@).push(
                v@.subrange(a as int, b as int),
            ));
        }
        k += 1;
    }
    assert(fs.take(k as int) =~= fs);
    if out.len() == 0 {
        None
    } else {
        Some(out)
    }
}

/// An exact entry covers its own address, and a CIDR entry with prefix 0
/// covers every address of its family.
pub proof fn law_exact_and_zero_prefix(a: IpValue, c4: u32, n4: u32, c6: u128, n6: u128)
    ensures
        entry_matches(AllowEntry::Exact(a), a),
        entry_matches(AllowEntry::Cidr { network: IpValue::V4(n4), prefix_len: 0 }, IpValue::V4(c4)),
        entry_matches(AllowEntry::Cidr { network: IpValue::V6(n6), prefix_len: 0 }, IpValue::V6(c6)),
{
    assert(n4 & 0 == c4 & 0) by (bit_vector);
    assert(n6 & 0 == c6 & 0) by (bit_vector);
}

} // verus!
