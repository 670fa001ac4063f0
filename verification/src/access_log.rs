//! Access log settings and rotation decisions.
//!
//! The log lines themselves (JSON) are written, and files renamed and
//! compressed, by the program around the library.

use vstd::prelude::*;
use crate::text::{chars_of, decimal_digits, parse_u64_range, parse_u64_spec, push_char, push_str, u64_to_decimal};

verus! {

/// Default size at which the log is rotated: 10 MiB.
pub const DEFAULT_MAX_BYTES: u64 = 10485760;

/// Default number of compressed generations kept.
pub const DEFAULT_MAX_BACKUPS: u32 = 5;

/// Rotation settings.
#[derive(Debug, Clone)]
pub struct AccessLogConfig {
    /// Path of the current log file.
    pub path: String,
    pub max_bytes: u64,
    pub max_backups: u32,
}

/// The number a setting holds, if it holds one that fits.
pub open spec fn setting_u64(v: Option<Seq<char>>) -> Option<u64> {
    match v {
        Some(s) => parse_u64_spec(s),
        None => None,
    }
}

fn parse_setting_u64(v: Option<&str>) -> (r: Option<u64>)
    ensures
        r == setting_u64(
            match v {
                Some(s) => Some(s@),
                None => None,
            },
        ),
{
    match v {
        Some(s) => {
            let c = chars_of(s);
            proof {
                assert(c@.subrange(0, c@.len() as int) =~= c@);
            }
            parse_u64_range(&c, 0, c.len())
        },
        None => None,
    }
}

impl AccessLogConfig {
    /// The settings from their raw values: none without a path; an
    /// unreadable size or count takes its default (10 MiB, 5).
    pub fn from_settings(path: Option<&str>, max_bytes: Option<&str>, max_backups: Option<&str>) -> (r:
        Option<Self>)
        ensures
            path is None ==> r is None,
            path matches Some(p) ==> r matches Some(c) && c.path@ == p@ && c.max_bytes == match setting_u64(
                match max_bytes {
                    Some(s) => Some(s@),
                    None => None,
                },
            ) {
                Some(n) => n,
                None => DEFAULT_MAX_BYTES,
            } && c.max_backups == match setting_u64(
                match max_backups {
                    Some(s) => Some(s@),
                    None => None,
                },
            ) {
                Some(n) => if n <= u32::MAX {
                    n as u32
                } else {
                    DEFAULT_MAX_BACKUPS
                },
                None => DEFAULT_MAX_BACKUPS,
            },
    {
        let p = match path {
            Some(p) => p,
            None => return None,
        };
        let mb = match parse_setting_u64(max_bytes) {
            Some(n) => n,
            None => DEFAULT_MAX_BYTES,
        };
        let bk: u32 = match parse_setting_u64(max_backups) {
            Some(n) => if n <= u32::MAX as u64 {
                n as u32
            } else {
                DEFAULT_MAX_BACKUPS
            },
            None => DEFAULT_MAX_BACKUPS,
        };
        Some(AccessLogConfig { path: p.to_owned(), max_bytes: mb, max_backups: bk })
    }
}

/// The access logger: its settings (the file itself is handled outside).
pub struct AccessLogger {
    pub config: AccessLogConfig,
}

impl AccessLogger {
    /// A logger with these settings.
    pub fn new(config: AccessLogConfig) -> (r: Self)
        ensures
            r.config.path == config.path,
            r.config.max_bytes == config.max_bytes,
            r.config.max_backups == config.max_backups,
    {
        AccessLogger { config }
    }
}

/// Whether the log is rotated before a line of `line_len` bytes is
/// appended: the file is not empty and the line and its newline would
/// take it past the limit.
pub fn needs_rotation(current_len: u64, line_len: u64, max_bytes: u64) -> (b: bool)
    ensures
        b == (current_len > 0 && current_len + line_len + 1 > max_bytes),
{
    current_len > 0 && (current_len as u128) + (line_len as u128) + 1 > max_bytes as u128
}

/// The renames of a rotation keeping `max_backups` generations: from the
/// oldest kept to the newest, generation `g` becomes `g + 1`.
pub fn rotation_renames(max_backups: u32) -> (r: Vec<(u32, u32)>)
    ensures
        max_backups == 0 ==> r@.len() == 0,
        max_backups > 0 ==> r@.len() == max_backups - 1,
        forall|i: int|
            0 <= i < r@.len() ==> (#[trigger] r@[i]).0 == max_backups - 1 - i && r@[i].1 == r@[i].0
                + 1,
{
    let mut r: Vec<(u32, u32)> = Vec::new();
    if max_backups == 0 {
        return r;
    }
    let mut g = max_backups - 1;
    while g >= 1
        invariant
            max_backups > 0,
            g < max_backups,
            r@.len() == max_backups - 1 - g,
            forall|i: int|
                0 <= i < r@.len() ==> (#[trigger] r@[i]).0 == max_backups - 1 - i && r@[i].1
                    == r@[i].0 + 1,
        decreases g,
    {
        r.push((g, g + 1));
        g -= 1;
    }
    r
}

/// The file name of backup generation `generation` of log file `name`:
/// `name.<generation>.gz`.
pub fn backup_file_name(name: &str, generation: u32) -> (r: String)
    ensures
        r@ == name@ + seq!['.'] + decimal_digits(generation as nat) + ".gz"@,
{
    let mut r = String::new();
    push_str(&mut r, name);
    push_char(&mut r, '.');
    let d = u64_to_decimal(generation as u64);
    push_str(&mut r, d.as_str());
    push_str(&mut r, ".gz");
    r
}

} // verus!
