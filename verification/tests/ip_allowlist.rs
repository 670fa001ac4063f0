use open_web_server::ip_allowlist::{build_entry, is_allowed, parse_list_setting, split_entry, AllowEntry, IpValue};

/// Dotted IPv4 or colon IPv6 text (at most one `::`) as a number.
fn parse_ip(s: &str) -> Option<IpValue> {
    if s.contains(':') {
        let (head, tail) = match s.split_once("::") {
            Some((h, t)) => (h, Some(t)),
            None => (s, None),
        };
        let groups = |part: &str| -> Option<Vec<u16>> {
            if part.is_empty() {
                return Some(vec![]);
            }
            part.split(':').map(|g| u16::from_str_radix(g, 16).ok()).collect()
        };
        let h = groups(head)?;
        let t = match tail {
            Some(t) => groups(t)?,
            None => vec![],
        };
        let fill = 8usize.checked_sub(h.len() + t.len())?;
        if tail.is_none() && fill != 0 {
            return None;
        }
        let mut all = h;
        all.extend(std::iter::repeat(0).take(fill));
        all.extend(t);
        Some(IpValue::V6(all.iter().fold(0u128, |acc, g| (acc << 16) | *g as u128)))
    } else {
        let parts: Vec<u8> = s.split('.').map(|p| p.parse::<u8>().ok()).collect::<Option<Vec<u8>>>()?;
        if parts.len() != 4 {
            return None;
        }
        Some(IpValue::V4(u32::from_be_bytes([parts[0], parts[1], parts[2], parts[3]])))
    }
}

fn entries(raw: &[String]) -> Vec<AllowEntry> {
    raw.iter()
        .filter_map(|s| {
            let (addr, prefix) = split_entry(s)?;
            build_entry(parse_ip(&addr), prefix)
        })
        .collect()
}

fn allowed(raw: &[String], candidate: &str) -> bool {
    is_allowed(&entries(raw), parse_ip(candidate).unwrap())
}

#[test]
fn exact_ipv4_match() {
    let entries = vec!["203.0.113.5".to_string()];
    assert!(allowed(&entries, "203.0.113.5"));
    assert!(!allowed(&entries, "203.0.113.6"));
}

#[test]
fn cidr_ipv4_match() {
    let entries = vec!["192.168.1.0/24".to_string()];
    assert!(allowed(&entries, "192.168.1.42"));
    assert!(!allowed(&entries, "192.168.2.1"));
}

#[test]
fn cidr_ipv6_match() {
    let entries = vec!["2001:db8::/32".to_string()];
    assert!(allowed(&entries, "2001:db8::1"));
    assert!(!allowed(&entries, "2001:db9::1"));
}

#[test]
fn malformed_entries_are_skipped_not_panicking() {
    let entries = vec!["not-an-ip".to_string(), "203.0.113.5".to_string()];
    assert!(allowed(&entries, "203.0.113.5"));
}

#[test]
fn multiple_entries_any_match_allows() {
    let entries = vec!["10.0.0.1".to_string(), "192.168.1.0/24".to_string()];
    assert!(allowed(&entries, "192.168.1.5"));
    assert!(!allowed(&entries, "8.8.8.8"));
}

#[test]
fn prefix_lengths_beyond_the_family_are_refused() {
    assert_eq!(build_entry(parse_ip("10.0.0.0"), Some(Some(33))), None);
    assert_eq!(build_entry(parse_ip("10.0.0.0"), Some(None)), None);
    assert!(build_entry(parse_ip("2001:db8::"), Some(Some(128))).is_some());
    assert_eq!(split_entry("  10.0.0.0/+8 "), Some(("10.0.0.0".to_string(), Some(Some(8)))));
    assert_eq!(split_entry("   "), None);
}

#[test]
fn zero_prefix_matches_everything_of_the_family() {
    let all4 = vec!["0.0.0.0/0".to_string()];
    assert!(allowed(&all4, "8.8.8.8"));
    assert!(!allowed(&all4, "2001:db8::1"));
}

#[test]
fn list_setting_is_trimmed_and_blank_entries_dropped() {
    assert_eq!(
        parse_list_setting(" 10.0.0.1 , ,192.168.1.0/24,"),
        Some(vec!["10.0.0.1".to_string(), "192.168.1.0/24".to_string()])
    );
    assert_eq!(parse_list_setting(" , "), None);
    assert_eq!(parse_list_setting(""), None);
}
