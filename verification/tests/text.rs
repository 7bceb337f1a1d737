use calebhamilton_org::text::{decimal_digits, decimal_string, thousands_string, trim, trim_matches};

#[test]
fn decimal_of_zero_and_others() {
    assert_eq!(decimal_string(0), "0");
    assert_eq!(decimal_string(7), "7");
    assert_eq!(decimal_string(10), "10");
    assert_eq!(decimal_string(1234567), "1234567");
    assert_eq!(decimal_string(usize::MAX), usize::MAX.to_string());
    assert_eq!(decimal_digits(405), vec!['4', '0', '5']);
}

#[test]
fn thousands_grouping() {
    assert_eq!(thousands_string(0), "0");
    assert_eq!(thousands_string(999), "999");
    assert_eq!(thousands_string(1000), "1,000");
    assert_eq!(thousands_string(12345), "12,345");
    assert_eq!(thousands_string(100000), "100,000");
    assert_eq!(thousands_string(1234567), "1,234,567");
}

#[test]
fn thousands_grouping_keeps_digits() {
    for n in [0usize, 5, 42, 999, 1000, 65536, 987654321, usize::MAX] {
        let grouped = thousands_string(n);
        let digits: String = grouped.chars().filter(|c| *c != ',').collect();
        assert_eq!(digits, n.to_string());
        let groups: Vec<&str> = grouped.split(',').collect();
        assert!(!groups[0].is_empty() && groups[0].len() <= 3);
        assert!(groups[1..].iter().all(|g| g.len() == 3));
    }
}

#[test]
fn thousands_matches_rchunks_join() {
    for n in [1usize, 12, 123, 1234, 12345, 123456, 1234567, 4_000_000_000] {
        let s = n.to_string();
        let expected = s
            .as_bytes()
            .rchunks(3)
            .rev()
            .map(std::str::from_utf8)
            .collect::<Result<Vec<&str>, _>>()
            .unwrap()
            .join(",");
        assert_eq!(thousands_string(n), expected);
    }
}

#[test]
fn trim_white_space() {
    assert_eq!(trim("  hello world \n\t"), "hello world");
    assert_eq!(trim("\u{3000}\u{a0}x\u{2028}"), "x");
    assert_eq!(trim("   "), "");
    assert_eq!(trim(""), "");
    assert_eq!(trim("a b"), "a b");
    for s in ["  a ", "\r\nb\u{85}", "c", " \u{200a} d e \u{202f}"] {
        assert_eq!(trim(s), s.trim());
    }
}

#[test]
fn trim_one_character() {
    assert_eq!(trim_matches("---\ntitle\n---", '-'), "\ntitle\n");
    assert_eq!(trim_matches("-----", '-'), "");
    assert_eq!(trim_matches("a-b", '-'), "a-b");
    assert_eq!(trim_matches("--a-b--", '-'), "a-b");
}

#[test]
fn trim_is_idempotent() {
    for s in ["  x  ", "\t\ty", "z\n\n", "  ", ""] {
        let once = trim(s);
        assert_eq!(trim(&once), once);
        let dashes = trim_matches(s, ' ');
        assert_eq!(trim_matches(&dashes, ' '), dashes);
    }
}
