use macmon::text::{
    c_string, ends_with, parse_u64, same_text, split, starts_with, str_le, trim,
};

#[test]
fn parse_u64_reads_what_from_str_reads() {
    let cases = [
        "0", "7", "42", "007", "+5", "+0", "18446744073709551615", "18446744073709551616",
        "99999999999999999999999", "", "+", "-1", "++1", "1 ", " 1", "1_000", "12a", "a12",
        "1.5", "+-1", "0x10", "\u{663}",
        "00000000000000000000000000000000000000001",
    ];
    for case in cases {
        assert_eq!(parse_u64(case.as_bytes()), case.parse::<u64>().ok(), "{:?}", case);
    }
    assert_eq!(parse_u64(b"18446744073709551615"), Some(u64::MAX));
    assert_eq!(parse_u64(b"18446744073709551616"), None);
    assert_eq!(parse_u64(b"+17"), Some(17));
    assert_eq!(parse_u64(b""), None);
}

#[test]
fn split_cuts_as_std_does() {
    let cases = ["", ":", "a", "a:b", "a:b:c", "::", "a::b", ":a", "a:", "12:8:4", "x:y:z:w"];
    for case in cases {
        let expected: Vec<Vec<u8>> = case.split(':').map(|p| p.as_bytes().to_vec()).collect();
        assert_eq!(split(case.as_bytes(), b':'), expected, "{:?}", case);
    }
    assert_eq!(split(b"12:8:4", b':'), vec![b"12".to_vec(), b"8".to_vec(), b"4".to_vec()]);
}

#[test]
fn trim_takes_white_space_off_both_ends() {
    let cases = [
        "", " ", "mJ", " mJ", "mJ ", "  mJ\t\n", "m J", "\u{a0}nJ\u{2003}", "\n\n", " a b  c ",
        "\u{e9}t\u{e9} ",
    ];
    for case in cases {
        assert_eq!(trim(case), case.trim(), "{:?}", case);
    }
    assert_eq!(trim("  uJ \n"), "uJ");
}

#[test]
fn same_text_is_equality() {
    assert!(same_text("", ""));
    assert!(same_text("pmgr", "pmgr"));
    assert!(!same_text("pmgr", "pmgr "));
    assert!(!same_text("pmgr", "pmgR"));
    assert!(!same_text("a", ""));
    assert!(same_text("\u{e9}", "\u{e9}"));
    assert!(!same_text("\u{e9}", "e"));
}

#[test]
fn str_le_is_the_order_of_strings() {
    let words = ["", "a", "A", "ab", "b", "aa", "\u{e9}", "z", "GPU", "gpu", "PMU tdie1", "PMU tdie10"];
    for a in words {
        for b in words {
            assert_eq!(str_le(a, b), a <= b, "{:?} {:?}", a, b);
        }
    }
}

#[test]
fn prefixes_and_suffixes() {
    assert!(starts_with(b"proc 12:8:4", b"proc "));
    assert!(!starts_with(b"pro", b"proc "));
    assert!(!starts_with(b"Proc 1", b"proc "));
    assert!(starts_with(b"abc", b""));
    assert!(ends_with(b"16 GB", b" GB"));
    assert!(!ends_with(b"16 TB", b" GB"));
    assert!(!ends_with(b"GB", b" GB"));
    assert!(ends_with(b" GB", b" GB"));
    assert!(ends_with(b"", b""));
}

#[test]
fn c_string_stops_at_the_first_nul() {
    let mut buf = [0u8; 128];
    buf[..4].copy_from_slice(b"pmgr");
    assert_eq!(c_string(&buf), "pmgr");
    buf[5] = b'x';
    assert_eq!(c_string(&buf), "pmgr");
    assert_eq!(c_string(&[0u8; 128]), "");
    assert_eq!(c_string(b"no nul here"), "no nul here");
    assert_eq!(c_string(b""), "");
    assert_eq!(c_string(&[b'a', 0xff, b'b', 0, b'c']), "a\u{fffd}b");
}
