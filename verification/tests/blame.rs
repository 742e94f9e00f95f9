use difiko::blame::{
    format_date_ymd, is_commit_hash, parse_porcelain, parse_porcelain_checked, parse_tz_offset,
    tz_offset_safe,
};

#[test]
fn parses_two_lines_same_commit() {
    let porcelain = "abc1234567890123456789012345678901234567 1 1 2\nauthor Alice\nauthor-time 1700000000\nauthor-tz +0000\nsummary first\nfilename foo\n\thello\nabc1234567890123456789012345678901234567 2 2\n\tworld\n";
    let blame = parse_porcelain(porcelain);
    assert_eq!(blame.by_line.len(), 2);
    let l1 = &blame.by_line[&1];
    let l2 = &blame.by_line[&2];
    assert_eq!(l1.author, "Alice");
    assert_eq!(l2.author, "Alice");
    assert_eq!(l1.short_hash, "abc1234");
}

#[test]
fn accepts_sha256_hash() {
    let h = "0".repeat(64);
    let porcelain = format!(
        "{h} 1 1 1\nauthor Bob\nauthor-time 1700000000\nauthor-tz +0000\nsummary x\nfilename foo\n\thi\n"
    );
    let blame = parse_porcelain(&porcelain);
    assert_eq!(blame.by_line.len(), 1);
    assert_eq!(blame.by_line[&1].author, "Bob");
}

#[test]
fn empty_input_yields_empty_blame() {
    let blame = parse_porcelain("");
    assert!(blame.by_line.is_empty());
}

#[test]
fn cross_commit_caches_per_hash() {
    let a = "a".repeat(40);
    let b = "b".repeat(40);
    let porcelain = format!(
        "{a} 1 1 1\nauthor Alice\nauthor-time 1700000000\nauthor-tz +0000\nsummary x\nfilename foo\n\tline-a\n\
         {b} 2 2 1\nauthor Bob\nauthor-time 1700086400\nauthor-tz +0000\nsummary y\nfilename foo\n\tline-b\n"
    );
    let blame = parse_porcelain(&porcelain);
    assert_eq!(blame.by_line.len(), 2);
    assert_eq!(blame.by_line[&1].author, "Alice");
    assert_eq!(blame.by_line[&2].author, "Bob");
    assert_eq!(blame.by_line[&1].short_hash, "aaaaaaa");
    assert_eq!(blame.by_line[&2].short_hash, "bbbbbbb");
}

#[test]
fn malformed_tz_offset_defaults_to_zero() {
    assert_eq!(parse_tz_offset(""), 0);
    assert_eq!(parse_tz_offset("+05"), 0);
    assert_eq!(parse_tz_offset("0500"), 0);
    assert_eq!(parse_tz_offset("+0530"), 5 * 3600 + 30 * 60);
    assert_eq!(parse_tz_offset("-0800"), -8 * 3600);
}

#[test]
fn non_hash_lines_are_ignored() {
    let porcelain =
        "previous-filename foo\nboundary\nabc1234567890123456789012345678901234567 1 1 1\n\
         author Z\nauthor-time 1700000000\nauthor-tz +0000\nsummary s\nfilename foo\n\tx\n";
    let blame = parse_porcelain(porcelain);
    assert_eq!(blame.by_line.len(), 1);
    assert_eq!(blame.by_line[&1].author, "Z");
}

#[test]
fn invalid_hex_in_hash_position_is_ignored() {
    assert!(!is_commit_hash(&"z".repeat(40)));
    assert!(!is_commit_hash(&"a".repeat(39)));
    assert!(is_commit_hash(&"a".repeat(40)));
    assert!(is_commit_hash(&"f".repeat(64)));
}

#[test]
fn format_date_ymd_zero_is_empty() {
    assert_eq!(format_date_ymd(0), "");
}

#[test]
fn applies_tz_offset_to_date() {
    let porcelain =
        "abc1234567890123456789012345678901234567 1 1 1\nauthor Alice\nauthor-time 1700000000\nauthor-tz +0500\nsummary x\nfilename foo\n\thi\n";
    let blame = parse_porcelain(porcelain);
    assert_eq!(blame.by_line[&1].date, "2023-11-15");
}

#[test]
fn formats_epoch_dates() {
    assert_eq!(format_date_ymd(1700000000), "2023-11-14");
    assert_eq!(format_date_ymd(86400), "1970-01-02");
    assert_eq!(format_date_ymd(-86400), "1969-12-31");
    assert_eq!(format_date_ymd(951782400), "2000-02-29");
}

#[test]
fn negative_offset_moves_date_back() {
    let porcelain =
        "abc1234567890123456789012345678901234567 1 1 1\nauthor Al\nauthor-time 1700000000\nauthor-tz -2300\nsummary x\nfilename foo\n\thi\n";
    let blame = parse_porcelain(porcelain);
    assert_eq!(blame.by_line[&1].date, "2023-11-13");
}

#[test]
fn checked_parse_agrees_on_readable_output() {
    let a = "a".repeat(40);
    let porcelain = format!(
        "{a} 3 7 1\nauthor Carol\nauthor-time 1700000000\nauthor-tz -0800\nsummary x\nfilename foo\n\tline\n"
    );
    let checked = parse_porcelain_checked(&porcelain).expect("readable");
    let plain = parse_porcelain(&porcelain);
    assert_eq!(checked.by_line.len(), 1);
    assert_eq!(checked.by_line[&7].author, plain.by_line[&7].author);
    assert_eq!(checked.by_line[&7].date, plain.by_line[&7].date);
    assert_eq!(checked.by_line[&7].date, "2023-11-14");
}

#[test]
fn checked_parse_refuses_time_overflow() {
    let a = "a".repeat(40);
    let porcelain = format!(
        "{a} 1 1 1\nauthor Carol\nauthor-time 9223372036854775807\nauthor-tz +0100\nsummary x\nfilename foo\n\tline\n"
    );
    assert!(parse_porcelain_checked(&porcelain).is_none());
}

#[test]
fn checked_parse_refuses_split_time_zone() {
    let a = "a".repeat(40);
    let porcelain = format!("{a} 1 1 1\nauthor Carol\nauthor-tz +0é0\n\tline\n");
    assert!(parse_porcelain_checked(&porcelain).is_none());
    assert!(!tz_offset_safe("+0é0"));
    assert!(tz_offset_safe("+0530"));
    assert!(tz_offset_safe("é"));
}
