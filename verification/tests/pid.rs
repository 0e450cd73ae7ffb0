use pace_coach::parse_pid;

#[test]
fn pid_plain_and_with_newline() {
    assert_eq!(parse_pid("4242"), Some(4242));
    assert_eq!(parse_pid("4242\n"), Some(4242));
    assert_eq!(parse_pid("  \t 17 \r\n"), Some(17));
}

#[test]
fn pid_accepts_plus_sign() {
    assert_eq!(parse_pid("+12"), Some(12));
    assert_eq!(parse_pid("+"), None);
}

#[test]
fn pid_rejects_garbage() {
    assert_eq!(parse_pid(""), None);
    assert_eq!(parse_pid("   "), None);
    assert_eq!(parse_pid("-1"), None);
    assert_eq!(parse_pid("12a"), None);
    assert_eq!(parse_pid("1 2"), None);
}

#[test]
fn pid_bounds() {
    assert_eq!(parse_pid("4294967295"), Some(u32::MAX));
    assert_eq!(parse_pid("4294967296"), None);
    assert_eq!(parse_pid("99999999999999999999x"), None);
    assert_eq!(parse_pid("0"), Some(0));
}

#[test]
fn pid_agrees_with_std() {
    for s in ["7", " 7", "\u{3000}8\u{00A0}", "+0", "00012", "x", "", "\u{2003}9\u{2003}", "1_0"] {
        assert_eq!(parse_pid(s), s.trim().parse::<u32>().ok(), "input {:?}", s);
    }
}
