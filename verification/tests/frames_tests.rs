use live_polls::frames::parse_frame;
use live_polls::frames::parse_u64;
use live_polls::frames::ControlFrame;

#[test]
fn join_and_leave_frames_parse() {
    assert_eq!(parse_frame("join 5"), Some(ControlFrame::Join(5)));
    assert_eq!(parse_frame("join 0"), Some(ControlFrame::Join(0)));
    assert_eq!(parse_frame("leave 42"), Some(ControlFrame::Leave(42)));
    assert_eq!(
        parse_frame("join 18446744073709551615"),
        Some(ControlFrame::Join(u64::MAX))
    );
}

#[test]
fn frames_not_understood_are_ignored() {
    assert_eq!(parse_frame(""), None);
    assert_eq!(parse_frame("hello"), None);
    assert_eq!(parse_frame("JOIN 5"), None);
    assert_eq!(parse_frame("join "), None);
    assert_eq!(parse_frame("join 05"), None);
    assert_eq!(parse_frame("join 5x"), None);
    assert_eq!(parse_frame("join -1"), None);
    assert_eq!(parse_frame("join 18446744073709551616"), None);
    assert_eq!(parse_frame("leave"), None);
}

#[test]
fn decimal_parsing_is_exact() {
    assert_eq!(parse_u64("0"), Some(0));
    assert_eq!(parse_u64("907"), Some(907));
    assert_eq!(parse_u64("18446744073709551615"), Some(u64::MAX));
    assert_eq!(parse_u64("18446744073709551616"), None);
    assert_eq!(parse_u64("99999999999999999999999"), None);
    assert_eq!(parse_u64("00"), None);
    assert_eq!(parse_u64(""), None);
    assert_eq!(parse_u64("12a"), None);
}
