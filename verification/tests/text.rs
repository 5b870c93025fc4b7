use html2kotlin::error::ConvertError;
use html2kotlin::text::is_whitespace_char;

#[test]
fn whitespace_is_what_the_standard_library_calls_whitespace() {
    let mut count = 0;
    for code in 0..=0x10FFFFu32 {
        if let Some(c) = char::from_u32(code) {
            assert_eq!(is_whitespace_char(c), c.is_whitespace(), "U+{:04X}", code);
            if is_whitespace_char(c) {
                count += 1;
            }
        }
    }
    assert_eq!(count, 25);
}

#[test]
fn whitespace_examples() {
    assert!(is_whitespace_char(' '));
    assert!(is_whitespace_char('\n'));
    assert!(is_whitespace_char('\u{a0}'));
    assert!(!is_whitespace_char('a'));
    assert!(!is_whitespace_char('\u{200b}'));
    assert!(!is_whitespace_char('\u{1c}'));
}

#[test]
fn error_messages() {
    assert_eq!(
        ConvertError::InvalidLength.message(),
        "The input string length is too large to fit in a `u32`"
    );
}
