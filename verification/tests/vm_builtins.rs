use sha3::Digest;
use snsx::vm::{
    builtin_contains, builtin_draft, builtin_int, builtin_is_digits, builtin_is_email, builtin_is_int, builtin_panel,
    builtin_sha3, builtin_text_len,
};

#[test]
fn text_builtins_measure_and_search() {
    assert_eq!(builtin_text_len("abc"), 3);
    assert_eq!(builtin_text_len("é"), 2);
    assert_eq!(builtin_text_len(""), 0);
    assert!(builtin_contains("hello world", "lo w"));
    assert!(builtin_contains("hello", ""));
    assert!(!builtin_contains("hello", "world"));
    assert!(!builtin_contains("lo", "hello"));
}

#[test]
fn int_builtins_read_decimal_integers() {
    assert_eq!(builtin_int(" 42 "), Ok(42));
    assert_eq!(builtin_int("-7"), Ok(-7));
    assert_eq!(builtin_int("+7"), Ok(7));
    assert_eq!(builtin_int("-9223372036854775808"), Ok(i64::MIN));
    assert_eq!(builtin_int("   "), Err("int expects a non-empty numeric string".to_string()));
    assert_eq!(builtin_int(" 4x "), Err("int could not parse '4x'".to_string()));
    assert_eq!(builtin_int("9223372036854775808"), Err("int could not parse '9223372036854775808'".to_string()));
    assert!(builtin_is_int(" 12 "));
    assert!(!builtin_is_int(""));
    assert!(!builtin_is_int("1.5"));
    assert!(!builtin_is_int("+"));
    assert!(builtin_is_digits(" 0123 "));
    assert!(!builtin_is_digits("-1"));
    assert!(!builtin_is_digits("  "));
}

#[test]
fn email_builtin_checks_the_shape() {
    assert!(builtin_is_email(" a@b.c "));
    assert!(!builtin_is_email("ab.c"));
    assert!(!builtin_is_email("a@bc"));
    assert!(!builtin_is_email("@b.c"));
    assert!(!builtin_is_email("a@b."));
    assert!(!builtin_is_email(".a@b"));
    assert!(!builtin_is_email(""));
}

#[test]
fn sha3_builtin_is_the_hex_digest() {
    let expected: String = sha3::Sha3_256::digest("snsx".as_bytes()).iter().map(|b| format!("{b:02x}")).collect();
    assert_eq!(builtin_sha3("snsx"), expected);
    assert_eq!(
        builtin_sha3(""),
        "a7ffc6f8bf1ed76651c14756a061d662f580ff4de43b49fa82d80a4b80f8434a"
    );
}

#[test]
fn layout_builtins_frame_their_body() {
    assert_eq!(builtin_draft("Notes", "line"), "<draft title=\"Notes\">\nline\n</draft>");
    assert_eq!(builtin_panel("Status", "ok"), "[Status]\nok");
}
