use c2pa_attacks::escape::escape;

#[test]
fn dangling_backslash_is_doubled() {
    // one trailing backslash: the dangling case
    assert_eq!(escape("abc\\"), "abc\\\\");
}

#[test]
fn dangling_backslash_doubles_interior_backslashes_too() {
    assert_eq!(escape("a\\b\\"), "a\\\\b\\\\");
}

#[test]
fn dangling_backslash_also_escapes_quotes() {
    assert_eq!(escape("a\"b\\"), "a\\\"b\\\\");
}

#[test]
fn lone_backslash_is_doubled() {
    assert_eq!(escape("\\"), "\\\\");
}

#[test]
fn double_trailing_backslash_is_kept() {
    // already doubled: not the dangling case, backslashes stay
    assert_eq!(escape("a\\\\"), "a\\\\");
}

#[test]
fn quotes_escaped_without_trailing_backslash() {
    assert_eq!(escape("a\"b\"c"), "a\\\"b\\\"c");
}

#[test]
fn interior_backslash_without_dangling_is_kept() {
    assert_eq!(escape("a\\b"), "a\\b");
}

#[test]
fn plain_payload_is_unchanged() {
    assert_eq!(escape("<script>alert('hi');</script>"), "<script>alert('hi');</script>");
}

#[test]
fn empty_payload_is_unchanged() {
    assert_eq!(escape(""), "");
}

#[test]
fn control_characters_pass_through() {
    // the escaper is a splice guard, not general JSON escaping
    assert_eq!(escape("a\tb\nc"), "a\tb\nc");
}
