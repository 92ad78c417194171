use c2pa_attacks::fields::FieldSelector;
use c2pa_attacks::mutate::{mutate, MutateError};
use c2pa_attacks::textsub::{find_token, replace_token};

#[test]
fn regex_mode_replaces_the_single_sentinel() {
    let template = "{\"title\": \"C2PA_ATTACK\", \"assertions\": []}";
    let payload = "<script>alert('hi');</script>";
    let outcome = mutate(template, FieldSelector::Regex, payload).unwrap();
    assert!(outcome.regex_mode);
    assert_eq!(outcome.dropped_assertions, 0);
    assert_eq!(outcome.text.matches("C2PA_ATTACK").count(), 0);
    assert_eq!(outcome.text.matches(payload).count(), 1);
    assert_eq!(outcome.text, "{\"title\": \"<script>alert('hi');</script>\", \"assertions\": []}");
}

#[test]
fn regex_mode_replaces_every_occurrence() {
    let template = "C2PA_ATTACK and C2PA_ATTACK";
    let outcome = mutate(template, FieldSelector::Regex, "x").unwrap();
    assert_eq!(outcome.text, "x and x");
}

#[test]
fn regex_mode_escapes_the_payload_before_splicing() {
    let template = "{\"title\": \"C2PA_ATTACK\"}";
    let outcome = mutate(template, FieldSelector::Regex, "a\"b\\").unwrap();
    assert_eq!(outcome.text, "{\"title\": \"a\\\"b\\\\\"}");
    // the spliced text stays a valid JSON object
    let parsed: serde_json::Value = serde_json::from_str(&outcome.text).unwrap();
    assert_eq!(parsed["title"], serde_json::Value::String("a\"b\\".to_string()));
}

#[test]
fn regex_request_without_sentinel_falls_back_to_field_mode() {
    let template = "{\"title\": \"untouched\"}";
    let outcome = mutate(template, FieldSelector::Regex, "payload").unwrap();
    assert!(!outcome.regex_mode);
    assert_eq!(outcome.text.matches("payload").count(), 0);
}

#[test]
fn sentinel_with_non_regex_field_is_not_substituted() {
    let template = "{\"title\": \"C2PA_ATTACK\"}";
    let outcome = mutate(template, FieldSelector::Title, "payload").unwrap();
    assert!(!outcome.regex_mode);
    assert_eq!(outcome.text.matches("C2PA_ATTACK").count(), 1);
}

#[test]
fn regex_mode_skips_json_validation() {
    // regex mode is verbatim text substitution, even over non-JSON text
    let outcome = mutate("no json, only C2PA_ATTACK", FieldSelector::Regex, "x").unwrap();
    assert_eq!(outcome.text, "no json, only x");
}

#[test]
fn field_mode_rejects_invalid_json() {
    let r = mutate("not json at all", FieldSelector::Title, "x");
    assert!(matches!(r, Err(MutateError::InvalidJson)));
}

#[test]
fn find_and_replace_work_on_plain_text() {
    assert!(find_token("abcdef", "cde"));
    assert!(!find_token("abcdef", "xyz"));
    assert_eq!(replace_token("aaa", "aa", "b"), "ba");
    assert_eq!(replace_token("abab", "ab", ""), "");
    assert_eq!(replace_token("xyz", "ab", "q"), "xyz");
}
