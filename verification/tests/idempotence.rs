use c2pa_attacks::fields::FieldSelector;
use c2pa_attacks::mutate::mutate;

fn definition() -> String {
    let mut s = String::new();
    s.push_str("{\"title\": \"base\", \"vendor\": \"acme\", \"assertions\": [");
    s.push_str("{\"label\": \"stds.schema-org.CreativeWork\", \"data\": {");
    s.push_str("\"author\": [{\"@type\": \"Person\", \"name\": \"someone\"}]}},");
    s.push_str("{\"label\": \"c2pa.actions\", \"data\": {\"actions\": []}}");
    s.push_str("]}");
    s
}

#[test]
fn field_mode_mutation_is_deterministic() {
    let first = mutate(&definition(), FieldSelector::Author, "payload").unwrap();
    let second = mutate(&definition(), FieldSelector::Author, "payload").unwrap();
    // identical text, so identical structure a fortiori
    assert_eq!(first.text, second.text);
    assert_eq!(first.dropped_assertions, second.dropped_assertions);
    let a: serde_json::Value = serde_json::from_str(&first.text).unwrap();
    let b: serde_json::Value = serde_json::from_str(&second.text).unwrap();
    assert_eq!(a, b);
}

#[test]
fn regex_mode_mutation_is_deterministic() {
    let template = "{\"title\": \"C2PA_ATTACK\"}";
    let first = mutate(template, FieldSelector::Regex, "a\"b\\").unwrap();
    let second = mutate(template, FieldSelector::Regex, "a\"b\\").unwrap();
    assert_eq!(first.text, second.text);
}

#[test]
fn field_mode_keeps_key_values_across_serialization() {
    let outcome = mutate(&definition(), FieldSelector::Author, "payload").unwrap();
    let parsed: serde_json::Value = serde_json::from_str(&outcome.text).unwrap();
    assert_eq!(parsed["title"], serde_json::Value::String("base".to_string()));
    assert_eq!(parsed["vendor"], serde_json::Value::String("acme".to_string()));
}
