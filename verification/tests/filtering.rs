use c2pa_attacks::fields::FieldSelector;
use c2pa_attacks::filter::{filter_definition, AssertionView, assertion_conflicts};
use c2pa_attacks::mutate::{mutate, MutateError};

fn definition_with_two_assertions() -> String {
    let mut s = String::new();
    s.push_str("{\"title\": \"base\", \"assertions\": [");
    s.push_str("{\"label\": \"stds.schema-org.CreativeWork\", \"data\": {");
    s.push_str("\"author\": [{\"@type\": \"Person\", \"name\": \"someone\"}]}},");
    s.push_str("{\"label\": \"c2pa.actions\", \"data\": {\"actions\": []}}");
    s.push_str("]}");
    s
}

#[test]
fn author_target_drops_the_authorship_assertion_and_keeps_the_rest() {
    let (object, dropped) =
        filter_definition(&definition_with_two_assertions(), FieldSelector::Author).unwrap();
    assert_eq!(dropped, 1);
    let assertions = object.get("assertions").unwrap().as_array().unwrap();
    assert_eq!(assertions.len(), 1);
    assert_eq!(assertions[0]["label"], serde_json::Value::String("c2pa.actions".to_string()));
    // untouched top-level keys survive
    assert_eq!(object.get("title").unwrap(), &serde_json::Value::String("base".to_string()));
}

#[test]
fn title_target_keeps_every_assertion_in_order() {
    let (object, dropped) =
        filter_definition(&definition_with_two_assertions(), FieldSelector::Title).unwrap();
    assert_eq!(dropped, 0);
    let assertions = object.get("assertions").unwrap().as_array().unwrap();
    assert_eq!(assertions.len(), 2);
    assert_eq!(
        assertions[0]["label"],
        serde_json::Value::String("stds.schema-org.CreativeWork".to_string())
    );
    assert_eq!(assertions[1]["label"], serde_json::Value::String("c2pa.actions".to_string()));
}

#[test]
fn person_identifier_target_drops_creator_claims_too() {
    let mut s = String::new();
    s.push_str("{\"assertions\": [");
    s.push_str("{\"label\": \"stds.schema-org.CreativeWork\", \"data\": {");
    s.push_str("\"creator\": [{\"@type\": \"Person\", \"name\": \"someone\"}]}}");
    s.push_str("]}");
    let (object, dropped) = filter_definition(&s, FieldSelector::PersonIdentifier).unwrap();
    assert_eq!(dropped, 1);
    assert_eq!(object.get("assertions").unwrap().as_array().unwrap().len(), 0);
    // the Author target has no quarrel with a creator-only claim
    let (_, dropped_for_author) = filter_definition(&s, FieldSelector::Author).unwrap();
    assert_eq!(dropped_for_author, 0);
}

#[test]
fn creative_work_without_authorship_survives() {
    let s = "{\"assertions\": [{\"label\": \"stds.schema-org.CreativeWork\", \
             \"data\": {\"url\": \"https://example.com\"}}]}";
    let (object, dropped) = filter_definition(s, FieldSelector::Author).unwrap();
    assert_eq!(dropped, 0);
    assert_eq!(object.get("assertions").unwrap().as_array().unwrap().len(), 1);
}

#[test]
fn missing_assertions_key_passes_the_object_through() {
    let (object, dropped) =
        filter_definition("{\"title\": \"base\"}", FieldSelector::Author).unwrap();
    assert_eq!(dropped, 0);
    assert_eq!(object.get("title").unwrap(), &serde_json::Value::String("base".to_string()));
    assert!(object.get("assertions").is_none());
}

#[test]
fn non_array_assertions_are_malformed() {
    let r = filter_definition("{\"assertions\": 7}", FieldSelector::Author);
    assert!(matches!(r, Err(MutateError::MalformedAssertions)));
}

#[test]
fn creative_work_without_object_data_is_malformed() {
    let s = "{\"assertions\": [{\"label\": \"stds.schema-org.CreativeWork\"}]}";
    let r = filter_definition(s, FieldSelector::Author);
    assert!(matches!(r, Err(MutateError::MalformedAssertions)));
}

#[test]
fn invalid_json_is_rejected() {
    let r = filter_definition("[1, 2, 3]", FieldSelector::Author);
    assert!(matches!(r, Err(MutateError::InvalidJson)));
}

#[test]
fn field_mode_serialization_round_trips() {
    let outcome =
        mutate(&definition_with_two_assertions(), FieldSelector::Author, "x").unwrap();
    let parsed: serde_json::Value = serde_json::from_str(&outcome.text).unwrap();
    assert_eq!(parsed["assertions"].as_array().unwrap().len(), 1);
    assert_eq!(outcome.dropped_assertions, 1);
}

#[test]
fn conflict_rule_is_exact() {
    let cw_author = AssertionView { creative_work: true, has_author: true, has_creator: false };
    let cw_creator = AssertionView { creative_work: true, has_author: false, has_creator: true };
    let plain = AssertionView { creative_work: false, has_author: true, has_creator: true };
    assert!(assertion_conflicts(cw_author, FieldSelector::Author));
    assert!(assertion_conflicts(cw_author, FieldSelector::PersonIdentifier));
    assert!(!assertion_conflicts(cw_author, FieldSelector::Title));
    assert!(!assertion_conflicts(cw_creator, FieldSelector::Author));
    assert!(assertion_conflicts(cw_creator, FieldSelector::PersonIdentifier));
    assert!(!assertion_conflicts(plain, FieldSelector::Author));
    assert!(!assertion_conflicts(plain, FieldSelector::PersonIdentifier));
}
