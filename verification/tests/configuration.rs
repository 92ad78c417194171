use c2pa_attacks::fields::{field_token, field_warning_needed, parse_field, FieldSelector};
use c2pa_attacks::settings::{
    plan_settings, trust_setting, verify_after_sign_setting, verify_trust_setting, TrustKind,
};
use c2pa_attacks::synth::{flat_target, synthesize_creative_work, FlatTarget};
use c2pa_attacks::trust::{parse_resource_string, TrustResource};

#[test]
fn every_selector_token_parses_back() {
    let selectors = vec![
        FieldSelector::Author,
        FieldSelector::Title,
        FieldSelector::Format,
        FieldSelector::Label,
        FieldSelector::Vendor,
        FieldSelector::PersonIdentifier,
        FieldSelector::InstanceId,
        FieldSelector::ClaimGenerator,
        FieldSelector::Regex,
    ];
    for s in selectors {
        assert_eq!(parse_field(field_token(s)), Some(s));
    }
}

#[test]
fn unknown_selector_is_rejected() {
    assert_eq!(parse_field("authors"), None);
    assert_eq!(parse_field(""), None);
    assert_eq!(parse_field("AUTHOR"), None);
}

#[test]
fn unreliable_selectors_warn() {
    assert!(field_warning_needed(FieldSelector::Format));
    assert!(field_warning_needed(FieldSelector::InstanceId));
    assert!(!field_warning_needed(FieldSelector::Title));
    assert!(!field_warning_needed(FieldSelector::Regex));
}

#[test]
fn author_claim_carries_the_payload_as_name() {
    let plan = synthesize_creative_work(FieldSelector::Author, "<img src=x>").unwrap();
    assert_eq!(plan.author.name, "<img src=x>");
    assert!(plan.author.identifier.is_none());
    assert!(plan.author.id_refs.is_empty());
    assert!(plan.creator.is_none());
}

#[test]
fn person_identifier_claim_duplicates_the_payload() {
    let plan = synthesize_creative_work(FieldSelector::PersonIdentifier, "evil-id").unwrap();
    assert_eq!(plan.author.name, "Malicious User");
    assert_eq!(plan.author.identifier.as_deref(), Some("evil-id"));
    assert_eq!(plan.author.id_refs, vec!["evil-id".to_string()]);
    let creator = plan.creator.unwrap();
    assert_eq!(creator.name, "Malicious User");
    assert_eq!(creator.identifier.as_deref(), Some("evil-id"));
    assert_eq!(creator.id_refs, vec!["evil-id".to_string()]);
}

#[test]
fn only_authorship_selectors_synthesize_claims() {
    assert!(synthesize_creative_work(FieldSelector::Title, "x").is_none());
    assert!(synthesize_creative_work(FieldSelector::Regex, "x").is_none());
    assert!(synthesize_creative_work(FieldSelector::Vendor, "x").is_none());
}

#[test]
fn flat_targets_match_their_selectors() {
    assert_eq!(flat_target(FieldSelector::Title), Some(FlatTarget::Title));
    assert_eq!(flat_target(FieldSelector::ClaimGenerator), Some(FlatTarget::ClaimGenerator));
    assert_eq!(flat_target(FieldSelector::Label), Some(FlatTarget::Label));
    assert_eq!(flat_target(FieldSelector::Format), Some(FlatTarget::Format));
    assert_eq!(flat_target(FieldSelector::Vendor), Some(FlatTarget::Vendor));
    assert_eq!(flat_target(FieldSelector::InstanceId), Some(FlatTarget::InstanceId));
    assert_eq!(flat_target(FieldSelector::Author), None);
    assert_eq!(flat_target(FieldSelector::PersonIdentifier), None);
    assert_eq!(flat_target(FieldSelector::Regex), None);
}

#[test]
fn trust_setting_embeds_the_data_as_a_json_string() {
    let setting = trust_setting(TrustKind::Anchors, "line one\n\"quoted\"");
    let parsed: serde_json::Value = serde_json::from_str(&setting).unwrap();
    assert_eq!(
        parsed["trust"]["trust_anchors"],
        serde_json::Value::String("line one\n\"quoted\"".to_string())
    );
}

#[test]
fn verify_switches_render_both_ways() {
    assert_eq!(verify_trust_setting(true), "{\"verify\": { \"verify_trust\": true} }");
    assert_eq!(verify_trust_setting(false), "{\"verify\": { \"verify_trust\": false} }");
    assert_eq!(
        verify_after_sign_setting(true),
        "{\"verify\": { \"verify_after_sign\": true } }"
    );
    assert_eq!(
        verify_after_sign_setting(false),
        "{\"verify\": { \"verify_after_sign\": false } }"
    );
}

#[test]
fn settings_plan_without_resources_disables_trust_checks() {
    let plan = plan_settings(None, None, None, true);
    assert_eq!(plan.len(), 2);
    assert_eq!(plan[0], "{\"verify\": { \"verify_trust\": false} }");
    assert_eq!(plan[1], "{\"verify\": { \"verify_after_sign\": true } }");
}

#[test]
fn settings_plan_orders_trust_resources_first() {
    let plan = plan_settings(Some("PEM A"), None, Some("1.2.3"), false);
    assert_eq!(plan.len(), 4);
    assert_eq!(plan[0], "{\"trust\": { \"trust_anchors\": \"PEM A\" } }");
    assert_eq!(plan[1], "{\"trust\": { \"trust_config\": \"1.2.3\" } }");
    assert_eq!(plan[2], "{\"verify\": { \"verify_trust\": true} }");
    assert_eq!(plan[3], "{\"verify\": { \"verify_after_sign\": false } }");
}

#[test]
fn urls_and_paths_are_told_apart() {
    match parse_resource_string("https://example.com/anchors.pem") {
        TrustResource::Remote(url) => assert_eq!(url.scheme(), "https"),
        TrustResource::Local(_) => panic!("a URL was taken for a path"),
    }
    match parse_resource_string("certs/anchors.pem") {
        TrustResource::Remote(_) => panic!("a path was taken for a URL"),
        TrustResource::Local(p) => assert_eq!(p, "certs/anchors.pem"),
    }
}
