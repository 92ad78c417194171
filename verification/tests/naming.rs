use c2pa_attacks::fields::FieldSelector;
use c2pa_attacks::naming::{
    check_output_paths, compose_output_name, extension_part, file_name_part, file_stem_part,
    output_file_name, resolve_ingredient_source, NamingError,
};

#[test]
fn title_example_name() {
    let name = output_file_name(FieldSelector::Title, "attacks/xss.attack", 3, "image.jpg");
    assert_eq!(name.unwrap(), "title_xss_3_image.jpg");
}

#[test]
fn name_uses_source_file_name_with_extension() {
    let name =
        output_file_name(FieldSelector::Author, "corpus/sqli.txt", 0, "sample/image.jpg");
    assert_eq!(name.unwrap(), "author_sqli_0_image.jpg");
}

#[test]
fn index_is_rendered_without_padding() {
    assert_eq!(compose_output_name(FieldSelector::Regex, "xss", 12345, "a.png"), "regex_xss_12345_a.png");
    assert_eq!(compose_output_name(FieldSelector::Vendor, "s", 0, "b.gif"), "vendor_s_0_b.gif");
    assert_eq!(
        compose_output_name(FieldSelector::PersonIdentifier, "payloads", 10, "c.mp4"),
        "person_identifier_payloads_10_c.mp4"
    );
}

#[test]
fn different_lines_get_different_names() {
    let a = output_file_name(FieldSelector::Title, "attacks/xss.attack", 1, "image.jpg").unwrap();
    let b = output_file_name(FieldSelector::Title, "attacks/xss.attack", 2, "image.jpg").unwrap();
    let c = output_file_name(FieldSelector::Title, "attacks/xss.attack", 12, "image.jpg").unwrap();
    assert_ne!(a, b);
    assert_ne!(a, c);
    assert_ne!(b, c);
}

#[test]
fn corpus_without_file_name_yields_nothing() {
    assert_eq!(output_file_name(FieldSelector::Title, "attacks/..", 1, "image.jpg"), None);
    assert_eq!(output_file_name(FieldSelector::Title, "attacks/xss.attack", 1, "dir/"), None);
}

#[test]
fn extension_mismatch_is_rejected() {
    assert_eq!(
        check_output_paths("out.png", "image.jpg"),
        Err(NamingError::ExtensionMismatch)
    );
}

#[test]
fn matching_paths_pass_the_guard() {
    assert_eq!(check_output_paths("sample_out/signed_image.jpg", "sample/image.jpg"), Ok(()));
}

#[test]
fn missing_file_name_is_rejected() {
    assert_eq!(check_output_paths("sample_out/..", "image"), Err(NamingError::MissingFileName));
}

#[test]
fn missing_extension_is_rejected() {
    assert_eq!(check_output_paths("sample_out/signed", "image"), Err(NamingError::MissingExtension));
}

#[test]
fn path_part_extraction() {
    assert_eq!(file_name_part("a/b/c.txt").unwrap(), "c.txt");
    assert_eq!(file_name_part("c.txt").unwrap(), "c.txt");
    assert_eq!(file_name_part("a/b/"), None);
    assert_eq!(file_name_part("a/."), None);
    assert_eq!(extension_part("a/b.tar.gz").unwrap(), "gz");
    assert_eq!(file_stem_part("a/b.tar.gz").unwrap(), "b.tar");
    assert_eq!(extension_part("a/.hidden"), None);
    assert_eq!(file_stem_part("a/.hidden").unwrap(), ".hidden");
    assert_eq!(extension_part("plain"), None);
    assert_eq!(file_stem_part("plain").unwrap(), "plain");
    assert_eq!(extension_part("dot.").unwrap(), "");
    assert_eq!(file_stem_part("dot.").unwrap(), "dot");
}

#[test]
fn ingredient_paths_resolve() {
    let (path, as_json) = resolve_ingredient_source("parents/thing", true);
    assert_eq!(path, "parents/thing/ingredient.json");
    assert!(as_json);
    let (path, as_json) = resolve_ingredient_source("parents/thing/", true);
    assert_eq!(path, "parents/thing/ingredient.json");
    assert!(as_json);
    let (path, as_json) = resolve_ingredient_source("parents/other.json", false);
    assert_eq!(path, "parents/other.json");
    assert!(as_json);
    let (path, as_json) = resolve_ingredient_source("parents/prior.jpg", false);
    assert_eq!(path, "parents/prior.jpg");
    assert!(!as_json);
}
