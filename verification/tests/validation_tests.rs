use rdf_editor::RdfEditorError;
use rdf_editor::sanitize_literal_value;
use rdf_editor::validate_blank_node_id;
use rdf_editor::validate_language_tag;
use rdf_editor::validate_uri;

#[test]
fn uris_need_a_served_scheme() {
    assert!(validate_uri("http://example.com/a").is_ok());
    assert!(validate_uri("https://example.com/a").is_ok());
    assert!(validate_uri("urn:isbn:0451450523").is_ok());
    assert!(matches!(validate_uri(""), Err(RdfEditorError::InvalidInput(_))));
    assert!(matches!(validate_uri("ftp://x"), Err(RdfEditorError::InvalidInput(_))));
}

#[test]
fn uris_reject_injection_characters() {
    assert!(matches!(
        validate_uri("http://example.com/{x}"),
        Err(RdfEditorError::InvalidInput(_))
    ));
    assert!(matches!(
        validate_uri("http://example.com/a;b"),
        Err(RdfEditorError::InvalidInput(_))
    ));
}

#[test]
fn http_uris_must_parse_as_urls() {
    // The scheme prefix alone is not a parseable URL.
    assert!(matches!(validate_uri("http://"), Err(RdfEditorError::InvalidInput(_))));
    // urn: URIs are accepted without URL parsing.
    assert!(validate_uri("urn:whatever goes").is_ok());
}

#[test]
fn language_tags_need_a_short_alphabetic_primary_subtag() {
    assert!(validate_language_tag("en").is_ok());
    assert!(validate_language_tag("en-US").is_ok());
    assert!(validate_language_tag("deu").is_ok());
    assert!(matches!(validate_language_tag(""), Err(RdfEditorError::InvalidInput(_))));
    assert!(matches!(validate_language_tag("e"), Err(RdfEditorError::InvalidInput(_))));
    assert!(matches!(validate_language_tag("abcd"), Err(RdfEditorError::InvalidInput(_))));
    assert!(matches!(validate_language_tag("1n"), Err(RdfEditorError::InvalidInput(_))));
    assert!(matches!(validate_language_tag("en\""), Err(RdfEditorError::InvalidInput(_))));
    assert!(matches!(validate_language_tag("en\\x"), Err(RdfEditorError::InvalidInput(_))));
}

#[test]
fn blank_node_ids_are_alphanumeric_or_underscore() {
    assert!(validate_blank_node_id("b1_x").is_ok());
    assert!(validate_blank_node_id("étiquette1").is_ok()); // Unicode letters count
    assert!(matches!(validate_blank_node_id(""), Err(RdfEditorError::InvalidInput(_))));
    assert!(matches!(validate_blank_node_id("a b"), Err(RdfEditorError::InvalidInput(_))));
    assert!(matches!(validate_blank_node_id("a\"b"), Err(RdfEditorError::InvalidInput(_))));
    assert!(matches!(validate_blank_node_id("a-b"), Err(RdfEditorError::InvalidInput(_))));
}

#[test]
fn sanitization_escapes_the_five_special_characters() {
    assert_eq!(
        sanitize_literal_value("a\"b\\c\nd\re\tf"),
        "a\\\"b\\\\c\\nd\\re\\tf"
    );
    assert_eq!(sanitize_literal_value("plain"), "plain");
    assert_eq!(sanitize_literal_value(""), "");
}
