use tone_rig::extract::{parse_json_object_from_text, parse_json_object_segment, InvalidStructuredResponse};
use tone_rig::json::Json;

fn a_is_one() -> Json {
    Json::Object(vec![("a".to_string(), Json::Int(1))])
}

#[test]
fn object_amid_noise_is_found() {
    assert_eq!(parse_json_object_from_text("noise {\"a\":1} trailing"), Ok(a_is_one()));
}

#[test]
fn fenced_object_is_found() {
    assert_eq!(parse_json_object_from_text("```json\n{\"a\":1}\n```"), Ok(a_is_one()));
    assert_eq!(parse_json_object_from_text("```\n{\"a\":1}\n```"), Ok(a_is_one()));
}

#[test]
fn plain_object_is_found() {
    assert_eq!(parse_json_object_from_text("  {\"a\":1}  "), Ok(a_is_one()));
}

#[test]
fn empty_text_fails_with_a_diagnostic() {
    let err = parse_json_object_from_text("").unwrap_err();
    assert_eq!(err, InvalidStructuredResponse::Empty);
    assert_eq!(err.message(), "Empty Gemini response");
    assert_eq!(parse_json_object_from_text(" \n\t "), Err(InvalidStructuredResponse::Empty));
}

#[test]
fn text_without_json_fails() {
    let err = parse_json_object_from_text("not json at all").unwrap_err();
    assert_eq!(
        err,
        InvalidStructuredResponse::NoObject { excerpt: "not json at all".to_string() }
    );
    assert_eq!(err.message(), "Invalid JSON from Gemini: not json at all");
}

#[test]
fn failure_carries_the_first_200_characters() {
    let long = "x".repeat(450);
    match parse_json_object_from_text(&long) {
        Err(InvalidStructuredResponse::NoObject { excerpt }) => {
            assert_eq!(excerpt.chars().count(), 200);
            assert_eq!(excerpt, "x".repeat(200));
        }
        other => panic!("unexpected {:?}", other),
    }
}

#[test]
fn arrays_and_scalars_are_refused() {
    assert!(parse_json_object_from_text("[1, 2, 3]").is_err());
    assert!(parse_json_object_from_text("42").is_err());
    assert!(parse_json_object_from_text("\"text\"").is_err());
    assert_eq!(parse_json_object_segment("[{\"a\":1}]"), None);
}

#[test]
fn array_of_objects_yields_the_first_object_inside() {
    assert_eq!(parse_json_object_from_text("[{\"a\":1}, {\"b\":2}]"), Ok(a_is_one()));
}

#[test]
fn object_broken_across_lines_inside_a_string_is_repaired() {
    let text = "{\"reason\": \"first\nsecond\"}";
    let expected = Json::Object(vec![("reason".to_string(), Json::Str("first second".to_string()))]);
    assert_eq!(parse_json_object_from_text(text), Ok(expected));
}

#[test]
fn fence_without_closing_marker_falls_back_to_scanning() {
    assert_eq!(parse_json_object_from_text("```json\n{\"a\":1}"), Ok(a_is_one()));
}

#[test]
fn malformed_json_is_not_accepted() {
    assert!(parse_json_object_from_text("{\"a\": }").is_err());
    assert!(parse_json_object_from_text("{a: 1}").is_err());
}

#[test]
fn segment_ignores_what_follows_the_object() {
    assert_eq!(parse_json_object_segment("{\"a\":1} and more"), Some(a_is_one()));
    assert_eq!(parse_json_object_segment("x {\"a\":1}"), None);
}

#[test]
fn numbers_keep_their_kind() {
    let doc = parse_json_object_segment(
        "{\"i\": -3, \"u\": 18446744073709551615, \"r\": 1.5, \"n\": null, \"b\": true, \"l\": [1, \"x\"]}",
    )
    .unwrap();
    assert_eq!(doc.get("i"), Some(&Json::Int(-3)));
    assert_eq!(doc.get("u"), Some(&Json::Uint(18446744073709551615)));
    assert_eq!(doc.get("r"), Some(&Json::Real("1.5".to_string())));
    assert_eq!(doc.get("n"), Some(&Json::Null));
    assert_eq!(doc.get("b"), Some(&Json::Bool(true)));
    assert_eq!(
        doc.get("l"),
        Some(&Json::Array(vec![Json::Int(1), Json::Str("x".to_string())]))
    );
    assert_eq!(doc.get("missing"), None);
}

#[test]
fn whitespace_inside_a_broken_object_is_collapsed() {
    let text = "{\"reason\": \"first\r\n\tsecond   third\"}";
    let expected =
        Json::Object(vec![("reason".to_string(), Json::Str("first second third".to_string()))]);
    assert_eq!(parse_json_object_from_text(text), Ok(expected));
}

#[test]
fn well_formed_object_keeps_its_whitespace() {
    let text = "{\"reason\": \"two  spaces\"}";
    let expected =
        Json::Object(vec![("reason".to_string(), Json::Str("two  spaces".to_string()))]);
    assert_eq!(parse_json_object_from_text(text), Ok(expected));
}
