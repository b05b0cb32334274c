use tone_rig::advice::{parse_picks, parse_reason, stated_line, Answer};
use tone_rig::analysis::{analyze_tone_request, join_lines, parse_explanation_lines, Analysis};
use tone_rig::completion::{
    gemini_response_text, CompletionCall, CompletionError, CompletionStep, Reply,
};
use tone_rig::extract::{parse_json_object_segment, InvalidStructuredResponse};
use tone_rig::json::Json;

fn lines(items: &[&str]) -> Vec<String> {
    items.iter().map(|s| s.to_string()).collect()
}

fn object(text: &str) -> Option<Json> {
    parse_json_object_segment(text)
}

fn envelope(text: &str) -> String {
    let quoted = serde_json::to_string(&serde_json::Value::String(text.to_string())).unwrap();
    format!("{{\"candidates\": [{{\"content\": {{\"parts\": [{{\"text\": {quoted}}}]}}}}]}}")
}

#[test]
fn analysis_is_read_from_the_answer() {
    let answer = object(
        "{\"search_queries\": [\" Metallica \", \"\", 5, \"Enter\\nSandman\", \"Mesa\", \"fourth\"], \
          \"gear_type\": \" amp \", \"description\": \" Tight\\r\\nrhythm \", \
          \"fallback_queries\": [\"metal amp\"], \
          \"explanation_steps\": [\"one\", \"two\", \"three\", \"four\", \"five\", \"six\"]}",
    )
    .unwrap();
    let a = analyze_tone_request(Answer::Given(&answer), "my request");
    assert_eq!(
        a,
        Analysis {
            search_queries: lines(&["Metallica", "Enter Sandman", "Mesa"]),
            gear_type: Some("amp".to_string()),
            description: "Tight  rhythm".to_string(),
            fallback_queries: lines(&["metal amp"]),
            explanation_steps: lines(&["one", "two", "three", "four", "five"]),
        }
    );
}

#[test]
fn analysis_fills_in_what_the_answer_lacks() {
    let answer = object("{\"gear_type\": \"guitar\", \"description\": \"  \"}").unwrap();
    let a = analyze_tone_request(Answer::Given(&answer), "  crunchy\n90s metal ");
    assert_eq!(
        a,
        Analysis {
            search_queries: lines(&["crunchy 90s metal"]),
            gear_type: None,
            description: "Request analysis completed".to_string(),
            fallback_queries: Vec::new(),
            explanation_steps: lines(&[
                "Target tone request: crunchy 90s metal",
                "Primary search queries: crunchy 90s metal",
            ]),
        }
    );
    let answer =
        object("{\"search_queries\": [\"a\", \"b\"], \"gear_type\": \"pedal\"}").unwrap();
    let a = analyze_tone_request(Answer::Given(&answer), "req");
    assert_eq!(
        a.explanation_steps,
        lines(&["Target tone request: req", "Primary search queries: a, b", "Focus on gear type: pedal"])
    );
    for gear in ["amp", "ir", "pedal"] {
        let answer = Json::Object(vec![("gear_type".to_string(), Json::Str(gear.to_string()))]);
        assert_eq!(analyze_tone_request(Answer::Given(&answer), "r").gear_type.as_deref(), Some(gear));
    }
    let upper = Json::Object(vec![("gear_type".to_string(), Json::Str("AMP".to_string()))]);
    assert_eq!(analyze_tone_request(Answer::Given(&upper), "r").gear_type, None);
}

#[test]
fn analysis_degrades_without_an_answer() {
    let a = analyze_tone_request(Answer::Failed("no json"), " a crunchy\ntone ");
    assert_eq!(
        a,
        Analysis {
            search_queries: lines(&["a crunchy tone"]),
            gear_type: None,
            description: "Fallback analysis used because Gemini response was invalid.".to_string(),
            fallback_queries: Vec::new(),
            explanation_steps: lines(&[
                "Gemini did not return valid JSON for analysis.",
                "Used the original user request directly as the main search query.",
                "Continued with neutral gear filter.",
            ]),
        }
    );
}

#[test]
fn explanation_lines_are_capped() {
    let doc = object("{\"l\": [\"a\", \" \", \"b\", 3, \"c\"], \"s\": \"text\"}").unwrap();
    assert_eq!(parse_explanation_lines(doc.get("l"), 5), lines(&["a", "b", "c"]));
    assert_eq!(parse_explanation_lines(doc.get("l"), 2), lines(&["a", "b"]));
    assert_eq!(parse_explanation_lines(doc.get("l"), 0), Vec::<String>::new());
    assert_eq!(parse_explanation_lines(doc.get("s"), 5), Vec::<String>::new());
    assert_eq!(parse_explanation_lines(None, 5), Vec::<String>::new());
    assert_eq!(join_lines(&lines(&["a", "b", "c"]), ", "), "a, b, c");
    assert_eq!(join_lines(&lines(&["a"]), ", "), "a");
    assert_eq!(join_lines(&Vec::new(), ", "), "");
    assert_eq!(join_lines(&lines(&["", "x"]), "-"), "-x");
}

#[test]
fn picks_and_reasons_are_read_from_an_answer() {
    let doc = object(
        "{\"p\": [0, 2, -1, \"3\", 2, 1.0, 7], \"r\": [{\"index\": 2, \"reason\": \"a\"}, \
          {\"index\": 2, \"reason\": \"\"}, {\"index\": \"2\", \"reason\": \"b\"}, {\"index\": 1, \"reason\": 4}], \
          \"s\": \" said \"}",
    )
    .unwrap();
    assert_eq!(parse_picks(doc.get("p")), vec![0, 2, 2, 7]);
    assert_eq!(parse_picks(doc.get("s")), Vec::<usize>::new());
    assert_eq!(parse_picks(None), Vec::<usize>::new());
    assert_eq!(parse_reason(doc.get("r"), 2), Some("a".to_string()));
    assert_eq!(parse_reason(doc.get("r"), 1), None);
    assert_eq!(parse_reason(doc.get("r"), 0), None);
    assert_eq!(parse_reason(doc.get("p"), 0), None);
    assert_eq!(stated_line(doc.get("s")), Some("said".to_string()));
    assert_eq!(stated_line(doc.get("p")), None);
}

#[test]
fn response_text_is_taken_from_the_reply() {
    let direct = object("{\"text\": \"  hello \", \"candidates\": []}").unwrap();
    assert_eq!(gemini_response_text(&direct), "hello");
    let parts = object(
        "{\"text\": \" \", \"candidates\": [{\"content\": {\"parts\": [{\"text\": \" {\\\"a\\\"\"}, {\"x\": 1}, {\"text\": \":1} \"}]}}, {\"content\": {\"parts\": [{\"text\": \"second\"}]}}]}",
    )
    .unwrap();
    assert_eq!(gemini_response_text(&parts), "{\"a\":1}");
    for text in ["{}", "{\"candidates\": []}", "{\"candidates\": [{}]}", "{\"candidates\": [{\"content\": {\"parts\": 3}}]}"] {
        assert_eq!(gemini_response_text(&object(text).unwrap()), "", "for {text}");
    }
    assert_eq!(gemini_response_text(&Json::Array(Vec::new())), "");
}

#[test]
fn completion_succeeds_on_the_first_good_reply() {
    let call = CompletionCall::new("prompt".to_string());
    assert_eq!(call.prompt_to_send(), "prompt");
    let body = envelope("```json\n{\"a\": 1}\n```");
    assert_eq!(
        call.on_reply(Reply::Body(&body)),
        CompletionStep::Done(Json::Object(vec![("a".to_string(), Json::Int(1))]))
    );
}

#[test]
fn completion_retries_once_and_only_once() {
    let call = CompletionCall::new("prompt".to_string());
    let bad = envelope("I cannot answer in JSON");
    let retry = match call.on_reply(Reply::Body(&bad)) {
        CompletionStep::Retry(next) => next,
        other => panic!("unexpected {:?}", other),
    };
    assert!(retry.retried);
    assert_eq!(
        retry.prompt_to_send(),
        "prompt\n\nIMPORTANT: Your previous response was invalid JSON. Return ONLY valid JSON that matches the required schema. Do not include newlines inside string values."
    );
    let failed = retry.on_reply(Reply::Body(&bad));
    let expected = CompletionError::Unparsable {
        last: InvalidStructuredResponse::NoObject { excerpt: "I cannot answer in JSON".to_string() },
    };
    assert_eq!(failed, CompletionStep::Failed(expected));
    let message = match failed {
        CompletionStep::Failed(e) => e.message(),
        _ => unreachable!(),
    };
    assert_eq!(
        message,
        "Failed to get valid JSON from Gemini: Invalid JSON from Gemini: I cannot answer in JSON"
    );
}

#[test]
fn completion_succeeds_on_the_retry() {
    let retry = match CompletionCall::new("p".to_string()).on_reply(Reply::Body(&envelope(""))) {
        CompletionStep::Retry(next) => next,
        other => panic!("unexpected {:?}", other),
    };
    assert_eq!(
        retry.on_reply(Reply::Body(&envelope("{\"ok\": true}"))),
        CompletionStep::Done(Json::Object(vec![("ok".to_string(), Json::Bool(true))]))
    );
}

#[test]
fn empty_completion_is_reported_as_empty() {
    let call = CompletionCall { prompt: "p".to_string(), retried: true };
    assert_eq!(
        call.on_reply(Reply::Body("{}")),
        CompletionStep::Failed(CompletionError::Unparsable { last: InvalidStructuredResponse::Empty })
    );
}

#[test]
fn transport_failure_is_fatal_without_retry() {
    for retried in [false, true] {
        let call = CompletionCall { prompt: "p".to_string(), retried };
        assert_eq!(
            call.on_reply(Reply::Broken("Gemini API returned error: 500")),
            CompletionStep::Failed(CompletionError::Transport {
                message: "Gemini API returned error: 500".to_string()
            })
        );
        let call = CompletionCall { prompt: "p".to_string(), retried };
        assert_eq!(
            call.on_reply(Reply::Body("<html>")),
            CompletionStep::Failed(CompletionError::Transport {
                message: "Gemini response parse failed".to_string()
            })
        );
    }
}
