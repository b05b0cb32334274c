use tone_rig::decimal::{decimal_of, parse_i64};
use tone_rig::naming::{
    normalize_model_filename, safe_component, safe_filename, safe_tone_dir_name,
};
use tone_rig::options::{clamp_max_results, clamp_max_tones, normalize_gemini_model};
use tone_rig::queries::dedupe_non_empty_queries;
use tone_rig::text::{
    collapse_whitespace, eq_ignore_ascii_case, push_log, sanitize_line, str_contains, take_chars,
    trimmed,
};

fn chars(s: &str) -> Vec<char> {
    s.chars().collect()
}

#[test]
fn sanitize_line_replaces_breaks_and_trims() {
    assert_eq!(sanitize_line("  a\r\nb\nc  "), "a  b c");
    assert_eq!(sanitize_line("\n\n"), "");
    assert_eq!(sanitize_line("plain"), "plain");
    assert_eq!(sanitize_line("\u{a0}tab\tinside\u{2003}"), "tab\tinside");
}

#[test]
fn trimmed_matches_std_trim() {
    for s in ["", " ", " a ", "\t\na b\r\n", "x", "\u{3000}wide\u{3000}"] {
        assert_eq!(trimmed(s), s.trim());
    }
}

#[test]
fn str_contains_matches_std_contains() {
    assert!(str_contains("tube screamer", "screamer"));
    assert!(str_contains("abc", ""));
    assert!(str_contains("", ""));
    assert!(!str_contains("", "a"));
    assert!(!str_contains("abc", "abcd"));
    assert!(!str_contains("ababab", "abb"));
    assert!(str_contains("ababab", "bab"));
}

#[test]
fn take_chars_counts_characters_not_bytes() {
    assert_eq!(take_chars("héllo", 2), "hé");
    assert_eq!(take_chars("ab", 5), "ab");
    assert_eq!(take_chars("ab", 0), "");
}

#[test]
fn ascii_case_is_ignored_for_ascii_only() {
    assert!(eq_ignore_ascii_case("NAM", "nam"));
    assert!(eq_ignore_ascii_case("Nam", "nAM"));
    assert!(!eq_ignore_ascii_case("nam", "name"));
    assert!(!eq_ignore_ascii_case("É", "é"));
    assert!(eq_ignore_ascii_case("", ""));
}

#[test]
fn push_log_appends_a_line() {
    let mut logs = String::new();
    push_log(&mut logs, "first");
    push_log(&mut logs, "");
    push_log(&mut logs, "third");
    assert_eq!(logs, "first\n\nthird\n");
}

#[test]
fn filename_sanitizer_removes_reserved_characters() {
    let name = safe_filename("Lead/Tone:2*");
    assert!(!name.is_empty());
    for c in ['/', '\\', ':', '*', '?', '"', '<', '>', '|'] {
        assert!(!name.contains(c), "{name} holds {c}");
    }
    assert_eq!(name, "Tone_2_");
}

#[test]
fn safe_filename_uses_the_final_component() {
    assert_eq!(safe_filename("dir/sub/file.nam"), "file.nam");
    assert_eq!(safe_filename("dir/name/"), "name");
    assert_eq!(safe_filename("plain"), "plain");
}

#[test]
fn safe_filename_falls_back_to_the_placeholder() {
    assert_eq!(safe_filename(""), "model");
    assert_eq!(safe_filename(" . . "), "model");
    assert_eq!(safe_filename("..."), "model");
}

#[test]
fn safe_filename_keeps_a_name_without_final_component_whole() {
    assert_eq!(safe_filename("a/.."), "a_");
    assert_eq!(safe_filename(".."), "model");
}

#[test]
fn safe_component_scrubs_and_strips() {
    assert_eq!(safe_component("a<b>c:d\"e/f\\g|h?i*j"), "a_b_c_d_e_f_g_h_i_j");
    assert_eq!(safe_component("  .name. "), "name");
    assert_eq!(safe_component("tab\there"), "tab_here");
    assert_eq!(safe_component("in.ner dots"), "in.ner dots");
    assert_eq!(safe_component("*"), "_");
}

#[test]
fn model_filename_gets_the_extension_when_it_has_none() {
    assert_eq!(normalize_model_filename("Clean Channel", Some("nam")), "Clean Channel.nam");
    assert_eq!(normalize_model_filename("Clean Channel", Some("NAM")), "Clean Channel.nam");
    assert_eq!(normalize_model_filename("Clean Channel", Some("aida-x")), "Clean Channel");
    assert_eq!(normalize_model_filename("Clean Channel", None), "Clean Channel");
    assert_eq!(normalize_model_filename("clean.wav", Some("nam")), "clean.wav");
    assert_eq!(normalize_model_filename("v1.5 lead", Some("nam")), "v1.5 lead");
    assert_eq!(normalize_model_filename("", Some("nam")), "model.nam");
    assert_eq!(normalize_model_filename("a/b:c", Some("nam")), "b_c.nam");
}

#[test]
fn tone_dir_name_joins_title_and_identifier() {
    assert_eq!(safe_tone_dir_name("JCM800 Head", 42), "JCM800 Head_42");
    assert_eq!(safe_tone_dir_name("5150 (Studio)/Merged!", 7), "5150 _Studio__Merged__7");
    assert_eq!(safe_tone_dir_name("", 9), "tone_9");
    assert_eq!(safe_tone_dir_name("   ", -3), "tone_-3");
    assert_eq!(safe_tone_dir_name("Ünïcode Töne", 1), "Ünïcode Töne_1");
}

#[test]
fn tone_dir_name_is_cut_at_fifty() {
    let long = "a".repeat(80);
    assert_eq!(safe_tone_dir_name(&long, 5), format!("{}_5", "a".repeat(50)));
    let exact = "b".repeat(50);
    assert_eq!(safe_tone_dir_name(&exact, 5), format!("{}_5", exact));
    let wide = "é".repeat(30);
    assert_eq!(safe_tone_dir_name(&wide, 5), format!("{}_5", wide));
    let wider = "é".repeat(60);
    assert_eq!(safe_tone_dir_name(&wider, 5), format!("{}_5", "é".repeat(50)));
}

#[test]
fn decimal_of_writes_every_i64() {
    for n in [0i64, 7, 10, 42, -1, -10, 1234567890, i64::MAX, i64::MIN] {
        let text: String = decimal_of(n).into_iter().collect();
        assert_eq!(text, n.to_string());
    }
}

#[test]
fn parse_i64_reads_what_std_reads() {
    for s in [
        "0", "7", "-7", "+7", "0042", "-0", "9223372036854775807", "9223372036854775808",
        "-9223372036854775808", "-9223372036854775809", "", "-", "+", "1 ", " 1", "1_000", "1.5",
        "abc", "٣", "99999999999999999999999",
    ] {
        assert_eq!(parse_i64(&chars(s)), s.parse::<i64>().ok(), "for {s:?}");
    }
}

#[test]
fn model_name_is_normalized() {
    assert_eq!(normalize_gemini_model(None), "gemini-2.5-pro");
    assert_eq!(normalize_gemini_model(Some("")), "gemini-2.5-pro");
    assert_eq!(normalize_gemini_model(Some("   ")), "gemini-2.5-pro");
    assert_eq!(normalize_gemini_model(Some(" gemini-2.0_flash ")), "gemini-2.0_flash");
    assert_eq!(normalize_gemini_model(Some("models/gemini")), "gemini-2.5-pro");
    assert_eq!(normalize_gemini_model(Some("gemini pro")), "gemini-2.5-pro");
    assert_eq!(normalize_gemini_model(Some("gémini")), "gemini-2.5-pro");
}

#[test]
fn counts_are_clamped() {
    assert_eq!(clamp_max_tones(None), 3);
    assert_eq!(clamp_max_tones(Some(0)), 1);
    assert_eq!(clamp_max_tones(Some(1)), 1);
    assert_eq!(clamp_max_tones(Some(5)), 5);
    assert_eq!(clamp_max_tones(Some(200)), 5);
    assert_eq!(clamp_max_results(None), 15);
    assert_eq!(clamp_max_results(Some(0)), 5);
    assert_eq!(clamp_max_results(Some(10)), 10);
    assert_eq!(clamp_max_results(Some(25)), 25);
    assert_eq!(clamp_max_results(Some(26)), 25);
}

fn strings(items: &[&str]) -> Vec<String> {
    items.iter().map(|s| s.to_string()).collect()
}

#[test]
fn queries_are_cleaned_and_deduplicated() {
    let out = dedupe_non_empty_queries(
        strings(&["  Metallica ", "metallica", "", " \n ", "Enter\nSandman", "METALLICA", "amp"]),
        6,
    );
    assert_eq!(out, strings(&["Metallica", "Enter Sandman", "amp"]));
}

#[test]
fn queries_stop_at_the_cap() {
    let all = strings(&["a", "b", "c", "d"]);
    assert_eq!(dedupe_non_empty_queries(strings(&["a", "b", "c", "d"]), 2), strings(&["a", "b"]));
    assert_eq!(dedupe_non_empty_queries(strings(&["a", "b", "c", "d"]), 9), all);
    assert_eq!(dedupe_non_empty_queries(strings(&["a", "A", "b"]), 1), strings(&["a"]));
    assert_eq!(dedupe_non_empty_queries(strings(&["", "a", "b"]), 0), strings(&["a"]));
    assert_eq!(dedupe_non_empty_queries(Vec::new(), 3), Vec::<String>::new());
}

#[test]
fn whitespace_runs_collapse_into_one_space() {
    assert_eq!(collapse_whitespace("a \r\n\t b"), "a b");
    assert_eq!(collapse_whitespace("\na\u{a0}\u{a0}b\n"), " a b ");
    assert_eq!(collapse_whitespace("a\tb c"), "a b c");
    assert_eq!(collapse_whitespace(""), "");
    assert_eq!(collapse_whitespace("   "), " ");
    assert_eq!(collapse_whitespace("abc"), "abc");
}
