use tone_rig::catalog::{ModelFile, ToneCandidate};
use tone_rig::credentials::{read_keys_file, resolve_key, resolve_keys, KeyFile, KeySources};
use tone_rig::download::{
    component_dir_name, count_downloaded, plan_download, preset_dir_name, preset_label,
    record_download, DownloadLedger, DownloadPlan, DownloadStatus, Outcome,
};
use tone_rig::json::Json;
use tone_rig::prompts::{
    analysis_prompt, cab_choice_prompt, cab_need_prompt, cab_summaries, model_summaries,
    models_prompt, selection_prompt, tone_summaries,
};
use tone_rig::queries::{
    amp_fallback_queries, amp_primary_queries, cab_fallback_queries, cab_primary_queries,
};
use tone_rig::run::{AiStep, ErrorKind, Journal, RunFailure, RunSettings, Severity};

fn words(items: &[&str]) -> Vec<String> {
    items.iter().map(|s| s.to_string()).collect()
}

fn sample_tone() -> ToneCandidate {
    ToneCandidate {
        id: 7,
        title: "JCM800\nHead".to_string(),
        description: " Amp head only,\r\nwith TS9 boost ".to_string(),
        gear: "amp".to_string(),
        platform: "nam".to_string(),
        downloads: 1200,
        author: "joe".to_string(),
        url: String::new(),
    }
}

fn sample_model(url: &str) -> ModelFile {
    ModelFile { name: "Lead/Tone:2*".to_string(), size: "standard".to_string(), url: url.to_string() }
}

#[test]
fn existing_file_is_skipped_and_never_fetched() {
    for url in ["", "https://example.org/m"] {
        assert_eq!(plan_download(&sample_model(url), true), DownloadPlan::Skip);
    }
    let rec = record_download(
        "Preset 1",
        "amp",
        &sample_tone(),
        "Tone_2_.nam",
        "/out/preset_1/amp/Tone_2_.nam",
        DownloadPlan::Skip,
        Outcome { fetched: false, measured: Some(2048) },
    );
    assert_eq!(rec.status, DownloadStatus::SkippedExists);
    assert_eq!(rec.status.label(), "skipped_exists");
    assert_eq!(rec.size_bytes, 2048);
    assert_eq!((rec.preset.as_str(), rec.component_role.as_str()), ("Preset 1", "amp"));
    assert_eq!((rec.tone_id, rec.tone_title.as_str()), (7, "JCM800\nHead"));
    assert_eq!(rec.model_name, "Tone_2_.nam");
    assert_eq!(rec.path, "/out/preset_1/amp/Tone_2_.nam");
}

#[test]
fn missing_file_is_fetched_or_given_up() {
    assert_eq!(plan_download(&sample_model("https://example.org/m"), false), DownloadPlan::Fetch);
    assert_eq!(plan_download(&sample_model(""), false), DownloadPlan::Fail);
}

#[test]
fn records_end_in_one_of_three_states() {
    let t = sample_tone();
    let done = record_download("p", "cab", &t, "m", "/x", DownloadPlan::Fetch, Outcome { fetched: true, measured: Some(10) });
    assert_eq!((done.status, done.size_bytes, done.status.label()), (DownloadStatus::Downloaded, 10, "downloaded"));
    let unmeasured = record_download("p", "cab", &t, "m", "/x", DownloadPlan::Fetch, Outcome { fetched: true, measured: None });
    assert_eq!((unmeasured.status, unmeasured.size_bytes), (DownloadStatus::Downloaded, 0));
    let broken = record_download("p", "cab", &t, "m", "/x", DownloadPlan::Fetch, Outcome { fetched: false, measured: Some(5) });
    assert_eq!((broken.status, broken.size_bytes, broken.status.label()), (DownloadStatus::Error, 0, "error"));
    let no_url = record_download("p", "cab", &t, "m", "/x", DownloadPlan::Fail, Outcome { fetched: true, measured: Some(5) });
    assert_eq!((no_url.status, no_url.size_bytes), (DownloadStatus::Error, 0));
    let skipped = record_download("p", "cab", &t, "m", "/x", DownloadPlan::Skip, Outcome { fetched: true, measured: None });
    assert_eq!((skipped.status, skipped.size_bytes), (DownloadStatus::SkippedExists, 0));
    assert_eq!(count_downloaded(&[done, unmeasured, broken, no_url, skipped]), 2);
    assert_eq!(count_downloaded(&[]), 0);
}

#[test]
fn directories_and_labels_are_numbered_from_one() {
    assert_eq!(preset_label(0), "Preset 1");
    assert_eq!(preset_label(9), "Preset 10");
    assert_eq!(preset_dir_name(0), "preset_1");
    assert_eq!(preset_dir_name(41), "preset_42");
    assert_eq!(preset_label(usize::MAX), format!("Preset {}", usize::MAX as u128 + 1));
    assert_eq!(component_dir_name("amp", &sample_tone()), "amp_JCM800_Head_7");
}

#[test]
fn settings_are_brought_into_range() {
    let s = RunSettings::new("  crunchy\nmetal ", Some(" gemini-2.0 "), Some(9), None).unwrap();
    assert_eq!(
        s,
        RunSettings {
            request: "crunchy metal".to_string(),
            gemini_model: "gemini-2.0".to_string(),
            max_tones: 5,
            max_results: 15,
        }
    );
    let s = RunSettings::new("x", None, None, Some(1)).unwrap();
    assert_eq!((s.gemini_model.as_str(), s.max_tones, s.max_results), ("gemini-2.5-pro", 3, 5));
    let refused = RunFailure::new(ErrorKind::InvalidRequest, "Request text is required.");
    assert_eq!(RunSettings::new(" \n\t", None, None, None).as_ref(), Err(&refused));
    assert_eq!(RunSettings::new("", None, None, None), Err(refused));
}

#[test]
fn failures_are_fatal_recoverable_or_per_item() {
    for kind in [
        ErrorKind::InvalidRequest,
        ErrorKind::MissingCredentials,
        ErrorKind::Auth,
        ErrorKind::Search,
        ErrorKind::Filesystem,
    ] {
        assert_eq!(kind.severity(), Severity::Fatal);
        assert!(kind.is_fatal());
    }
    assert_eq!(ErrorKind::Completion.severity(), Severity::Recoverable);
    assert_eq!(ErrorKind::Download.severity(), Severity::PerItem);
    assert!(!ErrorKind::Completion.is_fatal());
    assert!(!ErrorKind::Download.is_fatal());
}

#[test]
fn journal_steps_are_numbered() {
    let journal = Journal::new();
    assert!(journal.steps().is_empty());
    let journal = journal.push_step("Request analysis".to_string(), words(&["a", "b"]));
    let journal = journal.push_step("Amp selection".to_string(), Vec::new());
    assert_eq!(
        journal.steps(),
        &vec![
            AiStep { step: 1, title: "Request analysis".to_string(), details: words(&["a", "b"]) },
            AiStep { step: 2, title: "Amp selection".to_string(), details: Vec::new() },
        ]
    );
}

#[test]
fn search_terms_are_derived_from_analysis_and_request() {
    let search = words(&["Metallica", "mesa"]);
    let fallback = words(&["metal", "Metal Amp"]);
    assert_eq!(amp_primary_queries(&search, "metallica"), words(&["Metallica", "mesa"]));
    assert_eq!(amp_primary_queries(&search, "sandman"), words(&["Metallica", "mesa", "sandman"]));
    assert_eq!(amp_fallback_queries(&fallback, "metal"), words(&["metal", "Metal Amp"]));
    assert_eq!(amp_fallback_queries(&fallback, "x"), words(&["metal", "Metal Amp", "x amp"]));
    assert_eq!(
        cab_primary_queries(&search, "req", "JCM"),
        words(&["req cab ir", "JCM ir", "JCM cab", "Metallica", "mesa"])
    );
    assert_eq!(
        cab_fallback_queries(&fallback, "req"),
        words(&["metal", "Metal Amp", "req guitar cabinet", "guitar cab ir"])
    );
    let many = words(&["a", "b", "c", "d", "e", "f", "g", "h"]);
    assert_eq!(amp_primary_queries(&many, "z").len(), 6);
    assert_eq!(cab_primary_queries(&many, "z", "t").len(), 8);
    assert_eq!(cab_fallback_queries(&many, "z"), many);
}

#[test]
fn analysis_prompt_embeds_the_request_on_one_line() {
    let p = analysis_prompt(" a crunchy\n90s tone ");
    assert!(p.starts_with("\nUser request: \"a crunchy 90s tone\"\n\nExtract practical tone search terms"));
    assert!(p.contains("- `gear_type`: \"amp\", \"ir\", \"pedal\", or null.\n"));
    assert!(p.ends_with("  \"explanation_steps\": [\"step 1\", \"step 2\", \"step 3\"]\n}\n"));
}

#[test]
fn selection_prompt_lists_the_candidates() {
    let summaries = tone_summaries(&[sample_tone()]);
    let p = selection_prompt("req", &summaries, 3);
    assert!(p.starts_with(
        "\nUser request: \"req\"\n\nCandidate tones:\n[{\"contains_boost_in_chain\":true,\"description\":\"Amp head only,  with TS9 boost\",\"downloads\":1200,\"gear\":\"amp\",\"index\":0,\"is_preamp_or_boost_pedal\":false,\"platform\":\"nam\",\"title\":\"JCM800\\nHead\"}]\n\nChoose the best 3 tones."
    ));
    assert!(p.contains("}]\n\nChoose the best 3 tones.\nSelection criteria:\n"));
    assert!(p.ends_with("{ \"index\": 2, \"reason\": \"Popular profile and similar voicing.\" }\n  ]\n}\n"));
}

#[test]
fn candidate_descriptions_are_cut_in_summaries() {
    let mut t = sample_tone();
    t.description = "é".repeat(200);
    let summaries = tone_summaries(&[t]);
    let shown = match &summaries {
        Json::Array(items) => items[0].get("description").and_then(|d| d.as_str()).map(|s| s.to_string()),
        _ => None,
    };
    assert_eq!(shown, Some("é".repeat(160)));
}

#[test]
fn model_prompt_lists_the_models() {
    let summaries = model_summaries(&[sample_model("u")]);
    let p = models_prompt("req", &sample_tone(), &summaries);
    assert!(p.starts_with(
        "\nUser request: \"req\"\nTone title: \"JCM800 Head\"\nTone description: \"Amp head only,  with TS9 boost\"\nTone gear: \"amp\"\n\nAvailable models:\n[{\"index\":0,\"name\":\"Lead/Tone:2*\",\"size\":\"standard\"}]\n\nSelect only useful models"
    ));
    assert!(p.contains("- Select max 5 models (for `ir`, prefer 1-2 unless multiple are clearly needed).\n"));
}

#[test]
fn cabinet_prompts_name_the_amplifier() {
    let p = cab_need_prompt("req", &sample_tone());
    assert!(p.starts_with(
        "\nUser request: \"req\"\nAmp candidate title: \"JCM800 Head\"\nAmp candidate description: \"Amp head only,  with TS9 boost\"\n\nDecide if this amp profile needs"
    ));
    assert!(p.ends_with("{\n  \"needs_cab\": true,\n  \"reason\": \"Short explanation\"\n}\n"));
    let summaries = cab_summaries(&[sample_tone()]);
    let p = cab_choice_prompt("req", &sample_tone(), &summaries);
    assert!(p.starts_with(
        "\nUser request: \"req\"\nSelected amp: \"JCM800 Head\" / \"Amp head only,  with TS9 boost\"\n\nChoose the best matching cab/IR from these candidates:\n[{\"description\":\"Amp head only,  with TS9 boost\",\"downloads\":1200,\"index\":0,\"platform\":\"nam\",\"title\":\"JCM800\\nHead\"}]\n\nReturn only JSON:"
    ));
    assert!(p.ends_with("}]\n\nReturn only JSON:\n{\n  \"selected_index\": 0,\n  \"reason\": \"Short explanation\"\n}\n"));
}

#[test]
fn explicit_key_wins_over_environment_and_file() {
    let all = KeySources { explicit: Some("  k1 "), env: Some("k2"), file: Some("k3") };
    assert_eq!(resolve_key(&all), Some("k1".to_string()));
    let blank = KeySources { explicit: Some("   "), env: Some("k2"), file: Some("k3") };
    assert_eq!(resolve_key(&blank), Some("k2".to_string()));
    let empty_env = KeySources { explicit: None, env: Some(""), file: Some("k3") };
    assert_eq!(resolve_key(&empty_env), Some(String::new()));
    let file_only = KeySources { explicit: None, env: None, file: Some(" k3 ") };
    assert_eq!(resolve_key(&file_only), Some(" k3 ".to_string()));
    let none = KeySources { explicit: Some(""), env: None, file: None };
    assert_eq!(resolve_key(&none), None);
    assert_eq!(resolve_keys(&all, &file_only), Ok(("k1".to_string(), " k3 ".to_string())));
    let missing = RunFailure::new(
        ErrorKind::MissingCredentials,
        "Missing API keys. Provide both TONE3000 and Gemini keys from UI, env vars, or keys.txt.",
    );
    assert!(missing.is_fatal());
    assert_eq!(resolve_keys(&all, &none).as_ref(), Err(&missing));
    assert_eq!(resolve_keys(&none, &all), Err(missing));
    assert!(!RunFailure::new(ErrorKind::Download, "broken transfer").is_fatal());
}

#[test]
fn key_file_gives_keys_by_name_or_by_position() {
    let named = "# keys\nTONE3000_API_KEY = \"abc\"\r\n\nGEMINI_API_KEY='x=y'\nOTHER=1\n";
    assert_eq!(
        read_keys_file(named),
        KeyFile { tone3000: Some("abc".to_string()), gemini: Some("x=y".to_string()) }
    );
    let bare = "  first-key  \n# comment\nsecond-key\r\nthird";
    assert_eq!(
        read_keys_file(bare),
        KeyFile { tone3000: Some("first-key".to_string()), gemini: Some("second-key".to_string()) }
    );
    let mixed = "bare\nGEMINI_API_KEY=g1\nGEMINI_API_KEY=g2";
    assert_eq!(
        read_keys_file(mixed),
        KeyFile { tone3000: Some("bare".to_string()), gemini: Some("g2".to_string()) }
    );
    let one = "TONE3000_API_KEY=t\nonly";
    assert_eq!(read_keys_file(one), KeyFile { tone3000: Some("t".to_string()), gemini: None });
    assert_eq!(read_keys_file(""), KeyFile { tone3000: None, gemini: None });
    assert_eq!(read_keys_file("\n\n#x\n"), KeyFile { tone3000: None, gemini: None });
    let quotes = "TONE3000_API_KEY=\"\"'a'\"\"\nGEMINI_API_KEY=''\"b\"''";
    assert_eq!(
        read_keys_file(quotes),
        KeyFile { tone3000: Some("a".to_string()), gemini: Some("\"b\"".to_string()) }
    );
}

#[test]
fn numbers_survive_the_way_into_a_prompt() {
    let models = vec![sample_model("u")];
    let summaries = Json::Array(vec![
        Json::Int(-3),
        Json::Uint(18446744073709551615),
        Json::Real("1.5".to_string()),
        Json::Real("[1]".to_string()),
        Json::Null,
        model_summaries(&models),
    ]);
    let p = selection_prompt("r", &summaries, 1);
    assert!(p.contains(
        "Candidate tones:\n[-3,18446744073709551615,1.5,null,null,[{\"index\":0,\"name\":\"Lead/Tone:2*\",\"size\":\"standard\"}]]\n"
    ));
}

#[test]
fn ledger_only_grows() {
    let t = sample_tone();
    let mut ledger = DownloadLedger::new();
    assert_eq!(ledger.downloaded_count(), 0);
    ledger.append(record_download("p", "amp", &t, "a", "/a", DownloadPlan::Fetch, Outcome { fetched: true, measured: Some(1) }));
    ledger.append(record_download("p", "amp", &t, "b", "/b", DownloadPlan::Skip, Outcome { fetched: false, measured: Some(2) }));
    ledger.append(record_download("p", "cab", &t, "c", "/c", DownloadPlan::Fetch, Outcome { fetched: true, measured: None }));
    let names: Vec<&str> = ledger.records().iter().map(|r| r.model_name.as_str()).collect();
    assert_eq!(names, vec!["a", "b", "c"]);
    assert_eq!(ledger.downloaded_count(), 2);
}
