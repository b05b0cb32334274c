use tone_rig::advice::Answer;
use tone_rig::cabinet::{
    assess_amp_needs_cab, fallback_amp_needs_cab, lowered_needs_cab, select_best_cab_for_amp,
};
use tone_rig::catalog::{ModelFile, ToneCandidate};
use tone_rig::extract::parse_json_object_segment;
use tone_rig::json::Json;
use tone_rig::models::filter_models;
use tone_rig::rig::RigRun;

fn amp(title: &str, description: &str) -> ToneCandidate {
    ToneCandidate {
        id: 1,
        title: title.to_string(),
        description: description.to_string(),
        gear: "amp".to_string(),
        platform: "nam".to_string(),
        downloads: 0,
        author: String::new(),
        url: String::new(),
    }
}

fn cab(id: i64, title: &str) -> ToneCandidate {
    ToneCandidate {
        id,
        title: title.to_string(),
        description: String::new(),
        gear: "ir".to_string(),
        platform: "ir".to_string(),
        downloads: 100 - id,
        author: String::new(),
        url: String::new(),
    }
}

fn object(text: &str) -> Option<Json> {
    parse_json_object_segment(text)
}

fn model(name: &str) -> ModelFile {
    ModelFile { name: name.to_string(), size: "standard".to_string(), url: format!("u/{name}") }
}

#[test]
fn cab_fallback_detects_included_cab() {
    let amp = amp("5150 Studio Merged", "High gain amp with cab included and miked cab chain.");
    let (needs_cab, _) = fallback_amp_needs_cab(&amp);
    assert!(!needs_cab, "Merged/cab-included amp should not force extra cab");
}

#[test]
fn cab_fallback_detects_head_only_amp() {
    let amp = amp("JCM800 Head", "Amp head only profile, no cab, preamp focused.");
    let (needs_cab, _) = fallback_amp_needs_cab(&amp);
    assert!(needs_cab, "Head-only amp should require cab");
}

#[test]
fn cab_fallback_gives_its_reasons() {
    assert_eq!(
        fallback_amp_needs_cab(&amp("Full Rig", "all in one")),
        (
            false,
            "Fallback: amp description suggests a cab section is already included.".to_string()
        )
    );
    assert_eq!(
        fallback_amp_needs_cab(&amp("Plexi", "PREAMP ONLY capture")),
        (
            true,
            "Fallback: amp description looks head/preamp only, so cab is required.".to_string()
        )
    );
    assert_eq!(
        fallback_amp_needs_cab(&amp("Plexi", "crunchy")),
        (
            true,
            "Fallback: cab requirement is unclear, selecting a cab for safer rig completion."
                .to_string()
        )
    );
    assert!(!fallback_amp_needs_cab(&amp("Head only", "but with cab sim")).0);
    assert!(!lowered_needs_cab("mic'd cab").0);
    assert!(lowered_needs_cab("MIC'D CAB").0);
}

#[test]
fn title_and_description_are_read_as_two_lines() {
    assert!(fallback_amp_needs_cab(&amp("amp with", "cab")).0);
    assert_eq!(fallback_amp_needs_cab(&amp("amp with", "cab")).1.starts_with("Fallback: cab requirement"), true);
}

#[test]
fn cab_need_follows_the_answer() {
    let a = amp("Plexi", "head only");
    let no = object("{\"needs_cab\": false, \"reason\": \"  complete\\nrig \"}").unwrap();
    assert_eq!(assess_amp_needs_cab(&a, Answer::Given(&no)), (false, "complete rig".to_string()));
    let bare_no = object("{\"needs_cab\": false}").unwrap();
    assert_eq!(
        assess_amp_needs_cab(&a, Answer::Given(&bare_no)),
        (false, "Amp profile appears complete without extra cab.".to_string())
    );
    let empty = object("{\"needs_cab\": \"no\", \"reason\": \"\"}").unwrap();
    assert_eq!(
        assess_amp_needs_cab(&a, Answer::Given(&empty)),
        (true, "Cab selected to complete the rig.".to_string())
    );
    let included = amp("Merged", "cab included");
    assert!(!assess_amp_needs_cab(&included, Answer::Failed("down")).0);
}

#[test]
fn best_cab_is_the_named_one_or_the_first() {
    let cabs = vec![cab(10, "V30"), cab(11, "Greenback"), cab(12, "Jensen")];
    let named = object("{\"selected_index\": 2, \"reason\": \"bright\"}").unwrap();
    let (c, r) = select_best_cab_for_amp(&cabs, Answer::Given(&named)).unwrap();
    assert_eq!((c.id, r.as_str()), (12, "bright"));
    let beyond = object("{\"selected_index\": 3}").unwrap();
    let (c, r) = select_best_cab_for_amp(&cabs, Answer::Given(&beyond)).unwrap();
    assert_eq!((c.id, r.as_str()), (10, "Selected as best cab/IR match for the amp."));
    let negative = object("{\"selected_index\": -1}").unwrap();
    assert_eq!(select_best_cab_for_amp(&cabs, Answer::Given(&negative)).unwrap().0.id, 10);
    let (c, r) = select_best_cab_for_amp(&cabs, Answer::Failed("timeout")).unwrap();
    assert_eq!(
        (c.id, r.as_str()),
        (10, "Fallback cab selection by popularity (Gemini issue: timeout)")
    );
    assert_eq!(select_best_cab_for_amp(&[], Answer::Given(&named)), None);
    assert_eq!(select_best_cab_for_amp(&[], Answer::Failed("x")), None);
}

#[test]
fn no_cabinet_is_in_two_presets() {
    let pool = vec![cab(10, "V30"), cab(11, "Greenback")];
    let mut run = RigRun::new();
    assert_eq!(run.unused_cabs(&pool).len(), 2);

    let free = run.unused_cabs(&pool);
    let pick = select_best_cab_for_amp(&free, Answer::Failed("down"));
    run = run.add_preset(amp("A", ""), "r1".to_string(), (true, "needed".to_string()), pick);
    assert!(run.cab_is_used(10));
    assert!(!run.cab_is_used(11));

    let free = run.unused_cabs(&pool);
    assert_eq!(free.iter().map(|c| c.id).collect::<Vec<i64>>(), vec![11]);
    let pick = select_best_cab_for_amp(&free, Answer::Failed("down"));
    run = run.add_preset(amp("B", ""), "r2".to_string(), (true, "needed".to_string()), pick);

    let presets = run.presets();
    assert_eq!(presets.len(), 2);
    let first = presets[0].cab.as_ref().unwrap().id;
    let second = presets[1].cab.as_ref().unwrap().id;
    assert_eq!((first, second), (10, 11));
    assert_ne!(first, second);
}

#[test]
fn a_used_cabinet_is_not_granted_again() {
    let mut run = RigRun::new();
    run = run.add_preset(
        amp("A", ""),
        "r1".to_string(),
        (true, "needed".to_string()),
        Some((cab(10, "V30"), "fits".to_string())),
    );
    run = run.add_preset(
        amp("B", ""),
        "r2".to_string(),
        (true, "needed".to_string()),
        Some((cab(10, "V30"), "fits too".to_string())),
    );
    run = run.add_preset(amp("C", ""), "r3".to_string(), (true, "needed".to_string()), None);
    run = run.add_preset(
        amp("D", ""),
        "r4".to_string(),
        (false, "complete".to_string()),
        Some((cab(11, "Greenback"), "unused".to_string())),
    );
    assert!(run.unused_cabs(&[cab(10, "V30")]).is_empty());
    let presets = run.into_presets();
    assert_eq!(presets[0].cab.as_ref().map(|c| c.id), Some(10));
    assert_eq!(presets[0].cab_selection_reason, "fits");
    assert_eq!(presets[1].cab, None);
    assert_eq!(presets[1].cab_selection_reason, "No cab candidate found for this amp.");
    assert_eq!(presets[2].cab_selection_reason, "No cab candidate found for this amp.");
    assert_eq!(presets[3].cab, None);
    assert!(!presets[3].needs_cab);
    assert_eq!(presets[3].cab_selection_reason, "Amp profile judged complete without extra cab.");
    assert_eq!(presets[3].amp_selection_reason, "r4");
    assert_eq!(presets[3].cab_decision_reason, "complete");
}

#[test]
fn models_are_filtered_as_the_answer_says() {
    let models: Vec<ModelFile> =
        ["clean", "crunch", "lead", "a", "b", "c", "d"].iter().map(|n| model(n)).collect();
    let answer = object(
        "{\"selected_indices\": [2, 9, 0, 0, 3, 4, 5, 6], \"model_reasons\": [{\"index\": 0, \"reason\": \"main\"}]}",
    )
    .unwrap();
    let out = filter_models(&models, Answer::Given(&answer));
    let names: Vec<&str> = out.iter().map(|c| c.model.name.as_str()).collect();
    assert_eq!(names, vec!["lead", "clean", "clean", "a", "b"]);
    assert_eq!(out[0].reason, "lead kept as a useful match for this tone.");
    assert_eq!(out[1].reason, "main");
    assert_eq!(out[0].model.url, "u/lead");
}

#[test]
fn at_least_one_model_is_chosen() {
    let models = vec![model("clean"), model("crunch"), model("lead")];
    for text in ["{}", "{\"selected_indices\": []}", "{\"selected_indices\": [7, 8]}"] {
        let answer = object(text).unwrap();
        let out = filter_models(&models, Answer::Given(&answer));
        assert_eq!(out.len(), 1);
        assert_eq!(out[0].model.name, "clean");
    }
    let out = filter_models(&models, Answer::Failed("bad json"));
    let names: Vec<&str> = out.iter().map(|c| c.model.name.as_str()).collect();
    assert_eq!(names, vec!["clean", "crunch"]);
    assert_eq!(
        out[1].reason,
        "crunch selected by fallback because Gemini response was invalid: bad json"
    );
    assert_eq!(filter_models(&models[..1], Answer::Failed("x")).len(), 1);
    assert!(filter_models(&[], Answer::Failed("x")).is_empty());
    let empty_answer = object("{}").unwrap();
    assert!(filter_models(&[], Answer::Given(&empty_answer)).is_empty());
}
