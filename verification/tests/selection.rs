use tone_rig::advice::Answer;
use tone_rig::catalog::ToneCandidate;
use tone_rig::choice::{select_best_tones, shortlist};
use tone_rig::heuristics::{
    text_contains_boost, tone_contains_boost, tone_is_preamp_or_boost_pedal,
};
use tone_rig::extract::parse_json_object_segment;
use tone_rig::json::Json;
use tone_rig::selection::{postprocess_selected_indices, rank_by_downloads, rank_candidates};

fn tone(id: i64, title: &str, description: &str, gear: &str, downloads: i64) -> ToneCandidate {
    ToneCandidate {
        id,
        title: title.to_string(),
        description: description.to_string(),
        gear: gear.to_string(),
        platform: "nam".to_string(),
        downloads,
        author: String::new(),
        url: String::new(),
    }
}

fn object(text: &str) -> Option<Json> {
    parse_json_object_segment(text)
}

fn plain_pool() -> Vec<ToneCandidate> {
    vec![
        tone(101, "Metallica Enter Sandman Rhythm", "Tight mid-gain rhythm amp.", "amp", 9800),
        tone(102, "John Mayer Dumble Clean", "Smooth clean blues edge.", "amp", 8700),
        tone(103, "Nirvana Teen Spirit Grunge", "Raw crunchy distortion.", "amp", 9100),
        tone(104, "Generic Jazz Clean", "Very clean warm jazz amp tone.", "amp", 3200),
        tone(105, "Studio Compressor", "Transparent levelling.", "pedal", 9100),
    ]
}

fn boosted_pool() -> Vec<ToneCandidate> {
    vec![
        tone(1, "5150 with Tubescreamer", "High gain with a TS in front.", "amp", 500),
        tone(2, "Klon Style Boost", "Transparent boost pedal.", "pedal", 900),
        tone(3, "Plexi Crunch", "Classic rock rhythm.", "amp", 700),
        tone(4, "Analog Delay", "Warm repeats.", "pedal", 600),
        tone(5, "Preamp Deluxe", "Studio preamp in a box.", "Pedal", 100),
    ]
}

#[test]
fn boost_keywords_are_found_in_any_case() {
    assert!(text_contains_boost("Amp with TubeScreamer in front"));
    assert!(text_contains_boost("KLON"));
    assert!(text_contains_boost("mod OD "));
    assert!(text_contains_boost("ts-808 pushed"));
    assert!(!text_contains_boost(""));
    assert!(!text_contains_boost("clean jazz"));
}

#[test]
fn boosted_amp_and_boost_pedal_are_told_apart() {
    let pool = boosted_pool();
    assert!(tone_contains_boost(&pool[0]));
    assert!(!tone_is_preamp_or_boost_pedal(&pool[0]));
    assert!(!tone_contains_boost(&pool[1]));
    assert!(tone_is_preamp_or_boost_pedal(&pool[1]));
    assert!(!tone_contains_boost(&pool[2]));
    assert!(!tone_is_preamp_or_boost_pedal(&pool[3]));
    assert!(tone_is_preamp_or_boost_pedal(&pool[4]));
    let amp_in_caps = tone(9, "Boosted lead", "", "AMP", 1);
    assert!(tone_contains_boost(&amp_in_caps));
}

#[test]
fn ranking_is_by_downloads_and_stable() {
    assert_eq!(rank_by_downloads(&plain_pool()), vec![0, 2, 4, 1, 3]);
    assert_eq!(rank_by_downloads(&[]), Vec::<usize>::new());
    let ties = vec![tone(1, "a", "", "amp", 5), tone(2, "b", "", "amp", 5), tone(3, "c", "", "amp", 5)];
    assert_eq!(rank_by_downloads(&ties), vec![0, 1, 2]);
    let extremes = vec![
        tone(1, "a", "", "amp", i64::MIN),
        tone(2, "b", "", "amp", i64::MAX),
        tone(3, "c", "", "amp", 0),
        tone(4, "d", "", "amp", -1),
    ];
    assert_eq!(rank_by_downloads(&extremes), vec![1, 2, 3, 0]);
    let ids: Vec<i64> = rank_candidates(&plain_pool()).iter().map(|t| t.id).collect();
    assert_eq!(ids, vec![101, 103, 105, 102, 104]);
}

#[test]
fn picks_are_deduplicated_and_checked() {
    let pool = plain_pool();
    assert_eq!(postprocess_selected_indices(&pool, &[3, 3, 9, 1, 3, 1], 2), vec![3, 1]);
    assert_eq!(postprocess_selected_indices(&pool, &[3, 1, 0], 2), vec![3, 1]);
    assert_eq!(postprocess_selected_indices(&pool, &[usize::MAX], 1), vec![0]);
}

#[test]
fn short_selection_is_filled_by_popularity() {
    let pool = plain_pool();
    assert_eq!(postprocess_selected_indices(&pool, &[3], 3), vec![3, 0, 2]);
    assert_eq!(postprocess_selected_indices(&pool, &[2, 0], 4), vec![2, 0, 4, 1]);
    assert_eq!(postprocess_selected_indices(&pool, &[1], 9), vec![1, 0, 2, 4, 3]);
}

#[test]
fn selection_after_completion_failure_is_top_by_downloads() {
    let pool = plain_pool();
    let picked = postprocess_selected_indices(&pool, &[], 3);
    assert_eq!(picked, vec![0, 2, 4]);
    let downloads: Vec<i64> = picked.iter().map(|i| pool[*i].downloads).collect();
    assert_eq!(downloads, vec![9800, 9100, 9100]);
}

#[test]
fn selection_with_zero_maximum_is_empty() {
    assert_eq!(postprocess_selected_indices(&plain_pool(), &[1, 2], 0), Vec::<usize>::new());
    assert_eq!(postprocess_selected_indices(&[], &[0], 3), Vec::<usize>::new());
}

#[test]
fn boost_pedal_never_joins_a_boosted_amp() {
    let pool = boosted_pool();
    for max in 0..7 {
        for picks in [vec![0, 1], vec![1, 0], vec![1, 0, 4], vec![0], vec![4, 1, 3, 0]] {
            let out = postprocess_selected_indices(&pool, &picks, max);
            assert!(!out.contains(&1), "{picks:?} max {max} gave {out:?}");
            assert!(!out.contains(&4), "{picks:?} max {max} gave {out:?}");
            assert!(out.len() <= max);
        }
    }
    assert_eq!(postprocess_selected_indices(&pool, &[0, 1], 5), vec![0, 2, 3]);
    assert_eq!(postprocess_selected_indices(&pool, &[1, 0], 2), vec![0, 2]);
}

#[test]
fn boost_pedal_stays_without_a_boosted_amp() {
    let pool = boosted_pool();
    assert_eq!(postprocess_selected_indices(&pool, &[1, 2], 3), vec![1, 2, 3]);
    assert_eq!(postprocess_selected_indices(&pool, &[], 5), vec![1, 2, 3, 0, 4]);
}

#[test]
fn selection_is_never_empty_for_a_pool() {
    for pool in [plain_pool(), boosted_pool()] {
        for picks in [vec![], vec![0], vec![1], vec![7], vec![1, 4]] {
            assert!(!postprocess_selected_indices(&pool, &picks, 1).is_empty());
        }
    }
}

#[test]
fn shortlist_holds_the_fifteen_most_downloaded() {
    let pool: Vec<ToneCandidate> =
        (0..20).map(|i| tone(i, &format!("t{i}"), "", "amp", i * 10)).collect();
    let ids: Vec<i64> = shortlist(&pool).iter().map(|t| t.id).collect();
    assert_eq!(ids, (5..20).rev().collect::<Vec<i64>>());
    assert_eq!(shortlist(&plain_pool()).len(), 5);
}

#[test]
fn tones_are_selected_as_the_answer_says() {
    let answer = object(
        "{\"selected_indices\": [3, 1, 3, 40], \"selection_reasons\": [\
         {\"index\": 3, \"reason\": \"first\"}, {\"index\": 3, \"reason\": \" Blues\\nedge \"}, \
         {\"index\": 1, \"reason\": \"  \"}, {\"index\": 0}, {\"reason\": \"no index\"}]}",
    )
    .unwrap();
    let out = select_best_tones(&plain_pool(), Answer::Given(&answer), 3);
    let ids: Vec<i64> = out.iter().map(|d| d.candidate.id).collect();
    assert_eq!(ids, vec![102, 103, 101]);
    assert_eq!(out[0].reason, "Blues edge");
    assert_eq!(out[1].reason, "Nirvana Teen Spirit Grunge selected for relevance and popularity.");
    assert_eq!(
        out[2].reason,
        "Metallica Enter Sandman Rhythm selected for relevance and popularity."
    );
}

#[test]
fn tones_are_selected_by_popularity_without_an_answer() {
    let out = select_best_tones(&plain_pool(), Answer::Failed("no answer"), 3);
    let ids: Vec<i64> = out.iter().map(|d| d.candidate.id).collect();
    assert_eq!(ids, vec![101, 103, 105]);
    assert_eq!(
        out[0].reason,
        "Metallica Enter Sandman Rhythm selected by fallback ranking (top downloads)."
    );
    assert!(out.iter().all(|d| !d.reason.is_empty()));
    assert!(select_best_tones(&[], Answer::Failed("x"), 3).is_empty());
}

#[test]
fn picks_beyond_the_shortlist_are_dropped_but_backfill_uses_the_whole_pool() {
    let pool: Vec<ToneCandidate> =
        (0..18).map(|i| tone(i, &format!("t{i}"), "", "amp", 1000 - i)).collect();
    let answer = object("{\"selected_indices\": [16, 15, 14]}").unwrap();
    let out = select_best_tones(&pool, Answer::Given(&answer), 18);
    let ids: Vec<i64> = out.iter().map(|d| d.candidate.id).collect();
    let mut expected = vec![14];
    expected.extend((0..18).filter(|i| *i != 14));
    assert_eq!(ids, expected);
}

#[test]
fn odd_answers_select_by_popularity() {
    for text in [
        "{}",
        "{\"selected_indices\": \"0\"}",
        "{\"selected_indices\": [-1, 1.5, \"2\", null]}",
        "{\"selected_indices\": [18446744073709551615]}",
    ] {
        let answer = object(text).unwrap();
        let out = select_best_tones(&plain_pool(), Answer::Given(&answer), 2);
        let ids: Vec<i64> = out.iter().map(|d| d.candidate.id).collect();
        assert_eq!(ids, vec![101, 103], "for {text}");
    }
}
