use tone_rig::catalog::{
    decode_model_list, decode_search_page, tone_downloads, tone_id, value_as_i64, value_as_string,
    ModelFile, ToneCandidate,
};
use tone_rig::extract::parse_json_object_segment;
use tone_rig::json::Json;
use tone_rig::pool::{only_gear, search_request, PoolBuilder};

fn entry(id: i64) -> Option<ToneCandidate> {
    Some(ToneCandidate {
        id,
        title: format!("tone {id}"),
        description: String::new(),
        gear: "amp".to_string(),
        platform: "nam".to_string(),
        downloads: 1000 - id,
        author: String::new(),
        url: String::new(),
    })
}

fn object(text: &str) -> Option<Json> {
    parse_json_object_segment(text)
}

fn page(ids: &[i64]) -> Vec<Option<ToneCandidate>> {
    ids.iter().map(|i| entry(*i)).collect()
}

fn terms(items: &[&str]) -> Vec<String> {
    items.iter().map(|s| s.to_string()).collect()
}

fn pool_ids(b: &PoolBuilder) -> Vec<i64> {
    b.candidates().iter().map(|t| t.id).collect()
}

fn feed(b: PoolBuilder, ids: &[i64]) -> (PoolBuilder, usize) {
    b.absorb(&page(ids))
}

#[test]
fn overlapping_results_are_pooled_once() {
    let b = PoolBuilder::new(terms(&["first", "second"]), Vec::new(), 25);
    assert_eq!(b.next_query(), Some("first"));
    let (b, added) = feed(b, &[1, 2, 3]);
    assert_eq!(added, 3);
    assert_eq!(b.next_query(), Some("second"));
    let (b, added) = feed(b, &[2, 3, 4]);
    assert_eq!(added, 1);
    assert_eq!(b.next_query(), None);
    assert_eq!(pool_ids(&b), vec![1, 2, 3, 4]);
    let pool = b.into_pool();
    assert_eq!(pool.len(), 4);
}

#[test]
fn only_the_first_results_of_a_page_are_looked_at() {
    let b = PoolBuilder::new(terms(&["q"]), Vec::new(), 5);
    let mut results = page(&[1, 2, 2]);
    results.push(None);
    results.extend(page(&[3, 4, 5]));
    let (b, added) = b.absorb(&results);
    assert_eq!(added, 3);
    assert_eq!(pool_ids(&b), vec![1, 2, 3]);
}

#[test]
fn fallback_terms_are_searched_while_the_pool_is_short() {
    let b = PoolBuilder::new(terms(&["p"]), terms(&["f1", "f2", "f3"]), 12);
    let (b, added) = feed(b, &[1, 2, 3]);
    assert_eq!(added, 3);
    assert_eq!(b.next_query(), Some("f1"));
    let (b, added) = feed(b, &[3, 4, 5, 6, 7, 8, 9, 10, 11]);
    assert_eq!(added, 8);
    assert_eq!(b.candidates().len(), 11);
    assert_eq!(b.next_query(), Some("f2"));
    let (b, added) = feed(b, &[20, 21]);
    assert_eq!(added, 2);
    assert_eq!(b.candidates().len(), 13);
    assert_eq!(b.next_query(), None);
}

#[test]
fn fallback_terms_are_not_searched_for_a_full_pool() {
    let b = PoolBuilder::new(terms(&["p"]), terms(&["f1"]), 25);
    let (b, added) = feed(b, &[1, 2, 3, 4, 5, 6, 7, 8, 9, 10]);
    assert_eq!(added, 10);
    assert_eq!(b.next_query(), None);

    let b = PoolBuilder::new(terms(&["p"]), terms(&["f1"]), 25);
    let (b, added) = feed(b, &[1, 2, 3, 4, 5, 6, 7, 8, 9]);
    assert_eq!(added, 9);
    assert_eq!(b.next_query(), Some("f1"));
}

#[test]
fn fallback_stops_at_the_cap() {
    let b = PoolBuilder::new(terms(&["p"]), terms(&["f1", "f2"]), 5);
    let (b, added) = feed(b, &[1, 2, 3, 4, 5, 6, 7]);
    assert_eq!(added, 5);
    assert_eq!(b.next_query(), None);

    let b = PoolBuilder::new(terms(&["one", "two"]), terms(&["f1", "f2"]), 5);
    let (b, _) = feed(b, &[1, 2]);
    let (b, _) = feed(b, &[3, 4]);
    assert_eq!(b.next_query(), Some("f1"));
    let (b, _) = feed(b, &[5]);
    assert_eq!(b.next_query(), None);
}

#[test]
fn pool_without_terms_is_complete_at_once() {
    let b = PoolBuilder::new(Vec::new(), Vec::new(), 10);
    assert_eq!(b.next_query(), None);
    let b = PoolBuilder::new(Vec::new(), terms(&["f"]), 10);
    assert_eq!(b.next_query(), Some("f"));
    let (b, added) = b.absorb(&Vec::new());
    assert_eq!(added, 0);
    assert_eq!(b.next_query(), None);
}

#[test]
fn a_page_that_nobody_asked_for_changes_nothing() {
    let b = PoolBuilder::new(terms(&["p"]), Vec::new(), 10);
    let (b, _) = feed(b, &[1, 2]);
    assert_eq!(b.next_query(), None);
    let (b, added) = feed(b, &[3, 4]);
    assert_eq!(added, 0);
    assert_eq!(pool_ids(&b), vec![1, 2]);
}

#[test]
fn relaxed_pool_keeps_one_gear_category() {
    let mut pool: Vec<ToneCandidate> = page(&[1, 2, 3, 4]).into_iter().flatten().collect();
    pool[1].gear = "AMP".to_string();
    pool[2].gear = "pedal".to_string();
    pool[3].gear = String::new();
    let ids: Vec<i64> = only_gear(pool, "amp").iter().map(|t| t.id).collect();
    assert_eq!(ids, vec![1, 2]);
}

#[test]
fn search_request_caps_the_page_and_drops_an_empty_filter() {
    let r = search_request("metal", Some("amp"), 100);
    assert_eq!((r.query.as_str(), r.gear.as_deref(), r.page_size), ("metal", Some("amp"), 25));
    let r = search_request("metal", Some(""), 10);
    assert_eq!((r.gear, r.page_size), (None, 10));
    assert_eq!(search_request("x", None, 25).page_size, 25);
}

#[test]
fn search_page_is_decoded_entry_by_entry() {
    let body = "{\"data\": [\
        {\"id\": 7, \"title\": \"Plexi\", \"description\": \"crunch\", \"gear\": \"amp\", \
         \"platform\": \"nam\", \"downloads_count\": 42, \"user\": {\"username\": \"joe\"}, \"url\": \"http://x\"},\
        {\"title\": \"no id\"},\
        {\"id\": \"19\", \"downloads_count\": \"003\"},\
        {\"id\": 1.5},\
        {\"id\": 18446744073709551615, \"downloads_count\": true, \"user\": \"joe\", \"title\": 5}\
    ]}";
    let page = decode_search_page(body).unwrap();
    assert_eq!(page.len(), 5);
    assert_eq!(
        page[0],
        Some(ToneCandidate {
            id: 7,
            title: "Plexi".to_string(),
            description: "crunch".to_string(),
            gear: "amp".to_string(),
            platform: "nam".to_string(),
            downloads: 42,
            author: "joe".to_string(),
            url: "http://x".to_string(),
        })
    );
    assert_eq!(page[1], None);
    let third = page[2].as_ref().unwrap();
    assert_eq!((third.id, third.downloads, third.title.as_str()), (19, 3, ""));
    assert_eq!(page[3], None);
    let fifth = page[4].as_ref().unwrap();
    assert_eq!((fifth.id, fifth.downloads, fifth.author.as_str(), fifth.title.as_str()), (-1, 0, "", ""));
}

#[test]
fn replies_without_a_list_hold_nothing() {
    assert_eq!(decode_search_page("{}"), Some(Vec::new()));
    assert_eq!(decode_search_page("{\"data\": {}}"), Some(Vec::new()));
    assert_eq!(decode_search_page("[]"), Some(Vec::new()));
    assert_eq!(decode_search_page("not json"), None);
    assert_eq!(decode_search_page("{\"data\": []} trailing"), None);
    assert_eq!(decode_model_list(""), None);
    assert_eq!(decode_model_list("{\"data\": 3}"), Some(Vec::new()));
}

#[test]
fn model_list_is_decoded() {
    let body = "{\"data\": [{\"name\": \"Clean\", \"size\": \"standard\", \"model_url\": \"u1\"}, {\"name\": 3}]}";
    assert_eq!(
        decode_model_list(body),
        Some(vec![
            ModelFile {
                name: "Clean".to_string(),
                size: "standard".to_string(),
                url: "u1".to_string()
            },
            ModelFile { name: String::new(), size: String::new(), url: String::new() },
        ])
    );
}

#[test]
fn values_are_read_leniently() {
    let doc = object(
        "{\"a\": 5, \"b\": \"-12\", \"c\": \"x\", \"d\": 2.5, \"e\": 9223372036854775808, \"id\": \"+4\", \"downloads_count\": 9}",
    )
    .unwrap();
    assert_eq!(value_as_i64(doc.get("a")), 5);
    assert_eq!(value_as_i64(doc.get("b")), -12);
    assert_eq!(value_as_i64(doc.get("c")), 0);
    assert_eq!(value_as_i64(doc.get("d")), 0);
    assert_eq!(value_as_i64(doc.get("e")), i64::MIN);
    assert_eq!(value_as_i64(doc.get("missing")), 0);
    assert_eq!(value_as_i64(None), 0);
    assert_eq!(value_as_string(doc.get("b")), "-12");
    assert_eq!(value_as_string(doc.get("a")), "");
    assert_eq!(value_as_string(None), "");
    assert_eq!(tone_id(&doc), Some(4));
    assert_eq!(tone_downloads(&doc), 9);
    assert_eq!(tone_id(&Json::Null), None);
}
