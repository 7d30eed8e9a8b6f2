use epmeta::consolidate::{build_load_plan, consolidate, lookup_series};
use epmeta::document::extract_episode;
use epmeta::extract::clean_series_name;
use epmeta::store::{Document, Store, run};

fn doc(filename: &str, content: &str) -> Document {
    Document { filename: filename.to_string(), content: content.to_string() }
}

#[test]
fn end_to_end_two_episodes_one_series() {
    let docs = vec![
        doc("Show A_01_x.md", "title: \"Show A\"\ntags: [t, 202401]"),
        doc("Show A_02_x.md", "title: \"Show A 2\"\ntags: [t, 202402]"),
    ];
    let mut store = Store::new();
    assert!(run(&mut store, &docs).is_ok());

    assert_eq!(store.series.len(), 1);
    assert_eq!(store.series[0].name, "Show A");
    assert_eq!(store.series[0].year, "2024");
    assert_eq!(store.series[0].month, "01");

    assert_eq!(store.episodes.len(), 2);
    assert_eq!(store.episodes[0].ep_name, "Show A");
    assert_eq!(store.episodes[0].ep_num, "01");
    assert_eq!(store.episodes[0].series_id, store.series[0].id);
    assert_eq!(store.episodes[1].ep_name, "Show A 2");
    assert_eq!(store.episodes[1].ep_num, "02");
    assert_eq!(store.episodes[1].series_id, store.series[0].id);
}

#[test]
fn distinct_series_count_matches_distinct_clean_names() {
    let docs = vec![
        doc("Alpha_01.md", "title: \"Alpha 1\""),
        doc("Alpha_02.md", "title: \"Alpha 2\""),
        doc("Beta_01.md", "title: \"Beta\""),
        doc("Gamma_01.md", ""),
    ];
    let mut store = Store::new();
    assert!(run(&mut store, &docs).is_ok());

    // distinct cleaned names: "Alpha", "Beta", "Gamma"
    assert_eq!(store.series.len(), 3);
    for i in 0..store.series.len() {
        for j in 0..store.series.len() {
            if i != j {
                assert_ne!(store.series[i].name, store.series[j].name);
            }
        }
    }
    // every episode's series_id resolves to the row carrying its cleaned name
    for ep in &store.episodes {
        let row = store.series.iter().find(|s| s.id == ep.series_id).unwrap();
        assert_eq!(row.name, clean_series_name(&ep.ep_name));
    }
}

#[test]
fn series_ids_start_at_one_in_first_seen_order() {
    let docs = vec![
        doc("B_01.md", "title: \"B\""),
        doc("A_01.md", "title: \"A\""),
        doc("B_02.md", "title: \"B\""),
    ];
    let mut store = Store::new();
    assert!(run(&mut store, &docs).is_ok());
    assert_eq!(store.series.len(), 2);
    assert_eq!(store.series[0].id, 1);
    assert_eq!(store.series[0].name, "B");
    assert_eq!(store.series[1].id, 2);
    assert_eq!(store.series[1].name, "A");
}

#[test]
fn first_seen_year_and_month_win() {
    let docs = vec![
        doc("S_01.md", "title: \"S\"\ntags: [x, 202311]"),
        doc("S_02.md", "title: \"S\"\ntags: [x, 202402]"),
    ];
    let mut store = Store::new();
    assert!(run(&mut store, &docs).is_ok());
    assert_eq!(store.series.len(), 1);
    assert_eq!(store.series[0].year, "2023");
    assert_eq!(store.series[0].month, "11");
    // each episode keeps its own year and month
    assert_eq!(store.episodes[0].ep_year, "2023");
    assert_eq!(store.episodes[1].ep_year, "2024");
}

#[test]
fn rerun_on_unchanged_input_is_identical() {
    let docs = vec![
        doc("Show A_01_x.md", "title: \"Show A\"\ntags: [t, 202401]"),
        doc("Other_01.md", "description: \"d\""),
    ];
    let mut s1 = Store::new();
    assert!(run(&mut s1, &docs).is_ok());
    // the second run starts from the already-filled store
    let mut s2 = Store::new();
    assert!(run(&mut s2, &docs).is_ok());
    assert!(run(&mut s2, &docs).is_ok());

    assert_eq!(s1.series.len(), s2.series.len());
    for i in 0..s1.series.len() {
        assert_eq!(s1.series[i].id, s2.series[i].id);
        assert_eq!(s1.series[i].name, s2.series[i].name);
        assert_eq!(s1.series[i].year, s2.series[i].year);
        assert_eq!(s1.series[i].month, s2.series[i].month);
    }
    assert_eq!(s1.episodes.len(), s2.episodes.len());
    for i in 0..s1.episodes.len() {
        assert_eq!(s1.episodes[i].id, s2.episodes[i].id);
        assert_eq!(s1.episodes[i].ep_name, s2.episodes[i].ep_name);
        assert_eq!(s1.episodes[i].ep_num, s2.episodes[i].ep_num);
        assert_eq!(s1.episodes[i].ep_year, s2.episodes[i].ep_year);
        assert_eq!(s1.episodes[i].ep_month, s2.episodes[i].ep_month);
        assert_eq!(s1.episodes[i].series_id, s2.episodes[i].series_id);
        assert_eq!(s1.episodes[i].abstract_text, s2.episodes[i].abstract_text);
    }
}

#[test]
fn run_on_empty_input_clears_tables() {
    let docs = vec![
        doc("Show A_01_x.md", "title: \"Show A\""),
    ];
    let mut store = Store::new();
    assert!(run(&mut store, &docs).is_ok());
    assert_eq!(store.series.len(), 1);
    let empty: Vec<Document> = Vec::new();
    assert!(run(&mut store, &empty).is_ok());
    assert_eq!(store.series.len(), 0);
    assert_eq!(store.episodes.len(), 0);
}

#[test]
fn doubly_numeric_title_still_resolves() {
    // the cleaned name "A 1" is both the series key and the lookup key,
    // so the link resolves even though cleaning "A 1" again would differ
    let docs = vec![doc("A_01.md", "title: \"A 1 2\"")];
    let mut store = Store::new();
    assert!(run(&mut store, &docs).is_ok());
    assert_eq!(store.series.len(), 1);
    assert_eq!(store.series[0].name, "A 1");
    assert_eq!(store.episodes[0].ep_name, "A 1 2");
    assert_eq!(store.episodes[0].series_id, store.series[0].id);
}

#[test]
fn consolidate_and_lookup_agree() {
    let eps = vec![
        extract_episode("A_01.md", "title: \"A 1\""),
        extract_episode("A_02.md", "title: \"A 2\""),
        extract_episode("B_01.md", "title: \"B\""),
    ];
    let rows = consolidate(&eps);
    assert_eq!(rows.len(), 2);
    assert_eq!(lookup_series(&rows, &"A".to_string()), Some(1));
    assert_eq!(lookup_series(&rows, &"B".to_string()), Some(2));
    assert_eq!(lookup_series(&rows, &"missing".to_string()), None);

    let plan = match build_load_plan(&eps) {
        Ok(p) => p,
        Err(_) => panic!("lookup miss"),
    };
    assert_eq!(plan.episodes.len(), 3);
    assert_eq!(plan.episodes[0].series_id, 1);
    assert_eq!(plan.episodes[1].series_id, 1);
    assert_eq!(plan.episodes[2].series_id, 2);
    // ep_name keeps the uncleaned title
    assert_eq!(plan.episodes[0].ep_name, "A 1");
}
