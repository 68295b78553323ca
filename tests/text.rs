use std::path::PathBuf;

use lango::cli::Cli;
use lango::display::{format_exchange, phonetic_display, shown_lines, split_text};
use lango::online::{join, parse_response, ApiDefinition, ApiMeaning, ApiPhonetic, ApiResponse};
use lango::pattern::{escape_like_text, like_prefix_pattern, like_substring_pattern};
use lango::ranking::ranking_order;
use lango::setup::{data_dir, db_path, SetupError};
use lango::suggest::{
    distances_to, fuzzy_suggestions, merge_candidate_pools, prefix_scan_cap, rank_by_distance,
    rank_candidates, substring_scan_cap,
};
use lango::types::DataSource;

fn strings(v: &[&str]) -> Vec<String> {
    v.iter().map(|s| s.to_string()).collect()
}

#[test]
fn helo_ranking_is_stable_among_equal_distances() {
    let pool = strings(&["hello", "help", "halo"]);
    assert_eq!(distances_to(&pool, "helo"), vec![1, 1, 1]);
    assert_eq!(rank_candidates(&pool, "helo", 5), strings(&["hello", "help", "halo"]));
}

#[test]
fn ranking_orders_by_distance_then_position() {
    let pool = strings(&["helicopter", "help", "hello", "he"]);
    assert_eq!(distances_to(&pool, "hel"), vec![7, 1, 2, 1]);
    assert_eq!(rank_candidates(&pool, "hel", 3), strings(&["help", "he", "hello"]));
    assert_eq!(rank_candidates(&pool, "hel", 0), Vec::<String>::new());
}

#[test]
fn distance_ignores_case_and_counts_code_points() {
    assert_eq!(distances_to(&strings(&["HELP"]), "help"), vec![0]);
    assert_eq!(distances_to(&strings(&["苹果"]), "苹"), vec![1]);
    assert_eq!(distances_to(&strings(&[""]), "abc"), vec![3]);
    assert_eq!(distances_to(&strings(&["kitten"]), "sitting"), vec![3]);
}

#[test]
fn ranking_order_of_distances() {
    assert_eq!(ranking_order(&vec![3, 1, 2, 1]), vec![1, 3, 2, 0]);
    assert_eq!(ranking_order(&vec![]), Vec::<usize>::new());
    let pool = strings(&["a", "b", "c"]);
    assert_eq!(rank_by_distance(&pool, &vec![2, 2, 0], 2), strings(&["c", "a"]));
}

#[test]
fn merge_skips_duplicates_of_prefix_hits() {
    let merged = merge_candidate_pools(strings(&["ab", "abc"]), &strings(&["xab", "abc", "yab"]));
    assert_eq!(merged, strings(&["ab", "abc", "xab", "yab"]));
}

#[test]
fn fuzzy_suggestions_rank_the_merged_pool() {
    let r = fuzzy_suggestions(
        strings(&["application", "applet", "apple"]),
        &strings(&["pineapple", "apple"]),
        "appel",
        2,
    );
    assert_eq!(r, strings(&["applet", "apple"]));
}

#[test]
fn scan_caps() {
    assert_eq!(prefix_scan_cap(5), 10);
    assert_eq!(prefix_scan_cap(usize::MAX), usize::MAX);
    assert_eq!(substring_scan_cap(3, 5), Some(15));
    assert_eq!(substring_scan_cap(5, 5), None);
    assert_eq!(substring_scan_cap(0, usize::MAX), Some(usize::MAX));
}

#[test]
fn like_patterns_escape_wildcards() {
    assert_eq!(escape_like_text("plain"), "plain");
    assert_eq!(like_prefix_pattern("a%b_c\\"), "a\\%b\\_c\\\\%");
    assert_eq!(like_substring_pattern("50%"), "%50\\%%");
    assert_eq!(like_prefix_pattern(""), "%");
}

#[test]
fn exchange_is_labelled() {
    assert_eq!(
        format_exchange("p:went/d:gone/i:going/3:goes/s:goes"),
        "过去式: went  过去分词: gone  现在分词: going  第三人称: goes  复数: goes"
    );
    assert_eq!(format_exchange("0:be/1:p"), "原型: be  原型变换: p");
    assert_eq!(format_exchange("r:bigger/t:biggest"), "比较级: bigger  最高级: biggest");
}

#[test]
fn exchange_skips_unknown_and_malformed_items() {
    assert_eq!(format_exchange("x:1/p:ran"), "过去式: ran");
    assert_eq!(format_exchange("p:a:b"), "过去式: a:b");
    assert_eq!(format_exchange(""), "");
    assert_eq!(format_exchange("nocolon"), "");
    assert_eq!(format_exchange("pp:x/"), "");
}

#[test]
fn phonetic_is_wrapped_in_slashes() {
    assert_eq!(phonetic_display("həˈləʊ"), "/həˈləʊ/");
    assert_eq!(phonetic_display("/x/"), "/x/");
    assert_eq!(phonetic_display("[x]"), "[x]");
    assert_eq!(phonetic_display(""), "//");
}

#[test]
fn join_puts_separator_between_parts() {
    assert_eq!(join(&strings(&["a", "b", "c"]), ", "), "a, b, c");
    assert_eq!(join(&strings(&["a"]), ", "), "a");
    assert_eq!(join(&vec![], ", "), "");
}

fn def(d: Option<&str>, e: Option<&str>) -> ApiDefinition {
    ApiDefinition { definition: d.map(|x| x.to_string()), example: e.map(|x| x.to_string()) }
}

#[test]
fn parse_response_flattens_meanings() {
    let resp = ApiResponse {
        word: "run".to_string(),
        phonetic: None,
        phonetics: Some(vec![ApiPhonetic { text: None }, ApiPhonetic { text: Some("/rʌn/".to_string()) }]),
        meanings: Some(vec![
            ApiMeaning {
                part_of_speech: Some("verb".to_string()),
                definitions: Some(vec![def(Some("To move fast."), Some("I run daily."))]),
            },
            ApiMeaning {
                part_of_speech: Some("noun".to_string()),
                definitions: Some(vec![def(Some(""), None), def(Some("A jog."), Some("A short run."))]),
            },
            ApiMeaning { part_of_speech: Some("verb".to_string()), definitions: None },
        ]),
    };
    let second = ApiResponse { word: "other".to_string(), phonetic: None, phonetics: None, meanings: None };
    let e = parse_response(vec![resp, second]).unwrap();
    assert_eq!(e.word, "run");
    assert_eq!(e.phonetic.as_deref(), Some("/rʌn/"));
    assert_eq!(e.pos.as_deref(), Some("verb, noun"));
    assert_eq!(e.definition.as_deref(), Some("To move fast.\nA jog."));
    assert!(e.translation.is_none());
    let ex: Vec<String> = e.examples.iter().map(|x| x.english.clone()).collect();
    assert_eq!(ex, strings(&["I run daily.", "A short run."]));
    assert!(e.examples.iter().all(|x| x.chinese.is_none()));
    assert_eq!(e.source, DataSource::Online);
}

#[test]
fn parse_response_prefers_direct_phonetic_and_handles_empty() {
    assert!(parse_response(vec![]).is_none());
    let resp = ApiResponse {
        word: "a".to_string(),
        phonetic: Some("/eɪ/".to_string()),
        phonetics: Some(vec![ApiPhonetic { text: Some("/ə/".to_string()) }]),
        meanings: None,
    };
    let e = parse_response(vec![resp]).unwrap();
    assert_eq!(e.phonetic.as_deref(), Some("/eɪ/"));
    assert!(e.definition.is_none());
    assert!(e.pos.is_none());
    assert!(e.examples.is_empty());
}

#[test]
fn cli_options_and_query() {
    let cli = Cli {
        command: None,
        query: strings(&["machine", "learning"]),
        show_english: false,
        show_examples: true,
        force_online: true,
        max_examples: 3,
    };
    assert_eq!(cli.query_text(), "machine learning");
    let o = cli.lookup_options();
    assert!(o.show_english && o.show_examples && o.force_online);
    assert_eq!(o.max_examples, 3);
}

#[test]
fn dataset_location() {
    assert_eq!(db_path(None, None).unwrap_err(), SetupError::NoDataDir);
    assert_eq!(
        db_path(Some(PathBuf::from("/data")), Some(PathBuf::from("/home/u"))).unwrap(),
        PathBuf::from("/data/lango/stardict.db")
    );
    assert_eq!(
        data_dir(None, Some(PathBuf::from("/home/u"))).unwrap(),
        PathBuf::from("/home/u/.local/share/lango")
    );
}

#[test]
fn split_text_keeps_empty_pieces() {
    assert_eq!(split_text("a/b//c", '/'), strings(&["a", "b", "", "c"]));
    assert_eq!(split_text("", '/'), strings(&[""]));
    assert_eq!(split_text("a/", '/'), strings(&["a", ""]));
}

#[test]
fn shown_lines_trim_skip_blank_and_limit() {
    let text = "  first \r\n\n second\nthird\nfourth\nfifth\nsixth\n";
    assert_eq!(shown_lines(text, 5), strings(&["first", "second", "third", "fourth"]));
    assert_eq!(
        shown_lines(text, usize::MAX),
        strings(&["first", "second", "third", "fourth", "fifth", "sixth"])
    );
    assert_eq!(shown_lines("", 5), Vec::<String>::new());
}
