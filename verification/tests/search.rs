use fuzzy_matcher::skim::SkimMatcherV2;
use fuzzy_matcher::FuzzyMatcher;
use tarkine::records::{IndexData, PersistentQuery, TextSource};
use tarkine::search::{index_record, match_information, MatchInformation, Searcher};
use unicode_segmentation::UnicodeSegmentation;

const OPENING: &str = "It is a truth universally acknowledged, that a single man in \
possession of a good fortune, must be in want of a wife. Such is the pride and the \
prejudice of the neighbourhood.";

const LETTER: &str = "You will rejoice to hear that no disaster has accompanied the \
commencement of an enterprise which you have regarded with such evil forebodings.";

#[test]
fn test_fuzzy_matching() {
    let src_text = "this is some text";
    let query = "text";
    let matcher = SkimMatcherV2::default();
    let res = matcher.fuzzy_match(src_text, query);
    assert!(res.is_some());
    assert!(Searcher::new().search_raw(query, src_text).is_some());
}

#[test]
fn test_search_large_text() {
    let matcher = SkimMatcherV2::default();
    let query = "prid n prejudice";
    if let Some((score, indices)) = matcher.fuzzy_indices(OPENING, query) {
        println!("Score: {score}");
        let y = indices.get(0..=2).unwrap();
        let x: String = OPENING.graphemes(true).skip(y[0]).take(y[2] - y[0]).collect();
        println!("{x}");
    }
    let res2 = matcher.fuzzy_match(LETTER, query);
    println!("{res2:?}");
    let found = Searcher::new().search_raw(query, OPENING);
    assert!(found.is_some());
    assert!(Searcher::new().search_raw(query, LETTER).is_none());
}

#[test]
fn search_raw_reports_score_text_and_spans() {
    let text = "Mr. Darcy walked into the room";
    let reference = SkimMatcherV2::default().ignore_case().fuzzy_indices(text, "Darcy").unwrap();
    assert_eq!(reference.1, vec![4, 5, 6, 7, 8]);
    let found = Searcher::new().search_raw("Darcy", text).unwrap();
    assert_eq!(found.raw_text, text);
    assert_eq!(found.score, reference.0);
    assert_eq!(found.positions, vec![[4, 8]]);
}

#[test]
fn earlier_searches_leave_no_trace() {
    let engine = Searcher::new();
    let alone = Searcher::new().search_raw("oob", "ooob").unwrap();
    assert!(engine.search_raw("h", "hello world").is_some());
    let after = engine.search_raw("oob", "ooob").unwrap();
    assert_eq!(after, alone);
    assert_eq!(engine.search_raw("oob", "ooob").unwrap(), alone);
    let reference = SkimMatcherV2::default().ignore_case().fuzzy_indices("ooob", "oob").unwrap();
    assert_eq!(alone.score, reference.0);
    assert_eq!(alone.positions, tarkine::spans::get_contiguous(&reference.1));
}

#[test]
fn search_raw_ignores_case() {
    let found = Searcher::new().search_raw("DARCY", "mr. darcy").unwrap();
    assert_eq!(found.positions, vec![[4, 8]]);
}

#[test]
fn search_raw_finds_nothing_where_the_text_lacks_the_query() {
    assert!(Searcher::new().search_raw("xyz", "Mr. Darcy").is_none());
    assert!(Searcher::new().search_raw("Darcy", "").is_none());
}

#[test]
fn search_raw_coalesces_scattered_positions() {
    let found = Searcher::new().search_raw("ab", "a-b").unwrap();
    assert_eq!(found.positions, vec![[0, 0], [2, 2]]);
}

#[test]
fn search_raw_of_a_single_character_has_no_span() {
    let found = Searcher::new().search_raw("a", "a").unwrap();
    assert_eq!(found.positions, Vec::<[usize; 2]>::new());
}

#[test]
fn search_raw_of_the_empty_query_matches_with_score_zero() {
    let found = Searcher::new().search_raw("", "anything").unwrap();
    assert_eq!(found.score, 0);
    assert_eq!(found.positions, Vec::<[usize; 2]>::new());
}

#[test]
fn match_information_coalesces_the_positions() {
    let info = match_information("abcdefg", Some((42, vec![1, 2, 3, 5, 6]))).unwrap();
    assert_eq!(
        info,
        MatchInformation {
            raw_text: "abcdefg".to_string(),
            score: 42,
            positions: vec![[1, 3], [5, 6]],
        }
    );
    assert_eq!(match_information("abcdefg", None), None);
}

fn darcy_query(threshold: i64) -> PersistentQuery {
    PersistentQuery::new(1, "darcy".to_string(), "Darcy".to_string(), threshold)
}

fn darcy_document() -> TextSource {
    TextSource {
        id: 100,
        name: Some("chapter".to_string()),
        data: "Mr. Darcy walked into the room".to_string(),
    }
}

fn some_match(score: i64) -> MatchInformation {
    MatchInformation { raw_text: "text".to_string(), score, positions: vec![[4, 8]] }
}

#[test]
fn index_record_accepts_a_score_at_the_threshold() {
    let record = index_record(&darcy_query(60), &darcy_document(), Some(some_match(60)), 7);
    assert_eq!(
        record,
        Some(IndexData {
            source_query: 1,
            key: 7,
            document_id: 100,
            name: Some("chapter".to_string()),
            match_indices: vec![[4, 8]],
            score: 60,
        })
    );
}

#[test]
fn index_record_rejects_a_score_below_the_threshold() {
    assert_eq!(index_record(&darcy_query(60), &darcy_document(), Some(some_match(59)), 7), None);
}

#[test]
fn index_record_rejects_no_match() {
    assert_eq!(index_record(&darcy_query(i64::MIN), &darcy_document(), None, 7), None);
}

#[test]
fn index_record_keeps_an_absent_label_absent() {
    let document = TextSource { id: 5, name: None, data: "x".to_string() };
    let record = index_record(&darcy_query(0), &document, Some(some_match(0)), 9).unwrap();
    assert_eq!(record.name, None);
    assert_eq!(record.document_id, 5);
}

#[test]
fn search_yields_a_record_above_the_threshold() {
    let engine = Searcher::new();
    let score = engine.search_raw("Darcy", "Mr. Darcy walked into the room").unwrap().score;
    let record = engine.search(&darcy_query(score), &darcy_document()).unwrap();
    assert_eq!(record.source_query, 1);
    assert_eq!(record.document_id, 100);
    assert_eq!(record.name, Some("chapter".to_string()));
    assert_eq!(record.score, score);
    assert_eq!(record.match_indices, vec![[4, 8]]);
}

#[test]
fn search_yields_nothing_below_the_threshold() {
    let engine = Searcher::new();
    let score = engine.search_raw("Darcy", "Mr. Darcy walked into the room").unwrap().score;
    assert_eq!(engine.search(&darcy_query(score + 1), &darcy_document()), None);
}

#[test]
fn search_yields_nothing_without_a_match() {
    let engine = Searcher::new();
    let query = PersistentQuery::new(2, "none".to_string(), "zebra".to_string(), i64::MIN);
    assert_eq!(engine.search(&query, &darcy_document()), None);
}

#[test]
fn new_query_has_counted_no_result() {
    let query = PersistentQuery::new(9, "label".to_string(), "text".to_string(), -3);
    assert_eq!(query.id, 9);
    assert_eq!(query.name, "label");
    assert_eq!(query.query, "text");
    assert_eq!(query.score_threshold, -3);
    assert_eq!(query.result_count(), 0);
}

#[test]
fn new_document_keeps_body_and_label() {
    let document = TextSource::new("body", Some("file.txt".to_string()));
    assert_eq!(document.data, "body");
    assert_eq!(document.name, Some("file.txt".to_string()));
    let unnamed = TextSource::new("", None);
    assert_eq!(unnamed.data, "");
    assert_eq!(unnamed.name, None);
}
