use font_inspect::search::{
    batch_scan_len, filter_batch,
    index_query, index_text_contains, is_index_target, parse_usize, search_window, target_key,
    text_contains, window_glyph_at, window_len,
};

#[test]
fn column_prefix_is_dropped() {
    assert_eq!(target_key(None), "all");
    assert_eq!(target_key(Some("column:index")), "index");
    assert_eq!(target_key(Some("column:")), "");
    assert_eq!(target_key(Some("xMin")), "xMin");
    assert_eq!(target_key(Some("colum")), "colum");
    assert!(is_index_target(Some("index")));
    assert!(is_index_target(Some("column:index")));
    assert!(!is_index_target(Some("column:indexes")));
    assert!(!is_index_target(None));
}

#[test]
fn numbers_parse_as_str_parse_does() {
    for q in ["0", "7", "+12", "0042", "", "+", "-1", "1a", " 3", "99999999999999999999999", "١"] {
        assert_eq!(parse_usize(q), q.parse::<usize>().ok(), "query {:?}", q);
    }
}

#[test]
fn index_search_matches_the_number_exactly() {
    assert_eq!(index_query("0", 10, 5), (Some(0), 0));
    assert_eq!(index_query("9", 10, 5), (Some(9), 9));
    assert_eq!(index_query("10", 10, 5), (None, 5));
    assert_eq!(index_query("1x", 10, 5), (None, 5));
}

#[test]
fn forward_window_finds_first_match_including_glyph_zero() {
    assert_eq!(window_len(0, 10, true), 10);
    assert_eq!(search_window(0, 10, true, &vec![true]), (Some(0), 0));
    assert_eq!(search_window(3, 10, true, &vec![false, false, true, true]), (Some(5), 5));
    assert_eq!(search_window(3, 10, true, &vec![false; 7]), (None, 10));
    assert_eq!(window_len(0, 5000, true), 2000);
    assert_eq!(search_window(0, 5000, true, &vec![]), (None, 2000));
    assert_eq!(search_window(12, 10, true, &vec![true]), (None, 12));
}

#[test]
fn backward_window_stops_at_zero() {
    assert_eq!(window_len(4, 10, false), 5);
    assert_eq!(window_glyph_at(4, 10, false, 4), 0);
    assert_eq!(search_window(4, 10, false, &vec![false, false, false, false, true]), (Some(0), 0));
    assert_eq!(search_window(4, 10, false, &vec![false; 5]), (None, 0));
    assert_eq!(search_window(2500, 3000, false, &vec![]), (None, 500));
    assert_eq!(search_window(1999, 3000, false, &vec![]), (None, 0));
}

#[test]
fn index_text_and_substrings() {
    assert!(index_text_contains(120, "12"));
    assert!(index_text_contains(120, "20"));
    assert!(!index_text_contains(120, "21"));
    assert!(index_text_contains(0, ""));
    assert!(text_contains("glyph", "ly"));
    assert!(!text_contains("gl", "glyph"));
}

#[test]
fn filtered_batches_stop_at_the_limit_or_the_scan_end() {
    assert_eq!(batch_scan_len(0, 5000), 1000);
    assert_eq!(batch_scan_len(4990, 5000), 10);
    assert_eq!(batch_scan_len(6000, 5000), 0);
    let m = vec![false, true, false, true, true, false];
    assert_eq!(filter_batch(10, 16, 2, &m), (vec![11, 13], 14));
    assert_eq!(filter_batch(10, 16, 5, &m), (vec![11, 13, 14], 16));
    assert_eq!(filter_batch(0, 5000, 10, &vec![false; 1000]), (vec![], 1000));
    assert_eq!(filter_batch(0, 5000, 0, &vec![true; 3]), (vec![], 0));
    assert_eq!(filter_batch(7, 5, 3, &vec![true]), (vec![], 7));
}
