//! The search engine: case-insensitive literal matching, span collection,
//! and cursor-relative navigation without wraparound.

use rfc_reader::app::App;
use rfc_reader::search::{find_matches_in_line, MatchSpan};

fn submit(app: &mut App, query: &str) {
    app.enter_search_mode();
    for ch in query.chars() {
        app.add_search_char(ch);
    }
    app.perform_search();
    app.exit_search_mode();
}

#[test]
fn spans_are_collected_per_line() {
    let spans = find_matches_in_line("abcabc", "b");
    assert_eq!(spans.len(), 2);
    assert_eq!(spans[0], MatchSpan { start: 1, end: 2 });
    assert_eq!(spans[1], MatchSpan { start: 4, end: 5 });
}

#[test]
fn matching_is_case_insensitive() {
    let spans = find_matches_in_line("Hello HELLO hello", "hello");
    assert_eq!(spans.len(), 3);
    assert_eq!(spans[0], MatchSpan { start: 0, end: 5 });
    assert_eq!(spans[1], MatchSpan { start: 6, end: 11 });
    assert_eq!(spans[2], MatchSpan { start: 12, end: 17 });
}

#[test]
fn occurrences_never_overlap() {
    // the greedy scan jumps past each match, as the matcher's find-all does
    let spans = find_matches_in_line("aaaa", "aa");
    assert_eq!(spans.len(), 2);
    assert_eq!(spans[0], MatchSpan { start: 0, end: 2 });
    assert_eq!(spans[1], MatchSpan { start: 2, end: 4 });
}

#[test]
fn submit_records_lines_in_order_and_jumps() {
    let mut app = App::new(1, "none\nneedle here\nnothing\ntwo needle needle\n");
    submit(&mut app, "needle");
    assert_eq!(app.query_match_line_nums, vec![1, 3]);
    // the view jumps to the first match line at or after the old position
    assert_eq!(app.current_scroll_pos, 1);
    assert_eq!(app.current_query_match_index, 0);
    assert!(!app.has_no_results);
    let spans = app.matches_for_line(3).unwrap();
    assert_eq!(spans.len(), 2);
    assert_eq!(spans[0], MatchSpan { start: 4, end: 10 });
    assert_eq!(spans[1], MatchSpan { start: 11, end: 17 });
    assert!(app.matches_for_line(0).is_none());
}

#[test]
fn no_match_scenario_sets_flag_and_navigation_stays() {
    let mut app = App::new(1, "alpha\nbeta\ngamma\n");
    submit(&mut app, "zzz-not-present");
    assert_eq!(app.query_match_line_nums.len(), 0);
    assert!(app.has_no_results);
    let before = app.current_scroll_pos;
    app.next_search_result();
    assert_eq!(app.current_scroll_pos, before);
    app.prev_search_result();
    assert_eq!(app.current_scroll_pos, before);
}

#[test]
fn cursor_relative_navigation_without_wraparound() {
    // matches at lines 3, 7 and 12; the cursor stands at line 10
    let mut lines: Vec<String> = Vec::new();
    for i in 0..13 {
        lines.push(if i == 3 || i == 7 || i == 12 {
            "a needle here".to_string()
        } else {
            "plain".to_string()
        });
    }
    let content = lines.join("\n");
    let mut app = App::new(1, &content);
    submit(&mut app, "needle");
    assert_eq!(app.query_match_line_nums, vec![3, 7, 12]);

    app.current_scroll_pos = 10;
    app.next_search_result();
    assert_eq!(app.current_scroll_pos, 12);
    assert_eq!(app.current_query_match_index, 2);

    // past the last match: a further step is a no-op, no wraparound
    app.next_search_result();
    assert_eq!(app.current_scroll_pos, 12);
    assert_eq!(app.current_query_match_index, 2);

    app.current_scroll_pos = 10;
    app.prev_search_result();
    assert_eq!(app.current_scroll_pos, 7);
    assert_eq!(app.current_query_match_index, 1);
}

#[test]
fn prev_stops_before_the_first_match() {
    let mut app = App::new(1, "needle\nplain\n");
    submit(&mut app, "needle");
    assert_eq!(app.current_scroll_pos, 0);
    app.prev_search_result();
    assert_eq!(app.current_scroll_pos, 0);
    assert_eq!(app.current_query_match_index, 0);
}

#[test]
fn submit_past_all_matches_leaves_view_in_place() {
    // every match lies above the cursor: the index stands past the end
    // and the view stays where it was
    let mut app = App::new(1, "needle\nneedle\nplain\nplain\n");
    app.current_scroll_pos = 3;
    submit(&mut app, "needle");
    assert_eq!(app.query_match_line_nums, vec![0, 1]);
    assert_eq!(app.current_query_match_index, 2);
    assert_eq!(app.current_scroll_pos, 3);
}

#[test]
fn empty_query_leaves_state_empty() {
    let mut app = App::new(1, "alpha\nbeta\n");
    submit(&mut app, "");
    assert_eq!(app.query_match_line_nums.len(), 0);
    assert!(!app.has_no_results);
    assert_eq!(app.current_scroll_pos, 0);
}

#[test]
fn reset_after_submit_matches_initial_state() {
    let initial = App::new(1, "alpha\nbeta needle\n");
    let mut app = App::new(1, "alpha\nbeta needle\n");
    submit(&mut app, "needle");
    assert!(!app.query_match_line_nums.is_empty());
    app.reset_search_highlights();
    // observably identical to the never-searched state
    assert_eq!(app.query_text, initial.query_text);
    assert_eq!(app.query_match_line_nums, initial.query_match_line_nums);
    assert_eq!(app.current_query_match_index, initial.current_query_match_index);
    assert_eq!(app.query_matches.len(), initial.query_matches.len());
    assert_eq!(app.has_no_results, initial.has_no_results);
}

#[test]
fn reset_clears_the_no_results_flag() {
    let mut app = App::new(1, "alpha\n");
    submit(&mut app, "absent");
    assert!(app.has_no_results);
    app.reset_search_highlights();
    assert!(!app.has_no_results);
    assert_eq!(app.query_text, "");
}

#[test]
fn query_editing_appends_and_removes() {
    let mut app = App::new(1, "alpha\n");
    app.enter_search_mode();
    app.add_search_char('a');
    app.add_search_char('b');
    assert_eq!(app.query_text, "ab");
    app.remove_search_char();
    assert_eq!(app.query_text, "a");
    app.remove_search_char();
    app.remove_search_char();
    assert_eq!(app.query_text, "");
}
