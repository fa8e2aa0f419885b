//! Viewer state: scroll clamping, the mode machine, the key dispatch, and
//! the status-line texts.

use rfc_reader::app::{is_terminal_too_small, App, AppMode};
use rfc_reader::event::KeyPress;
use rfc_reader::highlight::{highlight_segments, SegKind};
use rfc_reader::search::MatchSpan;

#[test]
fn scroll_up_saturates_at_zero() {
    let mut app = App::new(1, "a\nb\nc\nd\n");
    app.scroll_down(2);
    assert_eq!(app.current_scroll_pos, 2);
    app.scroll_up(1);
    assert_eq!(app.current_scroll_pos, 1);
    app.scroll_up(usize::MAX);
    assert_eq!(app.current_scroll_pos, 0);
    app.scroll_up(1);
    assert_eq!(app.current_scroll_pos, 0);
}

#[test]
fn scroll_down_clamps_to_last_line() {
    let mut app = App::new(1, "a\nb\nc\nd\n");
    assert_eq!(app.rfc_line_number, 4);
    app.scroll_down(100);
    assert_eq!(app.current_scroll_pos, 3);
    app.scroll_down(usize::MAX);
    assert_eq!(app.current_scroll_pos, 3);
}

#[test]
fn scrolling_an_empty_document_stays_at_zero() {
    let mut app = App::new(1, "");
    assert_eq!(app.rfc_line_number, 0);
    app.scroll_down(5);
    assert_eq!(app.current_scroll_pos, 0);
    app.scroll_up(5);
    assert_eq!(app.current_scroll_pos, 0);
}

#[test]
fn mode_machine_toggles_help_and_search() {
    let mut app = App::new(1, "a\n");
    assert_eq!(app.mode, AppMode::Normal);
    app.toggle_help();
    assert_eq!(app.mode, AppMode::Help);
    app.toggle_help();
    assert_eq!(app.mode, AppMode::Normal);
    app.enter_search_mode();
    assert_eq!(app.mode, AppMode::Search);
    app.exit_search_mode();
    assert_eq!(app.mode, AppMode::Normal);
}

#[test]
fn entering_search_clears_the_query_buffer() {
    let mut app = App::new(1, "a\n");
    app.enter_search_mode();
    app.add_search_char('x');
    app.exit_search_mode();
    app.enter_search_mode();
    assert_eq!(app.query_text, "");
}

#[test]
fn dispatch_runs_the_mode_machine() {
    let mut app = App::new(1, "a\nb\nc\n");
    app.handle_key(KeyPress::Char('?'), 10);
    assert_eq!(app.mode, AppMode::Help);
    // no direct way from help to search
    app.handle_key(KeyPress::Char('/'), 10);
    assert_eq!(app.mode, AppMode::Help);
    app.handle_key(KeyPress::Esc, 10);
    assert_eq!(app.mode, AppMode::Normal);
    app.handle_key(KeyPress::Char('/'), 10);
    assert_eq!(app.mode, AppMode::Search);
    app.handle_key(KeyPress::Esc, 10);
    assert_eq!(app.mode, AppMode::Normal);
}

#[test]
fn cancelling_search_discards_the_buffer() {
    let mut app = App::new(1, "alpha\n");
    app.handle_key(KeyPress::Char('/'), 10);
    app.handle_key(KeyPress::Char('a'), 10);
    app.handle_key(KeyPress::Char('b'), 10);
    assert_eq!(app.query_text, "ab");
    app.handle_key(KeyPress::Esc, 10);
    assert_eq!(app.mode, AppMode::Normal);
    assert_eq!(app.query_text, "");
}

#[test]
fn submitting_search_keeps_the_query() {
    let mut app = App::new(1, "needle\n");
    app.handle_key(KeyPress::Char('/'), 10);
    for ch in "needle".chars() {
        app.handle_key(KeyPress::Char(ch), 10);
    }
    app.handle_key(KeyPress::Enter, 10);
    assert_eq!(app.mode, AppMode::Normal);
    assert_eq!(app.query_text, "needle");
    assert_eq!(app.query_match_line_nums, vec![0]);
}

#[test]
fn dispatch_quits_on_q_in_normal_mode_only() {
    let mut app = App::new(1, "a\n");
    app.handle_key(KeyPress::Char('/'), 10);
    app.handle_key(KeyPress::Char('q'), 10);
    assert!(app.should_run);
    assert_eq!(app.query_text, "q");
    app.handle_key(KeyPress::Esc, 10);
    app.handle_key(KeyPress::Char('q'), 10);
    assert!(!app.should_run);
}

#[test]
fn dispatch_scrolls_and_pages() {
    let mut lines: Vec<String> = Vec::new();
    for _ in 0..50 {
        lines.push("x".to_string());
    }
    let content = lines.join("\n");
    let mut app = App::new(1, &content);
    app.handle_key(KeyPress::Down, 10);
    assert_eq!(app.current_scroll_pos, 1);
    app.handle_key(KeyPress::PageDown, 10);
    assert_eq!(app.current_scroll_pos, 11);
    app.handle_key(KeyPress::Char('k'), 10);
    assert_eq!(app.current_scroll_pos, 10);
    app.handle_key(KeyPress::Char('G'), 10);
    assert_eq!(app.current_scroll_pos, 49);
    app.handle_key(KeyPress::Char('g'), 10);
    assert_eq!(app.current_scroll_pos, 0);
}

#[test]
fn dispatch_toggles_and_uses_the_panel() {
    let content = "Contents\n1. A ... 2\n2. B ... 3\nfiller\n1. A\n2. B\n";
    let mut app = App::new(1, content);
    assert!(!app.show_toc);
    app.handle_key(KeyPress::Char('t'), 10);
    assert!(app.show_toc);
    // 's' selects the next entry, enter jumps to it
    app.handle_key(KeyPress::Char('s'), 10);
    app.handle_key(KeyPress::Enter, 10);
    assert_eq!(app.current_scroll_pos, 5);
    app.handle_key(KeyPress::Char('w'), 10);
    app.handle_key(KeyPress::Enter, 10);
    assert_eq!(app.current_scroll_pos, 4);
}

#[test]
fn panel_navigation_is_inert_while_hidden() {
    let content = "Contents\n1. A ... 2\n2. B ... 3\nfiller\n1. A\n2. B\n";
    let mut app = App::new(1, content);
    app.handle_key(KeyPress::Char('s'), 10);
    app.handle_key(KeyPress::Enter, 10);
    assert_eq!(app.current_scroll_pos, 0);
}

#[test]
fn jump_without_selection_is_a_no_op() {
    let mut app = App::new(1, "prose only\n");
    app.scroll_down(0);
    app.jump_to_toc_entry();
    assert_eq!(app.current_scroll_pos, 0);
}

#[test]
fn mode_text_reflects_mode_and_panel() {
    let mut app = App::new(1, "a\n");
    assert_eq!(app.get_mode_text(), "NORMAL");
    app.toggle_toc();
    assert_eq!(app.get_mode_text(), "NORMAL (ToC)");
    app.toggle_toc();
    app.toggle_help();
    assert_eq!(app.get_mode_text(), "HELP");
    app.toggle_help();
    app.enter_search_mode();
    assert_eq!(app.get_mode_text(), "SEARCH");
}

#[test]
fn help_text_follows_state() {
    let mut app = App::new(1, "needle\nplain\n");
    assert_eq!(app.get_help_text(), "up/down:scroll  /:search  ?:help  q:quit");
    app.enter_search_mode();
    assert_eq!(app.get_help_text(), "Enter:search  Esc:cancel");
    app.add_search_char('n');
    app.perform_search();
    app.exit_search_mode();
    assert_eq!(app.get_help_text(), "n/N:next/prev  Esc:clear");
    app.toggle_toc();
    assert_eq!(app.get_help_text(), "t:toggle ToC  w/s:nav  Enter:jump  q:quit");
    app.toggle_toc();
    app.toggle_help();
    assert_eq!(app.get_help_text(), "?/Esc:close");
}

#[test]
fn progress_text_shows_position_and_percentage() {
    let mut app = App::new(1, "a\nb\nc\nd\n");
    assert_eq!(app.build_progress_text(), "L 1/4 (0%)");
    app.scroll_down(1);
    assert_eq!(app.build_progress_text(), "L 2/4 (25%)");
    app.scroll_down(10);
    assert_eq!(app.build_progress_text(), "L 4/4 (75%)");
}

#[test]
fn progress_text_on_an_empty_document() {
    let app = App::new(1, "");
    assert_eq!(app.build_progress_text(), "L 1/0 (0%)");
}

#[test]
fn search_info_counts_matches() {
    let mut app = App::new(1, "needle\nplain\nneedle\n");
    assert_eq!(app.build_search_info(), None);
    app.enter_search_mode();
    for ch in "needle".chars() {
        app.add_search_char(ch);
    }
    app.perform_search();
    app.exit_search_mode();
    assert_eq!(app.build_search_info(), Some(" | M 1/2".to_string()));
    assert_eq!(app.build_progress_text(), "L 1/3 (0%) | M 1/2");
    app.next_search_result();
    assert_eq!(app.build_search_info(), Some(" | M 2/2".to_string()));
}

#[test]
fn search_info_pins_a_past_the_end_index() {
    // every match above the cursor: the stored index stands past the end,
    // the shown counter pins to the last match
    let mut app = App::new(1, "needle\nplain\nplain\n");
    app.scroll_down(2);
    app.enter_search_mode();
    for ch in "needle".chars() {
        app.add_search_char(ch);
    }
    app.perform_search();
    app.exit_search_mode();
    assert_eq!(app.current_query_match_index, 1);
    assert_eq!(app.build_search_info(), Some(" | M 1/1".to_string()));
}

#[test]
fn terminal_size_rule() {
    assert!(!is_terminal_too_small(94, 15));
    assert!(is_terminal_too_small(93, 15));
    assert!(is_terminal_too_small(94, 14));
    assert!(!is_terminal_too_small(200, 50));
}

#[test]
fn highlight_segments_cover_the_line() {
    let spans = vec![MatchSpan { start: 2, end: 4 }, MatchSpan { start: 6, end: 8 }];
    let segs = highlight_segments("abcdefghij", &spans, false);
    let texts: Vec<&str> = segs.iter().map(|s| s.text.as_str()).collect();
    assert_eq!(texts, vec!["ab", "cd", "ef", "gh", "ij"]);
    assert_eq!(segs[0].kind, SegKind::Plain);
    assert_eq!(segs[1].kind, SegKind::Matched);
    assert_eq!(segs[2].kind, SegKind::Plain);
    assert_eq!(segs[3].kind, SegKind::Matched);
    assert_eq!(segs[4].kind, SegKind::Plain);
}

#[test]
fn highlight_segments_title_base_and_edges() {
    // a match at the very start and end: no empty gap or tail segments
    let spans = vec![MatchSpan { start: 0, end: 2 }, MatchSpan { start: 4, end: 6 }];
    let segs = highlight_segments("abcdef", &spans, true);
    let texts: Vec<&str> = segs.iter().map(|s| s.text.as_str()).collect();
    assert_eq!(texts, vec!["ab", "cd", "ef"]);
    assert_eq!(segs[0].kind, SegKind::Matched);
    assert_eq!(segs[1].kind, SegKind::Title);
    assert_eq!(segs[2].kind, SegKind::Matched);
}
