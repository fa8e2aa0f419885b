//! Outline extraction: the structured pass, the fallback heuristic, and
//! the panel's selection rules.

use rfc_reader::toc::{extract_toc_entries, find_toc_start, parse_toc, parse_toc_existing,
    parse_toc_heuristic, try_extract_entry};
use rfc_reader::toc_panel::TocPanel;
use rfc_reader::text::split_lines;

fn doc_with_structured_toc() -> String {
    // line 4 holds the header, line 5 the outline entry, line 40 the body
    // section heading the entry resolves to.
    let mut lines: Vec<String> = Vec::new();
    for i in 0..41 {
        lines.push(match i {
            4 => "Table of Contents".to_string(),
            5 => "1. Introduction .......... 3".to_string(),
            40 => "1. Introduction".to_string(),
            _ => "filler text".to_string(),
        });
    }
    lines.join("\n")
}

#[test]
fn structured_toc_scenario() {
    // the structured pass resolves the outline entry to the body line
    let content = doc_with_structured_toc();
    let entries = parse_toc(&content);
    assert_eq!(entries.len(), 1);
    assert_eq!(entries[0].title, "1. Introduction");
    assert_eq!(entries[0].line_number, 40);
}

#[test]
fn fallback_heuristic_scenario() {
    // no contents header anywhere; a numbered heading at line 88
    let mut lines: Vec<String> = Vec::new();
    for i in 0..89 {
        lines.push(if i == 88 {
            "2. Security Considerations".to_string()
        } else {
            String::new()
        });
    }
    let content = lines.join("\n");

    let split = split_lines(&content);
    assert!(parse_toc_existing(&split).is_none());

    let entries = parse_toc(&content);
    assert_eq!(entries.len(), 1);
    assert_eq!(entries[0].title, "2. Security Considerations");
    assert_eq!(entries[0].line_number, 88);
}

#[test]
fn monotonic_outline_line_numbers_in_range() {
    // every extracted line number indexes a document line
    let content = doc_with_structured_toc();
    let count = split_lines(&content).len();
    for entry in parse_toc(&content).iter() {
        assert!(entry.line_number < count);
    }
    let plain = "A\n1. Alpha\nB\n2. Beta\n";
    let plain_count = split_lines(plain).len();
    for entry in parse_toc(plain).iter() {
        assert!(entry.line_number < plain_count);
    }
}

#[test]
fn find_toc_start_returns_line_after_header() {
    let lines = split_lines("x\n  Contents  \ny\n");
    assert_eq!(find_toc_start(&lines), Some(2));
    let none = split_lines("x\ny\n");
    assert_eq!(find_toc_start(&none), None);
}

#[test]
fn numbered_header_variant_is_recognised() {
    let lines = split_lines("intro\n3. Table of Contents\n1. One ... 2\n1. One body\n");
    assert_eq!(find_toc_start(&lines), Some(2));
}

#[test]
fn unresolved_candidate_is_discarded() {
    // the outline names a section that never appears in the body
    let content = "Table of Contents\n9. Ghost Section ..... 12\nfiller\nfiller\n";
    let entries = parse_toc(&content);
    // the structured pass found nothing, so the heuristic takes over and
    // accepts the numbered outline line itself
    assert_eq!(entries.len(), 1);
    assert_eq!(entries[0].title, "9. Ghost Section ..... 12");
    assert_eq!(entries[0].line_number, 1);
}

#[test]
fn appendix_entries_resolve() {
    let content = "Contents\nAppendix A. Examples ....... 9\nfiller\nAppendix A. Examples\n";
    let entries = parse_toc(&content);
    assert_eq!(entries.len(), 1);
    assert_eq!(entries[0].title, "Appendix A. Examples");
    assert_eq!(entries[0].line_number, 3);
}

#[test]
fn try_extract_entry_resolves_forward_only() {
    let lines = split_lines("1. One\nContents\n1. One ... 3\nmid\n1. One\n");
    // the candidate at index 2 resolves to line 4, not back to line 0
    let entry = try_extract_entry("1. One ... 3", &lines, 2).unwrap();
    assert_eq!(entry.line_number, 4);
    assert_eq!(entry.title, "1. One");
}

#[test]
fn body_heading_candidacy_is_dropped_without_locator() {
    // the body heading "1. A" is itself entry-shaped, so the walk goes on
    // past it; with nothing after it to locate it, it yields no entry
    let text = "Contents\n1. A ... 2\n1. A\n";
    let lines = split_lines(text);
    let entries = extract_toc_entries(&lines, 1);
    assert_eq!(entries.len(), 1);
    assert_eq!(entries[0].title, "1. A");
    assert_eq!(entries[0].line_number, 2);
}

#[test]
fn extraction_stops_at_two_blank_lines_after_an_entry() {
    // one resolved entry, then two consecutive blank lines end the region
    // before the next candidate is seen
    let content = "Contents\n1. A ... 2\n\n\n2. B ... 3\nfiller\n1. A\n2. B\n";
    let lines = split_lines(content);
    let entries = extract_toc_entries(&lines, 1);
    assert_eq!(entries.len(), 1);
    assert_eq!(entries[0].title, "1. A");
    assert_eq!(entries[0].line_number, 6);
}

#[test]
fn one_blank_line_does_not_end_the_region() {
    let content = "Contents\n1. A ... 2\n\n2. B ... 3\nfiller\n1. A\n2. B\n";
    let lines = split_lines(content);
    let entries = extract_toc_entries(&lines, 1);
    assert_eq!(entries.len(), 2);
    assert_eq!(entries[1].title, "2. B");
    assert_eq!(entries[1].line_number, 6);
}

#[test]
fn extraction_gives_up_after_thirty_dry_lines() {
    // a header with no entry shape for more than thirty lines yields nothing
    let mut lines: Vec<String> = vec!["Table of Contents".to_string()];
    for _ in 0..40 {
        lines.push("plain filler".to_string());
    }
    lines.push("1. Late ... 2".to_string());
    lines.push("1. Late".to_string());
    let content = lines.join("\n");
    let split = split_lines(&content);
    assert!(parse_toc_existing(&split).is_none());
}

#[test]
fn heuristic_upper_case_lines_until_numbered() {
    let lines = split_lines("INTRODUCTION\nsome text\n1. Alpha\nMORE CAPS\n");
    let entries = parse_toc_heuristic(&lines);
    // the upper-case rule holds only until a numbered entry appears
    assert_eq!(entries.len(), 2);
    assert_eq!(entries[0].title, "INTRODUCTION");
    assert_eq!(entries[0].line_number, 0);
    assert_eq!(entries[1].title, "1. Alpha");
    assert_eq!(entries[1].line_number, 2);
}

#[test]
fn heuristic_rejects_spaced_number_part() {
    // a space before the first full stop disqualifies the numbered shape,
    // and a three-character line is too short for the upper-case rule
    let lines = split_lines("1 x. y\nABC\n");
    let entries = parse_toc_heuristic(&lines);
    assert_eq!(entries.len(), 0);
}

#[test]
fn selection_saturates_at_both_ends() {
    let content = doc_with_structured_toc();
    let mut panel = TocPanel::new(&content);
    assert_eq!(panel.entries().len(), 1);
    assert_eq!(panel.selected_line(), Some(40));
    // one entry: both moves leave the selection unchanged
    panel.next();
    assert_eq!(panel.selected_line(), Some(40));
    panel.previous();
    assert_eq!(panel.selected_line(), Some(40));
}

#[test]
fn selection_moves_and_saturates_with_two_entries() {
    let content = "Contents\n1. A ... 2\n2. B ... 3\nfiller\n1. A\n2. B\n";
    let mut panel = TocPanel::new(&content);
    assert_eq!(panel.entries().len(), 2);
    assert_eq!(panel.selected_line(), Some(4));
    panel.next();
    assert_eq!(panel.selected_line(), Some(5));
    panel.next();
    // the last entry: next leaves the selection unchanged
    assert_eq!(panel.selected_line(), Some(5));
    panel.previous();
    assert_eq!(panel.selected_line(), Some(4));
    panel.previous();
    // the first entry: previous leaves the selection unchanged
    assert_eq!(panel.selected_line(), Some(4));
}

#[test]
fn empty_outline_has_no_selection() {
    let mut panel = TocPanel::new("just prose\nand more prose\n");
    assert_eq!(panel.entries().len(), 0);
    assert_eq!(panel.selected_line(), None);
    panel.next();
    assert_eq!(panel.selected_line(), None);
}

#[test]
fn title_lines_are_recognised() {
    let content = doc_with_structured_toc();
    let panel = TocPanel::new(&content);
    assert!(panel.is_title_line(40));
    assert!(!panel.is_title_line(39));
}
