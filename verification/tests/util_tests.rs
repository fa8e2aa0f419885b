//! Line splitting, numerals, addressing, file-name rules, text clean-up,
//! and the input pump's decisions.

use rfc_reader::cache::{classify_cache_file_name, CacheFileKind, RfcCache};
use rfc_reader::client::{rfc_index_url, rfc_url, sanitize_rfc_text};
use rfc_reader::document::Document;
use rfc_reader::event::{poll_timeout_ms, pump_step, Event, KeyPress, PollOutcome};
use rfc_reader::logging::{get_base_log_file_path, get_log_files_dir_path, is_log_file_name};
use rfc_reader::numfmt::usize_to_dec;
use rfc_reader::text::split_lines;

#[test]
fn split_lines_handles_terminators() {
    let lines = split_lines("a\nb\r\nc");
    assert_eq!(lines, vec!["a", "b", "c"]);
    // the final terminator opens no further empty line
    assert_eq!(split_lines("a\n"), vec!["a"]);
    // an inner empty line stays
    assert_eq!(split_lines("a\n\nb"), vec!["a", "", "b"]);
    // a lone carriage return is no terminator
    assert_eq!(split_lines("a\rb\n"), vec!["a\rb"]);
    assert_eq!(split_lines("").len(), 0);
}

#[test]
fn document_exposes_lines_by_index() {
    let doc = Document::new("alpha\nbeta\n");
    assert_eq!(doc.line_count(), 2);
    assert_eq!(doc.line(0), "alpha");
    assert_eq!(doc.line(1), "beta");
}

#[test]
fn decimal_numerals() {
    assert_eq!(usize_to_dec(0), "0");
    assert_eq!(usize_to_dec(7), "7");
    assert_eq!(usize_to_dec(10), "10");
    assert_eq!(usize_to_dec(9110), "9110");
    assert_eq!(usize_to_dec(65535), "65535");
}

#[test]
fn cache_paths_are_formatted() {
    let cache = RfcCache::new("/tmp/cache".to_string());
    assert_eq!(cache.cache_dir().as_str(), "/tmp/cache");
    assert_eq!(cache.format_cache_path(9110), "/tmp/cache/rfc9110.txt");
    assert_eq!(cache.get_index_cache_path(), "/tmp/cache/rfc-index.txt");
}

#[test]
fn cache_file_names_are_classified() {
    assert_eq!(classify_cache_file_name("rfc-index.txt"), CacheFileKind::IndexFile);
    assert_eq!(
        classify_cache_file_name("rfc9110.txt"),
        CacheFileKind::RfcFile("9110".to_string())
    );
    assert_eq!(classify_cache_file_name("notes.md"), CacheFileKind::OtherFile);
    // too short for both the prefix and the suffix
    assert_eq!(classify_cache_file_name("rfctxt"), CacheFileKind::OtherFile);
    assert_eq!(classify_cache_file_name("rfc.txt"), CacheFileKind::RfcFile(String::new()));
}

#[test]
fn document_addresses() {
    assert_eq!(rfc_url(9110), "https://www.rfc-editor.org/rfc/rfc9110.txt");
    assert_eq!(rfc_index_url(), "https://www.rfc-editor.org/rfc-index.txt");
}

#[test]
fn fetched_text_is_sanitized() {
    assert_eq!(sanitize_rfc_text("  hello\x0cworld \n"), "helloworld");
    assert_eq!(sanitize_rfc_text("\x0c\x0c"), "");
    assert_eq!(sanitize_rfc_text("plain"), "plain");
    // a form feed inside the text goes; the kept text is not re-trimmed
    assert_eq!(sanitize_rfc_text(" a \x0c b "), "a  b");
}

#[test]
fn log_paths_are_formatted() {
    assert_eq!(get_log_files_dir_path("/home/u/.local/state"), "/home/u/.local/state/rfc_reader/logs");
    assert_eq!(get_base_log_file_path("/logs"), "/logs/rfc_reader.log");
}

#[test]
fn log_file_names_are_recognised() {
    assert!(is_log_file_name("rfc_reader.log", "rfc_reader.log"));
    assert!(is_log_file_name("rfc_reader.log.1", "rfc_reader.log"));
    assert!(is_log_file_name("rfc_reader.log.2.gz", "rfc_reader.log"));
    assert!(!is_log_file_name("rfc_reader.log1", "rfc_reader.log"));
    assert!(!is_log_file_name("other.log", "rfc_reader.log"));
    assert!(!is_log_file_name("rfc_reader.lo", "rfc_reader.log"));
}

#[test]
fn poll_timeout_is_bounded() {
    // far from the next tick: the cap rules
    assert_eq!(poll_timeout_ms(200, 0), 50);
    // close to the next tick: the remainder rules
    assert_eq!(poll_timeout_ms(200, 180), 20);
    // past the tick: poll returns at once
    assert_eq!(poll_timeout_ms(200, 500), 0);
}

#[test]
fn pump_step_decisions() {
    // shutdown wins over everything
    let s = pump_step(true, PollOutcome::PolledKey(KeyPress::Enter), 200, 300);
    assert!(s.stop);
    assert_eq!(s.forward, None);
    assert!(!s.emit_tick);

    // a key is forwarded; a due tick follows in the same cycle
    let s = pump_step(false, PollOutcome::PolledKey(KeyPress::Char('q')), 200, 250);
    assert!(!s.stop);
    assert_eq!(s.forward, Some(Event::Key(KeyPress::Char('q'))));
    assert!(s.emit_tick);

    // a resize is forwarded; no tick before the interval has passed
    let s = pump_step(false, PollOutcome::PolledResize(80, 24), 200, 100);
    assert!(!s.stop);
    assert_eq!(s.forward, Some(Event::Resize(80, 24)));
    assert!(!s.emit_tick);

    // an ignored event forwards nothing
    let s = pump_step(false, PollOutcome::PolledOther, 200, 100);
    assert!(!s.stop);
    assert_eq!(s.forward, None);

    // a quiet poll emits a due tick
    let s = pump_step(false, PollOutcome::NoEvent, 200, 200);
    assert!(!s.stop);
    assert_eq!(s.forward, None);
    assert!(s.emit_tick);

    // a failed poll ends the pump
    let s = pump_step(false, PollOutcome::Failed, 200, 300);
    assert!(s.stop);
    assert_eq!(s.forward, None);
    assert!(!s.emit_tick);
}
