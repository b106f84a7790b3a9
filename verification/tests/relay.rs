use discord_tail_bot::dispatcher::{deliver_with, Dispatcher};
use discord_tail_bot::filter::{
    extract_payloads, format_log_line, pattern_is_valid, split_lines, text_is_blank,
};
use discord_tail_bot::position::PositionStore;
use discord_tail_bot::scheduler::{plan_cycle, StartGate};
use discord_tail_bot::tailer::{read_new, TailError};

const PATTERN: &str = r"^\[INFO] \[\d{4}-\d{2}-\d{2} \d{2}:\d{2}:\d{2},\d{3}] (.*)$";

#[test]
fn test_format_log_line_with_valid_input() {
    let line = "[INFO] [2020-04-19 20:00:00,000] Line content.";
    let pattern = r"^\[INFO] \[\d{4}-\d{2}-\d{2} \d{2}:\d{2}:\d{2},\d{3}] (.*)$";
    let expected = String::from("Line content.");
    let actual = format_log_line(line, pattern).unwrap();
    assert_eq!(expected, actual);
}

#[test]
fn test_format_log_line_with_invalid_input() {
    let line = "Invalid content.";
    let pattern = r"^\[INFO] \[\d{4}-\d{2}-\d{2} \d{2}:\d{2}:\d{2},\d{3}] (.*)$";
    let actual = format_log_line(line, pattern);
    assert!(actual.is_none());
}

#[test]
fn format_log_line_extracts_hello() {
    let line = "[INFO] [2020-04-19 20:00:00,000] Hello";
    let actual = format_log_line(line, PATTERN).unwrap();
    assert_eq!(actual, "Hello");
}

#[test]
fn format_log_line_empty_line_yields_nothing() {
    assert!(format_log_line("", PATTERN).is_none());
    assert!(format_log_line("", r"(.*)").is_none());
}

#[test]
fn pattern_validity() {
    assert!(pattern_is_valid(PATTERN));
    assert!(!pattern_is_valid(r"foo(bar"));
}

#[test]
fn position_store_starts_at_zero() {
    let mut store = PositionStore::new();
    assert_eq!(store.get(), 0);
    store.set(42);
    assert_eq!(store.get(), 42);
}

#[test]
fn first_read_of_empty_file_returns_empty_and_offset_zero() {
    let file: Vec<u8> = Vec::new();
    let mut store = PositionStore::new();
    let text = read_new(&file, &mut store).unwrap();
    assert!(text.is_empty());
    assert_eq!(store.get(), 0);
}

#[test]
fn first_read_skips_existing_content() {
    let file = b"already here\n".to_vec();
    let mut store = PositionStore::new();
    let text = read_new(&file, &mut store).unwrap();
    assert!(text.is_empty());
    assert_eq!(store.get(), 13);
}

#[test]
fn steady_read_returns_bytes_from_one_before_offset() {
    let file = b"abcdef".to_vec();
    let mut store = PositionStore::new();
    store.set(3);
    let text = read_new(&file, &mut store).unwrap();
    assert_eq!(text, b"cdef".to_vec());
    assert_eq!(store.get(), 6);
}

#[test]
fn read_with_offset_past_end_fails_and_keeps_offset() {
    let file = b"ab".to_vec();
    let mut store = PositionStore::new();
    store.set(5);
    let err = read_new(&file, &mut store).unwrap_err();
    assert_eq!(err, TailError::SeekOutOfRange);
    assert_eq!(store.get(), 5);
}

#[test]
fn split_lines_handles_terminators() {
    let text = b"a\nbb\r\nc".to_vec();
    let lines = split_lines(&text);
    assert_eq!(lines, vec![b"a".to_vec(), b"bb".to_vec(), b"c".to_vec()]);
}

#[test]
fn split_lines_final_newline_adds_no_line() {
    let text = b"a\nb\n".to_vec();
    let lines = split_lines(&text);
    assert_eq!(lines, vec![b"a".to_vec(), b"b".to_vec()]);
    assert!(split_lines(&Vec::new()).is_empty());
    assert_eq!(split_lines(&b"\n".to_vec()), vec![Vec::<u8>::new()]);
}

#[test]
fn extract_payloads_keeps_file_order_and_skips_noise() {
    let text =
        b"[INFO] [2020-04-19 20:00:00,000] One\nnoise\n\n[INFO] [2020-04-19 20:00:01,000] Two\n"
            .to_vec();
    let payloads = extract_payloads(&text, PATTERN);
    assert_eq!(payloads, vec![String::from("One"), String::from("Two")]);
}

#[test]
fn blank_text_ends_cycle_with_nothing() {
    assert!(text_is_blank(&b"  \t\r\n ".to_vec()));
    assert!(text_is_blank(&Vec::new()));
    assert!(!text_is_blank(&b" x ".to_vec()));
    assert!(plan_cycle(&b" \n ".to_vec(), PATTERN).is_none());
}

#[test]
fn plan_cycle_collects_payloads_in_order() {
    let text = b"junk\n[INFO] [2020-04-19 20:00:00,000] Hello\n".to_vec();
    let payloads = plan_cycle(&text, PATTERN).unwrap();
    assert_eq!(payloads, vec![String::from("Hello")]);
}

#[test]
fn dispatcher_failure_at_second_send_reports_one_success() {
    let payloads = vec![String::from("a"), String::from("b"), String::from("c")];
    let mut d = Dispatcher::new(payloads);
    assert_eq!(d.next_payload().unwrap().as_str(), "a");
    d.record_success();
    assert_eq!(d.next_payload().unwrap().as_str(), "b");
    d.record_failure();
    assert!(d.next_payload().is_none());
    let outcome = d.outcome();
    assert_eq!(outcome.sent, 1);
    assert!(outcome.aborted);
}

#[test]
fn deliver_with_stops_at_first_failure() {
    let payloads = vec![String::from("a"), String::from("b"), String::from("c")];
    let outcome = deliver_with(payloads, &vec![true, false, true]);
    assert_eq!(outcome.sent, 1);
    assert!(outcome.aborted);
}

#[test]
fn deliver_with_full_success_reports_total() {
    let payloads = vec![String::from("a"), String::from("b")];
    let outcome = deliver_with(payloads, &vec![true, true]);
    assert_eq!(outcome.sent, 2);
    assert!(!outcome.aborted);
}

#[test]
fn start_gate_opens_once() {
    let mut gate = StartGate::new();
    assert!(gate.try_start());
    assert!(!gate.try_start());
    assert!(!gate.try_start());
}
