use lvx::criteria::{visible, Criteria};
use lvx::fields::{find_field, Field};
use lvx::json::{ingest, parse_line, record_from_fields};
use lvx::payload::{extra_fields, join_fields, normalize_payload, sort_fields};
use lvx::level::Level;
use lvx::record::Log;
use lvx::session::Session;
use lvx::text::contains_ignoring_case;

const START: &str =
    r#"{"level":"INFO","ts":"2024-01-02T15:04:05.123+00:00","msg":"start","x":1,"a":2}"#;
const OOPS: &str = r#"{"level":"bogus","ts":"not-a-date","msg":"oops"}"#;
const JUNK: &str = "not json at all";

fn lines(of: &[&str]) -> Vec<String> {
    of.iter().map(|l| l.to_string()).collect()
}

fn row(level: Level, message: &str) -> Log {
    Log {
        time: 0,
        level,
        message: message.to_string(),
        caller: String::new(),
        payload: String::new(),
    }
}

fn field(key: &str, text: Option<&str>, json: &str) -> Field {
    Field { key: key.to_string(), text: text.map(|t| t.to_string()), json: json.to_string() }
}

fn five_rows() -> Vec<Log> {
    vec![
        row(Level::Info, "boot"),
        row(Level::Info, "service start"),
        row(Level::Debug, "tick"),
        row(Level::Error, "reSTARTing"),
        row(Level::Unknown, "done"),
    ]
}

#[test]
fn level_tokens_are_read_exactly() {
    assert_eq!(Level::from_string("DEBUG"), Level::Debug);
    assert_eq!(Level::from_string("INFO"), Level::Info);
    assert_eq!(Level::from_string("WARN"), Level::Warning);
    assert_eq!(Level::from_string("ERROR"), Level::Error);
    assert_eq!(Level::from_string("PANIC"), Level::Panic);
    assert_eq!(Level::from_string(""), Level::Unknown);
    assert_eq!(Level::from_string("info"), Level::Unknown);
    assert_eq!(Level::from_string("WARNING"), Level::Unknown);
    assert_eq!(Level::from_string("INFO "), Level::Unknown);
}

#[test]
fn level_tokens_are_written() {
    assert_eq!(Level::Debug.to_string(), "DEBUG");
    assert_eq!(Level::Info.to_string(), "INFO");
    assert_eq!(Level::Warning.to_string(), "WARN");
    assert_eq!(Level::Error.to_string(), "ERROR");
    assert_eq!(Level::Panic.to_string(), "PANIC");
    assert_eq!(Level::Unknown.to_string(), "N/A");
}

#[test]
fn known_levels_round_trip() {
    for level in [Level::Debug, Level::Info, Level::Warning, Level::Error, Level::Panic] {
        assert_eq!(Level::from_string(level.to_string()), level);
    }
}

#[test]
fn containment_ignores_case() {
    assert!(contains_ignoring_case("Service START now", "start"));
    assert!(contains_ignoring_case("service start now", "START"));
    assert!(contains_ignoring_case("anything", ""));
    assert!(contains_ignoring_case("", ""));
    assert!(!contains_ignoring_case("", "a"));
    assert!(!contains_ignoring_case("stat", "start"));
    assert!(contains_ignoring_case("GRÜSSE", "grüsse"));
}

#[test]
fn time_is_read_with_fraction_and_offset() {
    let utc = Log::time_from_string("2024-01-02T15:04:05.123+00:00".to_string());
    assert_eq!(utc, 1_704_207_845_123);
    let east = Log::time_from_string("2024-01-02T15:04:05.123+01:00".to_string());
    assert_eq!(east, 1_704_207_845_123 - 3_600_000);
    let whole = Log::time_from_string("2024-01-02T15:04:05+0000".to_string());
    assert_eq!(whole, 1_704_207_845_000);
}

#[test]
fn unreadable_time_is_the_epoch() {
    assert_eq!(Log::time_from_string("not-a-date".to_string()), 0);
    assert_eq!(Log::time_from_string(String::new()), 0);
    assert_eq!(Log::time_from_string("2024-01-02T15:04:05.123".to_string()), 0);
    assert_eq!(Log::time_from_parsed(None), 0);
    assert_eq!(Log::time_from_parsed(Some(42)), 42);
}

#[test]
fn three_lines_make_two_records() {
    let store = ingest(&lines(&[START, OOPS, JUNK]));
    assert_eq!(store.len(), 2);
    assert_eq!(store[0].level, Level::Info);
    assert_eq!(store[0].message, "start");
    assert_eq!(store[0].caller, "");
    assert_eq!(store[0].payload, r#"{"a":2,"x":1}"#);
    assert_eq!(store[0].time, 1_704_207_845_123);
    assert_eq!(store[1].level, Level::Unknown);
    assert_eq!(store[1].message, "oops");
    assert_eq!(store[1].time, 0);
    assert_eq!(store[1].payload, "");
}

#[test]
fn dropped_lines_do_not_stop_later_ones() {
    let store = ingest(&lines(&[JUNK, "", "[1,2]", "3", "null", START]));
    assert_eq!(store.len(), 1);
    assert_eq!(store[0].message, "start");
}

#[test]
fn line_without_a_required_member_is_dropped() {
    assert!(parse_line(r#"{"ts":"x","msg":"m"}"#).is_none());
    assert!(parse_line(r#"{"level":"INFO","msg":"m"}"#).is_none());
    assert!(parse_line(r#"{"level":"INFO","ts":"x"}"#).is_none());
    assert!(parse_line(r#"{"level":1,"ts":"x","msg":"m"}"#).is_none());
    assert!(parse_line(r#"{"level":"INFO","ts":null,"msg":"m"}"#).is_none());
    assert!(parse_line(r#"{"level":"INFO","ts":"x","msg":"m","caller":7}"#).is_none());
    assert!(parse_line(r#"{"level":"INFO","ts":"x","msg":"m"}"#).is_some());
}

#[test]
fn caller_is_kept_out_of_the_payload() {
    let got = parse_line(r#"{"level":"ERROR","ts":"x","msg":"m","caller":"a.go:7","k":true}"#)
        .unwrap();
    assert_eq!(got.level, Level::Error);
    assert_eq!(got.caller, "a.go:7");
    assert_eq!(got.payload, r#"{"k":true}"#);
}

#[test]
fn payload_does_not_depend_on_key_order() {
    let one = parse_line(r#"{"level":"INFO","ts":"x","msg":"m","b":[1,"z"],"a":null,"c":"s"}"#)
        .unwrap();
    let two = parse_line(r#"{"c":"s","msg":"m","a":null,"ts":"x","b":[1,"z"],"level":"INFO"}"#)
        .unwrap();
    assert_eq!(one.payload, two.payload);
    assert_eq!(one.payload, r#"{"a":null,"b":[1,"z"],"c":"s"}"#);
}

#[test]
fn payload_keys_are_quoted_and_ordered_by_code_point() {
    let got = parse_line(r#"{"level":"INFO","ts":"x","msg":"m","b":1,"B":2,"a\"b":3,"":4}"#)
        .unwrap();
    assert_eq!(got.payload, r#"{"":4,"B":2,"a\"b":3,"b":1}"#);
}

#[test]
fn payload_keeps_nested_values() {
    let got = parse_line(r#"{"level":"INFO","ts":"x","msg":"m","z":{"k":[1.5,{}]},"y":"s t"}"#)
        .unwrap();
    assert_eq!(got.payload, r#"{"y":"s t","z":{"k":[1.5,{}]}}"#);
}

#[test]
fn members_are_sorted_joined_and_wrapped() {
    let members = vec![field("b", None, "1"), field("a", Some("t"), "\"t\""), field("c", None, "[]")];
    let sorted = sort_fields(&members);
    let keys: Vec<&str> = sorted.iter().map(|f| f.key.as_str()).collect();
    assert_eq!(keys, vec!["a", "b", "c"]);
    assert_eq!(join_fields(&sorted), r#""a":"t","b":1,"c":[]"#);
    assert_eq!(join_fields(&members), r#""b":1,"a":"t","c":[]"#);
    assert_eq!(normalize_payload(&members), r#"{"a":"t","b":1,"c":[]}"#);
    assert_eq!(normalize_payload(&Vec::new()), "");
    assert_eq!(join_fields(&Vec::new()), "");
}

#[test]
fn sort_is_by_prefix_then_length() {
    let members = vec![field("ab", None, "1"), field("a", None, "2"), field("aa", None, "3")];
    let sorted = sort_fields(&members);
    let keys: Vec<&str> = sorted.iter().map(|f| f.key.as_str()).collect();
    assert_eq!(keys, vec!["a", "aa", "ab"]);
}

#[test]
fn fields_are_found_and_split() {
    let members = vec![
        field("msg", Some("m"), "\"m\""),
        field("k", None, "1"),
        field("level", Some("INFO"), "\"INFO\""),
        field("ts", Some("x"), "\"x\""),
    ];
    assert_eq!(find_field(&members, "level"), Some(2));
    assert_eq!(find_field(&members, "caller"), None);
    let others = extra_fields(&members);
    assert_eq!(others.len(), 1);
    assert_eq!(others[0].key, "k");
    let got = record_from_fields(&members).unwrap();
    assert_eq!(got.level, Level::Info);
    assert_eq!(got.message, "m");
    assert_eq!(got.caller, "");
    assert_eq!(got.time, 0);
    assert_eq!(got.payload, r#"{"k":1}"#);
    assert!(record_from_fields(&members[..3].to_vec()).is_none());
}

#[test]
fn open_filter_shows_the_whole_store() {
    let store = five_rows();
    let shown = visible(&store, &Criteria::open());
    assert_eq!(shown.len(), 5);
    for (a, b) in shown.iter().zip(store.iter()) {
        assert_eq!(a.message, b.message);
        assert_eq!(a.level, b.level);
    }
}

#[test]
fn filter_with_only_error_keeps_unknown() {
    let store = ingest(&lines(&[START, OOPS, JUNK]));
    let mut only_error = Criteria::idle();
    only_error.level_error = true;
    let shown = visible(&store, &only_error);
    assert_eq!(shown.len(), 1);
    assert_eq!(shown[0].message, "oops");
    assert_eq!(shown[0].level, Level::Unknown);
}

#[test]
fn filter_gates_are_conjunctive() {
    let mut store = five_rows();
    store[1].payload = r#"{"user":"Ann"}"#.to_string();
    store[1].caller = "main.go:10".to_string();
    store[3].payload = r#"{"user":"ann"}"#.to_string();
    store[3].caller = "worker.go:3".to_string();
    let mut f = Criteria::open();
    f.message = "START".to_string();
    f.payload = "ANN".to_string();
    let shown = visible(&store, &f);
    assert_eq!(shown.len(), 2);
    f.caller = "Main".to_string();
    let shown = visible(&store, &f);
    assert_eq!(shown.len(), 1);
    assert_eq!(shown[0].message, "service start");
    assert!(f.check(&store[1]));
    assert!(!f.check(&store[3]));
    f.level_info = false;
    assert!(visible(&store, &f).is_empty());
    assert!(!f.check_level(Level::Info));
    assert!(f.check_level(Level::Unknown));
}

#[test]
fn idle_search_finds_nothing() {
    let rows = five_rows();
    assert!(Criteria::idle().check_idle());
    assert!(!Criteria::open().check_idle());
    assert!(lvx::criteria::matches(&rows, &Criteria::idle()).is_empty());
    assert!(lvx::criteria::matches(&Vec::new(), &Criteria::idle()).is_empty());
}

#[test]
fn search_by_level_includes_unknown() {
    let rows = five_rows();
    let mut s = Criteria::idle();
    s.level_debug = true;
    assert_eq!(lvx::criteria::matches(&rows, &s), vec![2, 4]);
}

#[test]
fn search_and_step_through_matches() {
    let mut session = Session::new();
    session.logs = five_rows();
    session.logs[1].level = Level::Unknown;
    session.logs[3].level = Level::Unknown;
    session.filter();
    assert_eq!(session.filtered_count(), 5);
    let mut s = Criteria::idle();
    s.message = "start".to_string();
    session.set_search(s);
    assert_eq!(session.search_founds, vec![1, 3]);
    assert_eq!(session.search_found_cursor, 0);
    assert!(session.index_at_search_found_cursor(1));
    assert!(!session.index_at_search_found_cursor(3));
    session.search_next();
    assert_eq!(session.search_found_cursor, 1);
    assert_eq!(session.search_found_scroll_row, Some(3));
    assert_eq!(session.take_scroll_row(), Some(3));
    assert_eq!(session.take_scroll_row(), None);
    session.search_next();
    assert_eq!(session.search_found_cursor, 1);
    assert_eq!(session.search_found_scroll_row, None);
    session.search_previous();
    assert_eq!(session.search_found_cursor, 0);
    assert_eq!(session.search_found_scroll_row, Some(1));
    session.search_previous();
    assert_eq!(session.search_found_cursor, 0);
    assert_eq!(session.search_found_scroll_row, None);
    session.search_last();
    assert_eq!(session.search_found_cursor, 1);
    assert_eq!(session.search_found_scroll_row, Some(3));
    session.search_first();
    assert_eq!(session.search_found_cursor, 0);
    assert_eq!(session.search_found_scroll_row, Some(1));
}

#[test]
fn search_needs_the_level_gate_too() {
    let rows = five_rows();
    let mut s = Criteria::idle();
    s.message = "start".to_string();
    assert!(lvx::criteria::matches(&rows, &s).is_empty());
    s.level_info = true;
    assert_eq!(lvx::criteria::matches(&rows, &s), vec![1]);
    s.toggle(Level::Error);
    assert_eq!(lvx::criteria::matches(&rows, &s), vec![1, 3]);
    s.toggle(Level::Info);
    s.toggle(Level::Unknown);
    assert_eq!(lvx::criteria::matches(&rows, &s), vec![3]);
}

#[test]
fn level_clicks_turn_flags_and_derive_anew() {
    let mut session = Session::default();
    session.load(&lines(&[START, OOPS]));
    session.toggle_filter_level(Level::Info);
    assert!(!session.filter.level_info);
    assert_eq!(session.filtered_count(), 1);
    assert_eq!(session.filtered_logs[0].message, "oops");
    session.toggle_search_level(Level::Panic);
    assert!(session.search.level_panic);
    assert_eq!(session.search_founds, vec![0]);
    assert_eq!(session.filtered_count(), 1);
    session.toggle_filter_level(Level::Info);
    assert_eq!(session.filtered_count(), 2);
    assert_eq!(session.search_founds, vec![1]);
}

#[test]
fn stepping_without_matches_stays_at_zero() {
    let mut session = Session::new();
    session.search_first();
    assert_eq!((session.search_found_cursor, session.search_found_scroll_row), (0, None));
    session.search_last();
    assert_eq!((session.search_found_cursor, session.search_found_scroll_row), (0, None));
    session.search_next();
    assert_eq!((session.search_found_cursor, session.search_found_scroll_row), (0, None));
    session.search_previous();
    assert_eq!((session.search_found_cursor, session.search_found_scroll_row), (0, None));
    assert!(!session.index_at_search_found_cursor(0));
}

#[test]
fn filter_change_reaches_the_search() {
    let mut session = Session::new();
    session.load(&lines(&[START, OOPS, JUNK, START]));
    assert_eq!(session.total_count(), 3);
    assert_eq!(session.filtered_count(), 3);
    let mut s = Criteria::idle();
    s.level_info = true;
    s.message = "start".to_string();
    session.set_search(s);
    assert_eq!(session.search_founds, vec![0, 2]);
    session.search_last();
    assert_eq!(session.search_found_cursor, 1);
    let mut f = Criteria::open();
    f.payload = "\"x\":1".to_string();
    session.set_filter(f);
    assert_eq!(session.filtered_count(), 2);
    assert_eq!(session.total_count(), 3);
    assert_eq!(session.search_founds, vec![0, 1]);
    assert_eq!(session.search_found_cursor, 0);
    session.search_reset();
    assert!(session.search_founds.is_empty());
    assert!(session.search.check_idle());
    assert_eq!(session.filtered_count(), 2);
    session.filter_reset();
    assert_eq!(session.filtered_count(), 3);
}

#[test]
fn load_replaces_store_and_opens_filter() {
    let mut session = Session::new();
    session.picked_path = Some("a.log".to_string());
    session.load(&lines(&[START, OOPS]));
    let mut f = Criteria::idle();
    f.level_info = true;
    f.message = "start".to_string();
    session.set_filter(f);
    assert_eq!(session.filtered_count(), 1);
    session.toggle_row_selection(0, true);
    assert!(session.is_selected(0));
    session.load(&lines(&[OOPS]));
    assert_eq!(session.total_count(), 1);
    assert_eq!(session.filtered_count(), 1);
    assert!(!session.is_selected(0));
    assert!(session.filter.level_debug && session.filter.level_panic);
    assert_eq!(session.filter.message, "");
    assert_eq!(session.picked_path.as_deref(), Some("a.log"));
}

#[test]
fn rows_are_picked_and_let_go_by_clicks() {
    let mut session = Session::new();
    session.toggle_row_selection(4, false);
    assert!(!session.is_selected(4));
    session.toggle_row_selection(4, true);
    assert!(session.is_selected(4));
    session.toggle_row_selection(2, true);
    session.toggle_row_selection(4, true);
    assert!(!session.is_selected(4));
    assert!(session.is_selected(2));
}
