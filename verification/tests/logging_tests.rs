use p2pgo_ui::error_logger::{format_entry_at, ErrorLevel, ErrorLogViewer, ErrorLogger, LogEntry, LogTime};
use p2pgo_ui::game_activity_logger::{
    log_file_name, move_to_data, net_message_op, snapshot_game_state, ui_message_op, ActivityBuffer, PlayedMove,
};
use p2pgo_ui::offline_game::StoneColor;

#[test]
fn entries_below_the_minimum_level_are_dropped() {
    let mut logger = ErrorLogger::new("errors.log".to_string());
    assert_eq!(logger.log(ErrorLevel::Debug, "net", "noise"), None);
    assert!(logger.get_entries(10).is_empty());
    let line = logger.log(ErrorLevel::Warning, "net", "slow relay").expect("a file line");
    assert!(line.ends_with("] WARN [net] slow relay"));
    assert!(line.starts_with('['));
    let entries = logger.get_entries(10);
    assert_eq!(entries.len(), 1);
    assert_eq!(entries[0].message, "slow relay");
}

#[test]
fn file_logging_off_gives_no_line() {
    let mut logger = ErrorLogger::new("errors.log".to_string());
    logger.set_file_logging(false);
    assert_eq!(logger.log(ErrorLevel::Error, "ui", "boom"), None);
    assert_eq!(logger.get_entries(5).len(), 1);
    assert_eq!(logger.log_file(), "errors.log");
}

#[test]
fn buffer_keeps_the_newest_thousand() {
    let mut logger = ErrorLogger::new("errors.log".to_string());
    logger.set_file_logging(false);
    for i in 0..1005 {
        logger.log(ErrorLevel::Info, "c", &format!("m{}", i));
    }
    let all = logger.get_entries(5000);
    assert_eq!(all.len(), 1000);
    assert_eq!(all[0].message, "m1004");
    assert_eq!(all[999].message, "m5");
    assert_eq!(logger.export_lines().len(), 1000);
    logger.clear();
    assert!(logger.get_entries(10).is_empty());
}

#[test]
fn entries_by_level_newest_first() {
    let mut logger = ErrorLogger::new("e.log".to_string());
    logger.set_file_logging(false);
    logger.log(ErrorLevel::Error, "a", "first");
    logger.log(ErrorLevel::Info, "b", "info");
    logger.log(ErrorLevel::Error, "c", "second");
    let errs = logger.get_entries_by_level(ErrorLevel::Error, 10);
    let msgs: Vec<&str> = errs.iter().map(|e| e.message.as_str()).collect();
    assert_eq!(msgs, vec!["second", "first"]);
    assert_eq!(logger.get_entries_by_level(ErrorLevel::Error, 1).len(), 1);
}

#[test]
fn entry_line_layout() {
    let mut logger = ErrorLogger::new("e.log".to_string());
    logger.set_file_logging(false);
    logger.log_with_context(
        ErrorLevel::Critical,
        "core",
        "crash",
        Some("while saving".to_string()),
        Some("a\nb".to_string()),
    );
    let e = logger.get_entries(1)[0];
    assert_eq!(
        format_entry_at("12:00", e),
        "[12:00] CRITICAL [core] crash\n    Context: while saving\n    Stack trace:\n      a\n      b"
    );
    assert_eq!(logger.level_string(ErrorLevel::Warning), "WARN");
    assert_eq!(logger.level_icon(ErrorLevel::Critical), "🚨");
}

#[test]
fn viewer_filters_by_level_and_search() {
    let mut logger = ErrorLogger::new("e.log".to_string());
    logger.set_file_logging(false);
    logger.log(ErrorLevel::Error, "Network", "relay lost");
    logger.log(ErrorLevel::Info, "UI", "Clicked");
    logger.log(ErrorLevel::Warning, "network", "slow");
    let mut viewer = ErrorLogViewer::new();
    assert_eq!(viewer.visible_entries(&logger).len(), 3);
    viewer.set_search_query("NETWORK".to_string());
    let found: Vec<&str> = viewer.visible_entries(&logger).iter().map(|e| e.message.as_str()).collect();
    assert_eq!(found, vec!["slow", "relay lost"]);
    viewer.set_filter_level(Some(ErrorLevel::Error));
    assert_eq!(viewer.visible_entries(&logger).len(), 1);
    assert!(!viewer.shows_stack_traces());
    viewer.set_show_stack_traces(true);
    assert!(viewer.shows_stack_traces());
}

#[test]
fn activity_records() {
    let d = move_to_data(&PlayedMove::Place { x: 3, y: 4, color: StoneColor::White }, 7, Some(1500));
    assert_eq!((d.move_type.as_str(), d.coord, d.color.as_str()), ("Place", Some((3, 4)), "White"));
    assert_eq!((d.move_number, d.thinking_time_ms), (7, Some(1500)));
    let p = move_to_data(&PlayedMove::Pass, 8, None);
    assert_eq!((p.move_type.as_str(), p.coord, p.color.as_str()), ("Pass", None, "N/A"));
    let r = move_to_data(&PlayedMove::Resign, 9, None);
    assert_eq!(r.move_type, "Resign");

    let mut board = vec![None; 81];
    board[0] = Some(StoneColor::Black);
    board[1] = Some(StoneColor::Black);
    board[80] = Some(StoneColor::White);
    let s = snapshot_game_state(9, &board, StoneColor::Black, (1, 2), 0);
    assert_eq!(s.stone_count, (2, 1));
    assert_eq!(s.current_player, "Black");
    assert_eq!(s.captures, (1, 2));

    let op = ui_message_op("CreateGame");
    assert_eq!(op.op_type, "UiToNet::CreateGame");
    assert_eq!((op.bytes_sent, op.bytes_received), (Some(256), None));
    let op = net_message_op("Error");
    assert_eq!(op.op_type, "NetToUi::Error");
    assert_eq!((op.bytes_sent, op.bytes_received), (None, Some(512)));
    assert_eq!(log_file_name("20240101_120000"), "game_activity_20240101_120000.jsonl");
}

#[test]
fn activity_buffer_keeps_newest() {
    let mut b: ActivityBuffer<u32> = ActivityBuffer::new("log.jsonl".to_string(), false);
    for i in 0..1003u32 {
        b.record(i);
    }
    let recent: Vec<u32> = b.recent(3).into_iter().copied().collect();
    assert_eq!(recent, vec![1000, 1001, 1002]);
    assert_eq!(b.recent(5000).len(), 1000);
    assert_eq!(*b.recent(5000)[0], 3);
    assert_eq!(b.log_file(), "log.jsonl");
    assert!(!b.console_output());
}

fn entry_at(secs: i64, nanos: u32) -> LogEntry {
    LogEntry {
        timestamp: LogTime { secs, nanos },
        level: ErrorLevel::Error,
        component: "net".to_string(),
        message: "boom".to_string(),
        context: None,
        stack_trace: None,
    }
}

fn is_stamp(t: &str) -> bool {
    let c: Vec<char> = t.chars().collect();
    c.len() == 23
        && c.iter().enumerate().all(|(i, ch)| match i {
            4 | 7 => *ch == '-',
            10 => *ch == ' ',
            13 | 16 => *ch == ':',
            19 => *ch == '.',
            _ => ch.is_ascii_digit(),
        })
}

#[test]
fn log_stamps_have_the_date_time_shape() {
    let line = ErrorLogger::format_entry(&entry_at(946_684_800, 123_000_000));
    assert!(line.starts_with('['));
    let stamp = &line[1..24];
    assert!(is_stamp(stamp), "{}", stamp);
    assert!(stamp.ends_with(".123"));
    assert_eq!(&line[24..], "] ERROR [net] boom");
    let mut logger = ErrorLogger::new("errors.log".to_string());
    let line = logger.log(ErrorLevel::Error, "net", "boom").expect("a file line");
    assert!(is_stamp(&line[1..24]));
}

#[test]
fn the_extreme_representable_times_are_formatted() {
    let first = ErrorLogger::format_entry(&entry_at(-8_334_601_228_800, 0));
    let last = ErrorLogger::format_entry(&entry_at(8_210_266_876_799, 999_999_999));
    assert!(first.ends_with("] ERROR [net] boom"));
    assert!(last.ends_with("] ERROR [net] boom"));
}
