use wrac::logfiles::{
    log_file_parent, log_file_stem, parse_dotenv_rust_log, resolve_release_log_dir, CurrentLogPaths, LogPlatform,
};
use wrac::rtlog::{
    drain_rt_logs_once, rt_message_capacity_value, write_rt_log, DrainWorkerAction, FixedMessage, LogLevel,
    LogSession, RtDrainConfig, RtLog,
};

fn stem_cases() {
    assert_eq!(log_file_stem("TestApp"), "TestApp");
    assert_eq!(log_file_stem("Bad/Name:Plugin"), "Bad_Name_Plugin");
    assert_eq!(log_file_stem("   "), "Application");
}

#[test]
fn tests_log_file_stem_replaces_path_unsafe_characters() {
    stem_cases();
}

#[test]
fn test_log_file_stem_replaces_path_unsafe_characters() {
    stem_cases();
}

#[test]
fn parse_dotenv_rust_log_reads_last_non_empty_rust_log() {
    let content = r#"
            # wrac_log reads this only in development builds
            OTHER=value
            export RUST_LOG="wrac_gain_plugin=debug,wrac_log=trace"
            RUST_LOG=wrac_gain_plugin=info # the last definition wins
        "#;

    assert_eq!(parse_dotenv_rust_log(content).as_deref(), Some("wrac_gain_plugin=info"),);
}

#[test]
fn parse_dotenv_rust_log_reads_rust_log_without_mutating_environment() {
    let content = r#"
            # wrac_log reads this only in development builds
            OTHER=value
            export RUST_LOG="snapclip_plugin=debug,snapclip_core_device=trace"
            RUST_LOG=snapclip_plugin=info # the last definition wins
        "#;

    assert_eq!(parse_dotenv_rust_log(content).as_deref(), Some("snapclip_plugin=info"));
}

#[test]
fn tests_parse_dotenv_rust_log_ignores_empty_rust_log() {
    assert_eq!(parse_dotenv_rust_log("RUST_LOG=\n"), None);
}

#[test]
fn test_parse_dotenv_rust_log_ignores_empty_rust_log() {
    assert_eq!(parse_dotenv_rust_log("RUST_LOG=\n"), None);
}

#[test]
fn tests_parse_dotenv_rust_log_strips_comment_after_quoted_value() {
    assert_eq!(parse_dotenv_rust_log(r#"RUST_LOG="debug" # comment"#).as_deref(), Some("debug"),);
    assert_eq!(
        parse_dotenv_rust_log("RUST_LOG='wrac_gain_plugin=trace' # comment").as_deref(),
        Some("wrac_gain_plugin=trace"),
    );
}

#[test]
fn test_parse_dotenv_rust_log_strips_comment_after_quoted_value() {
    assert_eq!(parse_dotenv_rust_log(r#"RUST_LOG="debug" # comment"#).as_deref(), Some("debug"));
    assert_eq!(
        parse_dotenv_rust_log("RUST_LOG='snapclip_plugin=trace' # comment").as_deref(),
        Some("snapclip_plugin=trace")
    );
}

#[test]
fn parse_dotenv_rust_log_without_rust_log_is_none() {
    assert_eq!(parse_dotenv_rust_log("OTHER=value\n# RUST_LOG=debug\n"), None);
    assert_eq!(parse_dotenv_rust_log(""), None);
}

#[test]
fn parse_dotenv_rust_log_keeps_hash_inside_quotes() {
    assert_eq!(parse_dotenv_rust_log("RUST_LOG=\"a#b\"").as_deref(), Some("a#b"));
}

#[test]
fn fixed_message_truncates_at_utf8_boundary() {
    let mut message = FixedMessage::new();
    let value = "a".repeat(rt_message_capacity_value() - 1) + "é";

    message.write_str(&value).unwrap();

    assert_eq!(message.len(), rt_message_capacity_value() - 1);
    assert_eq!(std::str::from_utf8(message.as_bytes()).unwrap().len(), message.len(),);
}

#[test]
fn rt_fixed_message_truncates_at_utf8_boundary() {
    let mut message = FixedMessage::new();
    let value = "a".repeat(rt_message_capacity_value() - 1) + "あ";

    message.write_str(&value).unwrap();

    assert_eq!(message.len(), rt_message_capacity_value() - 1);
    assert_eq!(std::str::from_utf8(message.as_bytes()).unwrap().len(), message.len());
}

#[test]
fn fixed_message_keeps_short_messages_whole() {
    let mut message = FixedMessage::new();
    message.write_str("héllo").unwrap();
    message.write_str(" world").unwrap();
    assert_eq!(message.as_bytes(), "héllo world".as_bytes());
    assert_eq!(message.len(), 12);
}

#[test]
fn drain_stops_before_unpublished_slot() {
    let mut log = RtLog::new();
    let sequence = log.reserve();
    assert_eq!(sequence, 0);
    assert_eq!(log.next_sequence(), 1);

    let drained = drain_rt_logs_once(&mut log);
    assert!(drained.records.is_empty());
    assert_eq!(log.drain_sequence(), 0);

    log.publish(0, LogLevel::Debug, b"test", b"published");
    let drained = drain_rt_logs_once(&mut log);
    assert_eq!(log.drain_sequence(), 1);
    assert_eq!(drained.records.len(), 1);
    assert_eq!(drained.records[0].message, b"published".to_vec());
    assert_eq!(drained.records[0].target, b"test".to_vec());
    assert_eq!(drained.records[0].level, LogLevel::Debug);
}

#[test]
fn rt_drain_stops_before_unpublished_slot() {
    let mut log = RtLog::new();
    log.reserve();

    drain_rt_logs_once(&mut log);
    assert_eq!(log.drain_sequence(), 0);

    log.publish(0, LogLevel::Debug, b"test", b"published");
    drain_rt_logs_once(&mut log);
    assert_eq!(log.drain_sequence(), 1);
}

#[test]
fn drain_reports_lapped_records() {
    let mut log = RtLog::new();
    for i in 0..4100u32 {
        write_rt_log(&mut log, LogLevel::Info, "t", &format!("m{i}"));
    }
    let drained = drain_rt_logs_once(&mut log);
    // The ring keeps the last 4096 records; four were lapped and counted as dropped.
    assert_eq!(drained.records.len(), 4096);
    assert_eq!(drained.records[0].sequence, 4);
    assert_eq!(drained.records[0].message, b"m4".to_vec());
    assert_eq!(drained.warning, Some((4, 4)));
    assert_eq!(log.drain_sequence(), 4100);
}

#[test]
fn log_session_stops_drain_worker_after_last_drop() {
    let mut state = LogSession::new();
    let config = Some(RtDrainConfig::default_config());

    let first = state.start(config);
    assert!(matches!(first, DrainWorkerAction::StartWorker(_)));
    state.worker_started();
    let second = state.start(config);
    assert_eq!(second, DrainWorkerAction::Nothing);

    assert_eq!(state.session_count(), 2);
    assert!(state.drain_worker_is_running());

    assert_eq!(state.release(), DrainWorkerAction::Nothing);
    assert_eq!(state.session_count(), 1);
    assert!(state.drain_worker_is_running());

    assert_eq!(state.release(), DrainWorkerAction::StopWorker);
    assert_eq!(state.session_count(), 0);
    assert!(!state.drain_worker_is_running());

    let restarted = state.start(config);
    assert!(matches!(restarted, DrainWorkerAction::StartWorker(_)));
    state.worker_started();
    assert_eq!(state.session_count(), 1);
    assert!(state.drain_worker_is_running());

    assert_eq!(state.release(), DrainWorkerAction::StopWorker);
}

#[test]
fn last_session_without_worker_drains_once() {
    let mut state = LogSession::new();
    assert_eq!(state.start(None), DrainWorkerAction::Nothing);
    assert_eq!(state.release(), DrainWorkerAction::DrainOnce);
    assert_eq!(state.release(), DrainWorkerAction::Nothing);
    assert_eq!(state.session_count(), 0);
}

#[test]
fn written_record_is_drained_with_its_level_target_and_cut_message() {
    let mut log = RtLog::new();
    let target = "t".repeat(120);
    let message = format!("{}é", "a".repeat(255));
    write_rt_log(&mut log, LogLevel::Warn, &target, &message);
    let drained = drain_rt_logs_once(&mut log);
    assert_eq!(drained.records.len(), 1);
    let record = &drained.records[0];
    assert_eq!(record.sequence, 0);
    assert_eq!(record.level, LogLevel::Warn);
    assert_eq!(record.target, vec![b't'; 96]);
    assert_eq!(record.message, vec![b'a'; 255]);
    assert_eq!(drained.warning, None);
    assert!(drain_rt_logs_once(&mut log).records.is_empty());
}

#[test]
fn release_log_dir_follows_each_platform() {
    assert_eq!(
        resolve_release_log_dir(LogPlatform::Macos, Some("/Users/me"), None, None, "Gain"),
        Some(vec!["/Users/me".to_string(), "Library".into(), "Logs".into(), "NovoNotes".into(), "Gain".into()])
    );
    assert_eq!(
        resolve_release_log_dir(LogPlatform::Windows, Some("C:\\Users\\me"), Some("C:\\Local"), None, "Gain"),
        Some(vec!["C:\\Local".to_string(), "NovoNotes".into(), "Logs".into(), "Gain".into()])
    );
    assert_eq!(
        resolve_release_log_dir(LogPlatform::Linux, Some("/home/me"), None, Some("/data"), "Gain"),
        Some(vec!["/data".to_string(), "NovoNotes".into(), "logs".into(), "Gain".into()])
    );
    assert_eq!(
        resolve_release_log_dir(LogPlatform::Linux, Some("/home/me"), None, None, "Gain"),
        Some(vec!["/home/me".to_string(), ".local/share".into(), "NovoNotes".into(), "logs".into(), "Gain".into()])
    );
    assert_eq!(resolve_release_log_dir(LogPlatform::Windows, Some("/home/me"), None, None, "Gain"), None);
    assert_eq!(resolve_release_log_dir(LogPlatform::Other, Some("/home/me"), None, None, "Gain"), None);
}

#[test]
fn log_directory_is_the_parent_of_the_log_file() {
    assert_eq!(log_file_parent("/var/log/NovoNotes/Gain/Gain Latest.log", false), Some("/var/log/NovoNotes/Gain".to_string()));
    assert_eq!(log_file_parent("/Gain Latest.log", false), Some("/".to_string()));
    assert_eq!(log_file_parent("Gain Latest.log", false), Some(String::new()));
    assert_eq!(log_file_parent("/", false), None);
    assert_eq!(log_file_parent("", false), None);
    assert_eq!(log_file_parent("C:\\Logs\\Gain Latest.log", true), Some("C:\\Logs".to_string()));
    assert_eq!(log_file_parent("C:\\Gain Latest.log", true), Some("C:\\".to_string()));
    assert_eq!(log_file_parent("C:\\Logs\\Gain Latest.log", false), Some(String::new()));

    let mut paths = CurrentLogPaths::new(false);
    assert_eq!(paths.current_log_dir(), None);
    paths.record_current_log_paths(Some("/tmp/logs/App Latest.log".to_string()));
    assert_eq!(paths.current_log_file(), Some("/tmp/logs/App Latest.log".to_string()));
    assert_eq!(paths.current_log_dir(), Some("/tmp/logs".to_string()));
    paths.record_current_log_paths(None);
    assert_eq!(paths.current_log_dir(), Some("/tmp/logs".to_string()));

    let mut stderr_only = CurrentLogPaths::new(false);
    stderr_only.record_current_log_paths(None);
    assert_eq!(stderr_only.current_log_file(), None);
    assert_eq!(stderr_only.current_log_dir(), None);
}
