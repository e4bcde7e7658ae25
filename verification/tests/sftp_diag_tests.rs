use gvac::diagnostics::{
    log_line, log_line_now, log_record_of, panic_payload_to_string, panic_report,
    panic_report_now, startup_line, startup_line_now, PanicPayload,
};
use gvac::errors::AppError;
use gvac::sftp::{check_command, entry_kind, normalize_remote_dir, sftp_entry, transfer_paths};

#[test]
fn entry_kinds() {
    assert_eq!(entry_kind(Some(0o040755)), "dir");
    assert_eq!(entry_kind(Some(0o100644)), "file");
    assert_eq!(entry_kind(Some(0o120777)), "symlink");
    assert_eq!(entry_kind(Some(0o060660)), "unknown");
    assert_eq!(entry_kind(None), "unknown");
    let e = sftp_entry("a".to_string(), "/x/a".to_string(), Some(3), Some(0o100600), Some(9));
    assert_eq!(e.kind, "file");
    assert_eq!(e.size, Some(3));
}

#[test]
fn remote_paths_and_commands() {
    assert_eq!(normalize_remote_dir("   "), ".");
    assert_eq!(normalize_remote_dir(" /var/log "), "/var/log");
    assert_eq!(transfer_paths(" a ", "b").unwrap(), ("a".to_string(), "b".to_string()));
    assert!(matches!(transfer_paths("", "b"), Err(AppError::InvalidInput(m)) if m == "local_path and remote_path are required"));
    assert!(matches!(transfer_paths("a", " "), Err(AppError::InvalidInput(_))));
    assert!(check_command("ls").is_ok());
    assert!(matches!(check_command(" \n"), Err(AppError::InvalidInput(m)) if m == "command cannot be empty"));
}

#[test]
fn panic_payload_descriptions() {
    assert_eq!(panic_payload_to_string(&PanicPayload::StaticStr("boom".to_string())), "boom");
    assert_eq!(panic_payload_to_string(&PanicPayload::Owned("x 1".to_string())), "x 1");
    assert_eq!(panic_payload_to_string(&PanicPayload::Other), "non-string panic payload");
}

#[test]
fn log_text() {
    assert_eq!(log_line("T", "msg"), "T msg");
    assert_eq!(startup_line("T"), "app starting at T");
    assert_eq!(log_record_of("a"), "a\n");
    assert_eq!(log_record_of("a\n"), "a\n");
    assert_eq!(log_record_of(""), "\n");
    assert!(log_line_now("hello").ends_with(" hello"));
}

#[test]
fn panic_reports() {
    let r = panic_report("T", Some("main"), Some(("src/x.rs", 12, 5)), &PanicPayload::Other, "BT");
    assert_eq!(r, "T panic on thread 'main' at src/x.rs:12:5\nmessage: non-string panic payload\nbacktrace:\nBT\n");
    let r = panic_report("T", None, None, &PanicPayload::Owned("m".to_string()), "");
    assert_eq!(r, "T panic on thread 'unnamed' at unknown\nmessage: m\nbacktrace:\n\n");
}

#[test]
fn stamped_lines() {
    let line = startup_line_now();
    assert!(line.starts_with("app starting at "));
    let stamp = &line["app starting at ".len()..];
    assert!(stamp.len() >= 25 && stamp.ends_with("+00:00"));
    assert!(stamp.chars().all(|c| c.is_ascii_digit() || "-+:T.".contains(c)));
    let logged = log_line_now("m");
    assert!(logged.ends_with("+00:00 m"));
    let r = panic_report_now(Some("w"), None, &PanicPayload::StaticStr("p".to_string()), "B");
    assert!(r.ends_with(" panic on thread 'w' at unknown\nmessage: p\nbacktrace:\nB\n"));
}
