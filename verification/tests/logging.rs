use usb_bridge::logging::FileLogger;
use usb_bridge::logging::{log_line, needs_rotation, sanitize, MAX_LOG_BYTES};

#[test]
fn entries_are_single_lines() {
    assert_eq!(log_line(1700000000, "INFO", "hello"), "1700000000 [INFO] hello\n");
    assert_eq!(log_line(0, "ERROR", "a\r\nb\nc"), "0 [ERROR] a  b c\n");
    assert_eq!(sanitize("x\ry"), "x y");
    let line = log_line(42, "INFO", "one\ntwo\rthree");
    assert_eq!(line.matches('\n').count(), 1);
    assert!(line.ends_with('\n'));
}

#[test]
fn rotation_threshold() {
    assert_eq!(MAX_LOG_BYTES, 1_048_576);
    assert!(!needs_rotation(1_048_575));
    assert!(needs_rotation(1_048_576));
}

#[test]
fn log_paths() {
    let logger = FileLogger::in_directory(&std::path::PathBuf::from("/tmp/logs"));
    assert_eq!(logger.path(), &std::path::PathBuf::from("/tmp/logs/gui.log"));
    assert_eq!(logger.rotated_path(), std::path::PathBuf::from("/tmp/logs/gui.log.old"));
}
