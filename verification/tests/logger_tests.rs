use std::sync::Arc;
use std::sync::Mutex;

use trtx::logger::callback_event;
use trtx::logger::severity_from_code;
use trtx::LogHandler;
use trtx::Logger;
use trtx::Severity;

#[derive(Clone)]
struct RecordingLogger {
    messages: Arc<Mutex<Vec<(Severity, String)>>>,
}

impl RecordingLogger {
    fn new() -> Self {
        Self { messages: Arc::new(Mutex::new(Vec::new())) }
    }

    fn recorded(&self) -> Vec<(Severity, String)> {
        self.messages.lock().unwrap().clone()
    }
}

impl LogHandler for RecordingLogger {
    fn log(&self, severity: Severity, message: &str) {
        self.messages.lock().unwrap().push((severity, message.to_string()));
    }
}

#[test]
fn test_severity_ordering() {
    assert!(Severity::InternalError < Severity::Error);
    assert!(Severity::Error < Severity::Warning);
    assert!(Severity::Warning < Severity::Info);
    assert!(Severity::Info < Severity::Verbose);
}

#[test]
fn test_severity_ordering_all_pairs() {
    let all = [
        Severity::InternalError,
        Severity::Error,
        Severity::Warning,
        Severity::Info,
        Severity::Verbose,
    ];
    for (i, a) in all.iter().enumerate() {
        for (j, b) in all.iter().enumerate() {
            assert_eq!(a < b, i < j);
            assert_eq!(a == b, i == j);
            assert_eq!(a > b, i > j);
        }
    }
}

#[test]
fn test_severity_from_code_mapping() {
    assert_eq!(severity_from_code(0), Some(Severity::InternalError));
    assert_eq!(severity_from_code(1), Some(Severity::Error));
    assert_eq!(severity_from_code(2), Some(Severity::Warning));
    assert_eq!(severity_from_code(3), Some(Severity::Info));
    assert_eq!(severity_from_code(4), Some(Severity::Verbose));
    assert_eq!(severity_from_code(5), None);
    assert_eq!(severity_from_code(-1), None);
}

#[test]
fn test_log_callback_null_message() {
    // A callback invocation without a message must not reach the handler
    // and must not fail.
    let handler = RecordingLogger::new();
    let probe = handler.clone();
    let logger = Logger::new(handler).unwrap();
    let delivered = logger.log_callback(2, None);
    assert!(!delivered);
    assert!(probe.recorded().is_empty());
}

#[test]
fn test_log_callback_delivers_event() {
    let handler = RecordingLogger::new();
    let probe = handler.clone();
    let logger = Logger::new(handler).unwrap();
    let delivered = logger.log_callback(1, Some(b"engine warning".as_slice()));
    assert!(delivered);
    assert_eq!(probe.recorded(), vec![(Severity::Error, "engine warning".to_string())]);
}

#[test]
fn test_log_callback_drops_invalid_utf8() {
    let handler = RecordingLogger::new();
    let probe = handler.clone();
    let logger = Logger::new(handler).unwrap();
    let delivered = logger.log_callback(1, Some([0xffu8, 0xfe].as_slice()));
    assert!(!delivered);
    assert!(probe.recorded().is_empty());
}

#[test]
fn test_log_callback_drops_unknown_severity() {
    let handler = RecordingLogger::new();
    let probe = handler.clone();
    let logger = Logger::new(handler).unwrap();
    let delivered = logger.log_callback(17, Some(b"message".as_slice()));
    assert!(!delivered);
    assert!(probe.recorded().is_empty());
}

#[test]
fn test_callback_event_decides() {
    assert!(callback_event(0, None).is_none());
    let event = callback_event(3, Some(b"ready".as_slice())).unwrap();
    assert_eq!(event.0, Severity::Info);
    assert_eq!(event.1, "ready");
}

#[test]
fn test_logger_stderr_creation() {
    assert!(Logger::stderr().is_ok());
}
