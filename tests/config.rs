use rust_ita_bot::shutdown::{JointAction, JointRun, ShutdownSignal, Task};
use rust_ita_bot::webhook::{
    default_port, listen_port, parse_port, same_text, webhook_config, webhook_path, webhook_url,
    ConfigError, TlsPaths,
};

#[test]
fn default_ports() {
    assert_eq!(default_port(false), 80);
    assert_eq!(default_port(true), 443);
    assert_eq!(listen_port(None, true), 443);
    assert_eq!(listen_port(Some(8443), true), 8443);
}

#[test]
fn ports_parse() {
    assert_eq!(parse_port("8080"), Ok(8080));
    assert_eq!(parse_port("+443"), Ok(443));
    assert_eq!(parse_port("0"), Ok(0));
    assert_eq!(parse_port("65535"), Ok(65535));
    assert_eq!(parse_port("0000080"), Ok(80));
}

#[test]
fn bad_ports_are_refused() {
    for raw in ["", "+", "65536", "99999999999", "-1", "80a", " 80", "8 0"] {
        assert_eq!(parse_port(raw), Err(ConfigError::InvalidPort), "{raw:?}");
    }
}

#[test]
fn webhook_address() {
    assert_eq!(webhook_path("123:abc"), "/bot123:abc");
    assert_eq!(webhook_url("example.org", "123:abc"), "https://example.org/bot123:abc");
}

#[test]
fn config_for_valid_host() {
    let c = webhook_config("example.org", "123:abc", None, None).unwrap();
    assert_eq!(c.external_url.as_str(), "https://example.org/bot123:abc");
    assert_eq!(c.external_url.path(), "/bot123:abc");
    assert_eq!(c.path, "/bot123:abc");
    assert_eq!(c.bind_address.octets, [0, 0, 0, 0]);
    assert_eq!(c.bind_address.port, 80);
    assert!(c.tls.is_none());
}

#[test]
fn config_with_tls_uses_tls_port() {
    let tls = TlsPaths { cert: "cert.pem".to_string(), key: "key.pem".to_string() };
    let c = webhook_config("example.org", "t", None, Some(tls)).unwrap();
    assert_eq!(c.bind_address.port, 443);
    assert_eq!(c.tls.map(|t| t.cert), Some("cert.pem".to_string()));
    let c = webhook_config("example.org", "t", Some(8000), None).unwrap();
    assert_eq!(c.bind_address.port, 8000);
}

#[test]
fn config_for_malformed_host() {
    assert_eq!(webhook_config("[::1", "t", None, None).err(), Some(ConfigError::MalformedUrl));
    assert_eq!(webhook_config("example.org:99999", "t", None, None).err(), Some(ConfigError::MalformedUrl));
}

#[test]
fn texts_compare() {
    assert!(same_text("/bot1", "/bot1"));
    assert!(!same_text("/bot1", "/bot2"));
    assert!(!same_text("/bot1", "/bot12"));
}

#[test]
fn signal_is_level_triggered() {
    let mut s = ShutdownSignal::new();
    assert!(!s.is_fired());
    s.fire();
    assert!(s.is_fired());
    s.fire();
    assert!(s.is_fired());
}

#[test]
fn first_error_ends_run_and_cancels_other() {
    let mut run = JointRun::new();
    match run.on_task_end(Task::Server, Err("bind failed".to_string())) {
        JointAction::Fail { error, cancel } => {
            assert_eq!(error, "bind failed");
            assert_eq!(cancel, Task::Dispatcher);
        }
        _ => panic!("an error must end the run"),
    }
    assert!(matches!(run.on_task_end(Task::Dispatcher, Ok(())), JointAction::Ignore));
}

#[test]
fn run_succeeds_when_both_end_cleanly() {
    let mut run = JointRun::new();
    assert!(matches!(run.on_task_end(Task::Dispatcher, Ok(())), JointAction::Wait));
    assert!(matches!(run.on_task_end(Task::Server, Ok(())), JointAction::Succeed));
}

#[test]
fn error_after_clean_end_still_fails() {
    let mut run = JointRun::new();
    assert!(matches!(run.on_task_end(Task::Server, Ok(())), JointAction::Wait));
    match run.on_task_end(Task::Dispatcher, Err("boom".to_string())) {
        JointAction::Fail { error, cancel } => {
            assert_eq!(error, "boom");
            assert_eq!(cancel, Task::Server);
        }
        _ => panic!("an error must end the run"),
    }
}
