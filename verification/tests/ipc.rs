use dictatord::config::{Config, DecimalSetting};
use dictatord::ipc::{check_reply, decode_request, handle_line, respond, Request, Response};

fn req(cmd: Option<&str>, key: Option<&str>, value: Option<&str>) -> Request {
    Request { cmd: cmd.map(String::from), key: key.map(String::from), value: value.map(String::from) }
}

fn error_text(r: &Response) -> String {
    match r {
        Response::Error(m) => m.clone(),
        _ => panic!("not an error"),
    }
}

#[test]
fn get_config_and_restart() {
    let mut c = Config::default();
    assert!(matches!(respond(&mut c, &req(Some("get_config"), None, None)), Response::Config));
    let r = respond(&mut c, &req(Some("restart"), None, None));
    assert!(matches!(r, Response::RestartNotice));
    assert!(!r.is_error());
    assert_eq!(r.message().unwrap(), "restart the service manually: systemctl --user restart dictatord");
}

#[test]
fn set_applies_and_reports_restart() {
    let mut c = Config::default();
    let r = respond(&mut c, &req(Some("set"), Some("audio.noise_suppression"), Some("false")));
    assert!(matches!(r, Response::Applied { restart_required: false }));
    assert_eq!(r.message(), None);
    assert!(!c.audio.noise_suppression);
    let r = respond(&mut c, &req(Some("set"), Some("asr.model"), Some("base")));
    assert!(matches!(r, Response::Applied { restart_required: true }));
    assert_eq!(r.message().unwrap(), "restart required to take effect");
    assert_eq!(c.asr.model, "base");
    let r = respond(&mut c, &req(Some("set"), Some("visual.opacity"), Some("0.4")));
    assert!(matches!(r, Response::Decimal(DecimalSetting::Opacity)));
}

#[test]
fn set_errors() {
    let mut c = Config::default();
    let r = respond(&mut c, &req(Some("set"), None, Some("x")));
    assert!(r.is_error());
    assert_eq!(error_text(&r), "missing 'key' field");
    let r = respond(&mut c, &req(Some("set"), Some("nope"), Some("x")));
    assert_eq!(error_text(&r), "unknown config key: nope");
    let r = respond(&mut c, &req(Some("set"), Some("asr.flash_attn"), None));
    assert_eq!(error_text(&r), "invalid boolean value: ");
    let r = respond(&mut c, &req(Some("set"), Some("asr.num_threads"), Some("many")));
    assert_eq!(error_text(&r), "invalid digit found in string");
    assert_eq!(c.asr.num_threads, 4);
}

#[test]
fn unknown_and_missing_commands() {
    let mut c = Config::default();
    let r = respond(&mut c, &req(Some("reload"), None, None));
    assert_eq!(error_text(&r), "unknown command: reload");
    let r = respond(&mut c, &req(None, None, None));
    assert_eq!(error_text(&r), "unknown command: ");
}

#[test]
fn decoding_requests() {
    let r = decode_request(br#"{"cmd":"set","key":"asr.model","value":"small"}"#).unwrap();
    assert_eq!(r.cmd.as_deref(), Some("set"));
    assert_eq!(r.key.as_deref(), Some("asr.model"));
    assert_eq!(r.value.as_deref(), Some("small"));
    let r = decode_request(b"{\"cmd\": 5, \"value\": \"x\"}\n").unwrap();
    assert_eq!(r.cmd, None);
    assert_eq!(r.key, None);
    assert_eq!(r.value.as_deref(), Some("x"));
    let r = decode_request(b"[1, 2]").unwrap();
    assert_eq!(r.cmd, None);
    assert!(decode_request(b"{not json").is_none());
    assert!(decode_request(b"").is_none());
}

#[test]
fn handling_lines() {
    let mut c = Config::default();
    assert!(handle_line(&mut c, b"").is_none());
    assert!(handle_line(&mut c, b"garbage\n").is_none());
    let r = handle_line(&mut c, b"{\"cmd\":\"set\",\"key\":\"output.typing_delay_ms\",\"value\":\"20\"}\n").unwrap();
    assert!(matches!(r, Response::Applied { restart_required: false }));
    assert_eq!(c.output.typing_delay_ms, 20);
    let r = handle_line(&mut c, b"{\"cmd\":\"get_config\"}\n").unwrap();
    assert!(matches!(r, Response::Config));
}

#[test]
fn checking_replies() {
    assert!(check_reply("{\"status\":\"ok\"}\n").is_ok());
    assert!(check_reply("{\"status\":\"ok\",\"data\":{}}").is_ok());
    assert_eq!(check_reply("").unwrap_err(), "Empty response from daemon");
    assert_eq!(
        check_reply("{\"message\":\"unknown config key: x\",\"status\":\"error\"}\n").unwrap_err(),
        "Daemon error: unknown config key: x"
    );
    assert_eq!(check_reply("{\"status\":\"error\"}").unwrap_err(), "Daemon error: unknown error");
    let err = check_reply("nope").unwrap_err();
    let expected = serde_json::from_str::<serde_json::Value>("nope").unwrap_err().to_string();
    assert_eq!(err, expected);
    assert_eq!(err, "expected ident at line 1 column 2");
    let trailing = check_reply("{\"status\":\"error\"} x").unwrap_err();
    let expected = serde_json::from_str::<serde_json::Value>("{\"status\":\"error\"} x").unwrap_err().to_string();
    assert_eq!(trailing, expected);
    assert!(trailing.starts_with("trailing characters"));
}
