use pulseprint::command::{
    command_payload, report_topic, request_topic, supported_action, Action, CommandError,
};
use pulseprint::connection::{connection_plan, connection_plan_with};
use pulseprint::model::{PrintCommand, PrinterConfig};
use pulseprint::text::{decimal_text, digits_text};

fn config() -> PrinterConfig {
    PrinterConfig {
        id: "garage".to_string(),
        name: "Workshop".to_string(),
        model: "P1P".to_string(),
        ip: "192.168.1.50".to_string(),
        access_code: "12345678".to_string(),
        serial: "01S00A123".to_string(),
    }
}

#[test]
fn the_payload_is_the_command_envelope() {
    assert_eq!(
        command_payload("pause", 1_700_000_000_123),
        Ok(r#"{"print":{"command":"pause","sequence_id":"1700000000123"}}"#.to_string())
    );
    assert_eq!(
        command_payload("get_status", 0),
        Ok(r#"{"print":{"command":"get_status","sequence_id":"0"}}"#.to_string())
    );
    assert_eq!(
        command_payload("resume", -5),
        Ok(r#"{"print":{"command":"resume","sequence_id":"-5"}}"#.to_string())
    );
    assert_eq!(
        command_payload("stop", 42),
        Ok(r#"{"print":{"command":"stop","sequence_id":"42"}}"#.to_string())
    );
}

#[test]
fn the_payload_is_what_serde_json_writes_for_the_envelope() {
    let mut inner = serde_json::Map::new();
    inner.insert("command".to_string(), serde_json::Value::String("stop".to_string()));
    inner.insert("sequence_id".to_string(), serde_json::Value::String("1700000000123".to_string()));
    let mut outer = serde_json::Map::new();
    outer.insert("print".to_string(), serde_json::Value::Object(inner));
    let expected = serde_json::Value::Object(outer).to_string();
    assert_eq!(command_payload("stop", 1_700_000_000_123), Ok(expected));
}

#[test]
fn an_unsupported_action_gives_an_error() {
    let e = command_payload("cancel", 1).unwrap_err();
    assert_eq!(e, CommandError::Unsupported("cancel".to_string()));
    assert_eq!(e.message(), "Unsupported command: cancel");
    assert!(!supported_action("cancel"));
    assert!(!supported_action("Pause"));
    assert!(!supported_action(""));
    assert!(supported_action("get_status"));
}

#[test]
fn actions_have_their_wire_names() {
    for (action, name) in [
        (Action::Pause, "pause"),
        (Action::Resume, "resume"),
        (Action::Stop, "stop"),
        (Action::GetStatus, "get_status"),
    ] {
        assert_eq!(action.name(), name);
        assert_eq!(Action::parse(name), Some(action));
    }
    assert_eq!(Action::parse("cancel"), None);
    assert_eq!(PrintCommand::pause().action, "pause");
    assert_eq!(PrintCommand::resume().action, "resume");
    assert_eq!(PrintCommand::stop().action, "stop");
    assert_eq!(PrintCommand::get_status().action, "get_status");
    assert!(PrintCommand::stop().is_supported());
    assert!(!PrintCommand::new("cancel").is_supported());
}

#[test]
fn topics_carry_the_serial() {
    assert_eq!(report_topic("01S00A123"), "device/01S00A123/report");
    assert_eq!(request_topic("01S00A123"), "device/01S00A123/request");
    assert_eq!(report_topic(""), "device//report");
}

#[test]
fn the_plan_holds_the_fixed_settings() {
    let plan = connection_plan_with(&config(), "token");
    assert_eq!(plan.client_id, "pulseprint_desktop_garage_token");
    assert_eq!(plan.host, "192.168.1.50");
    assert_eq!(plan.port, 8883);
    assert_eq!(plan.username, "bblp");
    assert_eq!(plan.password, "12345678");
    assert_eq!(plan.keep_alive_secs, 60);
    assert!(!plan.verify_certificate);
    assert_eq!(plan.request_capacity, 10);
    assert_eq!(plan.report_topic, "device/01S00A123/report");
    assert_eq!(plan.request_topic, "device/01S00A123/request");
    assert_eq!(plan.retry_delay_secs, 5);
}

#[test]
fn the_plan_gets_a_fresh_token_each_time() {
    let first = connection_plan(&config());
    let second = connection_plan(&config());
    assert!(first.client_id.starts_with("pulseprint_desktop_garage_"));
    assert!(first.client_id.len() > "pulseprint_desktop_garage_".len());
    assert_ne!(first.client_id, second.client_id);
    assert_eq!(first.host, second.host);
    assert_eq!(first.report_topic, "device/01S00A123/report");
}

#[test]
fn decimal_text_writes_numerals() {
    assert_eq!(decimal_text(0), "0");
    assert_eq!(decimal_text(7), "7");
    assert_eq!(decimal_text(10), "10");
    assert_eq!(decimal_text(-10), "-10");
    assert_eq!(decimal_text(1_234_567_890), "1234567890");
    assert_eq!(decimal_text(i64::MAX), i64::MAX.to_string());
    assert_eq!(decimal_text(i64::MIN), i64::MIN.to_string());
    assert_eq!(digits_text(u64::MAX), u64::MAX.to_string());
}
