use pulseprint::command::CommandError;
use pulseprint::model::{PrintCommand, Printer, PrinterConfig, PrinterStatus, PrinterTemperatures};
use pulseprint::service::{Dispatch, DropReason, MessageOutcome, MqttService};
use pulseprint::tree::Tree;

fn config(id: &str) -> PrinterConfig {
    PrinterConfig {
        id: id.to_string(),
        name: format!("Printer {id}"),
        model: "P1P".to_string(),
        ip: "192.168.1.50".to_string(),
        access_code: "12345678".to_string(),
        serial: format!("SERIAL-{id}"),
    }
}

fn updated(outcome: MessageOutcome) -> Printer {
    match outcome {
        MessageOutcome::Updated(p) => p,
        other => panic!("not updated: {other:?}"),
    }
}

#[test]
fn a_new_service_is_empty() {
    let mut service = MqttService::new();
    assert!(service.get_all_printers().is_empty());
    assert_eq!(service.pending_commands(), 0);
    assert_eq!(service.next_dispatch_at(1), None);
    assert!(!service.is_registered("garage"));
}

#[test]
fn a_registered_printer_starts_as_connecting() {
    let mut service = MqttService::new();
    let snapshot = service.add_printer_at(config("garage"), 1_000);
    assert_eq!(
        snapshot,
        Printer {
            id: "garage".to_string(),
            name: "Printer garage".to_string(),
            model: "P1P".to_string(),
            ip: "192.168.1.50".to_string(),
            access_code: "12345678".to_string(),
            serial: "SERIAL-garage".to_string(),
            status: PrinterStatus::Connecting,
            online: false,
            connection_state: "connecting".to_string(),
            temperatures: PrinterTemperatures { nozzle: 0, bed: 0, chamber: 0 },
            print: None,
            filament: None,
            error: None,
            last_update: 1_000,
        }
    );
    assert!(service.is_registered("garage"));
    assert_eq!(service.get_all_printers(), vec![snapshot.clone()]);
    assert_eq!(service.get_printer("garage"), Some(snapshot));
    assert_eq!(service.get_printer("lab"), None);
}

#[test]
fn registering_takes_the_time_from_the_clock() {
    let mut service = MqttService::new();
    let snapshot = service.add_printer(config("garage"));
    assert!(snapshot.last_update > 1_600_000_000_000);
    assert_eq!(snapshot.status, PrinterStatus::Connecting);
    assert_eq!(service.get_printer("garage"), Some(snapshot));
}

#[test]
fn a_removed_printer_is_gone_and_a_second_removal_does_nothing() {
    let mut service = MqttService::new();
    service.add_printer_at(config("garage"), 1);
    service.add_printer_at(config("lab"), 2);
    assert!(service.remove_printer("garage"));
    assert!(!service.is_registered("garage"));
    assert!(service.is_registered("lab"));
    let after_first = service.get_all_printers();
    assert!(!service.remove_printer("garage"));
    assert_eq!(service.get_all_printers(), after_first);
    assert_eq!(after_first.len(), 1);
    assert_eq!(after_first[0].id, "lab");
}

#[test]
fn registering_again_starts_over_in_place_and_keeps_the_session() {
    let mut service = MqttService::new();
    service.add_printer_at(config("garage"), 1);
    let lab = service.add_printer_at(config("lab"), 2);
    service.connection_established_at("garage", 3).expect("registered");
    updated(service.handle_message_at("garage", br#"{"print":{"mc_percent":55,"mc_remaining_time":120}}"#, 4));
    let again = service.add_printer_at(config("garage"), 5);
    assert_eq!(again.status, PrinterStatus::Connecting);
    assert_eq!(again.print, None);
    assert_eq!(again.last_update, 5);
    let all = service.get_all_printers();
    assert_eq!(all.len(), 2);
    assert_eq!(all[0], again);
    assert_eq!(all[1], lab);
    let p = updated(service.handle_message_at("garage", br#"{"print":{"fan_gear":0}}"#, 6));
    assert_eq!(p.print, None);
    service.send_command("garage", PrintCommand::pause()).unwrap();
    service.send_command("lab", PrintCommand::pause()).unwrap();
    assert_eq!(
        service.next_dispatch_at(7),
        Some(Dispatch::Publish {
            printer_id: "garage".to_string(),
            topic: "device/SERIAL-garage/request".to_string(),
            payload: r#"{"print":{"command":"pause","sequence_id":"7"}}"#.to_string(),
        })
    );
    assert_eq!(
        service.next_dispatch_at(8),
        Some(Dispatch::Dropped { printer_id: "lab".to_string(), reason: DropReason::NoSession })
    );
}

#[test]
fn registering_again_without_a_session_leaves_none() {
    let mut service = MqttService::new();
    service.add_printer_at(config("garage"), 1);
    service.add_printer_at(config("garage"), 2);
    service.send_command("garage", PrintCommand::stop()).unwrap();
    assert_eq!(
        service.next_dispatch_at(3),
        Some(Dispatch::Dropped { printer_id: "garage".to_string(), reason: DropReason::NoSession })
    );
    assert_eq!(service.get_all_printers().len(), 1);
}

#[test]
fn an_established_session_makes_the_printer_idle_and_probes_it() {
    let mut service = MqttService::new();
    service.add_printer_at(config("garage"), 1);
    let connected = service.connection_established_at("garage", 1_700_000_000_123).expect("registered");
    assert_eq!(connected.report_topic, "device/SERIAL-garage/report");
    assert_eq!(connected.request_topic, "device/SERIAL-garage/request");
    assert_eq!(connected.probe, r#"{"print":{"command":"get_status","sequence_id":"1700000000123"}}"#);
    assert!(connected.snapshot.online);
    assert_eq!(connected.snapshot.status, PrinterStatus::Idle);
    assert_eq!(connected.snapshot.connection_state, "connected");
    assert_eq!(connected.snapshot.last_update, 1_700_000_000_123);
    assert_eq!(service.get_printer("garage"), Some(connected.snapshot));
    assert_eq!(service.connection_established_at("nobody", 2), None);
    assert!(service.connection_established("garage").is_some());
    assert!(service.connection_established("nobody").is_none());
}

#[test]
fn a_transport_error_makes_the_printer_offline() {
    let mut service = MqttService::new();
    service.add_printer_at(config("garage"), 1);
    service.connection_established_at("garage", 2);
    let snapshot = service.connection_lost_at("garage", 3).expect("registered");
    assert!(!snapshot.online);
    assert_eq!(snapshot.status, PrinterStatus::Offline);
    assert_eq!(snapshot.connection_state, "failed");
    assert_eq!(snapshot.last_update, 3);
    assert_eq!(service.connection_lost_at("nobody", 4), None);
    let again = service.connection_established_at("garage", 5).expect("registered");
    assert_eq!(again.snapshot.status, PrinterStatus::Idle);
    let lost = service.connection_lost("garage").expect("registered");
    assert_eq!(lost.status, PrinterStatus::Offline);
    assert!(lost.last_update > 1_600_000_000_000);
}

#[test]
fn a_malformed_payload_is_dropped() {
    let mut service = MqttService::new();
    service.add_printer_at(config("garage"), 1);
    let before = service.get_all_printers();
    assert_eq!(service.handle_message_at("garage", b"{\"print\":", 2), MessageOutcome::Malformed);
    assert_eq!(service.get_all_printers(), before);
    assert_eq!(service.handle_message_at("nobody", b"{}", 3), MessageOutcome::Unregistered);
    assert_eq!(service.handle_message_at("nobody", b"{", 3), MessageOutcome::Unregistered);
    assert_eq!(service.handle_message("garage", b"nonsense"), MessageOutcome::Malformed);
    assert_eq!(service.get_all_printers(), before);
}

#[test]
fn a_document_that_is_no_object_is_dropped() {
    let mut service = MqttService::new();
    service.add_printer_at(config("garage"), 1);
    updated(service.handle_message_at("garage", br#"{"print":{"mc_percent":55,"mc_remaining_time":9}}"#, 2));
    let before = service.get_all_printers();
    assert_eq!(service.handle_message_at("garage", b"5", 3), MessageOutcome::Malformed);
    assert_eq!(service.handle_message_at("garage", b"[1,2]", 3), MessageOutcome::Malformed);
    assert_eq!(service.handle_message_at("garage", b"null", 3), MessageOutcome::Malformed);
    assert_eq!(service.apply_report("garage", &Tree::Array(vec![]), 3), MessageOutcome::Malformed);
    assert_eq!(service.apply_report("nobody", &Tree::empty_object(), 3), MessageOutcome::Unregistered);
    assert_eq!(service.get_all_printers(), before);
    let p = updated(service.apply_report("garage", &Tree::empty_object(), 4));
    assert_eq!(p.print.expect("a job").progress, 55_000);
    assert_eq!(p.last_update, 4);
}

#[test]
fn a_report_without_a_print_member_only_moves_the_time() {
    let mut service = MqttService::new();
    let start = service.add_printer_at(config("garage"), 1);
    let p = updated(service.handle_message_at("garage", br#"{"info":{"command":"get_version"}}"#, 9));
    assert_eq!(p, Printer { last_update: 9, ..start });
}

#[test]
fn reports_are_accumulated_and_classified() {
    let mut service = MqttService::new();
    service.add_printer_at(config("garage"), 1);
    service.connection_established_at("garage", 2);
    let p = updated(service.handle_message_at(
        "garage",
        br#"{"print":{"mc_percent":55,"mc_remaining_time":120,"layer_num":10,"subtask_name":"cube","nozzle_temper":215.5}}"#,
        3,
    ));
    assert_eq!(p.status, PrinterStatus::Printing);
    assert_eq!(p.temperatures.nozzle, 216);
    assert_eq!(p.last_update, 3);
    let job = p.print.expect("a job");
    assert_eq!(job.progress, 55_000);
    assert_eq!(job.file_name, "cube");
    let p = updated(service.handle_message_at(
        "garage",
        br#"{"print":{"mc_percent":0,"mc_remaining_time":0,"layer_num":0,"fan_gear":4,"nozzle_temper":210,"subtask_name":""}}"#,
        4,
    ));
    assert_eq!(p.status, PrinterStatus::Printing);
    assert_eq!(p.temperatures.nozzle, 210);
    let job = p.print.expect("a job");
    assert_eq!(job.progress, 55_000);
    assert_eq!(job.time_remaining, 7_200);
    assert_eq!(job.file_name, "cube");
    assert_eq!(job.layer_current, 0);
    assert_eq!(job.fan_speed, Some(4));
    let p = updated(service.handle_message_at("garage", br#"{"print":{"print_error":2}}"#, 5));
    assert_eq!(p.status, PrinterStatus::Error);
    assert_eq!(p.error.expect("a fault").message, "Bed adhesion failure");
    let p = updated(service.handle_message_at("garage", br#"{"print":{"print_error":0,"mc_percent":100}}"#, 6));
    assert_eq!(p.error, None);
    assert_eq!(p.print.expect("a job").progress, 100_000);
    let last = updated(service.handle_message("garage", br#"{"print":{"gcode_state":"FINISH"}}"#));
    assert_eq!(last.status, PrinterStatus::Idle);
    assert!(last.last_update > 1_600_000_000_000);
}

#[test]
fn printers_do_not_touch_each_other() {
    let mut service = MqttService::new();
    service.add_printer_at(config("garage"), 1);
    let other = service.add_printer_at(config("lab"), 2);
    updated(service.handle_message_at("garage", br#"{"print":{"print_error":3}}"#, 3));
    assert_eq!(service.get_printer("lab"), Some(other));
}

#[test]
fn an_unsupported_command_is_refused_and_changes_nothing() {
    let mut service = MqttService::new();
    service.add_printer_at(config("garage"), 1);
    service.connection_established_at("garage", 2);
    let before = service.get_all_printers();
    let e = service.send_command("garage", PrintCommand { action: "cancel".to_string() }).unwrap_err();
    assert_eq!(e, CommandError::Unsupported("cancel".to_string()));
    assert_eq!(e.message(), "Unsupported command: cancel");
    assert_eq!(service.pending_commands(), 0);
    assert_eq!(service.get_all_printers(), before);
    assert_eq!(service.next_dispatch_at(3), None);
}

#[test]
fn commands_leave_in_the_order_of_their_submission() {
    let mut service = MqttService::new();
    service.add_printer_at(config("garage"), 1);
    service.add_printer_at(config("lab"), 1);
    service.connection_established_at("garage", 2);
    service.connection_established_at("lab", 2);
    service.send_command("garage", PrintCommand::pause()).unwrap();
    service.send_command("lab", PrintCommand::stop()).unwrap();
    service.send_command("garage", PrintCommand::resume()).unwrap();
    assert_eq!(service.pending_commands(), 3);
    assert_eq!(
        service.next_dispatch_at(10),
        Some(Dispatch::Publish {
            printer_id: "garage".to_string(),
            topic: "device/SERIAL-garage/request".to_string(),
            payload: r#"{"print":{"command":"pause","sequence_id":"10"}}"#.to_string(),
        })
    );
    assert_eq!(
        service.next_dispatch_at(11),
        Some(Dispatch::Publish {
            printer_id: "lab".to_string(),
            topic: "device/SERIAL-lab/request".to_string(),
            payload: r#"{"print":{"command":"stop","sequence_id":"11"}}"#.to_string(),
        })
    );
    assert_eq!(
        service.next_dispatch_at(12),
        Some(Dispatch::Publish {
            printer_id: "garage".to_string(),
            topic: "device/SERIAL-garage/request".to_string(),
            payload: r#"{"print":{"command":"resume","sequence_id":"12"}}"#.to_string(),
        })
    );
    assert_eq!(service.next_dispatch_at(13), None);
}

#[test]
fn a_command_without_printer_or_session_is_dropped() {
    let mut service = MqttService::new();
    service.add_printer_at(config("garage"), 1);
    service.send_command("garage", PrintCommand::pause()).unwrap();
    service.send_command("ghost", PrintCommand::get_status()).unwrap();
    service.send_command("garage", PrintCommand::stop()).unwrap();
    assert_eq!(
        service.next_dispatch_at(5),
        Some(Dispatch::Dropped { printer_id: "garage".to_string(), reason: DropReason::NoSession })
    );
    assert_eq!(
        service.next_dispatch_at(5),
        Some(Dispatch::Dropped { printer_id: "ghost".to_string(), reason: DropReason::UnknownPrinter })
    );
    service.connection_established_at("garage", 6);
    match service.next_dispatch() {
        Some(Dispatch::Publish { printer_id, topic, payload }) => {
            assert_eq!(printer_id, "garage");
            assert_eq!(topic, "device/SERIAL-garage/request");
            assert!(payload.starts_with(r#"{"print":{"command":"stop","sequence_id":"1"#));
        }
        other => panic!("not published: {other:?}"),
    }
    assert_eq!(service.next_dispatch(), None);
}

#[test]
fn a_removed_printer_takes_its_session_along() {
    let mut service = MqttService::new();
    service.add_printer_at(config("garage"), 1);
    service.connection_established_at("garage", 2);
    service.send_command("garage", PrintCommand::pause()).unwrap();
    assert!(service.remove_printer("garage"));
    assert_eq!(
        service.next_dispatch_at(3),
        Some(Dispatch::Dropped { printer_id: "garage".to_string(), reason: DropReason::UnknownPrinter })
    );
    assert_eq!(service.connection_lost_at("garage", 4), None);
}
