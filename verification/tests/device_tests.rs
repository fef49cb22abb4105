use audit_core::command::{CommandKind, parse_command};
use audit_core::device::{TunDevice, copy_packet_into};

#[test]
fn queues_are_fifo() {
    let mut dev = TunDevice::new(1500);
    dev.receive_packet(&[1, 2, 3]);
    dev.receive_packet(&[4, 5]);
    assert_eq!(dev.next_rx_packet(), Some(vec![1, 2, 3]));
    assert_eq!(dev.next_rx_packet(), Some(vec![4, 5]));
    assert_eq!(dev.next_rx_packet(), None);

    dev.send_packet(vec![9]);
    dev.send_packet(vec![8, 7]);
    assert_eq!(dev.get_tx_packet(), Some(vec![9]));
    assert_eq!(dev.get_tx_packet(), Some(vec![8, 7]));
    assert_eq!(dev.get_tx_packet(), None);
}

#[test]
fn queue_views_reflect_contents() {
    let mut dev = TunDevice::new(9000);
    assert_eq!(dev.mtu, 9000);
    dev.receive_packet(&[1]);
    assert_eq!(dev.rx_queue().len(), 1);
    assert_eq!(dev.tx_queue().len(), 0);
}

#[test]
fn packet_copy_fills_the_buffer_or_probes() {
    let mut buffer: Vec<u8> = vec![0; 8];
    let n = copy_packet_into(&mut buffer, &[1, 2, 3]);
    assert_eq!(n, 3);
    assert_eq!(buffer, vec![1, 2, 3, 0, 0, 0, 0, 0]);

    let mut small: Vec<u8> = vec![0; 2];
    // too small: nothing written, the required length is reported
    let n = copy_packet_into(&mut small, &[1, 2, 3]);
    assert_eq!(n, 3);
    assert_eq!(small, vec![0, 0]);
}

#[test]
fn command_words_map_to_the_closed_set() {
    assert!(matches!(parse_command("register"), CommandKind::Register));
    assert!(matches!(parse_command("login"), CommandKind::Login));
    assert!(matches!(parse_command("logout"), CommandKind::Logout));
    assert!(matches!(parse_command("get_pops"), CommandKind::GetPops));
    assert!(matches!(parse_command("check_update"), CommandKind::CheckUpdate));
    assert!(matches!(parse_command("get_cert"), CommandKind::GetCert));
    assert!(matches!(parse_command("get_server_time"), CommandKind::GetServerTime));
    assert!(matches!(parse_command("log_traffic"), CommandKind::LogTraffic));
    assert!(matches!(parse_command("log_event"), CommandKind::LogEvent));
    assert!(matches!(parse_command("set_audit_policy"), CommandKind::SetAuditPolicy));
    assert!(matches!(parse_command("set_redaction_status"), CommandKind::SetRedactionStatus));
    assert!(matches!(parse_command("get_screenshot_logs"), CommandKind::GetScreenshotLogs));
    assert!(matches!(parse_command("reboot"), CommandKind::Unknown));
    assert!(matches!(parse_command(""), CommandKind::Unknown));
    assert!(matches!(parse_command("Register"), CommandKind::Unknown));
}
