use minix_bt::hci;
use minix_bt::hci::{build_hci_cmd, HciState};
use minix_bt::uart_transport::{
    baud_to_divisor, bcm_parse_hcd_records, h5_crc16, parse_intel_version, qca_parse_tlv_records,
    slip_decode, slip_encode, slip_first_frame, H4Protocol, H4RxState, H5LinkState, H5Session,
    HciUartProtocol, HciUartTransport, SlipDecodeState, UartFirmwareInfo, UartFlowControl, H4_ACL,
    H4_CMD, H4_EVT, H5_CONF, H5_SYNC, SLIP_DELIMITER, SLIP_ESC, SLIP_ESC_DELIM, SLIP_ESC_ESC,
    UART_CLOCK_1_8432_MHZ,
};

// ── H4 ──

#[test]
fn test_h4_build_frame() {
    let mut buf = [0u8; 256];
    let payload = [0x01, 0x02, 0x03];
    let len = H4Protocol::build_frame(&mut buf, H4_CMD, &payload);
    assert_eq!(len, Some(4));
    assert_eq!(buf[0], H4_CMD);
    assert_eq!(buf[1..4], [0x01, 0x02, 0x03]);
}

#[test]
fn test_h4_parse_event() {
    let mut state = H4RxState::WaitType;
    let mut accum = [0u8; 256];
    let mut accum_len: usize = 0;
    let frame = [H4_EVT, 0x0E, 0x03, 0x01, 0x02, 0x03];
    let mut result = None;
    for &byte in &frame {
        result = H4Protocol::parse_stream(&mut state, &mut accum, &mut accum_len, byte);
    }
    assert!(result.is_some());
    let (pkt_type, payload_start, payload_len) = result.unwrap();
    assert_eq!(pkt_type, H4_EVT);
    assert_eq!(payload_len, 5);
    assert_eq!(accum[payload_start], 0x0E);
    assert_eq!(accum[payload_start + 1], 0x03);
}

#[test]
fn test_h4_parse_command() {
    let mut state = H4RxState::WaitType;
    let mut accum = [0u8; 256];
    let mut accum_len: usize = 0;
    let frame = [H4_CMD, 0x01, 0x10, 0x03, 0xAA, 0xBB, 0xCC];
    let mut result = None;
    for &byte in &frame {
        result = H4Protocol::parse_stream(&mut state, &mut accum, &mut accum_len, byte);
    }
    assert!(result.is_some());
    let (pkt_type, _payload_start, payload_len) = result.unwrap();
    assert_eq!(pkt_type, H4_CMD);
    assert_eq!(payload_len, 6);
}

#[test]
fn test_h4_parse_acl() {
    let mut state = H4RxState::WaitType;
    let mut accum = [0u8; 256];
    let mut accum_len: usize = 0;
    let frame = [H4_ACL, 0x42, 0x00, 0x04, 0x00, 0x01, 0x02, 0x03, 0x04];
    let mut result = None;
    for &byte in &frame {
        result = H4Protocol::parse_stream(&mut state, &mut accum, &mut accum_len, byte);
    }
    assert!(result.is_some());
    let (pkt_type, _payload_start, payload_len) = result.unwrap();
    assert_eq!(pkt_type, H4_ACL);
    assert_eq!(payload_len, 8);
}

#[test]
fn h4_parse_ignores_noise_before_type() {
    let mut state = H4RxState::WaitType;
    let mut accum = [0u8; 16];
    let mut accum_len: usize = 0;
    assert_eq!(H4Protocol::parse_stream(&mut state, &mut accum, &mut accum_len, 0x99), None);
    assert_eq!(state, H4RxState::WaitType);
    assert_eq!(accum_len, 0);
}

#[test]
fn h4_parse_full_buffer_drops_packet() {
    let mut state = H4RxState::WaitType;
    let mut accum = [0u8; 4];
    let mut accum_len: usize = 0;
    for &b in &[H4_EVT, 0x0E, 0x10, 0x01] {
        assert_eq!(H4Protocol::parse_stream(&mut state, &mut accum, &mut accum_len, b), None);
    }
    assert_eq!(accum_len, 4);
    assert_eq!(H4Protocol::parse_stream(&mut state, &mut accum, &mut accum_len, 0x02), None);
    assert_eq!(state, H4RxState::WaitType);
    assert_eq!(accum_len, 0);
}

#[test]
fn h4_build_frame_too_small() {
    let mut buf = [0u8; 3];
    assert_eq!(H4Protocol::build_frame(&mut buf, H4_CMD, &[1, 2, 3]), None);
    assert_eq!(buf, [0, 0, 0]);
}

#[test]
fn feed_h4_returns_wanted_packet() {
    let mut t = HciUartTransport::new_h4(b"/dev/ttyS0", 115200, UartFlowControl::RtsCts);
    let mut out = [0u8; 8];
    // An ACL packet is passed over, the event is returned.
    let raw = [H4_ACL, 0x01, 0x00, 0x01, 0x00, 0x55, H4_EVT, 0x0E, 0x02, 0xAA, 0xBB, 0x77];
    let n = t.feed_h4(&raw, H4_EVT, &mut out);
    assert_eq!(n, 4);
    assert_eq!(&out[..4], &[0x0E, 0x02, 0xAA, 0xBB]);
    assert_eq!(t.h4_rx_state, H4RxState::WaitType);
    assert_eq!(t.h4_accum_len, 0);
}

#[test]
fn feed_h4_truncates_to_out_buffer() {
    let mut t = HciUartTransport::new_h4(b"/dev/ttyS0", 115200, UartFlowControl::RtsCts);
    let mut out = [0u8; 2];
    let raw = [H4_EVT, 0x0E, 0x02, 0xAA, 0xBB];
    assert_eq!(t.feed_h4(&raw, H4_EVT, &mut out), 2);
    assert_eq!(out, [0x0E, 0x02]);
}

#[test]
fn feed_h4_incomplete_keeps_state() {
    let mut t = HciUartTransport::new_h4(b"/dev/ttyS0", 115200, UartFlowControl::RtsCts);
    let mut out = [0u8; 8];
    assert_eq!(t.feed_h4(&[H4_EVT, 0x0E], H4_EVT, &mut out), 0);
    assert_eq!(t.h4_rx_state, H4RxState::ReadPayload);
    assert_eq!(t.h4_accum_len, 2);
    assert_eq!(t.feed_h4(&[0x00], H4_EVT, &mut out), 2);
    assert_eq!(&out[..2], &[0x0E, 0x00]);
}

// ── SLIP ──

#[test]
fn test_slip_encode_simple() {
    let mut output = [0u8; 256];
    let input = [0x01, 0x02, 0x03];
    let len = slip_encode(&input, &mut output).unwrap();
    assert_eq!(output[0], SLIP_DELIMITER);
    assert_eq!(output[1], 0x01);
    assert_eq!(output[2], 0x02);
    assert_eq!(output[3], 0x03);
    assert_eq!(output[len - 1], SLIP_DELIMITER);
}

#[test]
fn test_slip_encode_escape() {
    let mut output = [0u8; 256];
    let input = [0x01, SLIP_DELIMITER, 0x03, SLIP_ESC];
    let len = slip_encode(&input, &mut output).unwrap();
    assert_eq!(output[0], SLIP_DELIMITER);
    assert_eq!(output[1], 0x01);
    assert_eq!(output[2], SLIP_ESC);
    assert_eq!(output[3], SLIP_ESC_DELIM);
    assert_eq!(output[4], 0x03);
    assert_eq!(output[5], SLIP_ESC);
    assert_eq!(output[6], SLIP_ESC_ESC);
    assert_eq!(output[len - 1], SLIP_DELIMITER);
}

#[test]
fn test_slip_roundtrip() {
    let input = [0x01, SLIP_DELIMITER, 0x02, SLIP_ESC, 0x03, 0xC0, 0xDB];
    let mut encoded = [0u8; 256];
    let enc_len = slip_encode(&input, &mut encoded).unwrap();
    let mut state = SlipDecodeState::WaitDelimiter;
    let mut accum = [0u8; 256];
    let mut accum_len: usize = 0;
    let mut decoded = None;
    for i in 0..enc_len {
        decoded = slip_decode(&mut state, &mut accum, &mut accum_len, encoded[i]);
    }
    assert!(decoded.is_some());
    let dlen = decoded.unwrap();
    assert_eq!(dlen, input.len());
    assert_eq!(&accum[..dlen], &input);
}

#[test]
fn slip_encode_output_too_small() {
    let mut output = [0u8; 4];
    assert_eq!(slip_encode(&[0x01, 0x02, 0x03], &mut output), None);
}

#[test]
fn slip_first_frame_takes_first() {
    let raw = [0x55, SLIP_DELIMITER, 0x01, SLIP_ESC, SLIP_ESC_DELIM, SLIP_DELIMITER, SLIP_DELIMITER, 0x09, SLIP_DELIMITER];
    let mut buf = [0u8; 16];
    let n = slip_first_frame(&raw, &mut buf);
    assert_eq!(n, Some(2));
    assert_eq!(&buf[..2], &[0x01, SLIP_DELIMITER]);
    let mut buf2 = [0u8; 16];
    assert_eq!(slip_first_frame(&[SLIP_DELIMITER, 0x01], &mut buf2), None);
}

// ── CRC ──

#[test]
fn test_h5_crc16_known() {
    let data = [0x00u8, 0x01, 0x02];
    let crc = h5_crc16(&data);
    assert_ne!(crc, 0);
}

#[test]
fn test_h5_crc16_empty() {
    let crc = h5_crc16(b"");
    assert_eq!(crc, 0xFFFF);
}

#[test]
fn h5_crc16_ccitt_false_check_value() {
    // CRC-16/CCITT-FALSE of "123456789".
    assert_eq!(h5_crc16(b"123456789"), 0x29B1);
}

// ── H5 session ──

#[test]
fn test_h5_session_new() {
    let session = H5Session::new();
    assert_eq!(session.link_state, H5LinkState::Uninitialized);
    assert!(session.crc_enabled);
    assert!(session.reliable_enabled);
}

#[test]
fn test_h5_control_sync() {
    let session = H5Session::new();
    let mut slip_buf = [0u8; 256];
    let len = session.build_control(H5_SYNC, &mut slip_buf);
    assert!(len.is_some());
    let len = len.unwrap();
    assert!(len > 4);
    assert_eq!(slip_buf[0], SLIP_DELIMITER);
    assert_eq!(slip_buf[len - 1], SLIP_DELIMITER);
}

#[test]
fn test_h5_seq_tracking() {
    let mut session = H5Session::new();
    let mut slip_buf = [0u8; 8192];
    let len = session.build_data_frame(H4_EVT, &[0x0E, 0x01], &mut slip_buf);
    assert!(len.is_some());
    assert_eq!(session.h2c.next_seq, 1);
}

#[test]
fn test_h5_session_reset() {
    let mut session = H5Session::new();
    session.link_state = H5LinkState::Active;
    session.h2c.next_seq = 5;
    session.reset();
    assert_eq!(session.link_state, H5LinkState::Uninitialized);
    assert_eq!(session.h2c.next_seq, 0);
}

#[test]
fn h5_data_frame_roundtrip_through_process_incoming() {
    let mut tx = H5Session::new();
    let mut slip_buf = [0u8; 256];
    let len = tx.build_data_frame(H4_EVT, &[0x0E, 0x01, 0x42], &mut slip_buf).unwrap();
    let mut decoded = [0u8; 256];
    let dlen = slip_first_frame(&slip_buf[..len], &mut decoded).unwrap();
    let mut rx = H5Session::new();
    let mut pkt_type = 0u8;
    let mut out = [0u8; 16];
    let n = rx.process_incoming(&decoded[..dlen], &mut pkt_type, &mut out);
    assert_eq!(n, Some(3));
    assert_eq!(pkt_type, H4_EVT);
    assert_eq!(&out[..3], &[0x0E, 0x01, 0x42]);
    assert_eq!(rx.c2h.expected_seq, 1);
}

#[test]
fn h5_process_incoming_bad_crc() {
    let mut tx = H5Session::new();
    let mut slip_buf = [0u8; 256];
    let len = tx.build_data_frame(H4_EVT, &[0x0E], &mut slip_buf).unwrap();
    let mut decoded = [0u8; 256];
    let dlen = slip_first_frame(&slip_buf[..len], &mut decoded).unwrap();
    decoded[dlen - 1] ^= 0xFF;
    let mut rx = H5Session::new();
    let mut pkt_type = 0u8;
    let mut out = [0u8; 16];
    assert_eq!(rx.process_incoming(&decoded[..dlen], &mut pkt_type, &mut out), None);
    assert_eq!(rx.c2h.expected_seq, 0);
}

#[test]
fn h5_control_messages_move_link_state() {
    let mut s = H5Session::new();
    let mut pkt_type = 0u8;
    let mut out = [0u8; 4];
    assert_eq!(s.process_incoming(&[H5_SYNC, 0, 0, 0], &mut pkt_type, &mut out), None);
    assert_eq!(s.link_state, H5LinkState::SyncSent);
    assert_eq!(s.process_incoming(&[0x81, 0, 0, 0], &mut pkt_type, &mut out), None);
    assert_eq!(s.link_state, H5LinkState::ConfSent);
    assert_eq!(s.process_incoming(&[H5_CONF, 0, 0, 0], &mut pkt_type, &mut out), None);
    assert_eq!(s.link_state, H5LinkState::ConfDone);
    assert_eq!(s.process_incoming(&[0x83, 0, 0, 0], &mut pkt_type, &mut out), None);
    assert_eq!(s.link_state, H5LinkState::Active);
}

#[test]
fn h5_retry_after_timeout() {
    let mut s = H5Session::new();
    let mut slip_buf = [0u8; 256];
    let len = s.build_data_frame(H4_CMD, &[0x03, 0x0C, 0x00], &mut slip_buf).unwrap();
    s.last_send_timestamp = 1000;
    let mut retry_buf = [0u8; 256];
    assert_eq!(s.check_retry(1000 + 50_000, &mut retry_buf), None);
    let r = s.check_retry(1000 + 100_000, &mut retry_buf);
    assert_eq!(r, Some(len));
    assert_eq!(&retry_buf[..len], &slip_buf[..len]);
}

// ── Baud rate ──

#[test]
fn test_baud_to_divisor_115200() {
    let div = baud_to_divisor(115200, UART_CLOCK_1_8432_MHZ);
    assert_eq!(div, Some(1));
}

#[test]
fn test_baud_to_divisor_9600() {
    let div = baud_to_divisor(9600, UART_CLOCK_1_8432_MHZ);
    assert_eq!(div, Some(12));
}

#[test]
fn test_baud_to_divisor_zero() {
    assert!(baud_to_divisor(0, 1_843_200).is_none());
    assert!(baud_to_divisor(115200, 0).is_none());
}

// ── Transport ──

#[test]
fn test_transport_create_h4() {
    let t = HciUartTransport::new_h4(b"/dev/ttyS0", 115200, UartFlowControl::RtsCts);
    assert_eq!(t.baud_rate, 115200);
    assert_eq!(t.flow_control, UartFlowControl::RtsCts);
    assert_eq!(t.protocol, HciUartProtocol::H4);
    assert!(!t.ready);
}

#[test]
fn test_transport_create_h5() {
    let t = HciUartTransport::new_h5(b"/dev/ttyS0", 115200);
    assert_eq!(t.protocol, HciUartProtocol::H5);
    assert!(t.h5.is_some());
}

#[test]
fn transport_stores_path_padded() {
    let t = HciUartTransport::new_h4(b"/dev/ttyS0", 115200, UartFlowControl::Off);
    assert_eq!(&t.uart_path[..10], b"/dev/ttyS0");
    assert!(t.uart_path[10..].iter().all(|&b| b == 0));
    let long = [b'x'; 40];
    let t2 = HciUartTransport::new_h4(&long, 9600, UartFlowControl::Off);
    assert_eq!(&t2.uart_path[..31], &long[..31]);
    assert_eq!(t2.uart_path[31], 0);
}

#[test]
fn test_transport_firmware_info() {
    let mut t = HciUartTransport::new_h4(b"/dev/ttyS0", 115200, UartFlowControl::RtsCts);
    assert!(matches!(t.fw_info, UartFirmwareInfo::Generic));
    t.fw_info = UartFirmwareInfo::Intel {
        boot_param: 0x01020304,
        fw_name: b"ibt-20-1-3.sfi",
        ddc_name: b"ibt-20-1-3.ddc",
    };
    assert!(matches!(t.fw_info, UartFirmwareInfo::Intel { .. }));
    t.fw_info = UartFirmwareInfo::Qca {
        patch_name: b"rampatch_00130300.bin",
        nvm_name: b"nvm_00130300.bin",
        bd_addr: Some([0x11, 0x22, 0x33, 0x44, 0x55, 0x66]),
    };
    assert!(matches!(t.fw_info, UartFirmwareInfo::Qca { .. }));
    if let UartFirmwareInfo::Qca { patch_name, nvm_name, bd_addr } = &t.fw_info {
        assert_eq!(*patch_name, b"rampatch_00130300.bin");
        assert_eq!(*nvm_name, b"nvm_00130300.bin");
        assert_eq!(*bd_addr, Some([0x11, 0x22, 0x33, 0x44, 0x55, 0x66]));
    }
}

#[test]
fn test_transport_wake_gpio() {
    let mut t = HciUartTransport::new_h4(b"/dev/ttyS0", 115200, UartFlowControl::RtsCts);
    assert_eq!(t.bt_wake_gpio, -1);
    assert_eq!(t.host_wake_gpio, -1);
    assert!(!t.set_bt_wake(true));
    t.bt_wake_gpio = 47;
    assert!(t.set_bt_wake(true));
    assert!(!t.get_host_wake());
}

#[test]
fn test_transport_state_after_generic_init() {
    let mut t = HciUartTransport::new_h4(b"/dev/ttyS0", 115200, UartFlowControl::RtsCts);
    assert_eq!(t.state, hci::HciState::Reset);
    assert!(!t.ready);
    t.state = hci::HciState::Up;
    t.ready = true;
    assert_eq!(t.state, hci::HciState::Up);
    assert!(t.ready);
}

#[test]
fn generic_init_without_replies_fails() {
    let mut t = HciUartTransport::new_h4(b"/dev/ttyS0", 115200, UartFlowControl::RtsCts);
    t.open_uart();
    let no_wait = |_us: u32| {};
    assert!(!t.generic_init_sequence(&no_wait));
    assert_eq!(t.state, HciState::Error);
    assert!(!t.ready);
}

#[test]
fn test_send_command_stub() {
    let mut t = HciUartTransport::new_h4(b"/dev/ttyS0", 115200, UartFlowControl::RtsCts);
    t.uart_fd = 0;
    let mut cmd = [0u8; 8];
    let len = hci::build_hci_cmd(&mut cmd, hci::ctrl_bb::RESET, &[]);
    assert!(len > 0);
    let mut h4_data = [0u8; 8];
    h4_data[0] = H4_CMD;
    h4_data[1..len].copy_from_slice(&cmd[1..len]);
    let result = t.send_command(&h4_data[..len]);
    assert!(result);
}

#[test]
fn send_command_closed_or_malformed() {
    let mut t = HciUartTransport::new_h4(b"/dev/ttyS0", 115200, UartFlowControl::RtsCts);
    assert!(!t.send_command(&[H4_CMD, 0x03, 0x0C, 0x00]));
    t.uart_fd = 0;
    assert!(!t.send_command(&[H4_CMD, 0x03, 0x0C]));
    assert!(!t.send_command(&[H4_ACL, 0x03, 0x0C, 0x00]));
    assert!(t.send_acl(&[H4_ACL, 0x01, 0x00, 0x00, 0x00]));
}

#[test]
fn test_send_hci_command_dispatch() {
    let mut t = HciUartTransport::new_h4(b"/dev/ttyS0", 115200, UartFlowControl::RtsCts);
    t.uart_fd = 0;
    let mut h4_data = [0u8; 4];
    h4_data[0] = H4_CMD;
    h4_data[1] = 0x01;
    h4_data[2] = 0x10;
    h4_data[3] = 0x00;
    let result = t.send_hci_command(&h4_data);
    assert!(result, "H4 dispatch should work with stub UART");
}

#[test]
fn h5_send_needs_active_link() {
    let mut t = HciUartTransport::new_h5(b"/dev/ttyS1", 115200);
    t.uart_fd = 0;
    assert!(!t.send_command_h5(&[H4_CMD, 0x03, 0x0C, 0x00]));
    let no_wait = |_us: u32| {};
    assert!(t.h5_establish_link(&no_wait));
    assert!(t.send_command_h5(&[H4_CMD, 0x03, 0x0C, 0x00]));
    assert_eq!(t.h5.as_ref().unwrap().h2c.next_seq, 1);
}

#[test]
fn store_local_version_reads_fields() {
    let mut t = HciUartTransport::new_h4(b"/dev/ttyS0", 115200, UartFlowControl::RtsCts);
    let evt = [0x04, 0x0E, 0x0C, 0x01, 0x01, 0x10, 0x00, 0x09, 0x34, 0x12, 0x08, 0x02, 0x00, 0x78, 0x56];
    assert!(t.store_local_version(&evt));
    assert_eq!(t.hci_version, 0x09);
    assert_eq!(t.hci_revision, 0x1234);
    assert_eq!(t.lmp_version, 0x08);
    assert_eq!(t.manufacturer, 0x0002);
    assert_eq!(t.lmp_subversion, 0x5678);
    let mut bad = evt;
    bad[6] = 0x01;
    let mut t2 = HciUartTransport::new_h4(b"/dev/ttyS0", 115200, UartFlowControl::RtsCts);
    assert!(!t2.store_local_version(&bad));
    assert_eq!(t2.hci_version, 0);
}

#[test]
fn store_bd_addr_reads_address() {
    let mut t = HciUartTransport::new_h4(b"/dev/ttyS0", 115200, UartFlowControl::RtsCts);
    let evt = [0x04, 0x0E, 0x0A, 0x01, 0x09, 0x10, 0x00, 1, 2, 3, 4, 5, 6];
    assert!(t.store_bd_addr(&evt));
    assert_eq!(t.bd_addr.0, [1, 2, 3, 4, 5, 6]);
    assert!(!t.store_bd_addr(&evt[..12]));
}

#[test]
fn intel_version_reply_is_parsed() {
    let mut evt = [0u8; 64];
    evt[0] = 0x04;
    evt[1] = 0x0E;
    evt[7] = 0x00;
    evt[8] = 11;
    evt[9..13].copy_from_slice(&[0x00, 0x00, 0x0C, 0x0B]);
    evt[13..19].copy_from_slice(&[1, 2, 3, 4, 5, 6]);
    assert_eq!(parse_intel_version(&evt), Some((0x0B0C0000, [1, 2, 3, 4, 5, 6], 11)));
    evt[7] = 0x12;
    assert_eq!(parse_intel_version(&evt), None);
    assert_eq!(parse_intel_version(&evt[..15]), None);
}

#[test]
fn intel_fw_name_from_version() {
    let mut buf = [0u8; 64];
    let len = HciUartTransport::intel_build_fw_name(11, 0x0B0C0000, &mut buf);
    assert_eq!(&buf[..len], b"/lib/firmware/intel/ibt-11-2828-0.sfi");
    let len = HciUartTransport::intel_build_ddc_name(17, 0x00010002, &mut buf);
    assert_eq!(&buf[..len], b"/lib/firmware/intel/ibt-17-1-2.ddc");
    let mut small = [0u8; 26];
    let len = HciUartTransport::intel_build_fw_name(255, 0xFFFFFFFF, &mut small);
    assert_eq!(len, 26);
    assert_eq!(&small, b"/lib/firmware/intel/ibt-25");
}

#[test]
fn build_hci_cmd_used_by_transport() {
    let mut buf = [0u8; 8];
    assert_eq!(build_hci_cmd(&mut buf, hci::ctrl_bb::RESET, &[]), 4);
    assert_eq!(&buf[..4], &[0x01, 0x03, 0x0C, 0x00]);
}

// ── QCA / Broadcom ──

#[test]
fn test_qca_build_firmware_path() {
    let mut buf = [0u8; 128];
    let len = HciUartTransport::qca_build_firmware_path(b"rampatch_00130300.bin", &mut buf);
    let path = core::str::from_utf8(&buf[..len]).unwrap();
    assert_eq!(path, "/lib/firmware/qca/rampatch_00130300.bin");
}

#[test]
fn test_qca_build_nvm_path() {
    let mut buf = [0u8; 128];
    let len = HciUartTransport::qca_build_firmware_path(b"nvm_00130300.bin", &mut buf);
    let path = core::str::from_utf8(&buf[..len]).unwrap();
    assert_eq!(path, "/lib/firmware/qca/nvm_00130300.bin");
}

#[test]
fn test_qca_build_firmware_path_truncated() {
    let mut buf = [0u8; 24];
    let len = HciUartTransport::qca_build_firmware_path(b"rampatch_00130300.bin", &mut buf);
    assert_eq!(len, 24);
    assert!(core::str::from_utf8(&buf).unwrap().starts_with("/lib/firmware/qca/ram"));
}

#[test]
fn test_qca_parse_tlv_empty() {
    let data: [u8; 3] = [0x01, 0x00, 0x00];
    let mut count = 0;
    let result = qca_parse_tlv_records(&data, |_tag, _len, _data| {
        count += 1;
        true
    });
    assert!(result);
    assert_eq!(count, 0);
}

#[test]
fn test_qca_parse_tlv_one_record() {
    let mut data = Vec::new();
    data.push(0x11);
    data.extend_from_slice(&3u16.to_le_bytes());
    data.extend_from_slice(&[0xAA, 0xBB, 0xCC]);
    data.push(0x00);
    data.extend_from_slice(&0u16.to_le_bytes());
    let mut records: Vec<(u8, Vec<u8>)> = Vec::new();
    let result = qca_parse_tlv_records(&data, |tag, _len, payload| {
        records.push((tag, payload.to_vec()));
        true
    });
    assert!(result);
    assert_eq!(records.len(), 1);
    assert_eq!(records[0], (0x11, vec![0xAA, 0xBB, 0xCC]));
}

#[test]
fn test_qca_parse_tlv_multiple_records() {
    let mut data = Vec::new();
    data.push(0x01);
    data.extend_from_slice(&4u16.to_le_bytes());
    data.extend_from_slice(&[0x10, 0x20, 0x30, 0x40]);
    data.push(0x02);
    data.extend_from_slice(&2u16.to_le_bytes());
    data.extend_from_slice(&[0xDE, 0xAD]);
    data.push(0x03);
    data.extend_from_slice(&5u16.to_le_bytes());
    data.extend_from_slice(&[0x01, 0x02, 0x03, 0x04, 0x05]);
    data.push(0x00);
    data.extend_from_slice(&0u16.to_le_bytes());
    let mut records: Vec<(u8, Vec<u8>)> = Vec::new();
    let result = qca_parse_tlv_records(&data, |tag, _len, payload| {
        records.push((tag, payload.to_vec()));
        true
    });
    assert!(result);
    assert_eq!(records.len(), 3);
    assert_eq!(records[0], (0x01, vec![0x10, 0x20, 0x30, 0x40]));
    assert_eq!(records[1], (0x02, vec![0xDE, 0xAD]));
    assert_eq!(records[2], (0x03, vec![0x01, 0x02, 0x03, 0x04, 0x05]));
}

#[test]
fn test_qca_parse_tlv_abort_on_callback_false() {
    let mut data = Vec::new();
    data.push(0x01);
    data.extend_from_slice(&1u16.to_le_bytes());
    data.push(0xFF);
    data.push(0x02);
    data.extend_from_slice(&1u16.to_le_bytes());
    data.push(0xEE);
    data.push(0x00);
    data.extend_from_slice(&0u16.to_le_bytes());
    let mut count = 0;
    let result = qca_parse_tlv_records(&data, |_tag, _len, _payload| {
        count += 1;
        false
    });
    assert!(!result);
    assert_eq!(count, 1);
}

#[test]
fn test_bcm_build_patchram_path() {
    let mut buf = [0u8; 128];
    let len = HciUartTransport::bcm_build_patchram_path(b"BCM4343A0.hcd", &mut buf);
    let path = core::str::from_utf8(&buf[..len]).unwrap();
    assert_eq!(path, "/lib/firmware/brcm/BCM4343A0.hcd");
}

#[test]
fn test_bcm_build_patchram_path_truncated() {
    let mut buf = [0u8; 32];
    let len = HciUartTransport::bcm_build_patchram_path(b"BCM4343A0.hcd", &mut buf);
    assert_eq!(len, 32);
    assert!(core::str::from_utf8(&buf).unwrap().starts_with("/lib/firmware/brcm/BCM43"));
}

#[test]
fn bcm_build_patchram_path_tiny_buffer() {
    let mut buf = [0u8; 5];
    assert_eq!(HciUartTransport::bcm_build_patchram_path(b"X.hcd", &mut buf), 5);
    assert_eq!(&buf, b"/lib/");
}

#[test]
fn test_bcm_parse_hcd_empty_marker() {
    let hcd: [u8; 4] = [0x00, 0x00, 0x00, 0x00];
    let mut count = 0;
    let result = bcm_parse_hcd_records(&hcd, |_opcode, _data| {
        count += 1;
        true
    });
    assert!(result, "Empty .hcd (just end marker) should succeed");
    assert_eq!(count, 0, "No records should be parsed");
}

#[test]
fn test_bcm_parse_hcd_one_record() {
    let mut hcd = Vec::new();
    hcd.extend_from_slice(&0xFC01u16.to_le_bytes());
    hcd.extend_from_slice(&3u16.to_le_bytes());
    hcd.extend_from_slice(&[0x01, 0x02, 0x03]);
    hcd.extend_from_slice(&[0x00u8, 0x00, 0x00, 0x00]);
    let mut records: Vec<(u16, Vec<u8>)> = Vec::new();
    let result = bcm_parse_hcd_records(&hcd, |opcode, data| {
        records.push((opcode, data.to_vec()));
        true
    });
    assert!(result);
    assert_eq!(records.len(), 1);
    assert_eq!(records[0].0, 0xFC01);
    assert_eq!(records[0].1, &[0x01, 0x02, 0x03]);
}

#[test]
fn test_bcm_parse_hcd_multiple_records() {
    let mut hcd = Vec::new();
    hcd.extend_from_slice(&0xFC01u16.to_le_bytes());
    hcd.extend_from_slice(&2u16.to_le_bytes());
    hcd.extend_from_slice(&[0xAA, 0xBB]);
    hcd.extend_from_slice(&0xFC02u16.to_le_bytes());
    hcd.extend_from_slice(&4u16.to_le_bytes());
    hcd.extend_from_slice(&[0xCC, 0xDD, 0xEE, 0xFF]);
    hcd.extend_from_slice(&0x100Eu16.to_le_bytes());
    hcd.extend_from_slice(&1u16.to_le_bytes());
    hcd.extend_from_slice(&[0x00]);
    hcd.extend_from_slice(&[0x00u8, 0x00, 0x00, 0x00]);
    let mut records: Vec<(u16, Vec<u8>)> = Vec::new();
    let result = bcm_parse_hcd_records(&hcd, |opcode, data| {
        records.push((opcode, data.to_vec()));
        true
    });
    assert!(result);
    assert_eq!(records.len(), 3);
    assert_eq!(records[0], (0xFC01, vec![0xAA, 0xBB]));
    assert_eq!(records[1], (0xFC02, vec![0xCC, 0xDD, 0xEE, 0xFF]));
    assert_eq!(records[2], (0x100E, vec![0x00]));
}

#[test]
fn test_bcm_parse_hcd_abort_on_callback_false() {
    let mut hcd = Vec::new();
    hcd.extend_from_slice(&0xFC01u16.to_le_bytes());
    hcd.extend_from_slice(&1u16.to_le_bytes());
    hcd.extend_from_slice(&[0x01]);
    hcd.extend_from_slice(&0xFC02u16.to_le_bytes());
    hcd.extend_from_slice(&1u16.to_le_bytes());
    hcd.extend_from_slice(&[0x02]);
    hcd.extend_from_slice(&[0x00u8, 0x00, 0x00, 0x00]);
    let mut count = 0;
    let result = bcm_parse_hcd_records(&hcd, |_opcode, _data| {
        count += 1;
        false
    });
    assert!(!result, "Should return false when callback returns false");
    assert_eq!(count, 1, "Should have processed only 1 record");
}

#[test]
fn test_transport_reset() {
    let mut t = HciUartTransport::new_h4(b"/dev/ttyS0", 115200, UartFlowControl::RtsCts);
    t.ready = true;
    t.state = hci::HciState::Up;
    t.reset();
    assert_eq!(t.state, hci::HciState::Reset);
    assert!(!t.ready);
}

#[test]
fn transport_reset_clears_h5() {
    let mut t = HciUartTransport::new_h5(b"/dev/ttyS0", 115200);
    let no_wait = |_us: u32| {};
    t.open_uart();
    assert!(t.h5_establish_link(&no_wait));
    assert_eq!(t.h5.as_ref().unwrap().link_state, H5LinkState::Active);
    t.reset();
    assert_eq!(t.uart_fd, -1);
    assert_eq!(t.h5.as_ref().unwrap().link_state, H5LinkState::Uninitialized);
}

#[test]
fn h4_sco_and_iso_frames_complete() {
    let mut state = H4RxState::WaitType;
    let mut accum = [0u8; 256];
    let mut accum_len: usize = 0;
    let sco = [0x03u8, 0x01, 0x00, 0x02, 0xAA, 0xBB];
    for (i, b) in sco.iter().enumerate() {
        let r = H4Protocol::parse_stream(&mut state, &mut accum, &mut accum_len, *b);
        if i < 5 {
            assert_eq!(r, None);
        } else {
            assert_eq!(r, Some((0x03, 1, 5)));
        }
    }
    assert_eq!(state, H4RxState::WaitType);
    assert_eq!(accum_len, 0);
    let iso = [0x05u8, 0x01, 0x00, 0x01, 0xC0, 0x7E];
    let mut last = None;
    for b in iso.iter() {
        last = H4Protocol::parse_stream(&mut state, &mut accum, &mut accum_len, *b);
    }
    assert_eq!(last, Some((0x05, 1, 5)));
}

#[test]
fn slip_invalid_escape_abandons_frame() {
    let mut state = SlipDecodeState::WaitDelimiter;
    let mut accum = [0u8; 16];
    let mut accum_len: usize = 0;
    assert_eq!(slip_decode(&mut state, &mut accum, &mut accum_len, SLIP_DELIMITER), None);
    assert_eq!(slip_decode(&mut state, &mut accum, &mut accum_len, 0x11), None);
    assert_eq!(slip_decode(&mut state, &mut accum, &mut accum_len, SLIP_ESC), None);
    assert_eq!(slip_decode(&mut state, &mut accum, &mut accum_len, 0x42), None);
    assert_eq!(state, SlipDecodeState::WaitDelimiter);
    assert_eq!(accum_len, 0);
}

#[test]
fn record_walks_stop_at_the_first_refusal() {
    let data = [0x01u8, 0xFC, 0x01, 0x00, 0x01, 0x02, 0xFC, 0x01, 0x00, 0x02, 0x00, 0x00, 0x00, 0x00];
    let mut seen: Vec<(u16, Vec<u8>)> = Vec::new();
    let r = minix_bt::uart_transport::bcm_walk_hcd_records(&data, |op: u16, d: &[u8]| {
        seen.push((op, d.to_vec()));
        false
    });
    assert_eq!(r, (false, 1));
    assert_eq!(seen, vec![(0xFC01, vec![0x01])]);
    let r = minix_bt::uart_transport::bcm_walk_hcd_records(&[0x00, 0x00, 0x00, 0x00], |_op: u16, _d: &[u8]| false);
    assert_eq!(r, (true, 0));

    let mut fw = Vec::new();
    fw.extend_from_slice(&[0x01, 0x04, 0x00, 0x10, 0x20, 0x30, 0x40]);
    fw.extend_from_slice(&[0x02, 0x02, 0x00, 0xDE, 0xAD]);
    fw.extend_from_slice(&[0x03, 0x05, 0x00, 1, 2, 3, 4, 5]);
    fw.extend_from_slice(&[0xFF, 0x00, 0x00]);
    let mut types = Vec::new();
    let r = minix_bt::uart_transport::qca_walk_tlv_records(&fw, |t: u8, _l: u16, _d: &[u8]| {
        types.push(t);
        true
    });
    assert_eq!(r, (true, 3));
    assert_eq!(types, vec![1, 2, 3]);
    let mut calls = 0;
    let r = minix_bt::uart_transport::qca_walk_tlv_records(&fw, |t: u8, _l: u16, _d: &[u8]| {
        calls += 1;
        t != 2
    });
    assert_eq!(r, (false, 2));
    assert_eq!(calls, 2);
}

#[test]
fn h5_frame_reaches_a_fresh_session() {
    let mut a = H5Session::new();
    let mut sb = [0u8; 64];
    let payload = [0x03u8, 0x0C, 0x00, 0xC0, 0xDB];
    let n = a.build_data_frame(H4_CMD, &payload, &mut sb).unwrap();
    let mut state = SlipDecodeState::WaitDelimiter;
    let mut inner = [0u8; 64];
    let mut inner_len: usize = 0;
    let mut got = None;
    for i in 0..n {
        got = slip_decode(&mut state, &mut inner, &mut inner_len, sb[i]);
    }
    let len = got.unwrap();
    let mut b = H5Session::new();
    let mut ty = 0u8;
    let mut out = [0u8; 16];
    assert_eq!(b.process_incoming(&inner[..len], &mut ty, &mut out), Some(payload.len()));
    assert_eq!(ty, H4_CMD);
    assert_eq!(&out[..payload.len()], &payload);
    assert_eq!(b.c2h.expected_seq, 1);
}
