use minix_bt::minix_ipc::{
    decode_request, reply_count, reply_outcome, reply_status, DaemonRequest, EINVAL, OK,
    is_bt_cmd, is_fault_injection, is_notify, is_sef_init, is_shutdown, is_signal,
    msg_read_bdaddr_high, msg_read_bdaddr_low, msg_read_handle, msg_read_name,
    msg_write_bdaddr, msg_write_handle, msg_write_name, Message, BT_RQ_BASE,
    COMMON_REQ_FI_CTL, NOTIFY_MESSAGE, RS_INIT, RS_PROC_NR, SIGALRM, SIGHUP, SIGS_SIGNAL_RECEIVED,
    SIGTERM,
};

#[test]
fn test_is_bt_cmd() {
    let mut msg = Message::new();
    msg.set_type(BT_RQ_BASE + 0);
    assert!(is_bt_cmd(&msg));

    msg.set_type(BT_RQ_BASE + 12);
    assert!(is_bt_cmd(&msg));

    msg.set_type(BT_RQ_BASE - 1);
    assert!(!is_bt_cmd(&msg));

    msg.set_type(0x1C00);
    assert!(!is_bt_cmd(&msg));
}

#[test]
fn test_is_sef_init() {
    let mut msg = Message::new();
    msg.set_type(RS_INIT);
    msg.m_source = RS_PROC_NR;
    assert!(is_sef_init(&msg));

    msg.m_source = 42;
    assert!(!is_sef_init(&msg));
}

#[test]
fn test_is_signal() {
    let mut msg = Message::new();
    msg.set_type(SIGS_SIGNAL_RECEIVED);
    assert!(is_signal(&msg, 0));
}

#[test]
fn test_msg_write_read_bdaddr() {
    let mut msg = Message::new();
    msg_write_bdaddr(&mut msg, 0xAABBCCDD, 0xEEFF);

    assert_eq!(msg_read_bdaddr_low(&msg), 0xAABBCCDD);
    assert_eq!(msg_read_bdaddr_high(&msg), 0xEEFF);
}

#[test]
fn test_msg_write_read_handle() {
    let mut msg = Message::new();
    msg_write_handle(&mut msg, 0x0042);
    assert_eq!(msg_read_handle(&msg), 0x0042);
}

#[test]
fn test_msg_write_read_name() {
    let mut msg = Message::new();
    msg_write_name(&mut msg, b"TestDevice");
    assert_eq!(msg_read_name(&msg), b"TestDevice");
}

#[test]
fn test_msg_name_truncation() {
    let mut msg = Message::new();
    let long_name = [b'A'; 100];
    msg_write_name(&mut msg, &long_name);
    let readback = msg_read_name(&msg);
    assert!(readback.len() <= 23);
    assert_eq!(readback.len(), 23);
    assert_eq!(readback, &[b'A'; 23]);
}

#[test]
fn ipc_bt_cmd_range_ends() {
    let mut msg = Message::new();
    msg.set_type(BT_RQ_BASE + 15);
    assert!(is_bt_cmd(&msg));
    msg.set_type(BT_RQ_BASE + 16);
    assert!(!is_bt_cmd(&msg));
    msg.set_type(BT_RQ_BASE + 0x40);
    assert!(!is_bt_cmd(&msg));
    msg.set_type(-BT_RQ_BASE);
    assert!(!is_bt_cmd(&msg));
}

#[test]
fn ipc_message_kinds() {
    let mut msg = Message::new();
    msg.set_type(COMMON_REQ_FI_CTL);
    assert!(is_fault_injection(&msg));
    assert!(!is_notify(&msg));
    msg.set_type(NOTIFY_MESSAGE);
    assert!(is_notify(&msg));
    assert!(!is_signal(&msg, 0));
    assert!(is_shutdown(&msg, SIGTERM));
    assert!(is_shutdown(&msg, SIGHUP));
    assert!(!is_shutdown(&msg, SIGALRM));
}

#[test]
fn ipc_word_layout_is_little_endian() {
    let mut msg = Message::new();
    msg.write_i32(8, -2);
    assert_eq!(msg.payload[8..12], [0xFE, 0xFF, 0xFF, 0xFF]);
    assert_eq!(msg.read_i32(8), -2);
    assert_eq!(msg_read_bdaddr_low(&msg), 0xFFFF_FFFE);
}

#[test]
fn ipc_handle_and_address_share_a_word() {
    let mut msg = Message::new();
    msg_write_handle(&mut msg, 0xBEEF);
    msg_write_bdaddr(&mut msg, 0x11223344, 0x5566);
    // storing the address clears the handle half of its word
    assert_eq!(msg_read_handle(&msg), 0);
    msg_write_handle(&mut msg, 0x0102);
    assert_eq!(msg_read_handle(&msg), 0x0102);
    assert_eq!(msg_read_bdaddr_high(&msg), 0x5566);
    assert_eq!(msg_read_bdaddr_low(&msg), 0x11223344);
    assert_eq!(msg.payload[16..20], [0x66, 0x55, 0x02, 0x01]);
}

#[test]
fn ipc_name_stops_at_zero_byte() {
    let mut msg = Message::new();
    msg_write_name(&mut msg, b"ab\0cd");
    assert_eq!(msg_read_name(&msg), b"ab");
    let empty = Message::new();
    assert_eq!(msg_read_name(&empty), b"");
    let mut full = Message::new();
    for i in 32..56 {
        full.payload[i] = b'x';
    }
    assert_eq!(msg_read_name(&full).len(), 24);
}

fn request(cmd: i32) -> Message {
    let mut msg = Message::new();
    msg.set_type(BT_RQ_BASE + cmd);
    msg
}

#[test]
fn decode_simple_requests() {
    assert!(matches!(decode_request(&request(0)), DaemonRequest::StartDiscovery));
    assert!(matches!(decode_request(&request(1)), DaemonRequest::StopDiscovery));
    assert!(matches!(decode_request(&request(2)), DaemonRequest::GetDevices));
    assert!(matches!(decode_request(&request(5)), DaemonRequest::GetConnections));
    assert!(matches!(decode_request(&request(9)), DaemonRequest::GetStatus));
    assert!(matches!(decode_request(&request(13)), DaemonRequest::Invalid));
    assert!(matches!(decode_request(&request(15)), DaemonRequest::Invalid));
}

#[test]
fn decode_connect_and_disconnect() {
    let mut msg = request(3);
    msg_write_bdaddr(&mut msg, 0x44332211, 0x6655);
    match decode_request(&msg) {
        DaemonRequest::Connect(a) => assert_eq!(a.0, [0x11, 0x22, 0x33, 0x44, 0x55, 0x66]),
        _ => panic!("expected a connect request"),
    }
    let mut msg = request(4);
    msg_write_handle(&mut msg, 0x0042);
    msg.write_i32(24, 0x113);
    match decode_request(&msg) {
        DaemonRequest::Disconnect { handle, reason } => {
            assert_eq!(handle, 0x0042);
            assert_eq!(reason, 0x13);
        }
        _ => panic!("expected a disconnect request"),
    }
}

#[test]
fn decode_pair_rejects_null_address() {
    let msg = request(10);
    assert!(matches!(decode_request(&msg), DaemonRequest::Invalid));
    let msg = request(11);
    assert!(matches!(decode_request(&msg), DaemonRequest::Invalid));
    let mut msg = request(10);
    msg_write_bdaddr(&mut msg, 1, 0);
    match decode_request(&msg) {
        DaemonRequest::Pair(a) => assert_eq!(a.0, [1, 0, 0, 0, 0, 0]),
        _ => panic!("expected a pair request"),
    }
    let mut msg = request(11);
    msg_write_bdaddr(&mut msg, 0, 0x0100);
    match decode_request(&msg) {
        DaemonRequest::Unpair(a) => assert_eq!(a.0, [0, 0, 0, 0, 0, 1]),
        _ => panic!("expected an unpair request"),
    }
}

#[test]
fn decode_set_name_and_flags() {
    let mut msg = request(6);
    msg_write_name(&mut msg, b"Desk");
    match decode_request(&msg) {
        DaemonRequest::SetName(Some(n)) => assert_eq!(n, b"Desk".to_vec()),
        _ => panic!("expected a name"),
    }
    assert!(matches!(decode_request(&request(6)), DaemonRequest::SetName(None)));
    let mut msg = request(6);
    msg_write_name(&mut msg, &[0xFF, 0xFE]);
    assert!(matches!(decode_request(&msg), DaemonRequest::SetName(None)));

    let mut msg = request(7);
    msg.write_i32(8, 1);
    assert!(matches!(decode_request(&msg), DaemonRequest::SetDiscoverable(true)));
    let msg = request(8);
    assert!(matches!(decode_request(&msg), DaemonRequest::SetConnectable(false)));
}

#[test]
fn decode_register_service() {
    let mut msg = request(12);
    msg.write_i32(0, 0x0003);
    msg.write_i32(8, 5);
    msg.write_i32(16, 0x1101);
    msg_write_name(&mut msg, b"Serial");
    match decode_request(&msg) {
        DaemonRequest::RegisterService { psm, channel, uuid16, name } => {
            assert_eq!(psm, 3);
            assert_eq!(channel, 5);
            assert_eq!(uuid16, 0x1101);
            assert_eq!(name, Some(b"Serial".to_vec()));
        }
        _ => panic!("expected a register request"),
    }
}

#[test]
fn replies_fill_the_message() {
    let mut msg = request(0);
    assert_eq!(reply_outcome(&mut msg, true), OK);
    assert_eq!(msg.m_type, OK);
    assert_eq!(reply_outcome(&mut msg, false), -EINVAL);
    assert_eq!(msg.m_type, -EINVAL);

    let mut msg = request(2);
    assert_eq!(reply_count(&mut msg, 3), OK);
    assert_eq!(msg.read_i32(0), 3);
    assert_eq!(msg.m_type, OK);
    reply_count(&mut msg, 100_000);
    assert_eq!(msg.read_i32(0), 65535);

    let mut msg = request(9);
    reply_status(&mut msg, true, 4, 2, false);
    assert_eq!(msg.read_i32(0), 1);
    assert_eq!(msg.read_i32(8), 4);
    assert_eq!(msg.read_i32(16), 2);
    assert_eq!(msg.read_i32(24), 0);
    assert_eq!(msg.m_type, OK);
}
