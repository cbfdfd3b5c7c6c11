use minix_bt::hci::{
    build_hci_acl, build_hci_cmd, build_hci_sco, check_cmd_success, hci_ocf, hci_ogf, hci_opcode,
    parse_acl_header, parse_cmd_complete, parse_event_header, BdAddr, HciEventCode,
    HciPacketType, HciState, HciStatus, Ogf,
};

#[test]
fn hci_opcode_build() {
    assert_eq!(hci_opcode(Ogf::Informational.to_byte(), 0x0001), 0x1001);
    assert_eq!(hci_ogf(0x1001), 0x04);
    assert_eq!(hci_ocf(0x1001), 0x0001);
}

#[test]
fn build_cmd_packet() {
    let mut buf = [0u8; 32];
    let params = [0x01, 0x02, 0x03];
    let len = build_hci_cmd(&mut buf, 0x1001, &params);
    assert_eq!(len, 7);
    assert_eq!(buf[0], 0x01);
    assert_eq!(buf[1], 0x01);
    assert_eq!(buf[2], 0x10);
    assert_eq!(buf[3], 0x03);
    assert_eq!(buf[4], 0x01);
    assert_eq!(buf[5], 0x02);
    assert_eq!(buf[6], 0x03);
}

#[test]
fn build_acl_packet() {
    let mut buf = [0u8; 32];
    let data = [0xAA; 10];
    let len = build_hci_acl(&mut buf, 0x0042, 0x02, 0x00, &data);
    assert_eq!(len, 15);
    assert_eq!(buf[0], 0x02);
    assert_eq!(buf[1], 0x42);
    assert_eq!(buf[2], 0x20);
    assert_eq!(buf[3], 0x0A);
    assert_eq!(buf[4], 0x00);
    assert_eq!(&buf[5..15], &[0xAA; 10]);
}

#[test]
fn parse_cmd_complete_success() {
    let mut evt = [0u8; 10];
    evt[0] = HciPacketType::HciEvent.to_byte();
    evt[1] = HciEventCode::CommandComplete.to_byte();
    evt[2] = 0x06;
    evt[3] = 0x01;
    evt[4] = 0x01;
    evt[5] = 0x10;
    evt[6] = 0x00;
    evt[7] = 0xAB;
    evt[8] = 0xCD;

    let result = parse_cmd_complete(&evt);
    assert!(result.is_some());
    let (opcode, status, off) = result.unwrap();
    assert_eq!(opcode, 0x1001);
    assert_eq!(status, 0x00);
    assert_eq!(off, 7);
    assert!(check_cmd_success(&evt, 0x1001));
}

#[test]
fn parse_cmd_complete_failure() {
    let mut evt = [0u8; 10];
    evt[0] = HciPacketType::HciEvent.to_byte();
    evt[1] = HciEventCode::CommandComplete.to_byte();
    evt[2] = 0x06;
    evt[3] = 0x01;
    evt[4] = 0x01;
    evt[5] = 0x10;
    evt[6] = 0x0C;

    assert!(!check_cmd_success(&evt, 0x1001));
}

#[test]
fn bd_addr_format() {
    let addr = BdAddr([0xAA, 0xBB, 0xCC, 0xDD, 0xEE, 0xFF]);
    let mut buf = [0u8; 18];
    let len = addr.format(&mut buf);
    assert_eq!(len, 17);
    assert_eq!(&buf[..17], b"FF:EE:DD:CC:BB:AA");
}

#[test]
fn event_code_from_byte() {
    assert_eq!(HciEventCode::from_byte(0x0E), Some(HciEventCode::CommandComplete));
    assert_eq!(HciEventCode::from_byte(0x3E), Some(HciEventCode::LeMeta));
    assert_eq!(HciEventCode::from_byte(0xFF), None);
}

#[test]
fn test_parse_event_header() {
    let mut buf = [0u8; 5];
    buf[0] = HciPacketType::HciEvent.to_byte();
    buf[1] = 0x0E;
    buf[2] = 0x03;
    let (code, plen) = parse_event_header(&buf).unwrap();
    assert_eq!(code, 0x0E);
    assert_eq!(plen, 3);
}

#[test]
fn test_hci_state_transitions() {
    assert_eq!(HciState::Reset.to_byte(), 0);
    assert_eq!(HciState::Configuring.to_byte(), 1);
    assert_eq!(HciState::Up.to_byte(), 2);
    assert_eq!(HciState::Down.to_byte(), 3);
    assert_eq!(HciState::Error.to_byte(), 4);
}

// ---------------------------------------------------------------------------
// Further cases
// ---------------------------------------------------------------------------

#[test]
fn cmd_too_small_buffer_writes_nothing() {
    let mut buf = [0x55u8; 3];
    assert_eq!(build_hci_cmd(&mut buf, 0x0C03, &[]), 0);
    assert_eq!(buf, [0x55; 3]);
    let mut buf2 = [0u8; 8];
    // parameters are cut to what fits, the length byte keeps the full count
    assert_eq!(build_hci_cmd(&mut buf2, 0x0C03, &[1, 2, 3, 4, 5, 6]), 8);
    assert_eq!(buf2, [0x01, 0x03, 0x0C, 0x06, 1, 2, 3, 4]);
}

#[test]
fn acl_header_roundtrip() {
    let mut buf = [0u8; 16];
    let n = build_hci_acl(&mut buf, 0x0ABC, 0x01, 0x02, &[9, 8, 7]);
    assert_eq!(n, 8);
    let (handle, pb, bc, len) = parse_acl_header(&buf).unwrap();
    assert_eq!(handle, 0x0ABC);
    assert_eq!(pb, 0x01);
    assert_eq!(bc, 0x02);
    assert_eq!(len, 3);
    assert!(parse_acl_header(&buf[..4]).is_none());
}

#[test]
fn sco_packet_layout() {
    let mut buf = [0u8; 8];
    let n = build_hci_sco(&mut buf, 0x0123, &[0x11, 0x22]);
    assert_eq!(n, 6);
    assert_eq!(&buf[..6], &[0x03, 0x23, 0x01, 0x02, 0x11, 0x22]);
}

#[test]
fn status_unknown_is_unspecified() {
    assert_eq!(HciStatus::from_byte(0x00), HciStatus::Success);
    assert_eq!(HciStatus::from_byte(0xFE), HciStatus::UnspecifiedError);
    assert!(parse_cmd_complete(&[0x04, 0x0F, 0x04]).is_none());
    assert!(parse_event_header(&[0x02, 0x0E, 0x01]).is_none());
}

#[test]
fn bd_addr_empty() {
    assert!(BdAddr([0; 6]).is_empty());
    assert!(!BdAddr([0, 0, 0, 0, 0, 1]).is_empty());
}
