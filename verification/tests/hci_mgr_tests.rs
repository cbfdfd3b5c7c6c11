use minix_bt::hci_mgr::{
    command_packet, create_connection_params, default_io_capabilities_params,
    delete_stored_link_key_params, disconnect_params, inquiry_params, io_capability_reply_params,
    le_adv_params, le_create_connection_params, le_start_encryption_params, local_name_param,
    pending_after_event, pin_code_reply_params, read_stored_link_key_params, split_acl,
    split_event, split_sco, write_stored_link_key_params, HciDevInfo, HciDevState,
};
use minix_bt::types::BdAddr;

#[test]
fn dev_info_starts_empty() {
    let info = HciDevInfo::new();
    assert_eq!(info.bdaddr, BdAddr([0; 6]));
    assert_eq!(info.acl_mtu, 0);
    assert_eq!(info.name, [0u8; 248]);
    assert_ne!(HciDevState::Down, HciDevState::Up);
}

#[test]
fn command_packets() {
    assert_eq!(command_packet(0x03, 0x0003, &[]), vec![0x01, 0x03, 0x0C, 0x00]);
    assert_eq!(command_packet(0x03, 0x001A, &[0x03]), vec![0x01, 0x1A, 0x0C, 0x01, 0x03]);
    assert_eq!(command_packet(0x08, 0x000D, &[1, 2]), vec![0x01, 0x0D, 0x20, 0x02, 1, 2]);
}

#[test]
fn connection_parameters() {
    let a = BdAddr([1, 2, 3, 4, 5, 6]);
    assert_eq!(create_connection_params(&a, 0xCC18), vec![1, 2, 3, 4, 5, 6, 0x18, 0xCC, 0, 0, 0, 0, 0]);
    assert_eq!(disconnect_params(0x0042, 0x13), vec![0x42, 0x00, 0x13]);
    assert_eq!(inquiry_params([0x33, 0x8B, 0x9E], 10, 0), vec![0x33, 0x8B, 0x9E, 10, 0]);
    let le = le_create_connection_params(&a, 1);
    assert_eq!(le.len(), 24);
    assert_eq!(&le[..13], &[0, 0, 0, 0, 0, 1, 1, 2, 3, 4, 5, 6, 1]);
    assert_eq!(le_adv_params(0x0020, 0x0040), vec![0x20, 0, 0x40, 0, 0, 0, 0, 0, 0, 0, 0, 0, 0, 0, 7]);
}

#[test]
fn security_parameters() {
    let a = BdAddr([1, 2, 3, 4, 5, 6]);
    assert_eq!(io_capability_reply_params(&a, 5, true, 0x0F), vec![1, 2, 3, 4, 5, 6, 1, 1, 7]);
    assert_eq!(default_io_capabilities_params(1, false, 0x01), [1, 0, 1]);
    let pin = pin_code_reply_params(&a, b"1234");
    assert_eq!(pin.len(), 23);
    assert_eq!(&pin[6..11], &[4, b'1', b'2', b'3', b'4']);
    assert_eq!(pin[22], 0);
    let long = pin_code_reply_params(&a, &[9u8; 20]);
    assert_eq!(long[6], 16);
    assert_eq!(long[22], 9);
    assert_eq!(delete_stored_link_key_params(&a, true), vec![1, 2, 3, 4, 5, 6, 1]);
    assert_eq!(read_stored_link_key_params(&a), vec![1, 2, 3, 4, 5, 6, 0]);
    let w = write_stored_link_key_params(&a, &[0xAA; 16], 0x15);
    assert_eq!(w.len(), 24);
    assert_eq!(&w[..8], &[1, 1, 2, 3, 4, 5, 6, 5]);
    let e = le_start_encryption_params(0x0042, &[0xAB; 8], 0x0001, &[0xCD; 16]);
    assert_eq!(e.len(), 28);
    assert_eq!(&e[..3], &[0x42, 0, 0xAB]);
    assert_eq!(&e[10..13], &[1, 0, 0xCD]);
}

#[test]
fn local_name_is_padded() {
    let n = local_name_param(b"GergiOS");
    assert_eq!(&n[..8], b"GergiOS\0");
    assert_eq!(n[247], 0);
    let long = local_name_param(&[b'x'; 300]);
    assert_eq!(long[246], b'x');
    assert_eq!(long[247], 0);
}

#[test]
fn incoming_payloads() {
    assert_eq!(split_event(&[0x0E, 2, 0xAA, 0xBB, 0xCC]), Some((0x0E, vec![0xAA, 0xBB])));
    assert_eq!(split_event(&[0x0E, 3, 0xAA]), None);
    assert_eq!(pending_after_event(2, 0x0E), 1);
    assert_eq!(pending_after_event(0, 0x0F), 0);
    assert_eq!(pending_after_event(2, 0x05), 2);
    assert_eq!(split_acl(&[0x42, 0x20, 2, 0, 7, 8]), Some((0x042, 2, 0, vec![7, 8])));
    assert_eq!(split_acl(&[0x42, 0x20, 3, 0, 7, 8]), None);
    assert_eq!(split_sco(&[0x15, 0x32, 1, 9]), Some((0x0205, vec![9])));
    assert_eq!(split_sco(&[0x15, 0x32, 2, 9]), None);
}
