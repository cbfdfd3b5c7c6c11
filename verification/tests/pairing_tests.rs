use minix_bt::bt_daemon::{ConnDirection, ConnState, ConnectionManager};
use minix_bt::pairing::{
    connectable_scan_mode, discoverable_scan_mode, forget_bond, handle_authentication_complete,
    handle_link_key_notification, init_scan_mode, is_paired, link_key_authenticated,
};
use minix_bt::types::{BdAddr, ClassOfDevice};

#[test]
fn link_key_types() {
    assert!(link_key_authenticated(0x00));
    assert!(link_key_authenticated(0x02));
    assert!(!link_key_authenticated(0x03));
    assert!(!link_key_authenticated(0x04));
    assert!(link_key_authenticated(0x05));
    assert!(!link_key_authenticated(0x06));
}

#[test]
fn pair_and_unpair_cycle_bookkeeping() {
    let mut mgr = ConnectionManager::new();
    let addr = BdAddr::parse("AA:BB:CC:DD:EE:FF").unwrap();
    mgr.record_inquiry_result(addr, ClassOfDevice::new([0; 3]), 0, 0, 0, 100);
    assert!(!is_paired(&mgr, &addr));
    handle_link_key_notification(&mut mgr, &addr, &[0x01u8; 16], 0x00);
    assert!(is_paired(&mgr, &addr));
    let dev = mgr.find_device(&addr).unwrap();
    assert!(dev.bond.authenticated);
    assert!(dev.bond.encrypted);
    assert_eq!(forget_bond(&mut mgr, &addr), None);
    assert!(!is_paired(&mgr, &addr));
}

#[test]
fn link_key_marks_connection() {
    let mut mgr = ConnectionManager::new();
    let addr = BdAddr::parse("11:22:33:44:55:66").unwrap();
    mgr.add_connection(0x0042, addr, ConnDirection::Outgoing, 1);
    handle_link_key_notification(&mut mgr, &addr, &[0u8; 16], 0x04);
    let conn = mgr.find_connection_by_handle(0x0042).unwrap();
    assert!(conn.encrypted);
    assert!(!conn.authenticated);
    // unknown device: no bond recorded
    assert!(!is_paired(&mgr, &addr));
    assert_eq!(forget_bond(&mut mgr, &addr), Some(0x0042));
    assert_eq!(mgr.find_connection_by_handle(0x0042).unwrap().state, ConnState::Disconnecting);
}

#[test]
fn authentication_complete_status() {
    let mut mgr = ConnectionManager::new();
    let addr = BdAddr::parse("11:22:33:44:55:66").unwrap();
    mgr.add_connection(7, addr, ConnDirection::Incoming, 1);
    handle_authentication_complete(&mut mgr, 7, 0x05);
    assert!(!mgr.find_connection_by_handle(7).unwrap().authenticated);
    handle_authentication_complete(&mut mgr, 7, 0x00);
    assert!(mgr.find_connection_by_handle(7).unwrap().authenticated);
    handle_authentication_complete(&mut mgr, 8, 0x00);
}

#[test]
fn scan_modes() {
    assert_eq!(init_scan_mode(true, true), 3);
    assert_eq!(init_scan_mode(true, false), 0);
    assert_eq!(init_scan_mode(false, true), 2);
    assert_eq!(discoverable_scan_mode(true, true), 3);
    assert_eq!(discoverable_scan_mode(true, false), 2);
    assert_eq!(discoverable_scan_mode(false, true), 2);
    assert_eq!(discoverable_scan_mode(false, false), 0);
    assert_eq!(connectable_scan_mode(true, true), 3);
    assert_eq!(connectable_scan_mode(true, false), 2);
    assert_eq!(connectable_scan_mode(false, true), 0);
}
