use minix_bt::bt_daemon::{
    BondFlags, BtDaemonCmd, ConnDirection, ConnState, ConnectionManager, DaemonConfig,
    DeviceType, ProtocolMultiplexer, RemoteDevice, MAX_DEVICES,
};
use minix_bt::l2cap::{build_l2cap_b_frame, build_sig_command, L2CapConnReq, L2CapSigCode, L2CapChannelState};
use minix_bt::types::{BdAddr, ClassOfDevice, ConnHandle, L2CapCid, L2CapPsm};

type Handler = fn(u16, u16, &[u8]) -> Option<Vec<u8>>;

fn echo_handler(handle: u16, cid: u16, data: &[u8]) -> Option<Vec<u8>> {
    let mut v = vec![(handle & 0xFF) as u8, (cid & 0xFF) as u8];
    v.extend_from_slice(data);
    Some(v)
}

fn silent_handler(_handle: u16, _cid: u16, _data: &[u8]) -> Option<Vec<u8>> {
    None
}

// ── RemoteDevice ──

#[test]
fn test_remote_device_new() {
    let addr = BdAddr::parse("AA:BB:CC:DD:EE:FF").unwrap();
    let dev = RemoteDevice::new(addr);
    assert_eq!(dev.bdaddr, addr);
    assert!(!dev.bond.bonded);
    assert_eq!(dev.rssi, 127);
}

#[test]
fn test_remote_device_set_name() {
    let addr = BdAddr::parse("11:22:33:44:55:66").unwrap();
    let mut dev = RemoteDevice::new(addr);
    dev.set_name(b"Test Device");
    assert_eq!(dev.name_str(), "Test Device");
}

#[test]
fn remote_device_name_truncated_and_invalid_utf8() {
    let addr = BdAddr::parse("11:22:33:44:55:66").unwrap();
    let mut dev = RemoteDevice::new(addr);
    dev.set_name(&[b'a'; 300]);
    assert_eq!(dev.name_len, 247);
    assert_eq!(dev.name_str().len(), 247);
    dev.set_name(&[0xFF, 0xFE]);
    assert_eq!(dev.name_str(), "(invalid utf8)");
}

// ── ConnectionManager ──

#[test]
fn test_connection_manager_new() {
    let mgr = ConnectionManager::new();
    assert!(mgr.all_devices().is_empty());
    assert!(!mgr.has_connections());
    assert!(mgr.is_connectable());
    assert!(!mgr.is_discoverable());
}

#[test]
fn test_connection_manager_device_tracking() {
    let mut mgr = ConnectionManager::new();
    let addr = BdAddr::parse("AA:BB:CC:DD:EE:FF").unwrap();

    mgr.record_inquiry_result(addr, ClassOfDevice::new([0x04, 0x02, 0x00]), -60, 0, 0, 100);

    let devices = mgr.found_devices();
    assert_eq!(devices.len(), 1);
    assert_eq!(devices[0].bdaddr, addr);
    assert_eq!(devices[0].rssi, -60);
}

#[test]
fn test_connection_manager_duplicate_device() {
    let mut mgr = ConnectionManager::new();
    let addr = BdAddr::parse("AA:BB:CC:DD:EE:FF").unwrap();

    mgr.record_inquiry_result(addr, ClassOfDevice::new([0; 3]), -50, 0, 0, 100);
    mgr.record_inquiry_result(addr, ClassOfDevice::new([0; 3]), -40, 0, 0, 200);

    let devices = mgr.all_devices();
    assert_eq!(devices.len(), 1);
    assert_eq!(devices[0].rssi, -40);
}

#[test]
fn inquiry_ignores_unknown_rssi() {
    let mut mgr = ConnectionManager::new();
    let addr = BdAddr::parse("AA:BB:CC:DD:EE:FF").unwrap();
    mgr.record_inquiry_result(addr, ClassOfDevice::new([0; 3]), -50, 0, 0, 100);
    mgr.record_inquiry_result(addr, ClassOfDevice::new([1, 2, 3]), 127, 0, 0, 300);
    let dev = mgr.find_device(&addr).unwrap();
    assert_eq!(dev.rssi, -50);
    assert_eq!(dev.last_seen, 300);
    assert_eq!(dev.class.bytes, [1, 2, 3]);
    mgr.record_inquiry_result(addr, ClassOfDevice::new([0; 3]), -128, 0, 0, 400);
    assert_eq!(mgr.find_device(&addr).unwrap().rssi, -50);
}

#[test]
fn full_table_evicts_first_unfound_device() {
    let mut mgr = ConnectionManager::new();
    for i in 0..MAX_DEVICES {
        let addr = BdAddr([i as u8, 0, 0, 0, 0, 1]);
        mgr.record_inquiry_result(addr, ClassOfDevice::new([0; 3]), -40, 0, 0, 1);
    }
    assert_eq!(mgr.all_devices().len(), 32);
    mgr.clear_found_flags();
    let keep = BdAddr([0, 0, 0, 0, 0, 1]);
    mgr.record_inquiry_result(keep, ClassOfDevice::new([0; 3]), -40, 0, 0, 2);
    let newcomer = BdAddr([0xEE, 0, 0, 0, 0, 2]);
    mgr.record_inquiry_result(newcomer, ClassOfDevice::new([0; 3]), -40, 0, 0, 3);
    assert_eq!(mgr.all_devices().len(), 32);
    assert_eq!(mgr.all_devices()[1].bdaddr, newcomer);
    assert_eq!(mgr.all_devices()[0].bdaddr, keep);
}

#[test]
fn full_table_all_found_evicts_first() {
    let mut mgr = ConnectionManager::new();
    for i in 0..MAX_DEVICES {
        let addr = BdAddr([i as u8, 0, 0, 0, 0, 1]);
        mgr.record_inquiry_result(addr, ClassOfDevice::new([0; 3]), -40, 0, 0, 1);
    }
    let newcomer = BdAddr([0xEE, 0, 0, 0, 0, 2]);
    mgr.record_inquiry_result(newcomer, ClassOfDevice::new([0; 3]), -40, 0, 0, 3);
    assert_eq!(mgr.all_devices()[0].bdaddr, newcomer);
    assert!(mgr.find_device(&BdAddr([0, 0, 0, 0, 0, 1])).is_none());
}

#[test]
fn test_connection_manager_le_advertising() {
    let mut mgr = ConnectionManager::new();
    let addr = BdAddr::parse("11:22:33:44:55:66").unwrap();

    let mut adv_data = Vec::new();
    adv_data.push(7);
    adv_data.push(0x09);
    adv_data.extend_from_slice(b"BT_DEV");

    mgr.record_le_advertising_report(addr, 0, -70, &adv_data, 100);

    let dev = mgr.find_device(&addr).unwrap();
    assert_eq!(dev.dev_type, DeviceType::Le);
    assert_eq!(dev.name_str(), "BT_DEV");
    assert_eq!(dev.rssi, -70);
}

#[test]
fn le_advertising_last_name_wins_and_bad_length_stops() {
    let mut mgr = ConnectionManager::new();
    let addr = BdAddr::parse("11:22:33:44:55:66").unwrap();
    // flags, short name "AB", complete name "XYZ", then a structure running past the end
    let adv = vec![2, 0x01, 0x06, 3, 0x08, b'A', b'B', 4, 0x09, b'X', b'Y', b'Z', 9, 0x09, b'Q'];
    mgr.record_le_advertising_report(addr, 0, -20, &adv, 5);
    assert_eq!(mgr.find_device(&addr).unwrap().name_str(), "XYZ");
    let other = BdAddr::parse("11:22:33:44:55:67").unwrap();
    mgr.record_le_advertising_report(other, 0, -20, &[0, 0x09, b'N'], 5);
    assert_eq!(mgr.find_device(&other).unwrap().name_len, 0);
}

#[test]
fn test_connection_manager_clear_found() {
    let mut mgr = ConnectionManager::new();
    let addr = BdAddr::parse("AA:BB:CC:DD:EE:FF").unwrap();

    mgr.record_inquiry_result(addr, ClassOfDevice::new([0; 3]), 0, 0, 0, 100);
    assert_eq!(mgr.found_devices().len(), 1);

    mgr.clear_found_flags();
    assert_eq!(mgr.found_devices().len(), 0);

    assert!(mgr.find_device(&addr).is_some());
}

#[test]
fn find_device_mut_updates_entry() {
    let mut mgr = ConnectionManager::new();
    let addr = BdAddr::parse("AA:BB:CC:DD:EE:FF").unwrap();
    assert!(mgr.find_device_mut(&addr).is_none());
    mgr.record_inquiry_result(addr, ClassOfDevice::new([0; 3]), 0, 0, 0, 100);
    mgr.find_device_mut(&addr).unwrap().bond = BondFlags { bonded: true, authenticated: false, encrypted: true };
    assert!(mgr.find_device(&addr).unwrap().bond.bonded);
}

// ── Connections ──

#[test]
fn test_connection_manager_add_connection() {
    let mut mgr = ConnectionManager::new();
    let addr = BdAddr::parse("AA:BB:CC:DD:EE:FF").unwrap();

    let conn = mgr.add_connection(0x0042, addr, ConnDirection::Incoming, 1);
    assert!(conn.is_some());
    assert!(mgr.has_connections());
    assert_eq!(mgr.active_connections().len(), 1);

    let found = mgr.find_connection_by_handle(0x0042).unwrap();
    assert_eq!(found.bdaddr, addr);
    assert_eq!(found.state, ConnState::Connecting);
}

#[test]
fn add_connection_refused_past_sixteen() {
    let mut mgr = ConnectionManager::new();
    let addr = BdAddr::parse("AA:BB:CC:DD:EE:FF").unwrap();
    for h in 0..16u16 {
        assert!(mgr.add_connection(h, addr, ConnDirection::Outgoing, 3).is_some());
    }
    assert!(mgr.add_connection(99, addr, ConnDirection::Outgoing, 1).is_none());
    assert_eq!(mgr.active_connections().len(), 16);
    assert_eq!(mgr.find_connection_by_handle(5).unwrap().link_type, 3);
    assert_eq!(mgr.find_connection_by_bdaddr(&addr).unwrap().handle, 0);
}

#[test]
fn test_connection_manager_mark_connected() {
    let mut mgr = ConnectionManager::new();
    let addr = BdAddr::parse("AA:BB:CC:DD:EE:FF").unwrap();

    mgr.add_connection(0x0042, addr, ConnDirection::Outgoing, 1);
    assert!(mgr.mark_connected(0x0042));

    let conn = mgr.find_connection_by_handle(0x0042).unwrap();
    assert_eq!(conn.state, ConnState::Connected);
}

#[test]
fn mark_unknown_handle_fails() {
    let mut mgr = ConnectionManager::new();
    assert!(!mgr.mark_connected(7));
    assert!(!mgr.mark_disconnecting(7));
    assert!(!mgr.set_encryption(7, true));
    assert!(!mgr.remove_connection(7));
    let addr = BdAddr::parse("AA:BB:CC:DD:EE:FF").unwrap();
    mgr.add_connection(7, addr, ConnDirection::Outgoing, 1);
    assert!(mgr.mark_disconnecting(7));
    assert_eq!(mgr.find_connection_by_bdaddr_mut(&addr).unwrap().state, ConnState::Disconnecting);
}

#[test]
fn test_connection_manager_remove_connection() {
    let mut mgr = ConnectionManager::new();
    let addr = BdAddr::parse("AA:BB:CC:DD:EE:FF").unwrap();

    mgr.add_connection(0x0042, addr, ConnDirection::Outgoing, 1);
    assert!(mgr.remove_connection(0x0042));
    assert!(!mgr.has_connections());
}

#[test]
fn remove_connection_keeps_others_in_order() {
    let mut mgr = ConnectionManager::new();
    let addr = BdAddr::parse("AA:BB:CC:DD:EE:FF").unwrap();
    mgr.add_connection(1, addr, ConnDirection::Outgoing, 1);
    mgr.add_connection(2, addr, ConnDirection::Outgoing, 1);
    mgr.add_connection(1, addr, ConnDirection::Outgoing, 1);
    mgr.add_connection(3, addr, ConnDirection::Outgoing, 1);
    assert!(mgr.remove_connection(1));
    let hs: Vec<u16> = mgr.active_connections().iter().map(|c| c.handle).collect();
    assert_eq!(hs, vec![2, 3]);
}

#[test]
fn test_connection_manager_encryption() {
    let mut mgr = ConnectionManager::new();
    let addr = BdAddr::parse("AA:BB:CC:DD:EE:FF").unwrap();

    mgr.add_connection(0x0042, addr, ConnDirection::Outgoing, 1);
    mgr.mark_connected(0x0042);
    assert!(mgr.set_encryption(0x0042, true));

    let conn = mgr.find_connection_by_handle(0x0042).unwrap();
    assert!(conn.encrypted);
}

// ── Local Name ──

#[test]
fn test_connection_manager_local_name() {
    let mut mgr = ConnectionManager::new();
    assert_eq!(mgr.local_name_str(), "GergiOS");
    mgr.set_local_name("MyPhone");
    assert_eq!(mgr.local_name_str(), "MyPhone");
}

#[test]
fn local_name_truncated_and_flags() {
    let mut mgr = ConnectionManager::new();
    let long = "x".repeat(300);
    mgr.set_local_name(&long);
    assert_eq!(mgr.local_name_bytes().len(), 247);
    mgr.set_discoverable(true);
    mgr.set_connectable(false);
    assert!(mgr.is_discoverable());
    assert!(!mgr.is_connectable());
}

// ── ProtocolMultiplexer ──

#[test]
fn test_protocol_multiplexer_new() {
    let mux = ProtocolMultiplexer::<Handler>::new();
    assert_eq!(mux.l2cap.channel_count(), 0);
    assert_eq!(mux.handlers.len(), 0);
}

#[test]
fn test_protocol_multiplexer_channel_creation() {
    let mut mux = ProtocolMultiplexer::<Handler>::new();
    let handle = ConnHandle::new(0x0042);

    let cid = mux.create_outgoing_channel(handle, L2CapPsm::Rfcomm);
    assert!(cid.is_some());
    assert_eq!(mux.l2cap.channel_count(), 1);
}

#[test]
fn test_protocol_multiplexer_signaling() {
    let mut mux = ProtocolMultiplexer::<Handler>::new();
    let handle = ConnHandle::new(0x0042);

    let _cid = mux.create_outgoing_channel(handle, L2CapPsm::Sdp).unwrap();
    let _sig_id = mux.l2cap.alloc_sig_id();

    let req = L2CapConnReq { psm: L2CapPsm::Sdp, source_cid: 0x0041 };
    let req_data = req.build();
    let sig = build_sig_command(L2CapSigCode::ConnectionRequest, 1, &req_data);
    let bframe = build_l2cap_b_frame(L2CapCid::Signaling.to_raw(), &sig);

    let responses = mux.process_acl_data(0x0042, 0x02, 0x00, &bframe);
    assert!(!responses.is_empty());
    assert!(mux.l2cap.channel_count() >= 1);
}

#[test]
fn connection_request_accepted_exactly() {
    let mut mux = ProtocolMultiplexer::<Handler>::new();
    let frame = mux.build_connection_request(0x0050, L2CapPsm::Rfcomm, 7);
    let responses = mux.process_acl_data(0x0001, 0x02, 0, &frame);
    assert_eq!(responses.len(), 1);
    assert_eq!(responses[0].0, 0x0001);
    // B-frame: len 12, CID 1, ConnectionResponse id 7 len 8, dest 0x40, src 0x50, success, status 0
    assert_eq!(
        responses[0].1,
        vec![12, 0, 1, 0, 0x03, 7, 8, 0, 0x40, 0, 0x50, 0, 0, 0, 0, 0]
    );
    assert_eq!(mux.l2cap.channel_count(), 1);
}

#[test]
fn connection_request_unsupported_psm_refused() {
    let mut mux = ProtocolMultiplexer::<Handler>::new();
    let frame = mux.build_connection_request(0x0050, L2CapPsm::Other(0x1001), 2);
    let responses = mux.process_acl_data(0x0001, 0x02, 0, &frame);
    assert_eq!(
        responses[0].1,
        vec![12, 0, 1, 0, 0x03, 2, 8, 0, 0, 0, 0x50, 0, 2, 0, 0, 0]
    );
    assert_eq!(mux.l2cap.channel_count(), 0);
}

#[test]
fn echo_information_and_unknown_commands() {
    let mut mux = ProtocolMultiplexer::<Handler>::new();
    let mut payload = build_sig_command(L2CapSigCode::EchoRequest, 3, &[9, 8]);
    payload.extend(build_sig_command(L2CapSigCode::InformationRequest, 4, &[0x02, 0x00]));
    payload.extend(build_sig_command(L2CapSigCode::EchoResponse, 5, &[]));
    let frame = build_l2cap_b_frame(0x0001, &payload);
    let r = mux.process_acl_data(0x0010, 0x02, 0, &frame);
    assert_eq!(r.len(), 3);
    assert_eq!(r[0].1, vec![6, 0, 1, 0, 0x09, 3, 2, 0, 9, 8]);
    assert_eq!(r[1].1, vec![8, 0, 1, 0, 0x0B, 4, 4, 0, 1, 0, 0, 0]);
    assert_eq!(r[2].1, vec![6, 0, 1, 0, 0x01, 5, 2, 0, 0, 0]);
}

#[test]
fn configure_and_disconnect_channel() {
    let mut mux = ProtocolMultiplexer::<Handler>::new();
    let frame = mux.build_connection_request(0x0050, L2CapPsm::Sdp, 1);
    mux.process_acl_data(1, 2, 0, &frame);
    // Configure Request for our CID 0x40 with an MTU option
    let cfg = build_sig_command(L2CapSigCode::ConfigureRequest, 2, &[0x40, 0, 0, 0, 0x01, 2, 0xA0, 0x02]);
    let r = mux.process_acl_data(1, 2, 0, &build_l2cap_b_frame(1, &cfg));
    assert_eq!(r[0].1, vec![14, 0, 1, 0, 0x05, 2, 10, 0, 0x40, 0, 0, 0, 0, 0, 0x01, 2, 0xA0, 0x02]);
    assert_eq!(mux.l2cap.find_by_local_cid(0x40).unwrap().state, L2CapChannelState::Open);
    // Disconnection Request: dest 0x50, source 0x40
    let dis = build_sig_command(L2CapSigCode::DisconnectionRequest, 3, &[0x50, 0, 0x40, 0]);
    let r = mux.process_acl_data(1, 2, 0, &build_l2cap_b_frame(1, &dis));
    assert_eq!(r[0].1, vec![8, 0, 1, 0, 0x07, 3, 4, 0, 0x40, 0, 0x50, 0]);
    assert_eq!(mux.l2cap.channel_count(), 0);
}

#[test]
fn le_credit_connection() {
    let mut mux = ProtocolMultiplexer::<Handler>::new();
    let req = build_sig_command(L2CapSigCode::LeCreditBasedConnReq, 9, &[0x25, 0, 0x44, 0, 0x00, 0x01, 0x17, 0, 5, 0]);
    let r = mux.process_acl_data(1, 2, 0, &build_l2cap_b_frame(5, &req));
    assert_eq!(
        r[0].1,
        vec![14, 0, 5, 0, 0x15, 9, 10, 0, 0x40, 0, 0x00, 0x01, 0x17, 0, 10, 0, 0, 0]
    );
    assert_eq!(mux.l2cap.find_by_local_cid(0x40).unwrap().local_mtu, 0x0100);
}

#[test]
fn channel_and_attribute_data_go_to_handlers() {
    let mut mux = ProtocolMultiplexer::<Handler>::new();
    mux.register_protocol(L2CapPsm::Rfcomm, echo_handler);
    mux.register_protocol(L2CapPsm::LeCoC, echo_handler);
    mux.register_protocol(L2CapPsm::Sdp, silent_handler);
    let frame = mux.build_connection_request(0x0050, L2CapPsm::Rfcomm, 1);
    mux.process_acl_data(0x0033, 2, 0, &frame);
    // data for remote CID 0x50 reaches the RFCOMM handler with local CID 0x40
    let r = mux.process_acl_data(0x0033, 2, 0, &build_l2cap_b_frame(0x50, &[7]));
    assert_eq!(r.len(), 1);
    assert_eq!(r[0].1, vec![3, 0, 0x50, 0, 0x33, 0x40, 7]);
    // continuation fragments are dropped
    assert!(mux.process_acl_data(0x0033, 1, 0, &build_l2cap_b_frame(0x50, &[7])).is_empty());
    // unknown remote CID, connectionless data and short data give nothing
    assert!(mux.process_acl_data(0x0033, 2, 0, &build_l2cap_b_frame(0x77, &[7])).is_empty());
    assert!(mux.process_acl_data(0x0033, 2, 0, &build_l2cap_b_frame(2, &[7])).is_empty());
    assert!(mux.process_acl_data(0x0033, 2, 0, &[1, 0, 4]).is_empty());
    // attribute channel goes to the LE handler
    let r = mux.process_acl_data(0x0033, 2, 0, &build_l2cap_b_frame(4, &[0x0A]));
    assert_eq!(r[0].1, vec![0x33, 4, 0x0A]);
    assert_eq!(mux.build_data_frame(0x50, &[1, 2]), vec![2, 0, 0x50, 0, 1, 2]);
}

// ── DaemonConfig ──

#[test]
fn test_daemon_config_default() {
    let config = DaemonConfig::default();
    assert_eq!(config.name, "GergiOS");
    assert!(!config.discoverable);
    assert!(config.connectable);
    assert!(config.le_enabled);
}

#[test]
fn daemon_config_load_is_default() {
    let config = DaemonConfig::load();
    assert_eq!(config.class_of_device, [0x00, 0x1E, 0x00]);
    assert_eq!(config.inquiry_duration, 10);
    assert_eq!(config.poll_interval_ms, 50);
}

// ── IPC Commands ──

#[test]
fn test_ipc_command_constants() {
    assert_eq!(BtDaemonCmd::StartDiscovery.code(), 0x01);
    assert_eq!(BtDaemonCmd::GetDevices.code(), 0x03);
    assert_eq!(BtDaemonCmd::Connect.code(), 0x04);
    assert_eq!(BtDaemonCmd::GetStatus.code(), 0x0A);
    assert_eq!(BtDaemonCmd::RegisterService.code(), 0x0F);
}

#[test]
fn test_bond_flags_default() {
    let flags = BondFlags { bonded: false, authenticated: false, encrypted: false };
    assert!(!flags.bonded);
}
