use minix_bt::att::{
    AttErrorCode, AttErrorRsp, AttExchangeMtuReq, AttExchangeMtuRsp, AttFindByTypeValueReq,
    AttFindByTypeValueRsp, AttFindInfoReq, AttFindInfoRsp, AttGroupAttrEntry, AttReadBlobReq,
    AttReadBlobRsp, AttReadByGroupTypeReq, AttReadByGroupTypeRsp, AttReadByTypeReq,
    AttReadByTypeRsp, AttReadReq, AttReadRsp, AttWriteCmd, AttWriteReq, ATT_MIN_MTU,
};
use minix_bt::gatt::gatt_uuids;
use minix_bt::gatt::{AttPermissions, CharProperties, GattClient, GattDatabase, GattServer};
use minix_bt::types::BtUuid;

#[test]
fn test_char_properties() {
    let props = CharProperties::from_bits(0x0C);
    assert!(!props.can_read());
    assert!(props.can_write());
    assert!(props.can_write_without_rsp());
    assert!(!props.can_notify());

    let props2 = CharProperties::from_bits(0x12);
    assert!(props2.can_read());
    assert!(props2.can_notify());
    assert!(!props2.can_indicate());

    let props3 = CharProperties::from_bits(0x30);
    assert!(props3.can_notify());
    assert!(props3.can_indicate());
}

#[test]
fn test_database_empty() {
    let db = GattDatabase::new();
    assert!(db.is_empty());
    assert_eq!(db.len(), 0);
    assert_eq!(db.max_handle(), 0);
}

#[test]
fn test_database_add_attr() {
    let mut db = GattDatabase::new();
    let h = db.add_attr(BtUuid::from_uuid16(0x2800), vec![0x00, 0x18]);
    assert_eq!(h, 0x0001);
    assert_eq!(db.len(), 1);

    let attr = db.find_by_handle(0x0001).unwrap();
    assert_eq!(attr.uuid.as_uuid16(), Some(0x2800));
    assert_eq!(attr.value, vec![0x00, 0x18]);
}

#[test]
fn test_database_find_by_uuid() {
    let mut db = GattDatabase::new();
    db.add_attr(BtUuid::from_uuid16(0x2800), vec![0x00, 0x18]);
    db.add_attr(BtUuid::from_uuid16(0x2803), vec![0x02, 0x03, 0x00, 0x00, 0x18]);
    db.add_attr(BtUuid::from_uuid16(0x2A00), b"Test Device".to_vec());

    let results = db.find_by_uuid(&BtUuid::from_uuid16(0x2800), 0x0001, 0xFFFF);
    assert_eq!(results.len(), 1);
    assert_eq!(results[0].handle, 0x0001);

    let results2 = db.find_by_uuid(&BtUuid::from_uuid16(0x2A00), 0x0001, 0xFFFF);
    assert_eq!(results2.len(), 1);
}

#[test]
fn test_add_primary_service() {
    let mut db = GattDatabase::new();
    let h = db.add_primary_service(gatt_uuids::gap_service());
    assert_eq!(h, 0x0001);

    let attr = db.find_by_handle(h).unwrap();
    assert_eq!(attr.uuid, gatt_uuids::primary_service());
    assert_eq!(attr.value, vec![0x00, 0x18]);
}

#[test]
fn test_add_characteristic() {
    let mut db = GattDatabase::new();
    db.add_primary_service(gatt_uuids::gap_service());
    let (decl_h, value_h) = db.add_characteristic(
        gatt_uuids::device_name(),
        CharProperties::from_bits(CharProperties::READ),
        b"GergiOS".to_vec(),
    );
    assert_eq!(decl_h, 0x0002);
    assert_eq!(value_h, 0x0003);

    let decl = db.find_by_handle(decl_h).unwrap();
    assert_eq!(decl.uuid, gatt_uuids::characteristic());
    assert_eq!(decl.value[0], CharProperties::READ);
    assert_eq!(decl.value[1], 0x03);
    assert_eq!(decl.value[2], 0x00);

    let value_attr = db.find_by_handle(value_h).unwrap();
    assert_eq!(value_attr.uuid, gatt_uuids::device_name());
    assert_eq!(value_attr.value, b"GergiOS");
}

#[test]
fn test_add_cccd() {
    let mut db = GattDatabase::new();
    let cccd_h = db.add_cccd();
    assert_eq!(cccd_h, 0x0001);

    let attr = db.find_by_handle(cccd_h).unwrap();
    assert_eq!(attr.uuid, gatt_uuids::client_char_config());
    assert_eq!(attr.value, vec![0x00, 0x00]);
}

#[test]
fn test_add_gap_service() {
    let mut db = GattDatabase::new();
    db.add_gap_service("GergiOS Device", 0x0000);
    assert_eq!(db.len(), 5);

    let svc = db.find_by_handle(0x0001).unwrap();
    assert_eq!(svc.uuid, gatt_uuids::primary_service());

    let name_char = db.find_by_handle(0x0002).unwrap();
    assert_eq!(name_char.uuid, gatt_uuids::characteristic());
    assert_eq!(name_char.value[0], CharProperties::READ);

    let name_val = db.find_by_handle(0x0003).unwrap();
    assert_eq!(name_val.value, b"GergiOS Device");

    let appear_char = db.find_by_handle(0x0004).unwrap();
    assert_eq!(appear_char.uuid, gatt_uuids::characteristic());

    let appear_val = db.find_by_handle(0x0005).unwrap();
    assert_eq!(appear_val.value, vec![0x00, 0x00]);
}

#[test]
fn test_add_battery_service() {
    let mut db = GattDatabase::new();
    db.add_battery_service(85);
    assert_eq!(db.len(), 4);

    let bat_val = db.find_by_handle(0x0003).unwrap();
    assert_eq!(bat_val.uuid.as_uuid16(), Some(0x2A19));
    assert_eq!(bat_val.value[0], 85);
}

#[test]
fn test_server_find_by_handle() {
    let mut db = GattDatabase::new();
    db.add_gap_service("Test", 0x0000);

    let server = GattServer::new(db);
    let attr = server.database.find_by_handle(0x0001).unwrap();
    assert_eq!(attr.uuid, gatt_uuids::primary_service());
}

#[test]
fn test_server_read_by_group_type_primary_service() {
    let mut db = GattDatabase::new();
    db.add_gap_service("Test", 0x0000);
    db.add_battery_service(50);

    let mut server = GattServer::new(db);

    let data = AttReadByGroupTypeReq::build(0x0001, 0xFFFF, gatt_uuids::primary_service());
    let rsp = server.process_att_pdu(&data).unwrap();

    let parsed = AttReadByGroupTypeRsp::parse(&rsp).unwrap();
    assert_eq!(parsed.entries.len(), 2);
    assert_eq!(parsed.entries[0].start_handle, 0x0001);
    assert_eq!(parsed.entries[0].group_end_handle, 0x0005);
    assert_eq!(parsed.entries[1].start_handle, 0x0006);
    assert_eq!(parsed.entries[1].group_end_handle, 0x0009);
}

#[test]
fn test_server_find_information() {
    let mut db = GattDatabase::new();
    db.add_gap_service("Test", 0x0000);

    let mut server = GattServer::new(db);

    let data = AttFindInfoReq::build(0x0001, 0x0005);
    let rsp = server.process_att_pdu(&data).unwrap();

    let parsed = AttFindInfoRsp::parse(&rsp).unwrap();
    assert_eq!(parsed.pairs.len(), 5);
    assert_eq!(parsed.pairs[0].handle, 0x0001);
}

#[test]
fn test_server_read_by_type_characteristic() {
    let mut db = GattDatabase::new();
    db.add_gap_service("Test", 0x0000);

    let mut server = GattServer::new(db);

    let data = AttReadByTypeReq::build(0x0001, 0x0005, gatt_uuids::characteristic());
    let rsp = server.process_att_pdu(&data).unwrap();

    let parsed = AttReadByTypeRsp::parse(&rsp).unwrap();
    assert_eq!(parsed.handle_value_pairs.len(), 2);
    assert_eq!(parsed.handle_value_pairs[0].0, 0x0002);
    assert_eq!(parsed.handle_value_pairs[1].0, 0x0004);
}

#[test]
fn test_server_read_request() {
    let mut db = GattDatabase::new();
    db.add_gap_service("Test Device", 0x0000);

    let mut server = GattServer::new(db);

    let data = AttReadReq::build(0x0003);
    let rsp = server.process_att_pdu(&data).unwrap();

    let parsed = AttReadRsp::parse(&rsp).unwrap();
    assert_eq!(parsed.value, b"Test Device");
}

#[test]
fn test_server_write_request() {
    let mut db = GattDatabase::new();
    db.add_cccd();

    let mut server = GattServer::new(db);

    let data = AttWriteReq::build(0x0001, vec![0x01, 0x00]);
    let rsp = server.process_att_pdu(&data).unwrap();

    assert_eq!(rsp[0], 0x13);

    let val = server.database.get_value(0x0001).unwrap().to_vec();
    assert_eq!(val, vec![0x01, 0x00]);
}

#[test]
fn test_server_read_invalid_handle() {
    let db = GattDatabase::new();
    let mut server = GattServer::new(db);

    let data = AttReadReq::build(0x9999);
    let rsp = server.process_att_pdu(&data).unwrap();

    let parsed = AttErrorRsp::parse(&rsp).unwrap();
    assert_eq!(parsed.error_code, AttErrorCode::InvalidHandle);
    assert_eq!(parsed.handle, 0x9999);
}

#[test]
fn test_server_unsupported_pdu() {
    let db = GattDatabase::new();
    let mut server = GattServer::new(db);

    let data = vec![0x0E, 0x01, 0x00, 0x02, 0x00];
    let rsp = server.process_att_pdu(&data).unwrap();

    let parsed = AttErrorRsp::parse(&rsp).unwrap();
    assert_eq!(parsed.error_code, AttErrorCode::RequestNotSupported);
}

#[test]
fn test_server_exchange_mtu() {
    let db = GattDatabase::new();
    let mut server = GattServer::new(db);

    let data = AttExchangeMtuReq::build(128);
    let rsp = server.process_att_pdu(&data).unwrap();

    let parsed = AttExchangeMtuRsp::parse(&rsp).unwrap();
    assert!(parsed.server_rx_mtu >= ATT_MIN_MTU);
}

#[test]
fn test_client_parse_primary_services() {
    let entries = vec![
        AttGroupAttrEntry { start_handle: 0x0001, group_end_handle: 0x0005, value: vec![0x00, 0x18] },
        AttGroupAttrEntry { start_handle: 0x0006, group_end_handle: 0x0009, value: vec![0x0F, 0x18] },
    ];
    let raw = AttReadByGroupTypeRsp::build(entries);
    let client = GattClient::new();
    let services = client.parse_primary_services(&raw).unwrap();

    assert_eq!(services.len(), 2);
    assert_eq!(services[0].uuid.as_uuid16(), Some(0x1800));
    assert_eq!(services[0].start_handle, 0x0001);
    assert_eq!(services[0].end_handle, 0x0005);
    assert_eq!(services[1].uuid.as_uuid16(), Some(0x180F));
}

#[test]
fn test_client_parse_characteristics() {
    let pairs = vec![
        (0x0002u16, vec![0x02, 0x03, 0x00, 0x00, 0x2A]),
        (0x0004u16, vec![0x02, 0x05, 0x00, 0x01, 0x2A]),
    ];
    let raw = AttReadByTypeRsp::build(pairs);
    let client = GattClient::new();
    let chars = client.parse_characteristics(&raw).unwrap();

    assert_eq!(chars.len(), 2);
    assert_eq!(chars[0].declaration_handle, 0x0002);
    assert_eq!(chars[0].value_handle, 0x0003);
    assert_eq!(chars[0].uuid.as_uuid16(), Some(0x2A00));
    assert!(chars[0].properties.can_read());
}

#[test]
fn test_server_build_notification() {
    let db = GattDatabase::new();
    let server = GattServer::new(db);
    let notif = server.build_notification(0x0003, vec![85]);
    assert_eq!(notif[0], 0x1B);
    assert_eq!(notif[1], 0x03);
    assert_eq!(notif[2], 0x00);
    assert_eq!(notif[3], 85);
}

#[test]
fn test_add_device_info_service() {
    let mut db = GattDatabase::new();
    db.add_device_info_service("GergiOS", "M1", "SN123", "1.0", "2.0", "3.0", 0x000F, 0x1234, 0x0100);
    assert_eq!(db.len(), 15);

    let pnp = db.find_by_uuid(&gatt_uuids::pnp_id(), 0x0001, 0xFFFF);
    assert_eq!(pnp.len(), 1);
    assert_eq!(pnp[0].value[0], 0x01);
}

#[test]
fn test_server_find_by_type_value() {
    let mut db = GattDatabase::new();
    db.add_gap_service("Test", 0x0000);

    let mut server = GattServer::new(db);

    let data = AttFindByTypeValueReq::build(0x0001, 0xFFFF, gatt_uuids::primary_service(), vec![0x18, 0x00]);
    let rsp = server.process_att_pdu(&data);
    // the stored value is [0x00, 0x18], so nothing matches
    let parsed = AttErrorRsp::parse(&rsp.unwrap()).unwrap();
    assert_eq!(parsed.error_code, AttErrorCode::AttributeNotFound);
}

#[test]
fn test_server_read_blob() {
    let mut db = GattDatabase::new();
    let long_value: Vec<u8> = (0..100).collect();
    db.add_attr(BtUuid::from_uuid16(0x2A00), long_value);

    let mut server = GattServer::new(db);

    let data = AttReadBlobReq::build(0x0001, 0);
    let rsp = server.process_att_pdu(&data).unwrap();
    let parsed = AttReadBlobRsp::parse(&rsp).unwrap();
    assert_eq!(parsed.value.len(), 22);
    assert_eq!(parsed.value[0], 0);

    let data2 = AttReadBlobReq::build(0x0001, 50);
    let rsp2 = server.process_att_pdu(&data2).unwrap();
    let parsed2 = AttReadBlobRsp::parse(&rsp2).unwrap();
    assert_eq!(parsed2.value[0], 50);
}

#[test]
fn test_server_write_command() {
    let mut db = GattDatabase::new();
    db.add_cccd();

    let mut server = GattServer::new(db);

    let data = AttWriteCmd::build(0x0001, vec![0x00, 0x01]);
    let rsp = server.process_att_pdu(&data);
    assert!(rsp.is_none());

    let val = server.database.get_value(0x0001).unwrap().to_vec();
    assert_eq!(val, vec![0x00, 0x01]);
}

#[test]
fn test_gatt_uuid_constants() {
    assert_eq!(gatt_uuids::primary_service().as_uuid16(), Some(0x2800));
    assert_eq!(gatt_uuids::characteristic().as_uuid16(), Some(0x2803));
    assert_eq!(gatt_uuids::client_char_config().as_uuid16(), Some(0x2902));
    assert_eq!(gatt_uuids::battery_service().as_uuid16(), Some(0x180F));
    assert_eq!(gatt_uuids::device_name().as_uuid16(), Some(0x2A00));
    assert_eq!(gatt_uuids::manufacturer_name().as_uuid16(), Some(0x2A29));
}

#[test]
fn test_add_char_format() {
    let mut db = GattDatabase::new();
    let h = db.add_char_format(0x04, -3, 0x272F, 1, 0);
    let attr = db.find_by_handle(h).unwrap();
    assert_eq!(attr.value[0], 0x04);
    assert_eq!(attr.value[1], 0xFD);
    assert_eq!(attr.value[2], 0x2F);
    assert_eq!(attr.value[3], 0x27);
}

// ---------------------------------------------------------------------------
// Further cases
// ---------------------------------------------------------------------------

#[test]
fn server_write_then_read_law() {
    let mut db = GattDatabase::new();
    db.add_attr(BtUuid::from_uuid16(0x2A00), vec![1, 2, 3]);
    let mut server = GattServer::new(db);
    let w = server.process_att_pdu(&AttWriteReq::build(1, vec![9, 8, 7, 6])).unwrap();
    assert_eq!(w, vec![0x13]);
    let r = server.process_att_pdu(&AttReadReq::build(1)).unwrap();
    assert_eq!(r, vec![0x0B, 9, 8, 7, 6]);
}

#[test]
fn server_read_and_write_permissions() {
    let mut db = GattDatabase::new();
    db.add_attr_with_permissions(BtUuid::from_uuid16(0x2A00), vec![5], AttPermissions::from_bits(AttPermissions::NONE));
    let mut server = GattServer::new(db);
    let r = server.process_att_pdu(&AttReadReq::build(1)).unwrap();
    assert_eq!(AttErrorRsp::parse(&r).unwrap().error_code, AttErrorCode::ReadNotPermitted);
    let w = server.process_att_pdu(&AttWriteReq::build(1, vec![1])).unwrap();
    assert_eq!(AttErrorRsp::parse(&w).unwrap().error_code, AttErrorCode::WriteNotPermitted);
    assert_eq!(server.database.get_value(1).unwrap().to_vec(), vec![5]);
    // a write command ignores permissions
    assert!(server.process_att_pdu(&AttWriteCmd::build(1, vec![6])).is_none());
    assert_eq!(server.database.get_value(1).unwrap().to_vec(), vec![6]);
}

#[test]
fn server_read_blob_invalid_offset_and_group_type() {
    let mut db = GattDatabase::new();
    db.add_attr(BtUuid::from_uuid16(0x2A00), vec![1, 2]);
    let mut server = GattServer::new(db);
    let r = server.process_att_pdu(&AttReadBlobReq::build(1, 2)).unwrap();
    assert_eq!(AttErrorRsp::parse(&r).unwrap().error_code, AttErrorCode::InvalidOffset);
    let g = server.process_att_pdu(&AttReadByGroupTypeReq::build(1, 0xFFFF, gatt_uuids::characteristic())).unwrap();
    let e = AttErrorRsp::parse(&g).unwrap();
    assert_eq!(e.error_code, AttErrorCode::UnsupportedGroupType);
    assert_eq!(e.handle, 0);
    assert!(server.process_att_pdu(&[]).is_none());
}

#[test]
fn server_find_by_type_value_match() {
    let mut db = GattDatabase::new();
    db.add_gap_service("A", 0x0000);
    db.add_battery_service(10);
    let mut server = GattServer::new(db);
    let data = AttFindByTypeValueReq::build(0x0001, 0xFFFF, gatt_uuids::primary_service(), vec![0x0F, 0x18]);
    let rsp = server.process_att_pdu(&data).unwrap();
    let parsed = AttFindByTypeValueRsp::parse(&rsp).unwrap();
    assert_eq!(parsed.ranges.len(), 1);
    assert_eq!(parsed.ranges[0].start_handle, 0x0006);
    assert_eq!(parsed.ranges[0].end_handle, 0x0009);
}

#[test]
fn database_queries() {
    let mut db = GattDatabase::new();
    db.add_gatt_service();
    assert_eq!(db.len(), 4);
    db.add_battery_service(99);
    assert_eq!(db.find_in_range(2, 5).len(), 4);
    assert_eq!(db.find_next_service_start(1), Some(5));
    assert_eq!(db.find_next_service_start(5), None);
    assert_eq!(db.max_handle(), 8);
    assert!(db.update_value(8, vec![1, 0]));
    assert!(!db.update_value(9, vec![1, 0]));
    assert_eq!(db.get_value(8).unwrap(), &[1, 0]);
    assert!(db.get_value(0).is_none());
    let u = db.add_user_desc("level");
    assert_eq!(db.get_value(u).unwrap(), b"level");
}

#[test]
fn client_parse_descriptors_and_128bit() {
    let raw = vec![0x05, 0x01, 0x01, 0x00, 0x00, 0x28, 0x02, 0x00, 0x03, 0x28];
    let client = GattClient::new();
    let descs = client.parse_descriptors(&raw).unwrap();
    assert_eq!(descs.len(), 2);
    assert_eq!(descs[1].handle, 2);
    assert_eq!(descs[1].uuid.as_uuid16(), Some(0x2803));
    let mut value = vec![0x10, 0x07, 0x00];
    value.extend_from_slice(&[1, 2, 3, 4, 5, 6, 7, 8, 9, 10, 11, 12, 13, 14, 15, 16]);
    let raw2 = AttReadByTypeRsp::build(vec![(0x0006u16, value)]);
    let chars = client.parse_characteristics(&raw2).unwrap();
    assert_eq!(chars.len(), 1);
    assert_eq!(chars[0].uuid.bytes, [1, 2, 3, 4, 5, 6, 7, 8, 9, 10, 11, 12, 13, 14, 15, 16]);
    assert!(chars[0].properties.can_notify());
    assert!(client.parse_primary_services(&[0x11]).is_none());
}

#[test]
fn exchange_mtu_sets_the_negotiated_mtu() {
    let mut db = GattDatabase::new();
    db.add_attr(BtUuid::from_uuid16(0x2A00), (0..200u8).collect());
    let mut server = GattServer::new(db);
    assert_eq!(server.att_mtu, 23);
    let rsp = server.process_att_pdu(&AttExchangeMtuReq::build(128)).unwrap();
    assert_eq!(rsp, AttExchangeMtuRsp::build(128));
    assert_eq!(server.att_mtu, 128);
    let read = server.process_att_pdu(&AttReadReq::build(1)).unwrap();
    assert_eq!(read.len(), 1 + 127);
}
