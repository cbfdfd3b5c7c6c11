use minix_bt::att::{
    build_execute_write_rsp, build_handle_value_cfm, build_write_rsp, parse_att_pdu,
    AttErrorCode, AttErrorRsp, AttExchangeMtuReq, AttExchangeMtuRsp, AttExecWriteFlag,
    AttExecuteWriteReq, AttFindByTypeValueReq, AttFindByTypeValueRsp, AttFindInfoReq,
    AttFindInfoRsp, AttGroupAttrEntry, AttHandleRange, AttHandleUuidPair, AttHandleValueInd,
    AttHandleValueNtf, AttOpcode, AttPdu, AttPrepareWriteReq, AttPrepareWriteRsp,
    AttReadBlobReq, AttReadBlobRsp, AttReadByGroupTypeReq, AttReadByGroupTypeRsp,
    AttReadByTypeReq, AttReadByTypeRsp, AttReadReq, AttReadRsp, AttWriteCmd, AttWriteReq,
};
use minix_bt::types::BtUuid;

#[test]
fn test_error_rsp_roundtrip() {
    let raw = AttErrorRsp::build(AttOpcode::ReadRequest.to_byte(), 0x0042, AttErrorCode::InvalidHandle);
    assert_eq!(raw.len(), 5);
    assert_eq!(raw[0], 0x01);

    let parsed = AttErrorRsp::parse(&raw).unwrap();
    assert_eq!(parsed.request_opcode, AttOpcode::ReadRequest.to_byte());
    assert_eq!(parsed.handle, 0x0042);
    assert_eq!(parsed.error_code, AttErrorCode::InvalidHandle);
}

#[test]
fn test_exchange_mtu_roundtrip() {
    let raw_req = AttExchangeMtuReq::build(256);
    assert_eq!(raw_req[0], 0x02);
    let req = AttExchangeMtuReq::parse(&raw_req).unwrap();
    assert_eq!(req.client_rx_mtu, 256);

    let raw_rsp = AttExchangeMtuRsp::build(128);
    assert_eq!(raw_rsp[0], 0x03);
    let rsp = AttExchangeMtuRsp::parse(&raw_rsp).unwrap();
    assert_eq!(rsp.server_rx_mtu, 128);
}

#[test]
fn test_find_info_req_roundtrip() {
    let raw = AttFindInfoReq::build(0x0001, 0x00FF);
    assert_eq!(raw[0], 0x04);
    let req = AttFindInfoReq::parse(&raw).unwrap();
    assert_eq!(req.start_handle, 0x0001);
    assert_eq!(req.end_handle, 0x00FF);
}

#[test]
fn test_find_info_rsp_16bit() {
    let pairs = vec![
        AttHandleUuidPair { handle: 0x0001, uuid: BtUuid::from_uuid16(0x2800) },
        AttHandleUuidPair { handle: 0x0002, uuid: BtUuid::from_uuid16(0x2801) },
    ];
    let raw = AttFindInfoRsp::build(pairs.clone());
    assert_eq!(raw[0], 0x05);
    assert_eq!(raw[1], 0x01);

    let rsp = AttFindInfoRsp::parse(&raw).unwrap();
    assert_eq!(rsp.pairs.len(), 2);
    assert_eq!(rsp.pairs[0].handle, 0x0001);
    assert_eq!(rsp.pairs[0].uuid.as_uuid16(), Some(0x2800));
}

#[test]
fn test_read_by_group_type_req_roundtrip() {
    let primary_service = BtUuid::from_uuid16(0x2800);
    let raw = AttReadByGroupTypeReq::build(0x0001, 0xFFFF, primary_service);
    assert_eq!(raw[0], 0x10);
    let req = AttReadByGroupTypeReq::parse(&raw).unwrap();
    assert_eq!(req.start_handle, 0x0001);
    assert_eq!(req.end_handle, 0xFFFF);
    assert_eq!(req.group_type.as_uuid16(), Some(0x2800));
}

#[test]
fn test_read_by_group_type_rsp() {
    let entries = vec![
        AttGroupAttrEntry { start_handle: 0x0001, group_end_handle: 0x0005, value: vec![0x00, 0x18] },
        AttGroupAttrEntry { start_handle: 0x0006, group_end_handle: 0x000A, value: vec![0x0F, 0x18] },
    ];
    let raw = AttReadByGroupTypeRsp::build(entries.clone());
    assert_eq!(raw[0], 0x11);
    assert_eq!(raw[1], 6);

    let rsp = AttReadByGroupTypeRsp::parse(&raw).unwrap();
    assert_eq!(rsp.entries.len(), 2);
    assert_eq!(rsp.entries[0].start_handle, 0x0001);
    assert_eq!(rsp.entries[0].group_end_handle, 0x0005);
}

#[test]
fn test_read_by_type_req_roundtrip() {
    let char_decl = BtUuid::from_uuid16(0x2803);
    let raw = AttReadByTypeReq::build(0x0001, 0xFFFF, char_decl);
    assert_eq!(raw[0], 0x08);
    let req = AttReadByTypeReq::parse(&raw).unwrap();
    assert_eq!(req.attr_type.as_uuid16(), Some(0x2803));
}

#[test]
fn test_read_by_type_rsp() {
    let pairs = vec![
        (0x0002u16, vec![0x02, 0x00, 0x03, 0x00, 0x00, 0x18]),
        (0x0007u16, vec![0x02, 0x00, 0x08, 0x00, 0x01, 0x18]),
    ];
    let raw = AttReadByTypeRsp::build(pairs.clone());
    assert_eq!(raw[0], 0x09);

    let rsp = AttReadByTypeRsp::parse(&raw).unwrap();
    assert_eq!(rsp.handle_value_pairs.len(), 2);
    assert_eq!(rsp.handle_value_pairs[0].0, 0x0002);
}

#[test]
fn test_read_req_rsp_roundtrip() {
    let raw_req = AttReadReq::build(0x0042);
    assert_eq!(raw_req[0], 0x0A);
    let req = AttReadReq::parse(&raw_req).unwrap();
    assert_eq!(req.handle, 0x0042);

    let raw_rsp = AttReadRsp::build(vec![0x01, 0x02, 0x03]);
    assert_eq!(raw_rsp[0], 0x0B);
    let rsp = AttReadRsp::parse(&raw_rsp).unwrap();
    assert_eq!(rsp.value, vec![0x01, 0x02, 0x03]);
}

#[test]
fn test_read_blob_roundtrip() {
    let raw_req = AttReadBlobReq::build(0x0042, 64);
    assert_eq!(raw_req[0], 0x0C);
    let req = AttReadBlobReq::parse(&raw_req).unwrap();
    assert_eq!(req.handle, 0x0042);
    assert_eq!(req.offset, 64);

    let raw_rsp = AttReadBlobRsp::build(vec![0xAA; 32]);
    assert_eq!(raw_rsp[0], 0x0D);
    let rsp = AttReadBlobRsp::parse(&raw_rsp).unwrap();
    assert_eq!(rsp.value.len(), 32);
}

#[test]
fn test_write_req_roundtrip() {
    let raw = AttWriteReq::build(0x0042, vec![0x01]);
    assert_eq!(raw[0], 0x12);
    let req = AttWriteReq::parse(&raw).unwrap();
    assert_eq!(req.handle, 0x0042);
    assert_eq!(req.value, vec![0x01]);
}

#[test]
fn test_write_rsp() {
    let raw = build_write_rsp();
    assert_eq!(raw, vec![0x13]);
}

#[test]
fn test_write_cmd_roundtrip() {
    let raw = AttWriteCmd::build(0x0042, vec![0xAA]);
    assert_eq!(raw[0], 0x52);
    let cmd = AttWriteCmd::parse(&raw).unwrap();
    assert_eq!(cmd.handle, 0x0042);
    assert_eq!(cmd.value, vec![0xAA]);
}

#[test]
fn test_notification_roundtrip() {
    let raw = AttHandleValueNtf::build(0x0042, vec![0x01, 0x02, 0x03]);
    assert_eq!(raw[0], 0x1B);
    let ntf = AttHandleValueNtf::parse(&raw).unwrap();
    assert_eq!(ntf.handle, 0x0042);
    assert_eq!(ntf.value, vec![0x01, 0x02, 0x03]);
}

#[test]
fn test_indication_roundtrip() {
    let raw = AttHandleValueInd::build(0x0042, vec![0x01, 0x02]);
    assert_eq!(raw[0], 0x1D);
    let ind = AttHandleValueInd::parse(&raw).unwrap();
    assert_eq!(ind.handle, 0x0042);

    let cfm = build_handle_value_cfm();
    assert_eq!(cfm, vec![0x1E]);
}

#[test]
fn test_find_by_type_value_roundtrip() {
    let raw = AttFindByTypeValueReq::build(0x0001, 0xFFFF, BtUuid::from_uuid16(0x2800), vec![0x00, 0x18]);
    assert_eq!(raw[0], 0x06);
    let req = AttFindByTypeValueReq::parse(&raw).unwrap();
    assert_eq!(req.start_handle, 0x0001);
    assert_eq!(req.attr_type.as_uuid16(), Some(0x2800));
    assert_eq!(req.value, vec![0x00, 0x18]);

    let ranges = vec![AttHandleRange { start_handle: 0x0001, end_handle: 0x0005 }];
    let raw_rsp = AttFindByTypeValueRsp::build(ranges.clone());
    assert_eq!(raw_rsp[0], 0x07);
    let rsp = AttFindByTypeValueRsp::parse(&raw_rsp).unwrap();
    assert_eq!(rsp.ranges.len(), 1);
    assert_eq!(rsp.ranges[0].start_handle, 0x0001);
}

#[test]
fn test_prepare_write_roundtrip() {
    let raw = AttPrepareWriteReq::build(0x0042, 0, vec![0x01, 0x02, 0x03]);
    assert_eq!(raw[0], 0x16);
    let req = AttPrepareWriteReq::parse(&raw).unwrap();
    assert_eq!(req.handle, 0x0042);
    assert_eq!(req.offset, 0);

    let raw_rsp = AttPrepareWriteRsp::build(0x0042, 0, vec![0x01, 0x02, 0x03]);
    assert_eq!(raw_rsp[0], 0x17);
}

#[test]
fn test_execute_write_roundtrip() {
    let raw = AttExecuteWriteReq::build(AttExecWriteFlag::Write);
    assert_eq!(raw[0], 0x18);
    assert_eq!(raw[1], 0x01);
    let req = AttExecuteWriteReq::parse(&raw).unwrap();
    assert_eq!(req.flag, AttExecWriteFlag::Write);

    let raw_cancel = AttExecuteWriteReq::build(AttExecWriteFlag::Cancel);
    assert_eq!(raw_cancel[1], 0x00);

    let raw_rsp = build_execute_write_rsp();
    assert_eq!(raw_rsp, vec![0x19]);
}

#[test]
fn test_parse_att_pdu_write_req() {
    let raw = AttWriteReq::build(0x0001, vec![0x00]);
    let decoded = parse_att_pdu(&raw).unwrap();
    match decoded {
        AttPdu::WriteReq(req) => {
            assert_eq!(req.handle, 0x0001);
        }
        _ => panic!("Wrong PDU type"),
    }
}

#[test]
fn test_parse_att_pdu_notification() {
    let raw = AttHandleValueNtf::build(0x000A, vec![0x01]);
    let decoded = parse_att_pdu(&raw).unwrap();
    match decoded {
        AttPdu::HandleValueNtf(ntf) => {
            assert_eq!(ntf.handle, 0x000A);
        }
        _ => panic!("Wrong PDU type"),
    }
}

#[test]
fn test_parse_att_pdu_invalid() {
    assert!(parse_att_pdu(&[]).is_none());
    assert!(parse_att_pdu(&[0xFF]).is_none());
}

#[test]
fn test_mtu_clamping() {
    let raw = AttExchangeMtuReq::build(1000);
    let req = AttExchangeMtuReq::parse(&raw).unwrap();
    assert_eq!(req.client_rx_mtu, 512);

    let raw = AttExchangeMtuRsp::build(10);
    let rsp = AttExchangeMtuRsp::parse(&raw).unwrap();
    assert_eq!(rsp.server_rx_mtu, 23);
}

#[test]
fn test_parse_short_data_returns_none() {
    assert!(AttErrorRsp::parse(&[0x01, 0x01]).is_none());
    assert!(AttReadReq::parse(&[0x0A]).is_none());
    assert!(AttWriteReq::parse(&[0x12, 0x01]).is_none());
    assert!(AttFindByTypeValueReq::parse(&[0x06, 0x01, 0x00, 0xFF]).is_none());
}

// ---------------------------------------------------------------------------
// Further cases
// ---------------------------------------------------------------------------

#[test]
fn find_info_rsp_128bit_and_mixed_types() {
    let custom = BtUuid::from_bytes([1, 2, 3, 4, 5, 6, 7, 8, 9, 10, 11, 12, 13, 14, 15, 16]);
    let pairs = vec![
        AttHandleUuidPair { handle: 0x0010, uuid: custom },
        AttHandleUuidPair { handle: 0x0011, uuid: BtUuid::from_uuid16(0x2A00) },
    ];
    let raw = AttFindInfoRsp::build(pairs);
    // format follows the first pair; the 16-bit pair is left out
    assert_eq!(raw.len(), 2 + 18);
    assert_eq!(raw[1], 0x02);
    let rsp = AttFindInfoRsp::parse(&raw).unwrap();
    assert_eq!(rsp.pairs.len(), 1);
    assert_eq!(rsp.pairs[0].uuid.bytes, custom.bytes);
    assert!(AttFindInfoRsp::parse(&[0x05, 0x03]).is_none());
    assert!(AttFindInfoRsp::parse(&[0x05, 0x01, 0x01, 0x00, 0x00]).is_none());
}

#[test]
fn error_rsp_unknown_code_rejected() {
    assert!(AttErrorRsp::parse(&[0x01, 0x0A, 0x01, 0x00, 0x7F]).is_none());
    let p = parse_att_pdu(&[0x01, 0x0A, 0x01, 0x00, 0x0A]).unwrap();
    match p {
        AttPdu::ErrorRsp(e) => assert_eq!(e.error_code, AttErrorCode::AttributeNotFound),
        _ => panic!("Wrong PDU type"),
    }
}

#[test]
fn pdu_dispatch_fixed_opcodes() {
    assert!(matches!(parse_att_pdu(&[0x13]), Some(AttPdu::WriteRsp)));
    assert!(matches!(parse_att_pdu(&[0x19]), Some(AttPdu::ExecuteWriteRsp)));
    assert!(matches!(parse_att_pdu(&[0x1E]), Some(AttPdu::HandleValueCfm)));
}

#[test]
fn uuid16_fields_are_little_endian() {
    let raw = AttReadByGroupTypeReq::build(0x0001, 0xFFFF, BtUuid::from_uuid16(0x2800));
    assert_eq!(raw, vec![0x10, 0x01, 0x00, 0xFF, 0xFF, 0x00, 0x28]);
    let raw = AttFindByTypeValueReq::build(0x0001, 0xFFFF, BtUuid::from_uuid16(0x2800), vec![0x0F, 0x18]);
    assert_eq!(raw, vec![0x06, 0x01, 0x00, 0xFF, 0xFF, 0x00, 0x28, 0x0F, 0x18]);
    let req = AttReadByTypeReq::parse(&[0x08, 0x01, 0x00, 0xFF, 0xFF, 0x03, 0x28]).unwrap();
    assert_eq!(req.attr_type.as_uuid16(), Some(0x2803));
}
