use minix_bt::l2cap::{
    build_l2cap_b_frame, build_sig_command, parse_l2cap_b_frame, parse_sig_commands,
    L2CapChannelManager, L2CapChannelState, L2CapCommandReject, L2CapConfigOpt,
    L2CapConfigOptType, L2CapConfigReq, L2CapConfigResult, L2CapConfigRsp, L2CapConnReq,
    L2CapConnResult, L2CapConnRsp, L2CapDisconReq, L2CapDisconRsp, L2CapInfoType,
    L2CapLeCreditConnReq, L2CapRejectReason, L2CapSigCode,
};
use minix_bt::types::{ConnHandle, L2CapPsm};

#[test]
fn test_b_frame_roundtrip() {
    let payload = vec![0x01, 0x02, 0x03, 0x04];
    let frame = build_l2cap_b_frame(0x0041, &payload);
    assert_eq!(frame, vec![0x04, 0x00, 0x41, 0x00, 0x01, 0x02, 0x03, 0x04]);

    let (parsed, consumed) = parse_l2cap_b_frame(&frame).unwrap();
    assert_eq!(parsed.cid, 0x0041);
    assert_eq!(parsed.payload, payload);
    assert_eq!(consumed, 8);
}

#[test]
fn test_sig_command_roundtrip() {
    let data = vec![0x40, 0x00, 0x41, 0x00];
    let cmd = build_sig_command(L2CapSigCode::ConnectionRequest, 0x05, &data);
    assert_eq!(cmd[0], 0x02);
    assert_eq!(cmd[1], 0x05);
    assert_eq!(cmd[2], 0x04);
    assert_eq!(cmd[3], 0x00);

    let parsed = parse_sig_commands(&cmd);
    assert_eq!(parsed.len(), 1);
    assert_eq!(parsed[0].code, L2CapSigCode::ConnectionRequest);
    assert_eq!(parsed[0].id, 0x05);
    assert_eq!(parsed[0].data, data);
}

#[test]
fn test_connection_req_rsp() {
    let req = L2CapConnReq { psm: L2CapPsm::Rfcomm, source_cid: 0x0041 };
    let req_data = req.build();
    assert_eq!(req_data.len(), 4);

    let parsed = L2CapConnReq::parse(&req_data).unwrap();
    assert_eq!(parsed.psm, L2CapPsm::Rfcomm);
    assert_eq!(parsed.source_cid, 0x0041);

    let rsp = L2CapConnRsp {
        destination_cid: 0x0042,
        source_cid: 0x0041,
        result: L2CapConnResult::Success,
        status: 0,
    };
    let rsp_data = rsp.build();
    assert_eq!(rsp_data.len(), 8);

    let parsed_rsp = L2CapConnRsp::parse(&rsp_data).unwrap();
    assert_eq!(parsed_rsp.destination_cid, 0x0042);
    assert_eq!(parsed_rsp.result, L2CapConnResult::Success);
}

#[test]
fn test_config_req_parse() {
    let cfg_req = L2CapConfigReq {
        destination_cid: 0x0041,
        flags: 0,
        options: vec![L2CapConfigOpt { opt_type: L2CapConfigOptType::Mtu, value: vec![0x00, 0x02] }],
    };
    let data = cfg_req.build();
    let parsed = L2CapConfigReq::parse(&data).unwrap();
    assert_eq!(parsed.destination_cid, 0x0041);
    assert_eq!(parsed.options.len(), 1);
    assert_eq!(parsed.options[0].opt_type, L2CapConfigOptType::Mtu);
    assert_eq!(parsed.options[0].value, vec![0x00, 0x02]);
}

#[test]
fn test_discon_req() {
    let req = L2CapDisconReq { destination_cid: 0x0042, source_cid: 0x0041 };
    let data = req.build();
    assert_eq!(data.len(), 4);

    let parsed = L2CapDisconReq::parse(&data).unwrap();
    assert_eq!(parsed.destination_cid, 0x0042);
    assert_eq!(parsed.source_cid, 0x0041);
}

#[test]
fn test_channel_manager() {
    let mut mgr = L2CapChannelManager::new();
    assert_eq!(mgr.channel_count(), 0);

    let ch = mgr.create_channel(ConnHandle::new(0x0001), L2CapPsm::Rfcomm);
    ch.state = L2CapChannelState::Open;
    let ch_cid = ch.local_cid;

    assert_eq!(mgr.channel_count(), 1);
    assert!(ch_cid >= 0x0040);

    let found = mgr.find_by_local_cid(ch_cid);
    assert!(found.is_some());

    mgr.remove_channel(ch_cid);
    assert_eq!(mgr.channel_count(), 0);
}

#[test]
fn test_info_type() {
    assert_eq!(L2CapInfoType::from_raw(0x0001), Some(L2CapInfoType::ConnectionlessMtu));
    assert_eq!(L2CapInfoType::from_raw(0x0004), None);
}

#[test]
fn test_le_credit_conn() {
    let req = L2CapLeCreditConnReq {
        psm: L2CapPsm::LeCoC,
        source_cid: 0x0041,
        mtu: 512,
        mps: 256,
        initial_credits: 10,
    };
    let data = req.build();
    let parsed = L2CapLeCreditConnReq::parse(&data).unwrap();
    assert_eq!(parsed.psm, L2CapPsm::LeCoC);
    assert_eq!(parsed.mtu, 512);
    assert_eq!(parsed.mps, 256);
    assert_eq!(parsed.initial_credits, 10);
}

#[test]
fn test_sig_id_allocation() {
    let mut mgr = L2CapChannelManager::new();
    let id1 = mgr.alloc_sig_id();
    let id2 = mgr.alloc_sig_id();
    assert_eq!(id1, 1);
    assert_eq!(id2, 2);
}

#[test]
fn test_command_reject_build() {
    let reject = L2CapCommandReject::build(L2CapRejectReason::NotUnderstood, 0x05, 0);
    assert_eq!(reject[0], 0x01);
    assert_eq!(reject[1], 0x05);
    assert_eq!(reject[2], 0x02);
    assert_eq!(reject[3], 0x00);
    assert_eq!(reject.len(), 6);

    let reject2 = L2CapCommandReject::build(L2CapRejectReason::InvalidCidInRequest, 0x06, 0x0041);
    assert_eq!(reject2.len(), 8);
    assert_eq!(reject2[4], 0x02);
    assert_eq!(reject2[5], 0x00);
    assert_eq!(reject2[6], 0x41);
    assert_eq!(reject2[7], 0x00);
}

// ---------------------------------------------------------------------------
// Further cases
// ---------------------------------------------------------------------------

#[test]
fn b_frame_incomplete_is_rejected() {
    assert!(parse_l2cap_b_frame(&[0x04, 0x00, 0x41]).is_none());
    assert!(parse_l2cap_b_frame(&[0x04, 0x00, 0x41, 0x00, 0x01, 0x02]).is_none());
    let (f, n) = parse_l2cap_b_frame(&[0x01, 0x00, 0x40, 0x00, 0xAA, 0xBB]).unwrap();
    assert_eq!(f.cid, 0x0040);
    assert_eq!(f.payload, vec![0xAA]);
    assert_eq!(n, 5);
}

#[test]
fn sig_commands_skip_unknown_and_stop_at_truncated() {
    // unknown code 0x30, then a Disconnection Request, then a truncated command
    let data = vec![
        0x30, 0x01, 0x00, 0x00, //
        0x06, 0x02, 0x04, 0x00, 0x40, 0x00, 0x41, 0x00, //
        0x02, 0x03, 0x08, 0x00, 0x01,
    ];
    let cmds = parse_sig_commands(&data);
    assert_eq!(cmds.len(), 1);
    assert_eq!(cmds[0].code, L2CapSigCode::DisconnectionRequest);
    assert_eq!(cmds[0].id, 0x02);
    assert_eq!(cmds[0].data, vec![0x40, 0x00, 0x41, 0x00]);
}

#[test]
fn conn_result_unknown_maps_to_no_resources() {
    assert_eq!(L2CapConnResult::from_raw(0x0099), L2CapConnResult::NoResources);
    assert_eq!(L2CapConnResult::from_raw(0x0001), L2CapConnResult::Pending);
    assert_eq!(L2CapConfigResult::from_raw(0x0077), L2CapConfigResult::Rejected);
    assert_eq!(L2CapConfigResult::from_raw(0x0001), L2CapConfigResult::UnacceptableParams);
}

#[test]
fn config_unknown_option_type_keeps_its_byte() {
    let data = vec![0x41, 0x00, 0x00, 0x00, 0x00, 0x00, 0x99, 0x01, 0x07, 0x01, 0x02, 0xA0, 0x02];
    let rsp = L2CapConfigRsp::parse(&data).unwrap();
    assert_eq!(rsp.source_cid, 0x0041);
    assert_eq!(rsp.result, L2CapConfigResult::Success);
    assert_eq!(rsp.options.len(), 2);
    assert_eq!(rsp.options[0].opt_type, L2CapConfigOptType::Unknown(0x99));
    assert_eq!(rsp.options[0].opt_type.to_byte(), 0x99);
    assert_eq!(rsp.options[0].value, vec![0x07]);
    assert_eq!(rsp.options[1].opt_type, L2CapConfigOptType::Mtu);
    assert_eq!(rsp.options[1].value, vec![0xA0, 0x02]);
    assert!(L2CapConfigRsp::parse(&data[..5]).is_none());
}

#[test]
fn disconnect_response_parse() {
    let rsp = L2CapDisconRsp::parse(&[0x42, 0x00, 0x41, 0x00]).unwrap();
    assert_eq!(rsp.destination_cid, 0x0042);
    assert_eq!(rsp.source_cid, 0x0041);
    assert!(L2CapDisconRsp::parse(&[0x42, 0x00, 0x41]).is_none());
}

#[test]
fn le_credit_conn_without_credits_field() {
    let parsed = L2CapLeCreditConnReq::parse(&[0x80, 0x00, 0x41, 0x00, 0x00, 0x02, 0x00, 0x01]).unwrap();
    assert_eq!(parsed.psm, L2CapPsm::LeCoC);
    assert_eq!(parsed.initial_credits, 0);
    assert!(L2CapLeCreditConnReq::parse(&[0x80, 0x00, 0x41, 0x00, 0x00, 0x02, 0x00]).is_none());
}

#[test]
fn channel_manager_mtu_clamp_and_lookup() {
    let mut mgr = L2CapChannelManager::new();
    assert_eq!(mgr.local_mtu(), 672);
    mgr.set_local_mtu(10);
    assert_eq!(mgr.local_mtu(), 48);
    mgr.set_local_mtu(1000);
    assert_eq!(mgr.local_mtu(), 1000);

    let a = mgr.create_channel(ConnHandle::new(1), L2CapPsm::Sdp).local_cid;
    let b = {
        let ch = mgr.create_channel(ConnHandle::new(2), L2CapPsm::Rfcomm);
        ch.remote_cid = 0x0070;
        ch.local_cid
    };
    assert_eq!(a, 0x0040);
    assert_eq!(b, 0x0041);
    assert_eq!(mgr.find_by_remote_cid(0x0070).unwrap().local_cid, b);
    assert!(mgr.find_by_remote_cid(0x0071).is_none());
    let on2 = mgr.find_by_conn_handle(ConnHandle::new(2));
    assert_eq!(on2.len(), 1);
    assert_eq!(on2[0].local_cid, b);
    mgr.remove_channel(a);
    assert_eq!(mgr.channel_count(), 1);
    assert!(mgr.find_by_local_cid(a).is_none());
}

#[test]
fn sig_id_wraps_to_zero() {
    let mut mgr = L2CapChannelManager::new();
    let mut last = 0u8;
    for _ in 0..255 {
        last = mgr.alloc_sig_id();
    }
    assert_eq!(last, 255);
    assert_eq!(mgr.alloc_sig_id(), 0);
}
