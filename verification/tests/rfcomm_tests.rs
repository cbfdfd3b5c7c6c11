use minix_bt::rfcomm::{
    build_address, build_disc, build_dm, build_msc, build_pn, build_sabm, build_ua, build_uih,
    compute_fcs, decode_length, encode_length, parse_address, parse_msc, DlcParameterNegotiation,
    DlciDirection, DlciState, ModemSignals, MuxCommand, MuxCommandType, RfcommControl,
    RfcommFrame, RfcommSession,
};

#[test]
fn test_address_roundtrip() {
    for dlci in [0, 1, 2, 5, 10, 15, 30] {
        let addr = build_address(dlci, true);
        let (parsed_dlci, is_cmd) = parse_address(addr).unwrap();
        assert_eq!(parsed_dlci, dlci);
        assert!(is_cmd);
    }
}

#[test]
fn test_address_command_response() {
    let cmd_addr = build_address(5, true);
    let rsp_addr = build_address(5, false);
    assert_ne!(cmd_addr, rsp_addr);
    assert!(parse_address(cmd_addr).unwrap().1);
    assert!(!parse_address(rsp_addr).unwrap().1);
}

#[test]
fn test_invalid_dlci() {
    assert!(parse_address(0xFF).is_none());
}

#[test]
fn test_length_encode_decode() {
    for len in [0, 1, 63, 127] {
        let encoded = encode_length(len);
        let (decoded, consumed) = decode_length(&encoded).unwrap();
        assert_eq!(decoded, len);
        assert_eq!(consumed, 1);
    }

    let len = 200;
    let encoded = encode_length(len);
    assert_eq!(encoded.len(), 2);
    let (decoded, consumed) = decode_length(&encoded).unwrap();
    assert_eq!(decoded, len);
    assert_eq!(consumed, 2);
}

#[test]
fn test_frame_roundtrip() {
    let frame = RfcommFrame { dlci: 5, command: true, control: RfcommControl::Uih, data: vec![0x01, 0x02, 0x03] };
    let encoded = frame.encode();
    let (parsed, consumed) = RfcommFrame::parse(&encoded).unwrap();
    assert_eq!(parsed.dlci, 5);
    assert_eq!(parsed.command, true);
    assert_eq!(parsed.control, RfcommControl::Uih);
    assert_eq!(parsed.data, vec![0x01, 0x02, 0x03]);
    assert_eq!(consumed, encoded.len());
}

#[test]
fn test_sabm_frame() {
    let sabm = build_sabm(5, true);
    let (parsed, _) = RfcommFrame::parse(&sabm).unwrap();
    assert_eq!(parsed.dlci, 5);
    assert_eq!(parsed.control, RfcommControl::Sabm);
    assert!(parsed.data.is_empty());
}

#[test]
fn test_ua_frame() {
    let ua = build_ua(5, false);
    let (parsed, _) = RfcommFrame::parse(&ua).unwrap();
    assert_eq!(parsed.dlci, 5);
    assert_eq!(parsed.control, RfcommControl::Ua);
}

#[test]
fn test_dm_frame() {
    let dm = build_dm(5, false);
    let (parsed, _) = RfcommFrame::parse(&dm).unwrap();
    assert_eq!(parsed.control, RfcommControl::Dm);
}

#[test]
fn test_disc_frame() {
    let disc = build_disc(5, true);
    let (parsed, _) = RfcommFrame::parse(&disc).unwrap();
    assert_eq!(parsed.control, RfcommControl::Disc);
}

#[test]
fn test_modem_signals() {
    let signals = ModemSignals { fc: true, rtc: true, rtr: false, ic: true, dv: true };
    let encoded = signals.encode_signal_byte();
    let decoded = ModemSignals::decode_signal_byte(encoded);
    assert_eq!(signals.fc, decoded.fc);
    assert_eq!(signals.rtc, decoded.rtc);
    assert_eq!(signals.rtr, decoded.rtr);
    assert_eq!(signals.ic, decoded.ic);
    assert_eq!(signals.dv, decoded.dv);
}

#[test]
fn test_msc_roundtrip() {
    let signals = ModemSignals { fc: false, rtc: true, rtr: true, ic: false, dv: true };
    let msc_frame = build_msc(5, &signals, true);
    let (parsed_frame, _) = RfcommFrame::parse(&msc_frame).unwrap();
    assert_eq!(parsed_frame.dlci, 0);
    assert_eq!(parsed_frame.control, RfcommControl::Uih);

    let (target_dlci, parsed_signals) = parse_msc(&parsed_frame.data).unwrap();
    assert_eq!(target_dlci, 5);
    assert_eq!(parsed_signals.fc, signals.fc);
    assert_eq!(parsed_signals.dv, signals.dv);
}

#[test]
fn test_pn_roundtrip() {
    let pn = DlcParameterNegotiation {
        dlci: 5,
        credit_based_flow: true,
        priority: 0,
        max_frame_size: 512,
        initial_credits: 7,
    };
    let encoded = pn.encode();
    let parsed = DlcParameterNegotiation::parse(&encoded).unwrap();
    assert_eq!(parsed.dlci, 5);
    assert_eq!(parsed.credit_based_flow, true);
    assert_eq!(parsed.max_frame_size, 512);
    assert_eq!(parsed.initial_credits, 7);
}

#[test]
fn test_dlci_direction() {
    let init = DlciDirection::Initiator(5);
    assert_eq!(init.dlci(), 10);
    assert_eq!(init.channel(), 5);

    let resp = DlciDirection::Responder(5);
    assert_eq!(resp.dlci(), 11);
    assert_eq!(resp.channel(), 5);
}

#[test]
fn test_session_management() {
    let mut session = RfcommSession::new(0x0041, true);
    assert_eq!(session.dlci_state(5), DlciState::Closed);

    session.set_dlci_state(5, DlciState::Open);
    assert_eq!(session.dlci_state(5), DlciState::Open);

    let signals = ModemSignals { fc: false, rtc: true, rtr: true, ic: false, dv: false };
    session.set_dlci_signals(5, signals);
    assert_eq!(session.dlci_signals(5).rtc, true);
}

#[test]
fn test_fcs_invalid_frame() {
    let mut frame = build_uih(3, &[0x01], true);
    if let Some(last) = frame.last_mut() {
        *last ^= 0xFF;
    }
    assert!(RfcommFrame::parse(&frame).is_none());
}

#[test]
fn test_large_data_frame() {
    let data: Vec<u8> = (0..200).map(|i| i as u8).collect();
    let frame = build_uih(3, &data, true);
    let (parsed, _) = RfcommFrame::parse(&frame).unwrap();
    assert_eq!(parsed.data.len(), 200);
    assert_eq!(parsed.data[0], 0);
    assert_eq!(parsed.data[199], 199);
}

#[test]
fn test_modem_signals_default() {
    let s = ModemSignals::new();
    assert!(!s.fc);
    assert!(s.rtc);
    assert!(s.rtr);
    assert!(!s.ic);
    assert!(!s.dv);
}

#[test]
fn test_mux_command_parse() {
    let cmd = MuxCommand { cmd_type: MuxCommandType::Msc, data: vec![0x14, 0x8F] };
    let encoded = cmd.encode();
    let (parsed, _) = MuxCommand::parse(&encoded).unwrap();
    assert_eq!(parsed.cmd_type, MuxCommandType::Msc);
    assert_eq!(parsed.data, vec![0x14, 0x8F]);
}

#[test]
fn test_pn_build_frame() {
    let pn = DlcParameterNegotiation::new(5);
    let frame = build_pn(&pn, true);
    let (parsed, _) = RfcommFrame::parse(&frame).unwrap();
    assert_eq!(parsed.dlci, 0);
    assert_eq!(parsed.control, RfcommControl::Uih);
}

// ---------------------------------------------------------------------------
// Further cases
// ---------------------------------------------------------------------------

#[test]
fn fcs_known_values() {
    assert_eq!(compute_fcs(&[]), 0x00);
    assert_eq!(compute_fcs(&[0x03, 0x3F, 0x01]), 0x54);
    assert_eq!(compute_fcs(&[0x17, 0x1F, 0x01]), 0xF3);
    // SABM on DLCI 5, command: address 0x15, control 0x1F, length 0x01
    let sabm = build_sabm(5, true);
    assert_eq!(sabm[..3], [0x15, 0x1F, 0x01]);
    assert_eq!(sabm[3], compute_fcs(&sabm[..3]));
}

#[test]
fn length_edge_cases() {
    assert_eq!(encode_length(127), vec![0xFF]);
    assert_eq!(encode_length(128), vec![0x00, 0x03]);
    assert_eq!(encode_length(0x8000), vec![0x01]);
    assert!(decode_length(&[]).is_none());
    assert!(decode_length(&[0x02]).is_none());
    assert_eq!(decode_length(&[0x02, 0x05]), Some((1 + 2 * 128, 2)));
}

#[test]
fn address_extended_rejected() {
    assert!(parse_address(0x14).is_none());
    assert_eq!(build_address(5, false), 0x17);
    assert_eq!(parse_address(0x7B), Some((30, false)));
    assert_eq!(parse_address(0x79), Some((30, true)));
    assert!(parse_address(0x7D).is_none());
}

#[test]
fn dlci_from_value() {
    assert_eq!(DlciDirection::from_dlci(10), Some((5, DlciDirection::Initiator(5))));
    assert_eq!(DlciDirection::from_dlci(11), Some((5, DlciDirection::Responder(5))));
    assert!(DlciDirection::from_dlci(0).is_none());
    assert!(DlciDirection::from_dlci(31).is_none());
}

#[test]
fn frame_parse_rejections() {
    assert!(RfcommFrame::parse(&[0x15, 0x1F, 0x01]).is_none());
    // unknown control value
    assert!(RfcommFrame::parse(&[0x15, 0x20, 0x01, 0x00]).is_none());
    // data cut short
    assert!(RfcommFrame::parse(&[0x15, 0xEF, 0x07, 0x01, 0x02]).is_none());
}

#[test]
fn session_out_of_range_dlci() {
    let mut s = RfcommSession::new(0x40, false);
    s.set_dlci_state(31, DlciState::Open);
    assert_eq!(s.dlci_state(31), DlciState::Closed);
    assert_eq!(s.dlci_signals(40), ModemSignals::new());
}

#[test]
fn msc_rejects_short_or_bad() {
    assert!(parse_msc(&[0xEF, 0x01, 0x15]).is_none());
    // The command type is not checked: an RPN-typed TLV parses as well.
    assert!(parse_msc(&[0x10, 0x02, 0x15, 0x8D]).is_some());
    assert!(parse_msc(&[0xEF, 0x02, 0xFD, 0x8D]).is_none());
    let (d, s) = parse_msc(&[0xEF, 0x02, 0x15, 0x8C]).unwrap();
    assert_eq!(d, 5);
    assert!(s.rtc && s.rtr && s.dv && !s.fc && !s.ic);
}

#[test]
fn frame_with_corrupted_fcs_is_refused() {
    let frame = RfcommFrame { dlci: 7, command: false, control: RfcommControl::Uih, data: vec![0xAA; 20] };
    let mut encoded = frame.encode();
    let (parsed, consumed) = RfcommFrame::parse(&encoded).unwrap();
    assert_eq!(parsed.dlci, 7);
    assert_eq!(parsed.data, vec![0xAA; 20]);
    assert_eq!(consumed, encoded.len());
    let last = encoded.len() - 1;
    encoded[last] ^= 0xFF;
    assert!(RfcommFrame::parse(&encoded).is_none());
}
