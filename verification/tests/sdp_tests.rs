use minix_bt::sdp::{
    build_sdp_header, parse_sdp_header, AttributeIdSpec, ContinuationState, ErrorResponse,
    SdpErrorCode, SdpPduId, ServiceAttributeRequest, ServiceAttributeResponse,
    ServiceSearchRequest, ServiceSearchResponse, SDP_MAX_SIZE,
};
use minix_bt::types::BtUuid;

#[test]
fn test_sdp_header_roundtrip() {
    let header_bytes = build_sdp_header(SdpPduId::ServiceSearchRequest, 0x1234, 0);
    let (parsed, consumed) = parse_sdp_header(&header_bytes).unwrap();
    assert_eq!(parsed.pdu_id, SdpPduId::ServiceSearchRequest);
    assert_eq!(parsed.transaction_id, 0x1234);
    assert_eq!(parsed.param_length, 0);
    assert_eq!(consumed, 5);
}

#[test]
fn sdp_header_rejects_incomplete_and_unknown() {
    assert!(parse_sdp_header(&[0x02, 0, 1, 0, 2, 0xAA]).is_none());
    assert!(parse_sdp_header(&[0x09, 0, 1, 0, 0]).is_none());
    assert!(parse_sdp_header(&[0x02, 0, 1, 0]).is_none());
    let (h, _) = parse_sdp_header(&[0x07, 0xAB, 0xCD, 0, 1, 0xEE]).unwrap();
    assert_eq!(h.pdu_id, SdpPduId::ServiceSearchAttributeResponse);
    assert_eq!(h.transaction_id, 0xABCD);
    assert_eq!(build_sdp_header(SdpPduId::ErrorResponse, 0x0102, 0x0304), vec![1, 1, 2, 3, 4]);
}

#[test]
fn test_continuation_state() {
    let cont = ContinuationState::new();
    assert!(cont.is_complete());
    let encoded = cont.encode();
    assert_eq!(encoded, vec![0x00]);

    let cont2 = ContinuationState { data: vec![0x01, 0x02, 0x03] };
    let encoded2 = cont2.encode();
    assert_eq!(encoded2, vec![0x03, 0x01, 0x02, 0x03]);

    let parsed = ContinuationState::parse(&encoded2);
    assert_eq!(parsed.data, vec![0x01, 0x02, 0x03]);
}

#[test]
fn continuation_state_short_input() {
    assert_eq!(ContinuationState::parse(&[5, 1, 2]).data, vec![1, 2]);
    assert!(ContinuationState::parse(&[]).is_complete());
    assert!(ContinuationState::parse(&[0, 9]).is_complete());
}

#[test]
fn test_service_search_rsp_build_parse() {
    let rsp = ServiceSearchResponse {
        transaction_id: 0x0001,
        record_handles: vec![0x10000, 0x10001, 0x10002],
        cont_state: ContinuationState::new(),
    };
    let pdu = rsp.build(SDP_MAX_SIZE);
    assert!(pdu.len() > 5);

    let params = &pdu[5..];
    let parsed = ServiceSearchResponse::parse(0x0001, params).unwrap();
    assert_eq!(parsed.record_handles, vec![0x10000, 0x10001, 0x10002]);
}

#[test]
fn search_response_fragments_to_fit() {
    let rsp = ServiceSearchResponse {
        transaction_id: 7,
        record_handles: vec![1, 2, 3],
        cont_state: ContinuationState::new(),
    };
    // 5 header + 1 continuation leaves 10 bytes of parameters: count + 2 handles
    let pdu = rsp.build(16);
    assert_eq!(pdu, vec![0x03, 0, 7, 0, 11, 0, 2, 0, 0, 0, 1, 0, 0, 0, 2, 0]);
    let parsed = ServiceSearchResponse::parse(7, &pdu[5..]).unwrap();
    assert_eq!(parsed.record_handles, vec![1, 2]);
    assert!(ServiceSearchResponse::parse(7, &[0, 2, 0, 0, 0, 1]).is_none());
    assert!(ServiceSearchResponse::parse(7, &[0, 0]).is_none());
}

#[test]
fn attribute_response_roundtrip() {
    let rsp = ServiceAttributeResponse {
        transaction_id: 2,
        attrs: vec![0x09, 0x00, 0x00, 0x0A, 0x00, 0x01, 0x00, 0x00],
        cont_state: ContinuationState { data: vec![0x42] },
    };
    let pdu = rsp.build();
    assert_eq!(&pdu[..7], &[0x05, 0, 2, 0, 12, 0x35, 8]);
    let parsed = ServiceAttributeResponse::parse(2, &pdu[5..]).unwrap();
    assert_eq!(parsed.attrs, rsp.attrs);
    assert_eq!(parsed.cont_state.data, vec![0x42]);
    let big = ServiceAttributeResponse {
        transaction_id: 2,
        attrs: vec![7u8; 300],
        cont_state: ContinuationState::new(),
    };
    let pdu = big.build();
    assert_eq!(&pdu[5..8], &[0x36, 0x01, 0x2C]);
    assert_eq!(ServiceAttributeResponse::parse(2, &pdu[5..]).unwrap().attrs.len(), 300);
    assert!(ServiceAttributeResponse::parse(2, &[]).is_none());
    assert!(ServiceAttributeResponse::parse(2, &[0x30]).is_none());
}

#[test]
fn test_error_response() {
    let error_pdu = ErrorResponse::build(0x0001, SdpErrorCode::InvalidServiceRecordHandle);
    assert!(error_pdu.len() >= 7);
    assert_eq!(error_pdu[0], 0x01);
    assert_eq!(error_pdu[3], 0x00);
    assert_eq!(error_pdu[4], 0x02);
    assert_eq!(error_pdu[5], 0x00);
    assert_eq!(error_pdu[6], 0x02);
}

#[test]
fn error_codes_and_pdu_ids() {
    assert_eq!(SdpErrorCode::from_raw(0x0005), SdpErrorCode::InvalidContinuationState);
    assert_eq!(SdpErrorCode::from_raw(0x7777), SdpErrorCode::InvalidRequestSyntax);
    assert_eq!(SdpErrorCode::InsufficientResources.to_raw(), 6);
    assert_eq!(SdpPduId::from_byte(0x04), Some(SdpPduId::ServiceAttributeRequest));
    assert_eq!(SdpPduId::from_byte(0x00), None);
    assert_eq!(SdpPduId::ServiceSearchResponse.to_byte(), 3);
}

#[test]
fn attribute_id_spec_lookup() {
    let s = AttributeIdSpec::Specific(vec![1, 4, 9]);
    assert!(s.contains(4));
    assert!(!s.contains(5));
    assert_eq!(s.specific(), vec![1, 4, 9]);
    let r = AttributeIdSpec::Range(0x10, 0x20);
    assert!(r.contains(0x10));
    assert!(r.contains(0x20));
    assert!(!r.contains(0x21));
    assert!(r.specific().is_empty());
}

#[test]
fn test_service_search_req_build_parse() {
    let req = ServiceSearchRequest {
        transaction_id: 0x0001,
        search_pattern: vec![BtUuid::from_uuid16(0x1101)],
        max_records: 10,
        cont_state: ContinuationState::new(),
    };
    let pdu = req.build();
    assert!(pdu.len() > 5);

    let params = &pdu[5..];
    let parsed = ServiceSearchRequest::parse(0x0001, params).unwrap();
    assert_eq!(parsed.search_pattern.len(), 1);
    assert_eq!(parsed.search_pattern[0].as_uuid16(), Some(0x1101));
    assert_eq!(parsed.max_records, 10);
}

#[test]
fn search_request_wire_format_and_uuid_widths() {
    let mut full = [0u8; 16];
    full[0] = 0x12;
    full[15] = 0x34;
    let mut short32 = BtUuid::from_uuid16(0).bytes;
    short32[0] = 0xAB;
    let req = ServiceSearchRequest {
        transaction_id: 9,
        search_pattern: vec![BtUuid::from_uuid16(0x1101), BtUuid::from_bytes(short32), BtUuid::from_bytes(full)],
        max_records: 0x0102,
        cont_state: ContinuationState::new(),
    };
    let pdu = req.build();
    // header, sequence of 3 + 5 + 17 bytes, max records, no continuation
    assert_eq!(&pdu[..10], &[0x02, 0, 9, 0, 30, 0x35, 25, 0x19, 0x11, 0x01]);
    assert_eq!(pdu[10], 0x1A);
    assert_eq!(pdu[15], 0x1C);
    assert_eq!(&pdu[pdu.len() - 3..], &[0x01, 0x02, 0x00]);
    let parsed = ServiceSearchRequest::parse(9, &pdu[5..]).unwrap();
    assert_eq!(parsed.search_pattern.len(), 3);
    assert_eq!(parsed.search_pattern[1].bytes, short32);
    assert_eq!(parsed.search_pattern[2].bytes, full);
    assert!(ServiceSearchRequest::parse(9, &[0x35, 0, 0]).is_none());
    assert!(ServiceSearchRequest::parse(9, &[0x08, 0, 0, 0, 0]).is_none());
}

#[test]
fn test_service_attr_req_build() {
    let req = ServiceAttributeRequest {
        transaction_id: 0x0001,
        record_handle: 0x10000,
        attr_spec: AttributeIdSpec::Range(0x0000, 0x00FF),
        max_attrs: 4096,
        cont_state: ContinuationState::new(),
    };
    let pdu = req.build();
    assert!(pdu.len() > 5);

    let params = &pdu[5..];
    let parsed = ServiceAttributeRequest::parse(0x0001, params).unwrap();
    assert_eq!(parsed.record_handle, 0x10000);
    match parsed.attr_spec {
        AttributeIdSpec::Range(start, end) => {
            assert_eq!(start, 0x0000);
            assert_eq!(end, 0x00FF);
        }
        AttributeIdSpec::Specific(ref ids) => {
            assert_eq!(ids, &[0x0000, 0x00FF]);
        }
    }
    assert_eq!(parsed.max_attrs, 4096);
}

#[test]
fn attribute_request_nested_range_and_specific_ids() {
    // record 1, list: sequence holding a nested sequence of two IDs -> a range
    let params = [0, 0, 0, 1, 0x35, 8, 0x35, 6, 0x0A, 0x00, 0x01, 0x0A, 0x00, 0x20, 0x00, 0x40, 0x00];
    let parsed = ServiceAttributeRequest::parse(3, &params).unwrap();
    assert_eq!(parsed.attr_spec, AttributeIdSpec::Range(0x0001, 0x0020));
    assert_eq!(parsed.max_attrs, 0x0040);
    let req = ServiceAttributeRequest {
        transaction_id: 3,
        record_handle: 7,
        attr_spec: AttributeIdSpec::Specific(vec![1, 2, 3]),
        max_attrs: 100,
        cont_state: ContinuationState { data: vec![5] },
    };
    let pdu = req.build();
    let back = ServiceAttributeRequest::parse(3, &pdu[5..]).unwrap();
    assert_eq!(back.attr_spec, AttributeIdSpec::Specific(vec![1, 2, 3]));
    assert_eq!(back.record_handle, 7);
    assert_eq!(back.cont_state.data, vec![5]);
    assert!(ServiceAttributeRequest::parse(3, &[0, 0, 0, 1, 0x08, 0, 0]).is_none());
}

#[test]
fn truncated_requests_are_refused() {
    assert!(ServiceSearchRequest::parse(1, &[0x35, 0xFF, 0x00, 0x00, 0x00]).is_none());
    assert!(ServiceAttributeRequest::parse(1, &[0, 0, 0, 1, 0x35, 0xFF, 0x00]).is_none());
    assert!(ServiceAttributeResponse::parse(1, &[0x35, 0x09, 0x00]).is_none());
}
