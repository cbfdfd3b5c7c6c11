//! Service Discovery Protocol PDUs: the common header, continuation
//! state, service search and attribute requests and responses, and error
//! responses.
//!
//! A PDU is `| PDU ID (1) | transaction ID (2) | parameter length (2) |
//! parameters |`, all multi-byte fields big endian.

use vstd::prelude::*;
use crate::bytes::{be16, be32, hi8, lo8, u16_le, u32_be, read_u16_be, read_u32_be, push_u16_be, push_u32_be, push_slice, copy_range};
use crate::types::{BtUuid, BtUuidType, base_uuid_bytes, bluetooth_base_uuid, spec_uuid_type};

verus! {

/// Largest SDP request or response.
pub const SDP_MAX_SIZE: usize = 65535;
/// Default SDP MTU.
pub const SDP_DEFAULT_MTU: u16 = 672;
/// PSM of SDP.
pub const SDP_PSM: u16 = 0x0001;

/// Value of two big-endian bytes.
pub open spec fn u16_be(a: u8, b: u8) -> u16 {
    u16_le(b, a)
}

// ============================================================================
// PDU IDs and error codes
// ============================================================================

/// SDP PDU IDs.
#[derive(Clone, Copy, PartialEq, Eq, Debug, Structural)]
pub enum SdpPduId {
    ErrorResponse,
    ServiceSearchRequest,
    ServiceSearchResponse,
    ServiceAttributeRequest,
    ServiceAttributeResponse,
    ServiceSearchAttributeRequest,
    ServiceSearchAttributeResponse,
}

impl SdpPduId {
    /// Wire value, 1 to 7 in declaration order.
    pub open spec fn code(self) -> u8 {
        match self {
            SdpPduId::ErrorResponse => 0x01,
            SdpPduId::ServiceSearchRequest => 0x02,
            SdpPduId::ServiceSearchResponse => 0x03,
            SdpPduId::ServiceAttributeRequest => 0x04,
            SdpPduId::ServiceAttributeResponse => 0x05,
            SdpPduId::ServiceSearchAttributeRequest => 0x06,
            SdpPduId::ServiceSearchAttributeResponse => 0x07,
        }
    }

    /// The PDU ID with wire value `b`, if any.
    pub open spec fn of_byte(b: u8) -> Option<SdpPduId> {
        if b == 0x01 {
            Some(SdpPduId::ErrorResponse)
        } else if b == 0x02 {
            Some(SdpPduId::ServiceSearchRequest)
        } else if b == 0x03 {
            Some(SdpPduId::ServiceSearchResponse)
        } else if b == 0x04 {
            Some(SdpPduId::ServiceAttributeRequest)
        } else if b == 0x05 {
            Some(SdpPduId::ServiceAttributeResponse)
        } else if b == 0x06 {
            Some(SdpPduId::ServiceSearchAttributeRequest)
        } else if b == 0x07 {
            Some(SdpPduId::ServiceSearchAttributeResponse)
        } else {
            None
        }
    }

    /// The PDU ID with wire value `b`, if any.
    pub fn from_byte(b: u8) -> (r: Option<Self>)
        ensures
            r == Self::of_byte(b),
    {
        match b {
            0x01 => Some(SdpPduId::ErrorResponse),
            0x02 => Some(SdpPduId::ServiceSearchRequest),
            0x03 => Some(SdpPduId::ServiceSearchResponse),
            0x04 => Some(SdpPduId::ServiceAttributeRequest),
            0x05 => Some(SdpPduId::ServiceAttributeResponse),
            0x06 => Some(SdpPduId::ServiceSearchAttributeRequest),
            0x07 => Some(SdpPduId::ServiceSearchAttributeResponse),
            _ => None,
        }
    }

    /// Wire value of the PDU ID.
    pub fn to_byte(&self) -> (r: u8)
        ensures
            r == self.code(),
    {
        match self {
            SdpPduId::ErrorResponse => 0x01,
            SdpPduId::ServiceSearchRequest => 0x02,
            SdpPduId::ServiceSearchResponse => 0x03,
            SdpPduId::ServiceAttributeRequest => 0x04,
            SdpPduId::ServiceAttributeResponse => 0x05,
            SdpPduId::ServiceSearchAttributeRequest => 0x06,
            SdpPduId::ServiceSearchAttributeResponse => 0x07,
        }
    }
}

/// SDP error codes.
#[derive(Clone, Copy, PartialEq, Eq, Debug, Structural)]
pub enum SdpErrorCode {
    Success,
    InvalidSdpVersion,
    InvalidServiceRecordHandle,
    InvalidRequestSyntax,
    InvalidPduSize,
    InvalidContinuationState,
    InsufficientResources,
}

impl SdpErrorCode {
    /// Wire value, 0 to 6 in declaration order.
    pub open spec fn code(self) -> u16 {
        match self {
            SdpErrorCode::Success => 0x0000,
            SdpErrorCode::InvalidSdpVersion => 0x0001,
            SdpErrorCode::InvalidServiceRecordHandle => 0x0002,
            SdpErrorCode::InvalidRequestSyntax => 0x0003,
            SdpErrorCode::InvalidPduSize => 0x0004,
            SdpErrorCode::InvalidContinuationState => 0x0005,
            SdpErrorCode::InsufficientResources => 0x0006,
        }
    }

    /// The error code with wire value `raw`; unknown values read as an
    /// invalid request syntax.
    pub open spec fn of_raw(raw: u16) -> SdpErrorCode {
        if raw == 0x0000 {
            SdpErrorCode::Success
        } else if raw == 0x0001 {
            SdpErrorCode::InvalidSdpVersion
        } else if raw == 0x0002 {
            SdpErrorCode::InvalidServiceRecordHandle
        } else if raw == 0x0003 {
            SdpErrorCode::InvalidRequestSyntax
        } else if raw == 0x0004 {
            SdpErrorCode::InvalidPduSize
        } else if raw == 0x0005 {
            SdpErrorCode::InvalidContinuationState
        } else if raw == 0x0006 {
            SdpErrorCode::InsufficientResources
        } else {
            SdpErrorCode::InvalidRequestSyntax
        }
    }

    /// Wire value of the error code.
    pub fn to_raw(self) -> (r: u16)
        ensures
            r == self.code(),
    {
        match self {
            SdpErrorCode::Success => 0x0000,
            SdpErrorCode::InvalidSdpVersion => 0x0001,
            SdpErrorCode::InvalidServiceRecordHandle => 0x0002,
            SdpErrorCode::InvalidRequestSyntax => 0x0003,
            SdpErrorCode::InvalidPduSize => 0x0004,
            SdpErrorCode::InvalidContinuationState => 0x0005,
            SdpErrorCode::InsufficientResources => 0x0006,
        }
    }

    /// The error code with wire value `raw` (see `of_raw`).
    pub fn from_raw(raw: u16) -> (r: Self)
        ensures
            r == Self::of_raw(raw),
    {
        match raw {
            0x0000 => SdpErrorCode::Success,
            0x0001 => SdpErrorCode::InvalidSdpVersion,
            0x0002 => SdpErrorCode::InvalidServiceRecordHandle,
            0x0003 => SdpErrorCode::InvalidRequestSyntax,
            0x0004 => SdpErrorCode::InvalidPduSize,
            0x0005 => SdpErrorCode::InvalidContinuationState,
            0x0006 => SdpErrorCode::InsufficientResources,
            _ => SdpErrorCode::InvalidRequestSyntax,
        }
    }
}

// ============================================================================
// Continuation state
// ============================================================================

/// Continuation state of a fragmented response: `| length (1) | data |`;
/// empty data means the response is complete.
#[derive(Clone, Debug)]
pub struct ContinuationState {
    pub data: Vec<u8>,
}

/// The continuation data at the start of `d`: its length byte's worth of
/// the bytes that follow, or as many as there are; nothing when `d` is
/// empty or starts with 0.
pub open spec fn cont_data_of(d: Seq<u8>) -> Seq<u8> {
    if d.len() == 0 || d[0] == 0 {
        seq![]
    } else {
        let n = if (d[0] as int) < d.len() - 1 { d[0] as int } else { d.len() - 1 };
        d.subrange(1, 1 + n)
    }
}

/// Encoding of continuation data: a single 0 when there is none, else its
/// length, truncated to 8 bits, and the data.
pub open spec fn cont_bytes(data: Seq<u8>) -> Seq<u8> {
    if data.len() == 0 {
        seq![0u8]
    } else {
        seq![data.len() as u8] + data
    }
}

impl ContinuationState {
    /// No continuation.
    pub fn new() -> (r: Self)
        ensures
            r.data@.len() == 0,
    {
        ContinuationState { data: Vec::new() }
    }

    /// Reads continuation state from `data` (see `cont_data_of`).
    pub fn parse(data: &[u8]) -> (r: Self)
        ensures
            r.data@ == cont_data_of(data@),
    {
        if data.len() == 0 {
            return Self::new();
        }
        let len = data[0] as usize;
        if len == 0 {
            return Self::new();
        }
        let avail = data.len() - 1;
        let n = if len < avail { len } else { avail };
        ContinuationState { data: copy_range(data, 1, 1 + n) }
    }

    /// Encodes the continuation state (see `cont_bytes`).
    pub fn encode(&self) -> (r: Vec<u8>)
        ensures
            r@ == cont_bytes(self.data@),
    {
        if self.data.len() == 0 {
            return vec![0x00];
        }
        let mut buf: Vec<u8> = Vec::new();
        buf.push(self.data.len() as u8);
        push_slice(&mut buf, self.data.as_slice());
        assert(buf@ =~= cont_bytes(self.data@));
        buf
    }

    /// Whether the response is complete (no continuation data).
    pub fn is_complete(&self) -> (r: bool)
        ensures
            r == (self.data@.len() == 0),
    {
        self.data.len() == 0
    }
}

/// Continuation data of at most 255 bytes reads back from its encoding,
/// whatever follows it.
pub proof fn lemma_cont_roundtrip(data: Seq<u8>, rest: Seq<u8>)
    requires
        data.len() <= 255,
    ensures
        cont_data_of(cont_bytes(data) + rest) == data.take(data.len() as int),
        cont_bytes(data).len() == data.len() + 1,
{
    let b = cont_bytes(data) + rest;
    if data.len() > 0 {
        assert(b[0] == data.len() as u8);
        assert(b.subrange(1, 1 + data.len() as int) =~= data);
    }
    assert(data.take(data.len() as int) =~= data);
}

// ============================================================================
// PDU header
// ============================================================================

/// The common PDU header.
#[derive(Clone, Debug)]
pub struct SdpHeader {
    pub pdu_id: SdpPduId,
    pub transaction_id: u16,
    pub param_length: u16,
}

/// Encoding of a PDU header.
pub open spec fn header_bytes(pdu: SdpPduId, tid: u16, plen: u16) -> Seq<u8> {
    seq![pdu.code()] + be16(tid) + be16(plen)
}

/// Whether `d` starts with a complete PDU: a known PDU ID and as many
/// parameter bytes as its header announces.
pub open spec fn pdu_complete(d: Seq<u8>) -> bool {
    &&& d.len() >= 5
    &&& SdpPduId::of_byte(d[0]) is Some
    &&& 5 + u16_be(d[3], d[4]) <= d.len()
}

/// Reads the header of the PDU at the start of `data`; returns it and its
/// size (5), or `None` when the PDU is not complete (see `pdu_complete`).
pub fn parse_sdp_header(data: &[u8]) -> (r: Option<(SdpHeader, usize)>)
    ensures
        r is Some <==> pdu_complete(data@),
        r matches Some((h, n)) ==> {
            &&& n == 5
            &&& Some(h.pdu_id) == SdpPduId::of_byte(data@[0])
            &&& h.transaction_id == u16_be(data@[1], data@[2])
            &&& h.param_length == u16_be(data@[3], data@[4])
        },
{
    if data.len() < 5 {
        return None;
    }
    let pdu_id = match SdpPduId::from_byte(data[0]) {
        Some(p) => p,
        None => return None,
    };
    let transaction_id = read_u16_be(data[1], data[2]);
    let param_length = read_u16_be(data[3], data[4]);
    if param_length as usize > data.len() - 5 {
        return None;
    }
    Some((SdpHeader { pdu_id, transaction_id, param_length }, 5))
}

/// Encodes a PDU header.
pub fn build_sdp_header(pdu_id: SdpPduId, transaction_id: u16, param_length: u16) -> (r: Vec<u8>)
    ensures
        r@ == header_bytes(pdu_id, transaction_id, param_length),
{
    let mut buf: Vec<u8> = Vec::new();
    buf.push(pdu_id.to_byte());
    push_u16_be(&mut buf, transaction_id);
    push_u16_be(&mut buf, param_length);
    assert(buf@ =~= header_bytes(pdu_id, transaction_id, param_length));
    buf
}

/// A header followed by at least as many parameter bytes as it announces
/// reads back as the same PDU ID, transaction ID and length.
pub proof fn lemma_header_roundtrip(pdu: SdpPduId, tid: u16, plen: u16, params: Seq<u8>)
    requires
        params.len() >= plen,
    ensures
        pdu_complete(header_bytes(pdu, tid, plen) + params),
        SdpPduId::of_byte((header_bytes(pdu, tid, plen) + params)[0]) == Some(pdu),
        u16_be((header_bytes(pdu, tid, plen) + params)[1], (header_bytes(pdu, tid, plen) + params)[2]) == tid,
        u16_be((header_bytes(pdu, tid, plen) + params)[3], (header_bytes(pdu, tid, plen) + params)[4]) == plen,
{
    crate::bytes::lemma_le16_roundtrip(tid);
    crate::bytes::lemma_le16_roundtrip(plen);
}

// ============================================================================
// Error response
// ============================================================================

/// Error response PDU.
#[derive(Clone, Debug)]
pub struct ErrorResponse {
    pub transaction_id: u16,
    pub error_code: SdpErrorCode,
}

impl ErrorResponse {
    /// Encodes an error response carrying `error_code`.
    pub fn build(transaction_id: u16, error_code: SdpErrorCode) -> (r: Vec<u8>)
        ensures
            r@ == header_bytes(SdpPduId::ErrorResponse, transaction_id, 2) + be16(error_code.code()),
    {
        let mut pdu = build_sdp_header(SdpPduId::ErrorResponse, transaction_id, 2);
        push_u16_be(&mut pdu, error_code.to_raw());
        pdu
    }
}

// ============================================================================
// Service search response
// ============================================================================

/// Service search response PDU.
#[derive(Clone, Debug)]
pub struct ServiceSearchResponse {
    pub transaction_id: u16,
    /// Matching service record handles.
    pub record_handles: Vec<u32>,
    /// Continuation state; non-empty when more handles follow.
    pub cont_state: ContinuationState,
}

/// The `n` big-endian 32-bit handles after the two count bytes of `d`.
pub open spec fn handles_in(d: Seq<u8>, n: int) -> Seq<u32> {
    Seq::new(n as nat, |i: int| u32_be(d[2 + 4 * i], d[3 + 4 * i], d[4 + 4 * i], d[5 + 4 * i]))
}

/// Encoding of a list of handles, each big endian.
pub open spec fn handle_bytes(hs: Seq<u32>) -> Seq<u8>
    decreases hs.len(),
{
    if hs.len() == 0 {
        seq![]
    } else {
        handle_bytes(hs.drop_last()) + be32(hs.last())
    }
}

/// How many of `n` handles a response holds when at most `max_pdu` bytes
/// may be sent and the continuation state takes `cont_len` bytes: all of
/// them when they fit, else as many whole handles as fit.
pub open spec fn handles_sent(n: int, max_pdu: int, cont_len: int) -> int {
    let max_params = if max_pdu >= 5 + cont_len { max_pdu - (5 + cont_len) } else { 0 };
    if max_params < 4 * n + 4 {
        (if max_params >= 2 { max_params - 2 } else { 0 }) / 4
    } else {
        n
    }
}

/// Parameters of a service search response carrying the first `k` of
/// `hs`.
pub open spec fn search_rsp_params(hs: Seq<u32>, k: int, cont: Seq<u8>) -> Seq<u8> {
    be16(k as u16) + handle_bytes(hs.take(k)) + cont_bytes(cont)
}

proof fn lemma_handle_bytes_len(hs: Seq<u32>)
    ensures
        handle_bytes(hs).len() == 4 * hs.len(),
    decreases hs.len(),
{
    if hs.len() > 0 {
        lemma_handle_bytes_len(hs.drop_last());
    }
}

proof fn lemma_handle_bytes_index(hs: Seq<u32>, i: int)
    requires
        0 <= i < hs.len(),
    ensures
        handle_bytes(hs).len() == 4 * hs.len(),
        handle_bytes(hs).subrange(4 * i, 4 * i + 4) == be32(hs[i]),
    decreases hs.len(),
{
    lemma_handle_bytes_len(hs);
    lemma_handle_bytes_len(hs.drop_last());
    if i < hs.len() - 1 {
        lemma_handle_bytes_index(hs.drop_last(), i);
        assert(handle_bytes(hs).subrange(4 * i, 4 * i + 4) =~= handle_bytes(hs.drop_last()).subrange(4 * i, 4 * i + 4));
    } else {
        assert(handle_bytes(hs).subrange(4 * i, 4 * i + 4) =~= be32(hs.last()));
    }
}

impl ServiceSearchResponse {
    /// Reads a service search response's parameters: at least 3 bytes; the
    /// handle count, that many handles (`None` when they do not fit), then
    /// the continuation state.
    pub fn parse(transaction_id: u16, data: &[u8]) -> (r: Option<Self>)
        ensures
            r is Some <==> data@.len() >= 3 && 2 + 4 * u16_be(data@[0], data@[1]) <= data@.len(),
            r matches Some(s) ==> {
                let n = u16_be(data@[0], data@[1]) as int;
                &&& s.transaction_id == transaction_id
                &&& s.record_handles@ == handles_in(data@, n)
                &&& s.cont_state.data@ == cont_data_of(data@.skip(2 + 4 * n))
            },
    {
        if data.len() < 3 {
            return None;
        }
        let total = read_u16_be(data[0], data[1]) as usize;
        if total > (data.len() - 2) / 4 {
            return None;
        }
        let mut handles: Vec<u32> = Vec::new();
        let dl = data.len();
        let mut i: usize = 0;
        while i < total
            invariant
                dl == data@.len(),
                i <= total,
                2 + 4 * total <= data@.len(),
                handles@ == handles_in(data@, i as int),
            decreases total - i,
        {
            assert(2 + i * 4 + 4 <= data@.len()) by (nonlinear_arith)
                requires
                    i < total,
                    2 + 4 * total <= data@.len(),
            ;
            assert(2 + i * 4 + 4 <= dl);
            let off = 2 + i * 4;
            let h = read_u32_be(data[off], data[off + 1], data[off + 2], data[off + 3]);
            handles.push(h);
            i = i + 1;
            assert(handles@ =~= handles_in(data@, i as int));
        }
        let offset = 2 + total * 4;
        let rest = copy_range(data, offset, data.len());
        assert(rest@ =~= data@.skip(offset as int));
        let cont_state = ContinuationState::parse(rest.as_slice());
        Some(ServiceSearchResponse { transaction_id, record_handles: handles, cont_state })
    }

    /// Encodes the response for PDUs of at most `max_pdu_size` bytes: when
    /// the handles do not all fit, only as many whole handles as fit are
    /// sent, with the count set to match.
    pub fn build(&self, max_pdu_size: usize) -> (r: Vec<u8>)
        requires
            self.record_handles@.len() <= 0x1000_0000,
            self.cont_state.data@.len() <= 0x1000_0000,
        ensures
            ({
                let hs = self.record_handles@;
                let c = self.cont_state.data@;
                let k = handles_sent(hs.len() as int, max_pdu_size as int, cont_bytes(c).len() as int);
                let p = search_rsp_params(hs, k, c);
                &&& 0 <= k <= hs.len()
                &&& r@ == header_bytes(SdpPduId::ServiceSearchResponse, self.transaction_id, p.len() as u16) + p
            }),
    {
        let n = self.record_handles.len();
        let cont = self.cont_state.encode();
        let header_size: usize = 5;
        let used = header_size + cont.len();
        let max_params = if max_pdu_size >= used { max_pdu_size - used } else { 0 };
        let k = if max_params < 4 * n + 4 {
            let available = if max_params >= 2 { max_params - 2 } else { 0 };
            assert(available / 4 <= n) by (nonlinear_arith)
                requires
                    available < 4 * n + 2,
            ;
            available / 4
        } else {
            n
        };
        let mut params: Vec<u8> = Vec::new();
        push_u16_be(&mut params, k as u16);
        let ghost head = params@;
        let mut i: usize = 0;
        while i < k
            invariant
                i <= k <= n,
                n == self.record_handles@.len(),
                params@ == head + handle_bytes(self.record_handles@.take(i as int)),
            decreases k - i,
        {
            push_u32_be(&mut params, self.record_handles[i]);
            proof {
                let t = self.record_handles@.take(i + 1);
                assert(t.drop_last() =~= self.record_handles@.take(i as int));
            }
            i = i + 1;
        }
        push_slice(&mut params, cont.as_slice());
        let mut pdu = build_sdp_header(SdpPduId::ServiceSearchResponse, self.transaction_id, params.len() as u16);
        push_slice(&mut pdu, params.as_slice());
        proof {
            let hs = self.record_handles@;
            assert(params@ =~= search_rsp_params(hs, k as int, self.cont_state.data@));
        }
        pdu
    }
}

// ============================================================================
// Attribute ID lists
// ============================================================================

/// The attributes a request asks for.
#[derive(Clone, Debug, PartialEq)]
pub enum AttributeIdSpec {
    /// These attribute IDs.
    Specific(Vec<u16>),
    /// The IDs from the first to the second, inclusive.
    Range(u16, u16),
}

impl AttributeIdSpec {
    /// The IDs listed; none for a range.
    pub fn specific(&self) -> (r: Vec<u16>)
        ensures
            match self {
                AttributeIdSpec::Specific(ids) => r@ == ids@,
                AttributeIdSpec::Range(_, _) => r@.len() == 0,
            },
    {
        match self {
            AttributeIdSpec::Specific(ids) => {
                let mut out: Vec<u16> = Vec::new();
                let mut i: usize = 0;
                while i < ids.len()
                    invariant
                        i <= ids@.len(),
                        out@ == ids@.take(i as int),
                    decreases ids@.len() - i,
                {
                    out.push(ids[i]);
                    i = i + 1;
                    assert(out@ =~= ids@.take(i as int));
                }
                assert(ids@.take(i as int) =~= ids@);
                out
            },
            AttributeIdSpec::Range(_, _) => Vec::new(),
        }
    }

    /// Whether attribute `id` is asked for.
    pub fn contains(&self, id: u16) -> (r: bool)
        ensures
            r == match self {
                AttributeIdSpec::Specific(ids) => ids@.contains(id),
                AttributeIdSpec::Range(start, end) => *start <= id <= *end,
            },
    {
        match self {
            AttributeIdSpec::Specific(ids) => {
                let mut i: usize = 0;
                while i < ids.len()
                    invariant
                        i <= ids@.len(),
                        *self == AttributeIdSpec::Specific(*ids),
                        forall|j: int| 0 <= j < i ==> ids@[j] != id,
                    decreases ids@.len() - i,
                {
                    if ids[i] == id {
                        assert(ids@[i as int] == id);
                        assert(ids@.contains(id));
                        return true;
                    }
                    i = i + 1;
                }
                false
            },
            AttributeIdSpec::Range(start, end) => id >= *start && id <= *end,
        }
    }
}

// ============================================================================
// Data element sequence headers
// ============================================================================

/// Header of a data element sequence whose body is `len` bytes long: type
/// 6 with the smallest of the 1-, 2- and 4-byte length forms that holds
/// `len` (truncated to 32 bits).
pub open spec fn seq_header(len: nat) -> Seq<u8> {
    if len <= 0xFF {
        seq![0x35u8, len as u8]
    } else if len <= 0xFFFF {
        seq![0x36u8] + be16(len as u16)
    } else {
        seq![0x37u8] + be32(len as u32)
    }
}

/// Where the body of the data element whose header starts `d[at..]` lies,
/// read from the size descriptor alone: (start, length), or `None` when
/// the descriptor is not a 1-, 2- or 4-byte length form or the length
/// bytes are missing.
pub open spec fn element_body(d: Seq<u8>, at: int) -> Option<(int, int)> {
    let sd = d[at] % 8;
    if sd == 5 && at + 2 <= d.len() {
        Some((at + 2, d[at + 1] as int))
    } else if sd == 6 && at + 3 <= d.len() {
        Some((at + 3, u16_be(d[at + 1], d[at + 2]) as int))
    } else if sd == 7 && at + 5 <= d.len() {
        Some((at + 5, u32_be(d[at + 1], d[at + 2], d[at + 3], d[at + 4]) as int))
    } else {
        None
    }
}

/// Pushes the header of a sequence whose body is `len` bytes long.
fn push_seq_header(buf: &mut Vec<u8>, len: usize)
    ensures
        final(buf)@ == old(buf)@ + seq_header(len as nat),
{
    if len <= 0xFF {
        buf.push(0x35);
        buf.push(len as u8);
    } else if len <= 0xFFFF {
        buf.push(0x36);
        push_u16_be(buf, len as u16);
    } else {
        buf.push(0x37);
        push_u32_be(buf, len as u32);
    }
    assert(final(buf)@ =~= old(buf)@ + seq_header(len as nat));
}

/// Reads the body position of the element at `d[at..]` (see
/// `element_body`).
fn read_element_body(d: &[u8], at: usize) -> (r: Option<(usize, usize)>)
    requires
        at < d@.len(),
    ensures
        match element_body(d@, at as int) {
            Some((st, n)) => r == Some((st as usize, n as usize)) && st == r.unwrap().0 && n == r.unwrap().1,
            None => r is None,
        },
{
    let sd = d[at] % 8;
    if sd == 5 && d.len() - at >= 2 {
        Some((at + 2, d[at + 1] as usize))
    } else if sd == 6 && d.len() - at >= 3 {
        Some((at + 3, read_u16_be(d[at + 1], d[at + 2]) as usize))
    } else if sd == 7 && d.len() - at >= 5 {
        let n = read_u32_be(d[at + 1], d[at + 2], d[at + 3], d[at + 4]);
        Some((at + 5, n as usize))
    } else {
        None
    }
}

/// A sequence header read back gives the body length it was built for.
pub proof fn lemma_seq_header_roundtrip(len: nat, rest: Seq<u8>)
    requires
        len <= 0xFFFF_FFFF,
    ensures
        element_body(seq_header(len) + rest, 0) == Some((seq_header(len).len() as int, len as int)),
        (seq_header(len) + rest)[0] / 8 == 6,
{
    let b = seq_header(len) + rest;
    if len <= 0xFF {
    } else if len <= 0xFFFF {
        crate::bytes::lemma_le16_roundtrip(len as u16);
    } else {
        lemma_be32_roundtrip(len as u32);
        assert(b[1] == be32(len as u32)[0]);
        assert(b[2] == be32(len as u32)[1]);
        assert(b[3] == be32(len as u32)[2]);
        assert(b[4] == be32(len as u32)[3]);
    }
}

/// Four big-endian bytes of a 32-bit value read back as that value.
pub proof fn lemma_be32_roundtrip(x: u32)
    ensures
        u32_be(be32(x)[0], be32(x)[1], be32(x)[2], be32(x)[3]) == x,
{
    assert(u32_be((x / 0x1000000) as u8, ((x / 0x10000) % 256) as u8, ((x / 256) % 256) as u8, (x % 256) as u8) == x)
        by (bit_vector);
}

// ============================================================================
// Service attribute response
// ============================================================================

/// Service attribute response PDU.
#[derive(Clone, Debug)]
pub struct ServiceAttributeResponse {
    pub transaction_id: u16,
    /// Attribute list body: encoded (ID, value) pairs.
    pub attrs: Vec<u8>,
    pub cont_state: ContinuationState,
}

impl ServiceAttributeResponse {
    /// Reads a service attribute response's parameters: the attribute list
    /// body, located by its header's size descriptor, then the continuation
    /// state; `None` when `data` is empty, the size descriptor has no
    /// length form or the list runs past the end of `data`.
    pub fn parse(transaction_id: u16, data: &[u8]) -> (r: Option<Self>)
        ensures
            r is Some <==> data@.len() > 0 && match element_body(data@, 0) {
                Some((st, n)) => st + n <= data@.len(),
                None => false,
            },
            r matches Some(s) ==> {
                let (st, n) = element_body(data@, 0).unwrap();
                &&& s.transaction_id == transaction_id
                &&& s.attrs@ == data@.subrange(st, st + n)
                &&& s.cont_state.data@ == cont_data_of(data@.skip(st + n))
            },
    {
        if data.len() == 0 {
            return None;
        }
        match read_element_body(data, 0) {
            Some((st, n)) => {
                if n > data.len() - st {
                    return None;
                }
                let attrs = copy_range(data, st, st + n);
                let rest = copy_range(data, st + n, data.len());
                assert(rest@ =~= data@.skip(st + n));
                let cont_state = ContinuationState::parse(rest.as_slice());
                Some(ServiceAttributeResponse { transaction_id, attrs, cont_state })
            },
            None => None,
        }
    }

    /// Encodes the response: a sequence header for the attribute list, the
    /// list, and the continuation state.
    pub fn build(&self) -> (r: Vec<u8>)
        requires
            self.attrs@.len() <= 0x1000_0000,
            self.cont_state.data@.len() <= 0x1000_0000,
        ensures
            ({
                let p = seq_header(self.attrs@.len()) + self.attrs@ + cont_bytes(self.cont_state.data@);
                r@ == header_bytes(SdpPduId::ServiceAttributeResponse, self.transaction_id, p.len() as u16) + p
            }),
    {
        let mut params: Vec<u8> = Vec::new();
        push_seq_header(&mut params, self.attrs.len());
        push_slice(&mut params, self.attrs.as_slice());
        let cont = self.cont_state.encode();
        push_slice(&mut params, cont.as_slice());
        let mut pdu = build_sdp_header(SdpPduId::ServiceAttributeResponse, self.transaction_id, params.len() as u16);
        push_slice(&mut pdu, params.as_slice());
        pdu
    }
}

/// An attribute response reads back from its encoding: the same
/// attribute list and, for continuation data of at most 255 bytes, the
/// same continuation.
pub proof fn lemma_attr_rsp_roundtrip(attrs: Seq<u8>, cont: Seq<u8>)
    requires
        attrs.len() <= 0xFFFF_FFFF,
        cont.len() <= 255,
    ensures
        ({
            let p = seq_header(attrs.len()) + attrs + cont_bytes(cont);
            let (st, n) = element_body(p, 0).unwrap();
            &&& st + n <= p.len()
            &&& element_body(p, 0) is Some
            &&& p.subrange(st, st + n) == attrs
            &&& cont_data_of(p.skip(st + n)) == cont
        }),
{
    let h = seq_header(attrs.len());
    let p = h + attrs + cont_bytes(cont);
    lemma_seq_header_roundtrip(attrs.len(), attrs + cont_bytes(cont));
    assert(p =~= h + (attrs + cont_bytes(cont)));
    let st = h.len() as int;
    let n = attrs.len() as int;
    assert(p.subrange(st, st + n) =~= attrs);
    assert(p.skip(st + n) =~= cont_bytes(cont) + Seq::<u8>::empty());
    lemma_cont_roundtrip(cont, Seq::<u8>::empty());
    assert(cont.take(cont.len() as int) =~= cont);
}

/// A search response reads back from its encoding: the handles it was
/// able to carry (all of them when they fit) and, for continuation data of
/// at most 255 bytes, the same continuation.
pub proof fn lemma_search_rsp_roundtrip(hs: Seq<u32>, k: int, cont: Seq<u8>)
    requires
        0 <= k <= hs.len(),
        k <= 0xFFFF,
        cont.len() <= 255,
    ensures
        ({
            let p = search_rsp_params(hs, k, cont);
            let n = u16_be(p[0], p[1]) as int;
            &&& p.len() >= 3
            &&& n == k
            &&& 2 + 4 * n <= p.len()
            &&& handles_in(p, n) == hs.take(k)
            &&& cont_data_of(p.skip(2 + 4 * n)) == cont
        }),
{
    let p = search_rsp_params(hs, k, cont);
    let t = hs.take(k);
    crate::bytes::lemma_le16_roundtrip(k as u16);
    lemma_handle_bytes_len(t);
    lemma_cont_roundtrip(cont, Seq::<u8>::empty());
    assert(cont.take(cont.len() as int) =~= cont);
    assert(p.skip(2 + 4 * k) =~= cont_bytes(cont) + Seq::<u8>::empty());
    assert forall|i: int| 0 <= i < k implies #[trigger] handles_in(p, k)[i] == t[i] by {
        lemma_handle_bytes_index(t, i);
        let hb = handle_bytes(t);
        assert(p[2 + 4 * i] == hb[4 * i]);
        assert(p[3 + 4 * i] == hb[4 * i + 1]);
        assert(p[4 + 4 * i] == hb[4 * i + 2]);
        assert(p[5 + 4 * i] == hb[4 * i + 3]);
        let x = t[i];
        assert(hb.subrange(4 * i, 4 * i + 4)[0] == hb[4 * i]);
        assert(hb.subrange(4 * i, 4 * i + 4)[1] == hb[4 * i + 1]);
        assert(hb.subrange(4 * i, 4 * i + 4)[2] == hb[4 * i + 2]);
        assert(hb.subrange(4 * i, 4 * i + 4)[3] == hb[4 * i + 3]);
        lemma_be32_roundtrip(x);
    }
    assert(handles_in(p, k) =~= t);
}

// ============================================================================
// UUID lists
// ============================================================================

/// The UUIDs (as 16 bytes, most significant first) of the UUID data
/// elements in `d` from offset `off` on: other elements' header bytes are
/// stepped over one at a time; 16- and 32-bit UUIDs are widened with the
/// base UUID; the scan stops at a UUID cut short or of another size.
pub open spec fn uuid_scan(d: Seq<u8>, off: int) -> Seq<Seq<u8>>
    decreases d.len() - off,
{
    if off < 0 || off >= d.len() {
        seq![]
    } else if d[off] / 8 != 3 {
        uuid_scan(d, off + 1)
    } else {
        let sd = d[off] % 8;
        if sd == 1 {
            if off + 3 > d.len() {
                seq![]
            } else {
                seq![base_uuid_bytes().update(2, d[off + 1]).update(3, d[off + 2])] + uuid_scan(d, off + 3)
            }
        } else if sd == 2 {
            if off + 5 > d.len() {
                seq![]
            } else {
                seq![d.subrange(off + 1, off + 5) + base_uuid_bytes().skip(4)] + uuid_scan(d, off + 5)
            }
        } else if sd == 4 {
            if off + 17 > d.len() {
                seq![]
            } else {
                seq![d.subrange(off + 1, off + 17)] + uuid_scan(d, off + 17)
            }
        } else {
            seq![]
        }
    }
}

/// The bytes of each UUID.
pub open spec fn uuid_views(v: Seq<BtUuid>) -> Seq<Seq<u8>> {
    v.map_values(|u: BtUuid| u.bytes@)
}

/// Reads the UUIDs of a list of data elements (see `uuid_scan`).
fn parse_uuid_sequence(data: &[u8]) -> (r: Vec<BtUuid>)
    ensures
        uuid_views(r@) == uuid_scan(data@, 0),
{
    let mut uuids: Vec<BtUuid> = Vec::new();
    let mut offset: usize = 0;
    let dl = data.len();
    while offset < dl
        invariant_except_break
            dl == data@.len(),
            offset <= dl,
            uuid_views(uuids@) + uuid_scan(data@, offset as int) == uuid_scan(data@, 0),
        ensures
            uuid_views(uuids@) == uuid_scan(data@, 0),
        decreases dl - offset,
    {
        let header = data[offset];
        let ghost before = uuid_views(uuids@);
        if header / 8 != 3 {
            offset = offset + 1;
            continue;
        }
        let sd = header % 8;
        let ghost rest_at = uuid_scan(data@, offset as int);
        let mut bytes: [u8; 16];
        let consumed: usize;
        if sd == 1 {
            if dl - offset < 3 {
                assert(before + rest_at =~= before);
                break;
            }
            bytes = bluetooth_base_uuid();
            bytes[2] = data[offset + 1];
            bytes[3] = data[offset + 2];
            consumed = 3;
        } else if sd == 2 {
            if dl - offset < 5 {
                assert(before + rest_at =~= before);
                break;
            }
            bytes = bluetooth_base_uuid();
            bytes[0] = data[offset + 1];
            bytes[1] = data[offset + 2];
            bytes[2] = data[offset + 3];
            bytes[3] = data[offset + 4];
            assert(bytes@ =~= data@.subrange(offset + 1, offset + 5) + base_uuid_bytes().skip(4));
            consumed = 5;
        } else if sd == 4 {
            if dl - offset < 17 {
                assert(before + rest_at =~= before);
                break;
            }
            bytes = [0u8; 16];
            let mut j: usize = 0;
            while j < 16
                invariant
                    j <= 16,
                    offset + 17 <= dl,
                    dl == data@.len(),
                    forall|k: int| 0 <= k < j ==> bytes@[k] == data@[offset + 1 + k],
                decreases 16 - j,
            {
                bytes[j] = data[offset + 1 + j];
                j = j + 1;
            }
            assert(bytes@ =~= data@.subrange(offset + 1, offset + 17));
            consumed = 17;
        } else {
            assert(before + rest_at =~= before);
            break;
        }
        let u = BtUuid::from_bytes(bytes);
        uuids.push(u);
        proof {
            assert(uuid_views(uuids@) =~= before.push(u.bytes@));
            let tail = uuid_scan(data@, offset + consumed);
            assert(before.push(u.bytes@) + tail =~= before + (seq![u.bytes@] + tail));
        }
        offset = offset + consumed;
    }
    uuids
}

/// Data element of a UUID, in its shortest form: 16-bit (0x19), 32-bit
/// (0x1A) or full 128-bit (0x1C).
pub open spec fn uuid_element(b: Seq<u8>) -> Seq<u8> {
    match spec_uuid_type(b) {
        BtUuidType::Uuid16 => seq![0x19u8, b[2], b[3]],
        BtUuidType::Uuid32 => seq![0x1Au8, b[0], b[1], b[2], b[3]],
        BtUuidType::Uuid128 => seq![0x1Cu8] + b,
    }
}

/// The data elements of a list of UUIDs, one after another.
pub open spec fn uuid_elements(us: Seq<Seq<u8>>) -> Seq<u8>
    decreases us.len(),
{
    if us.len() == 0 {
        seq![]
    } else {
        uuid_elements(us.drop_last()) + uuid_element(us.last())
    }
}

/// Appends the data element of `u`.
fn push_uuid_element(buf: &mut Vec<u8>, u: &BtUuid)
    ensures
        final(buf)@ == old(buf)@ + uuid_element(u.bytes@),
{
    match u.uuid_type() {
        BtUuidType::Uuid16 => {
            buf.push(0x19);
            buf.push(u.bytes[2]);
            buf.push(u.bytes[3]);
        },
        BtUuidType::Uuid32 => {
            buf.push(0x1A);
            buf.push(u.bytes[0]);
            buf.push(u.bytes[1]);
            buf.push(u.bytes[2]);
            buf.push(u.bytes[3]);
        },
        BtUuidType::Uuid128 => {
            buf.push(0x1C);
            push_slice(buf, u.bytes.as_slice());
        },
    }
    assert(final(buf)@ =~= old(buf)@ + uuid_element(u.bytes@));
}

// ============================================================================
// Service search request
// ============================================================================

/// Service search request PDU.
#[derive(Clone, Debug)]
pub struct ServiceSearchRequest {
    pub transaction_id: u16,
    /// Service UUIDs searched for.
    pub search_pattern: Vec<BtUuid>,
    /// Most record handles to return.
    pub max_records: u16,
    pub cont_state: ContinuationState,
}

impl ServiceSearchRequest {
    /// Reads a service search request's parameters: at least 5 bytes; a
    /// data element sequence of UUIDs (see `uuid_scan`), the most records
    /// to return, then the continuation state.
    pub fn parse(transaction_id: u16, data: &[u8]) -> (r: Option<Self>)
        ensures
            r is Some <==> data@.len() >= 5 && data@[0] / 8 == 6 && match element_body(data@, 0) {
                Some((st, n)) => st + n + 2 <= data@.len(),
                None => false,
            },
            r matches Some(q) ==> {
                let (st, n) = element_body(data@, 0).unwrap();
                &&& q.transaction_id == transaction_id
                &&& uuid_views(q.search_pattern@) == uuid_scan(data@.subrange(st, st + n), 0)
                &&& q.max_records == u16_be(data@[st + n], data@[st + n + 1])
                &&& q.cont_state.data@ == cont_data_of(data@.skip(st + n + 2))
            },
    {
        if data.len() < 5 {
            return None;
        }
        if data[0] / 8 != 6 {
            return None;
        }
        let (st, n) = match read_element_body(data, 0) {
            Some(b) => b,
            None => return None,
        };
        if n > data.len() - st {
            return None;
        }
        let pattern = copy_range(data, st, st + n);
        let search_pattern = parse_uuid_sequence(pattern.as_slice());
        let offset = st + n;
        if data.len() - offset < 2 {
            return None;
        }
        let max_records = read_u16_be(data[offset], data[offset + 1]);
        let rest = copy_range(data, offset + 2, data.len());
        assert(rest@ =~= data@.skip(offset + 2));
        let cont_state = ContinuationState::parse(rest.as_slice());
        Some(ServiceSearchRequest { transaction_id, search_pattern, max_records, cont_state })
    }

    /// Encodes the request: the UUIDs as a data element sequence (see
    /// `uuid_element`), the most records to return, and the continuation
    /// state.
    pub fn build(&self) -> (r: Vec<u8>)
        requires
            self.search_pattern@.len() <= 0x100_0000,
            self.cont_state.data@.len() <= 0x1000_0000,
        ensures
            ({
                let body = uuid_elements(uuid_views(self.search_pattern@));
                let p = seq_header(body.len()) + body + be16(self.max_records) + cont_bytes(self.cont_state.data@);
                r@ == header_bytes(SdpPduId::ServiceSearchRequest, self.transaction_id, p.len() as u16) + p
            }),
    {
        let mut body: Vec<u8> = Vec::new();
        let mut i: usize = 0;
        while i < self.search_pattern.len()
            invariant
                i <= self.search_pattern@.len(),
                self.search_pattern@.len() <= 0x100_0000,
                body@ == uuid_elements(uuid_views(self.search_pattern@.take(i as int))),
                body@.len() <= 17 * i,
            decreases self.search_pattern@.len() - i,
        {
            push_uuid_element(&mut body, &self.search_pattern[i]);
            proof {
                let t = uuid_views(self.search_pattern@.take(i + 1));
                assert(t.drop_last() =~= uuid_views(self.search_pattern@.take(i as int)));
            }
            i = i + 1;
        }
        assert(self.search_pattern@.take(i as int) =~= self.search_pattern@);
        let mut params: Vec<u8> = Vec::new();
        push_seq_header(&mut params, body.len());
        push_slice(&mut params, body.as_slice());
        push_u16_be(&mut params, self.max_records);
        let cont = self.cont_state.encode();
        push_slice(&mut params, cont.as_slice());
        let mut pdu = build_sdp_header(SdpPduId::ServiceSearchRequest, self.transaction_id, params.len() as u16);
        push_slice(&mut pdu, params.as_slice());
        pdu
    }
}

// ============================================================================
// Attribute ID lists
// ============================================================================

/// Reads attribute IDs from the data elements of `d` from offset `off` on,
/// after the IDs `ids` already read. Unsigned integers give IDs: size
/// descriptor 1 one byte (0 when missing), 2 two bytes, 3 the low half of
/// four bytes; a nested sequence is read the same way, and one of exactly
/// two IDs ends the scan as a range (the pair, flagged `true`), else its
/// IDs are added; other elements' header bytes are stepped over one at a
/// time; the scan stops at an element cut short.
pub open spec fn attr_scan(d: Seq<u8>, off: int, ids: Seq<u16>) -> (bool, Seq<u16>)
    decreases d.len(), d.len() - off,
{
    if off < 0 || off >= d.len() {
        (false, ids)
    } else {
        let t = d[off] / 8;
        let sd = d[off] % 8;
        if t == 1 {
            if sd == 1 {
                let v = if off + 1 < d.len() { d[off + 1] as u16 } else { 0 };
                if off + 2 <= d.len() { attr_scan(d, off + 2, ids.push(v)) } else { (false, ids.push(v)) }
            } else if sd == 2 {
                if off + 3 > d.len() {
                    (false, ids)
                } else {
                    attr_scan(d, off + 3, ids.push(u16_be(d[off + 1], d[off + 2])))
                }
            } else if sd == 3 {
                if off + 5 > d.len() {
                    (false, ids)
                } else {
                    attr_scan(d, off + 5, ids.push(u16_be(d[off + 3], d[off + 4])))
                }
            } else {
                attr_scan(d, off + 1, ids)
            }
        } else if t == 6 {
            if sd == 5 || sd == 6 || sd == 7 {
                let body = if sd == 5 {
                    Some((off + 2, if off + 1 < d.len() { d[off + 1] as int } else { 0 }))
                } else {
                    element_body(d, off)
                };
                match body {
                    None => (false, ids),
                    Some((st, n)) => if st + n > d.len() {
                        (false, ids)
                    } else {
                        let inner = attr_scan(d.subrange(st, st + n), 0, seq![]);
                        if !inner.0 && inner.1.len() == 2 {
                            (true, inner.1)
                        } else {
                            attr_scan(d, st + n, ids + if inner.0 { Seq::<u16>::empty() } else { inner.1 })
                        }
                    },
                }
            } else {
                attr_scan(d, off + 1, ids)
            }
        } else {
            attr_scan(d, off + 1, ids)
        }
    }
}

/// The attribute ID list `attr_scan` reads from `d`.
pub open spec fn attr_spec_of(d: Seq<u8>) -> (bool, Seq<u16>) {
    attr_scan(d, 0, seq![])
}

/// Whether `r` is the list `f` describes: a range of its two IDs, or
/// those IDs.
pub open spec fn spec_matches(r: AttributeIdSpec, f: (bool, Seq<u16>)) -> bool {
    if f.0 {
        r == AttributeIdSpec::Range(f.1[0], f.1[1])
    } else {
        r matches AttributeIdSpec::Specific(ids) && ids@ == f.1
    }
}

/// Reads the attribute IDs of a list of data elements, from offset `off`
/// on, after `ids` (see `attr_scan`).
fn scan_attr_ids(data: &[u8], off: usize, start_ids: Vec<u16>) -> (r: AttributeIdSpec)
    requires
        off <= data@.len(),
    ensures
        spec_matches(r, attr_scan(data@, off as int, start_ids@)),
    decreases data@.len(), data@.len() - off,
{
    let dl = data.len();
    let mut ids = start_ids;
    let mut offset = off;
    let ghost ids0 = ids@;
    while offset < dl
        invariant_except_break
            dl == data@.len(),
            off <= offset <= dl,
            ids0 == start_ids@,
            attr_scan(data@, offset as int, ids@) == attr_scan(data@, off as int, ids0),
        ensures
            offset >= dl ==> attr_scan(data@, offset as int, ids@) == attr_scan(data@, off as int, ids0),
            offset < dl ==> attr_scan(data@, off as int, ids0) == (false, ids@),
        decreases dl - offset,
    {
        let header = data[offset];
        let t = header / 8;
        let sd = header % 8;
        if t == 1 {
            if sd == 1 {
                let v: u16 = if dl - offset > 1 { data[offset + 1] as u16 } else { 0 };
                ids.push(v);
                if dl - offset < 2 {
                    offset = dl;
                } else {
                    offset = offset + 2;
                }
            } else if sd == 2 {
                if dl - offset < 3 {
                    break;
                }
                ids.push(read_u16_be(data[offset + 1], data[offset + 2]));
                offset = offset + 3;
            } else if sd == 3 {
                if dl - offset < 5 {
                    break;
                }
                ids.push(read_u16_be(data[offset + 3], data[offset + 4]));
                offset = offset + 5;
            } else {
                offset = offset + 1;
            }
        } else if t == 6 && (sd == 5 || sd == 6 || sd == 7) {
            let body = if sd == 5 {
                if dl - offset < 2 {
                    break;
                }
                Some((offset + 2, data[offset + 1] as usize))
            } else {
                read_element_body(data, offset)
            };
            let (st, n) = match body {
                Some(b) => b,
                None => break,
            };
            if st > dl || n > dl - st {
                break;
            }
            let sub = &data[st..st + n];
            assert(sub@ == data@.subrange(st as int, st + n));
            let inner = scan_attr_ids(sub, 0, Vec::new());
            match inner {
                AttributeIdSpec::Specific(v) => {
                    if v.len() == 2 {
                        let a = v[0];
                        let b = v[1];
                        proof {
                            let inner_spec = attr_scan(data@.subrange(st as int, st + n), 0, seq![]);
                            assert(!inner_spec.0);
                            assert(inner_spec.1 == v@);
                            assert(attr_scan(data@, offset as int, ids@) == (true, v@));
                            assert(attr_scan(data@, off as int, ids0) == (true, v@));
                            assert(spec_matches(AttributeIdSpec::Range(a, b), (true, v@)));
                        }
                        return AttributeIdSpec::Range(a, b);
                    }
                    let mut k: usize = 0;
                    let ghost before = ids@;
                    while k < v.len()
                        invariant
                            k <= v@.len(),
                            ids@ == before + v@.take(k as int),
                        decreases v@.len() - k,
                    {
                        ids.push(v[k]);
                        k = k + 1;
                        assert(ids@ =~= before + v@.take(k as int));
                    }
                    assert(v@.take(k as int) =~= v@);
                },
                AttributeIdSpec::Range(_, _) => {
                    assert(ids@ + Seq::<u16>::empty() =~= ids@);
                },
            }
            offset = st + n;
        } else {
            offset = offset + 1;
        }
    }
    AttributeIdSpec::Specific(ids)
}

/// Reads the attribute ID list carried by the data elements of `data`
/// (see `attr_scan`).
fn parse_attr_spec(data: &[u8]) -> (r: AttributeIdSpec)
    ensures
        spec_matches(r, attr_spec_of(data@)),
{
    scan_attr_ids(data, 0, Vec::new())
}

/// Data element of an attribute ID: an unsigned integer with size
/// descriptor 2, which `attr_scan` reads as two bytes.
pub open spec fn id_element(id: u16) -> Seq<u8> {
    seq![0x0Au8] + be16(id)
}

/// The data elements of a list of attribute IDs, one after another.
pub open spec fn id_elements(ids: Seq<u16>) -> Seq<u8>
    decreases ids.len(),
{
    if ids.len() == 0 {
        seq![]
    } else {
        id_elements(ids.drop_last()) + id_element(ids.last())
    }
}

/// The attribute ID list of a request: a sequence of the IDs, or for a
/// range a sequence of its two ends.
pub open spec fn attr_list_bytes(spec: AttributeIdSpec) -> Seq<u8> {
    let body = match spec {
        AttributeIdSpec::Specific(ids) => id_elements(ids@),
        AttributeIdSpec::Range(a, b) => id_element(a) + id_element(b),
    };
    seq_header(body.len()) + body
}

proof fn lemma_id_elements_len(ids: Seq<u16>)
    ensures
        id_elements(ids).len() == 3 * ids.len(),
    decreases ids.len(),
{
    if ids.len() > 0 {
        lemma_id_elements_len(ids.drop_last());
    }
}

// ============================================================================
// Service attribute request
// ============================================================================

/// Service attribute request PDU.
#[derive(Clone, Debug)]
pub struct ServiceAttributeRequest {
    pub transaction_id: u16,
    pub record_handle: u32,
    pub attr_spec: AttributeIdSpec,
    /// Most attribute bytes to return.
    pub max_attrs: u16,
    pub cont_state: ContinuationState,
}

impl ServiceAttributeRequest {
    /// Reads a service attribute request's parameters: at least 7 bytes;
    /// the record handle, an attribute ID list in a sequence or
    /// alternative (see `attr_scan`), the most attribute bytes, then the
    /// continuation state.
    pub fn parse(transaction_id: u16, data: &[u8]) -> (r: Option<Self>)
        ensures
            r is Some <==> data@.len() >= 7 && (data@[4] / 8 == 6 || data@[4] / 8 == 7) && match element_body(data@, 4) {
                Some((st, n)) => st + n + 2 <= data@.len(),
                None => false,
            },
            r matches Some(q) ==> {
                let (st, n) = element_body(data@, 4).unwrap();
                &&& q.transaction_id == transaction_id
                &&& q.record_handle == u32_be(data@[0], data@[1], data@[2], data@[3])
                &&& spec_matches(q.attr_spec, attr_spec_of(data@.subrange(st, st + n)))
                &&& q.max_attrs == u16_be(data@[st + n], data@[st + n + 1])
                &&& q.cont_state.data@ == cont_data_of(data@.skip(st + n + 2))
            },
    {
        if data.len() < 7 {
            return None;
        }
        let record_handle = read_u32_be(data[0], data[1], data[2], data[3]);
        let t = data[4] / 8;
        if t != 6 && t != 7 {
            return None;
        }
        let (st, n) = match read_element_body(data, 4) {
            Some(b) => b,
            None => return None,
        };
        if n > data.len() - st {
            return None;
        }
        let list = copy_range(data, st, st + n);
        let attr_spec = parse_attr_spec(list.as_slice());
        let offset = st + n;
        if data.len() - offset < 2 {
            return None;
        }
        let max_attrs = read_u16_be(data[offset], data[offset + 1]);
        let rest = copy_range(data, offset + 2, data.len());
        assert(rest@ =~= data@.skip(offset + 2));
        let cont_state = ContinuationState::parse(rest.as_slice());
        Some(ServiceAttributeRequest { transaction_id, record_handle, attr_spec, max_attrs, cont_state })
    }

    /// Encodes the request: the record handle, the attribute ID list (see
    /// `attr_list_bytes`), the most attribute bytes, and the continuation
    /// state.
    pub fn build(&self) -> (r: Vec<u8>)
        requires
            match self.attr_spec {
                AttributeIdSpec::Specific(ids) => ids@.len() <= 0x100_0000,
                AttributeIdSpec::Range(_, _) => true,
            },
            self.cont_state.data@.len() <= 0x1000_0000,
        ensures
            ({
                let p = be32(self.record_handle) + attr_list_bytes(self.attr_spec) + be16(self.max_attrs)
                    + cont_bytes(self.cont_state.data@);
                r@ == header_bytes(SdpPduId::ServiceAttributeRequest, self.transaction_id, p.len() as u16) + p
            }),
    {
        let mut params: Vec<u8> = Vec::new();
        push_u32_be(&mut params, self.record_handle);
        let mut body: Vec<u8> = Vec::new();
        match &self.attr_spec {
            AttributeIdSpec::Specific(ids) => {
                let mut i: usize = 0;
                while i < ids.len()
                    invariant
                        i <= ids@.len(),
                        ids@.len() <= 0x100_0000,
                        body@ == id_elements(ids@.take(i as int)),
                    decreases ids@.len() - i,
                {
                    body.push(0x0A);
                    push_u16_be(&mut body, ids[i]);
                    proof {
                        let t = ids@.take(i + 1);
                        assert(t.drop_last() =~= ids@.take(i as int));
                        assert(body@ =~= id_elements(t));
                    }
                    i = i + 1;
                }
                assert(ids@.take(i as int) =~= ids@);
                proof {
                    lemma_id_elements_len(ids@);
                }
            },
            AttributeIdSpec::Range(a, b) => {
                body.push(0x0A);
                push_u16_be(&mut body, *a);
                body.push(0x0A);
                push_u16_be(&mut body, *b);
                assert(body@ =~= id_element(*a) + id_element(*b));
            },
        }
        push_seq_header(&mut params, body.len());
        push_slice(&mut params, body.as_slice());
        push_u16_be(&mut params, self.max_attrs);
        let cont = self.cont_state.encode();
        push_slice(&mut params, cont.as_slice());
        let mut pdu = build_sdp_header(SdpPduId::ServiceAttributeRequest, self.transaction_id, params.len() as u16);
        push_slice(&mut pdu, params.as_slice());
        proof {
            assert(params@ =~= be32(self.record_handle) + attr_list_bytes(self.attr_spec) + be16(self.max_attrs)
                + cont_bytes(self.cont_state.data@));
        }
        pdu
    }
}

proof fn lemma_id_elements_index(ids: Seq<u16>, i: int)
    requires
        0 <= i < ids.len(),
    ensures
        id_elements(ids).len() == 3 * ids.len(),
        id_elements(ids)[3 * i] == 0x0A,
        id_elements(ids)[3 * i + 1] == hi8(ids[i]),
        id_elements(ids)[3 * i + 2] == lo8(ids[i]),
    decreases ids.len(),
{
    lemma_id_elements_len(ids);
    lemma_id_elements_len(ids.drop_last());
    if i < ids.len() - 1 {
        lemma_id_elements_index(ids.drop_last(), i);
    }
}

proof fn lemma_scan_ids(ids: Seq<u16>, k: int)
    requires
        0 <= k <= ids.len(),
    ensures
        attr_scan(id_elements(ids), 3 * k, ids.take(k)) == (false, ids),
    decreases ids.len() - k,
{
    let e = id_elements(ids);
    lemma_id_elements_len(ids);
    if k == ids.len() {
        assert(ids.take(k) =~= ids);
    } else {
        lemma_id_elements_index(ids, k);
        crate::bytes::lemma_le16_roundtrip(ids[k]);
        assert(e[3 * k] / 8 == 1 && e[3 * k] % 8 == 2);
        assert(u16_be(e[3 * k + 1], e[3 * k + 2]) == ids[k]);
        assert(ids.take(k).push(ids[k]) =~= ids.take(k + 1));
        lemma_scan_ids(ids, k + 1);
    }
}

/// The attribute ID list a request is built with reads back from its
/// body as the same IDs, and a range as its two ends.
pub proof fn lemma_attr_list_roundtrip(spec: AttributeIdSpec)
    ensures
        ({
            let ids = match spec {
                AttributeIdSpec::Specific(v) => v@,
                AttributeIdSpec::Range(a, b) => seq![a, b],
            };
            let body = match spec {
                AttributeIdSpec::Specific(v) => id_elements(v@),
                AttributeIdSpec::Range(a, b) => id_element(a) + id_element(b),
            };
            attr_spec_of(body) == (false, ids)
        }),
{
    match spec {
        AttributeIdSpec::Specific(v) => {
            lemma_scan_ids(v@, 0);
            assert(v@.take(0) =~= Seq::<u16>::empty());
        },
        AttributeIdSpec::Range(a, b) => {
            let ids = seq![a, b];
            assert(id_elements(ids) =~= id_element(a) + id_element(b)) by {
                assert(ids.drop_last() =~= seq![a]);
                assert(seq![a].drop_last() =~= Seq::<u16>::empty());
                assert(id_elements(seq![a]) == id_elements(Seq::<u16>::empty()) + id_element(a));
                assert(id_elements(seq![a]) =~= id_element(a));
                assert(id_elements(ids) == id_elements(seq![a]) + id_element(b));
            }
            lemma_scan_ids(ids, 0);
            assert(ids.take(0) =~= Seq::<u16>::empty());
        },
    }
}

proof fn lemma_uuid_scan_shift(p: Seq<u8>, q: Seq<u8>, j: int)
    requires
        0 <= j,
    ensures
        uuid_scan(p + q, p.len() + j) == uuid_scan(q, j),
    decreases q.len() - j,
{
    let d = p + q;
    let o = p.len() + j;
    if j < q.len() {
        assert(d[o] == q[j]);
        if j + 1 < q.len() {
            assert(d[o + 1] == q[j + 1]);
        }
        if j + 2 < q.len() {
            assert(d[o + 2] == q[j + 2]);
        }
        if j + 5 <= q.len() {
            assert(d.subrange(o + 1, o + 5) =~= q.subrange(j + 1, j + 5));
        }
        if j + 17 <= q.len() {
            assert(d.subrange(o + 1, o + 17) =~= q.subrange(j + 1, j + 17));
        }
        lemma_uuid_scan_shift(p, q, j + 1);
        if j + 3 <= q.len() {
            lemma_uuid_scan_shift(p, q, j + 3);
        }
        if j + 5 <= q.len() {
            lemma_uuid_scan_shift(p, q, j + 5);
        }
        if j + 17 <= q.len() {
            lemma_uuid_scan_shift(p, q, j + 17);
        }
    }
}

proof fn lemma_uuid_elements_front(us: Seq<Seq<u8>>)
    requires
        us.len() > 0,
    ensures
        uuid_elements(us) == uuid_element(us[0]) + uuid_elements(us.drop_first()),
    decreases us.len(),
{
    if us.len() == 1 {
        assert(us.drop_last() =~= Seq::<Seq<u8>>::empty());
        assert(us.drop_first() =~= Seq::<Seq<u8>>::empty());
        assert(uuid_elements(us) =~= uuid_element(us[0]) + uuid_elements(us.drop_first()));
    } else {
        lemma_uuid_elements_front(us.drop_last());
        assert(us.drop_last().drop_first() =~= us.drop_first().drop_last());
        assert(us.drop_first().last() == us.last());
        assert(us.drop_last()[0] == us[0]);
        assert(uuid_elements(us) =~= uuid_element(us[0]) + uuid_elements(us.drop_first()));
    }
}

proof fn lemma_uuid_element_scan(b: Seq<u8>, q: Seq<u8>)
    requires
        b.len() == 16,
    ensures
        uuid_scan(uuid_element(b) + q, 0) == seq![b] + uuid_scan(q, 0),
{
    let e = uuid_element(b);
    let d = e + q;
    lemma_uuid_scan_shift(e, q, 0);
    match spec_uuid_type(b) {
        BtUuidType::Uuid16 => {
            assert(d[0] == 0x19u8);
            assert(base_uuid_bytes().update(2, d[1]).update(3, d[2]) =~= b);
        },
        BtUuidType::Uuid32 => {
            assert(d[0] == 0x1Au8);
            assert(d.subrange(1, 5) + base_uuid_bytes().skip(4) =~= b);
        },
        BtUuidType::Uuid128 => {
            assert(d[0] == 0x1Cu8);
            assert(d.subrange(1, 17) =~= b);
        },
    }
}

/// A list of UUIDs encoded as data elements reads back as the same UUIDs.
pub proof fn lemma_uuid_list_roundtrip(us: Seq<Seq<u8>>)
    requires
        forall|i: int| 0 <= i < us.len() ==> (#[trigger] us[i]).len() == 16,
    ensures
        uuid_scan(uuid_elements(us), 0) == us,
    decreases us.len(),
{
    if us.len() > 0 {
        lemma_uuid_elements_front(us);
        let rest = us.drop_first();
        assert forall|i: int| 0 <= i < rest.len() implies (#[trigger] rest[i]).len() == 16 by {
            assert(rest[i] == us[i + 1]);
        }
        lemma_uuid_list_roundtrip(rest);
        lemma_uuid_element_scan(us[0], uuid_elements(rest));
        assert(seq![us[0]] + rest =~= us);
    }
}

} // verus!
