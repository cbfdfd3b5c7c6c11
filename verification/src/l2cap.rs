//! L2CAP: basic-frame framing, the signaling channel's commands (connect,
//! configure, disconnect, information, LE credit-based connect), and the
//! channel table with its CID and signaling-identifier allocators.
//!
//! B-frame: `| length(2) | channel ID(2) | payload |`.
//! Signaling command: `| code | identifier | length(2) | data |`.
//! Multi-byte fields are little-endian.

use vstd::prelude::*;
use crate::bytes::{le16, lo8, hi8, u16_le, read_u16_le, push_u16_le, push_slice, copy_range,
    lemma_le16_roundtrip};
use crate::att::field16;
use crate::types::{ConnHandle, L2CapPsm, spec_psm_of};

verus! {

/// Default L2CAP MTU.
pub const L2CAP_DEFAULT_MTU: u16 = 672;
/// Smallest MTU a channel may use.
pub const L2CAP_MIN_MTU: u16 = 48;
/// Largest MTU.
pub const L2CAP_MAX_MTU: u16 = 65535;
/// Signaling channel CID.
pub const L2CAP_SIG_CID: u16 = 0x0001;
/// Connectionless channel CID.
pub const L2CAP_CONNECTIONLESS_CID: u16 = 0x0002;
/// First CID of the dynamically allocated range.
pub const L2CAP_FIRST_DYNAMIC_CID: u16 = 0x0040;

/// State of an L2CAP channel.
#[derive(Clone, Copy, PartialEq, Eq, Debug, Structural)]
pub enum L2CapChannelState {
    /// Channel is closed.
    Closed,
    /// Connection request sent, waiting for the response.
    WaitConnect,
    /// Configuration in progress.
    Config,
    /// Open for data.
    Open,
    /// Disconnection request sent, waiting for the response.
    WaitDisconnect,
}

// ============================================================================
// B-frames
// ============================================================================

/// A decoded basic frame.
#[derive(Clone, Debug)]
pub struct L2CapBFrame {
    /// Destination channel ID.
    pub cid: u16,
    pub payload: Vec<u8>,
}

/// Encoding of a B-frame; the length field holds the payload length
/// truncated to 16 bits.
pub open spec fn b_frame_bytes(cid: u16, payload: Seq<u8>) -> Seq<u8> {
    le16(payload.len() as u16) + le16(cid) + payload
}

/// Whether `data` starts with a complete B-frame.
pub open spec fn b_frame_complete(data: Seq<u8>) -> bool {
    data.len() >= 4 && 4 + field16(data, 0) <= data.len()
}

/// Decodes the B-frame at the start of `data`, returning it and the
/// number of bytes it takes, or `None` when the frame is incomplete.
pub fn parse_l2cap_b_frame(data: &[u8]) -> (r: Option<(L2CapBFrame, usize)>)
    ensures
        r is Some <==> b_frame_complete(data@),
        r matches Some((f, n)) ==> {
            &&& n == 4 + field16(data@, 0)
            &&& f.cid == field16(data@, 2)
            &&& f.payload@ == data@.subrange(4, n as int)
        },
{
    if data.len() < 4 {
        return None;
    }
    let length = read_u16_le(data[0], data[1]) as usize;
    let cid = read_u16_le(data[2], data[3]);
    if length > data.len() - 4 {
        return None;
    }
    let payload = copy_range(data, 4, 4 + length);
    Some((L2CapBFrame { cid, payload }, 4 + length))
}

/// Encodes a B-frame.
pub fn build_l2cap_b_frame(cid: u16, payload: &[u8]) -> (r: Vec<u8>)
    ensures
        r@ == b_frame_bytes(cid, payload@),
{
    let len = payload.len() as u16;
    let mut buf: Vec<u8> = Vec::new();
    push_u16_le(&mut buf, len);
    push_u16_le(&mut buf, cid);
    push_slice(&mut buf, payload);
    buf
}

/// A B-frame built from a payload of at most 65535 bytes decodes to the
/// same channel and payload, and takes exactly its own length.
pub proof fn lemma_b_frame_roundtrip(cid: u16, payload: Seq<u8>)
    requires
        payload.len() <= 65535,
    ensures
        b_frame_complete(b_frame_bytes(cid, payload)),
        4 + field16(b_frame_bytes(cid, payload), 0) == b_frame_bytes(cid, payload).len(),
        field16(b_frame_bytes(cid, payload), 2) == cid,
        b_frame_bytes(cid, payload).subrange(4, 4 + payload.len() as int) == payload,
{
    lemma_le16_roundtrip(payload.len() as u16);
    lemma_le16_roundtrip(cid);
    let b = b_frame_bytes(cid, payload);
    assert(b.subrange(4, 4 + payload.len() as int) =~= payload);
}

// ============================================================================
// Signaling commands
// ============================================================================

/// L2CAP signaling command codes.
#[derive(Clone, Copy, PartialEq, Eq, Debug, Structural)]
pub enum L2CapSigCode {
    CommandReject,
    ConnectionRequest,
    ConnectionResponse,
    ConfigureRequest,
    ConfigureResponse,
    DisconnectionRequest,
    DisconnectionResponse,
    EchoRequest,
    EchoResponse,
    InformationRequest,
    InformationResponse,
    ConnectionParamUpdateReq,
    ConnectionParamUpdateRsp,
    LeCreditBasedConnReq,
    LeCreditBasedConnRsp,
    LeFlowControlCredit,
}

impl L2CapSigCode {
    /// Wire value of this variant.
    pub open spec fn code(self) -> u8 {
        match self {
            L2CapSigCode::CommandReject => 0x01,
            L2CapSigCode::ConnectionRequest => 0x02,
            L2CapSigCode::ConnectionResponse => 0x03,
            L2CapSigCode::ConfigureRequest => 0x04,
            L2CapSigCode::ConfigureResponse => 0x05,
            L2CapSigCode::DisconnectionRequest => 0x06,
            L2CapSigCode::DisconnectionResponse => 0x07,
            L2CapSigCode::EchoRequest => 0x08,
            L2CapSigCode::EchoResponse => 0x09,
            L2CapSigCode::InformationRequest => 0x0A,
            L2CapSigCode::InformationResponse => 0x0B,
            L2CapSigCode::ConnectionParamUpdateReq => 0x12,
            L2CapSigCode::ConnectionParamUpdateRsp => 0x13,
            L2CapSigCode::LeCreditBasedConnReq => 0x14,
            L2CapSigCode::LeCreditBasedConnRsp => 0x15,
            L2CapSigCode::LeFlowControlCredit => 0x16,
        }
    }

    /// The variant a wire value stands for.
    pub open spec fn of_byte(b: u8) -> Option<L2CapSigCode> {
        match b {
            0x01 => Some(L2CapSigCode::CommandReject),
            0x02 => Some(L2CapSigCode::ConnectionRequest),
            0x03 => Some(L2CapSigCode::ConnectionResponse),
            0x04 => Some(L2CapSigCode::ConfigureRequest),
            0x05 => Some(L2CapSigCode::ConfigureResponse),
            0x06 => Some(L2CapSigCode::DisconnectionRequest),
            0x07 => Some(L2CapSigCode::DisconnectionResponse),
            0x08 => Some(L2CapSigCode::EchoRequest),
            0x09 => Some(L2CapSigCode::EchoResponse),
            0x0A => Some(L2CapSigCode::InformationRequest),
            0x0B => Some(L2CapSigCode::InformationResponse),
            0x12 => Some(L2CapSigCode::ConnectionParamUpdateReq),
            0x13 => Some(L2CapSigCode::ConnectionParamUpdateRsp),
            0x14 => Some(L2CapSigCode::LeCreditBasedConnReq),
            0x15 => Some(L2CapSigCode::LeCreditBasedConnRsp),
            0x16 => Some(L2CapSigCode::LeFlowControlCredit),
            _ => None,
        }
    }

    pub fn to_byte(&self) -> (r: u8)
        ensures
            r == self.code(),
    {
        match self {
            L2CapSigCode::CommandReject => 0x01,
            L2CapSigCode::ConnectionRequest => 0x02,
            L2CapSigCode::ConnectionResponse => 0x03,
            L2CapSigCode::ConfigureRequest => 0x04,
            L2CapSigCode::ConfigureResponse => 0x05,
            L2CapSigCode::DisconnectionRequest => 0x06,
            L2CapSigCode::DisconnectionResponse => 0x07,
            L2CapSigCode::EchoRequest => 0x08,
            L2CapSigCode::EchoResponse => 0x09,
            L2CapSigCode::InformationRequest => 0x0A,
            L2CapSigCode::InformationResponse => 0x0B,
            L2CapSigCode::ConnectionParamUpdateReq => 0x12,
            L2CapSigCode::ConnectionParamUpdateRsp => 0x13,
            L2CapSigCode::LeCreditBasedConnReq => 0x14,
            L2CapSigCode::LeCreditBasedConnRsp => 0x15,
            L2CapSigCode::LeFlowControlCredit => 0x16,
        }
    }

    pub fn from_byte(b: u8) -> (r: Option<Self>)
        ensures
            r == Self::of_byte(b),
            match r {
                Some(t) => t.code() == b,
                None => forall|t: L2CapSigCode| t.code() != b,
            },
    {
        match b {
            0x01 => Some(L2CapSigCode::CommandReject),
            0x02 => Some(L2CapSigCode::ConnectionRequest),
            0x03 => Some(L2CapSigCode::ConnectionResponse),
            0x04 => Some(L2CapSigCode::ConfigureRequest),
            0x05 => Some(L2CapSigCode::ConfigureResponse),
            0x06 => Some(L2CapSigCode::DisconnectionRequest),
            0x07 => Some(L2CapSigCode::DisconnectionResponse),
            0x08 => Some(L2CapSigCode::EchoRequest),
            0x09 => Some(L2CapSigCode::EchoResponse),
            0x0A => Some(L2CapSigCode::InformationRequest),
            0x0B => Some(L2CapSigCode::InformationResponse),
            0x12 => Some(L2CapSigCode::ConnectionParamUpdateReq),
            0x13 => Some(L2CapSigCode::ConnectionParamUpdateRsp),
            0x14 => Some(L2CapSigCode::LeCreditBasedConnReq),
            0x15 => Some(L2CapSigCode::LeCreditBasedConnRsp),
            0x16 => Some(L2CapSigCode::LeFlowControlCredit),
            _ => None,
        }
    }
}

/// A signaling command.
#[derive(Clone, Debug)]
pub struct L2CapSigCommand {
    pub code: L2CapSigCode,
    pub id: u8,
    pub data: Vec<u8>,
}

impl L2CapSigCommand {
    pub open spec fn view(&self) -> (L2CapSigCode, u8, Seq<u8>) {
        (self.code, self.id, self.data@)
    }
}

/// The views of a list of signaling commands.
pub open spec fn sig_command_views(v: Seq<L2CapSigCommand>) -> Seq<(L2CapSigCode, u8, Seq<u8>)> {
    v.map_values(|c: L2CapSigCommand| c@)
}

/// Signaling commands found in `data` from offset `off` on: commands are
/// read one after another; one whose code is unknown is skipped, and the
/// scan stops at a command whose length runs past the end.
pub open spec fn sig_commands_from(data: Seq<u8>, off: int) -> Seq<(L2CapSigCode, u8, Seq<u8>)>
    decreases data.len() - off,
{
    if off < 0 || off + 4 > data.len() {
        seq![]
    } else {
        let len = field16(data, off + 2) as int;
        if off + 4 + len > data.len() {
            seq![]
        } else {
            let rest = sig_commands_from(data, off + 4 + len);
            match L2CapSigCode::of_byte(data[off]) {
                Some(c) => seq![(c, data[off + 1], data.subrange(off + 4, off + 4 + len))] + rest,
                None => rest,
            }
        }
    }
}

/// Decodes the signaling commands carried in a signaling-channel payload.
pub fn parse_sig_commands(data: &[u8]) -> (r: Vec<L2CapSigCommand>)
    ensures
        sig_command_views(r@) == sig_commands_from(data@, 0),
{
    let mut commands: Vec<L2CapSigCommand> = Vec::new();
    let mut offset: usize = 0;
    let dl = data.len();
    while dl - offset >= 4
        invariant_except_break
            dl == data@.len(),
            offset <= dl,
            sig_command_views(commands@) + sig_commands_from(data@, offset as int)
                == sig_commands_from(data@, 0),
        ensures
            sig_command_views(commands@) == sig_commands_from(data@, 0),
        decreases dl - offset,
    {
        let code_byte = data[offset];
        let id = data[offset + 1];
        let length = read_u16_le(data[offset + 2], data[offset + 3]) as usize;
        if length > dl - offset - 4 {
            assert(sig_command_views(commands@) + sig_commands_from(data@, offset as int)
                =~= sig_command_views(commands@));
            break;
        }
        let end = offset + 4 + length;
        let ghost before = sig_command_views(commands@);
        let ghost rest = sig_commands_from(data@, end as int);
        match L2CapSigCode::from_byte(code_byte) {
            Some(code) => {
                let body = copy_range(data, offset + 4, end);
                let cmd = L2CapSigCommand { code, id, data: body };
                commands.push(cmd);
                assert(sig_command_views(commands@) =~= before.push(cmd@));
                assert(before.push(cmd@) + rest =~= before + (seq![cmd@] + rest));
            },
            None => {},
        }
        offset = end;
    }
    commands
}

/// Encoding of a signaling command; the length field holds the data
/// length truncated to 16 bits.
pub open spec fn sig_command_bytes(code: L2CapSigCode, id: u8, data: Seq<u8>) -> Seq<u8> {
    seq![code.code(), id] + le16(data.len() as u16) + data
}

/// Encodes a signaling command.
pub fn build_sig_command(code: L2CapSigCode, id: u8, data: &[u8]) -> (r: Vec<u8>)
    ensures
        r@ == sig_command_bytes(code, id, data@),
{
    let len = data.len() as u16;
    let mut buf: Vec<u8> = Vec::new();
    buf.push(code.to_byte());
    buf.push(id);
    push_u16_le(&mut buf, len);
    push_slice(&mut buf, data);
    assert(buf@ =~= sig_command_bytes(code, id, data@));
    buf
}

/// Every signaling code decodes back from its own wire value.
pub proof fn lemma_sig_code_roundtrip(c: L2CapSigCode)
    ensures
        L2CapSigCode::of_byte(c.code()) == Some(c),
{
}

/// A signaling command built from at most 65535 bytes of data decodes to
/// exactly that one command.
pub proof fn lemma_sig_command_roundtrip(code: L2CapSigCode, id: u8, data: Seq<u8>)
    requires
        data.len() <= 65535,
    ensures
        sig_commands_from(sig_command_bytes(code, id, data), 0) == seq![(code, id, data)],
{
    let b = sig_command_bytes(code, id, data);
    lemma_le16_roundtrip(data.len() as u16);
    lemma_sig_code_roundtrip(code);
    assert(field16(b, 2) == data.len());
    assert(sig_commands_from(b, 4 + data.len() as int) == Seq::<(L2CapSigCode, u8, Seq<u8>)>::empty());
    assert(b.subrange(4, 4 + data.len() as int) =~= data);
    assert(sig_commands_from(b, 0) =~= seq![(code, id, data)]);
}


// ============================================================================
// Connection Request / Response
// ============================================================================

/// Connection Request: `| PSM(2) | source CID(2) |`.
#[derive(Clone, Copy, Debug)]
pub struct L2CapConnReq {
    pub psm: L2CapPsm,
    pub source_cid: u16,
}

impl L2CapConnReq {
    pub open spec fn accepts(data: Seq<u8>) -> bool {
        data.len() >= 4
    }

    pub open spec fn decodes(self, data: Seq<u8>) -> bool {
        &&& self.psm == spec_psm_of(field16(data, 0))
        &&& self.source_cid == field16(data, 2)
    }

    pub open spec fn spec_build(self) -> Seq<u8> {
        le16(self.psm.raw()) + le16(self.source_cid)
    }

    pub fn parse(data: &[u8]) -> (r: Option<Self>)
        ensures
            r is Some <==> Self::accepts(data@),
            r matches Some(m) ==> m.decodes(data@),
    {
        if data.len() < 4 {
            return None;
        }
        let psm_raw = read_u16_le(data[0], data[1]);
        let source_cid = read_u16_le(data[2], data[3]);
        Some(L2CapConnReq { psm: L2CapPsm::from_raw(psm_raw), source_cid })
    }

    pub fn build(&self) -> (r: Vec<u8>)
        ensures
            r@ == self.spec_build(),
    {
        let mut buf: Vec<u8> = Vec::new();
        push_u16_le(&mut buf, self.psm.to_raw());
        push_u16_le(&mut buf, self.source_cid);
        buf
    }
}

/// Connection Response result codes.
#[derive(Clone, Copy, PartialEq, Eq, Debug, Structural)]
pub enum L2CapConnResult {
    Success,
    Pending,
    PsmNotSupported,
    SecurityBlock,
    NoResources,
    InvalidParams,
    InvalidSourceCid,
    SourceCidAlreadyAllocated,
}

impl L2CapConnResult {
    /// Wire value of this variant.
    pub open spec fn code(self) -> u16 {
        match self {
            L2CapConnResult::Success => 0x0000,
            L2CapConnResult::Pending => 0x0001,
            L2CapConnResult::PsmNotSupported => 0x0002,
            L2CapConnResult::SecurityBlock => 0x0003,
            L2CapConnResult::NoResources => 0x0004,
            L2CapConnResult::InvalidParams => 0x0005,
            L2CapConnResult::InvalidSourceCid => 0x0006,
            L2CapConnResult::SourceCidAlreadyAllocated => 0x0007,
        }
    }

    /// The variant a wire value stands for.
    pub open spec fn of_raw(b: u16) -> L2CapConnResult {
        match b {
            0x0000 => L2CapConnResult::Success,
            0x0001 => L2CapConnResult::Pending,
            0x0002 => L2CapConnResult::PsmNotSupported,
            0x0003 => L2CapConnResult::SecurityBlock,
            0x0004 => L2CapConnResult::NoResources,
            0x0005 => L2CapConnResult::InvalidParams,
            0x0006 => L2CapConnResult::InvalidSourceCid,
            0x0007 => L2CapConnResult::SourceCidAlreadyAllocated,
            _ => L2CapConnResult::NoResources,
        }
    }

    pub fn to_raw(&self) -> (r: u16)
        ensures
            r == self.code(),
    {
        match self {
            L2CapConnResult::Success => 0x0000,
            L2CapConnResult::Pending => 0x0001,
            L2CapConnResult::PsmNotSupported => 0x0002,
            L2CapConnResult::SecurityBlock => 0x0003,
            L2CapConnResult::NoResources => 0x0004,
            L2CapConnResult::InvalidParams => 0x0005,
            L2CapConnResult::InvalidSourceCid => 0x0006,
            L2CapConnResult::SourceCidAlreadyAllocated => 0x0007,
        }
    }

    pub fn from_raw(b: u16) -> (r: Self)
        ensures
            r == Self::of_raw(b),
            r.code() == b || (r == L2CapConnResult::NoResources && forall|t: L2CapConnResult| t.code() != b),
    {
        match b {
            0x0000 => L2CapConnResult::Success,
            0x0001 => L2CapConnResult::Pending,
            0x0002 => L2CapConnResult::PsmNotSupported,
            0x0003 => L2CapConnResult::SecurityBlock,
            0x0004 => L2CapConnResult::NoResources,
            0x0005 => L2CapConnResult::InvalidParams,
            0x0006 => L2CapConnResult::InvalidSourceCid,
            0x0007 => L2CapConnResult::SourceCidAlreadyAllocated,
            _ => L2CapConnResult::NoResources,
        }
    }
}

/// Connection Response: `| destination CID(2) | source CID(2) | result(2) | status(2) |`.
#[derive(Clone, Copy, Debug)]
pub struct L2CapConnRsp {
    pub destination_cid: u16,
    pub source_cid: u16,
    pub result: L2CapConnResult,
    /// 0x0000: no further information; 0x0001: authentication pending.
    pub status: u16,
}

impl L2CapConnRsp {
    pub open spec fn accepts(data: Seq<u8>) -> bool {
        data.len() >= 8
    }

    pub open spec fn decodes(self, data: Seq<u8>) -> bool {
        &&& self.destination_cid == field16(data, 0)
        &&& self.source_cid == field16(data, 2)
        &&& self.result == L2CapConnResult::of_raw(field16(data, 4))
        &&& self.status == field16(data, 6)
    }

    pub open spec fn spec_build(self) -> Seq<u8> {
        le16(self.destination_cid) + le16(self.source_cid) + le16(self.result.code()) + le16(self.status)
    }

    pub fn parse(data: &[u8]) -> (r: Option<Self>)
        ensures
            r is Some <==> Self::accepts(data@),
            r matches Some(m) ==> m.decodes(data@),
    {
        if data.len() < 8 {
            return None;
        }
        Some(L2CapConnRsp {
            destination_cid: read_u16_le(data[0], data[1]),
            source_cid: read_u16_le(data[2], data[3]),
            result: L2CapConnResult::from_raw(read_u16_le(data[4], data[5])),
            status: read_u16_le(data[6], data[7]),
        })
    }

    pub fn build(&self) -> (r: Vec<u8>)
        ensures
            r@ == self.spec_build(),
    {
        let mut buf: Vec<u8> = Vec::new();
        push_u16_le(&mut buf, self.destination_cid);
        push_u16_le(&mut buf, self.source_cid);
        push_u16_le(&mut buf, self.result.to_raw());
        push_u16_le(&mut buf, self.status);
        buf
    }
}

/// A Connection Request decodes to what was encoded; the PSM comes back
/// as the variant its raw value names.
pub proof fn lemma_conn_req_roundtrip(req: L2CapConnReq)
    ensures
        L2CapConnReq::accepts(req.spec_build()),
        spec_psm_of(field16(req.spec_build(), 0)) == spec_psm_of(req.psm.raw()),
        field16(req.spec_build(), 2) == req.source_cid,
{
    lemma_le16_roundtrip(req.psm.raw());
    lemma_le16_roundtrip(req.source_cid);
}

/// Every connection result decodes back from its own wire value.
pub proof fn lemma_conn_result_roundtrip(r: L2CapConnResult)
    ensures
        L2CapConnResult::of_raw(r.code()) == r,
{
}

/// A Connection Response decodes to exactly what was encoded.
pub proof fn lemma_conn_rsp_roundtrip(rsp: L2CapConnRsp)
    ensures
        L2CapConnRsp::accepts(rsp.spec_build()),
        rsp.decodes(rsp.spec_build()),
{
    lemma_le16_roundtrip(rsp.destination_cid);
    lemma_le16_roundtrip(rsp.source_cid);
    lemma_le16_roundtrip(rsp.result.code());
    lemma_le16_roundtrip(rsp.status);
    lemma_conn_result_roundtrip(rsp.result);
}

// ============================================================================
// Configuration
// ============================================================================

/// Configuration option types; an unknown type keeps its raw byte, so a
/// decoded option is re-encoded with the type byte it came with.
#[derive(Clone, Copy, PartialEq, Eq, Debug, Structural)]
pub enum L2CapConfigOptType {
    Mtu,
    FlushTimeout,
    QualityOfService,
    RetransmissionAndFlowControl,
    Fcs,
    ExtendedFlowSpec,
    ExtendedWindowSize,
    Unknown(u8),
}

impl L2CapConfigOptType {
    /// Wire value of this option type.
    pub open spec fn code(self) -> u8 {
        match self {
            L2CapConfigOptType::Mtu => 0x01,
            L2CapConfigOptType::FlushTimeout => 0x02,
            L2CapConfigOptType::QualityOfService => 0x03,
            L2CapConfigOptType::RetransmissionAndFlowControl => 0x04,
            L2CapConfigOptType::Fcs => 0x05,
            L2CapConfigOptType::ExtendedFlowSpec => 0x06,
            L2CapConfigOptType::ExtendedWindowSize => 0x07,
            L2CapConfigOptType::Unknown(b) => b,
        }
    }

    /// The option type a wire value stands for.
    pub open spec fn of_byte(b: u8) -> L2CapConfigOptType {
        match b {
            0x01 => L2CapConfigOptType::Mtu,
            0x02 => L2CapConfigOptType::FlushTimeout,
            0x03 => L2CapConfigOptType::QualityOfService,
            0x04 => L2CapConfigOptType::RetransmissionAndFlowControl,
            0x05 => L2CapConfigOptType::Fcs,
            0x06 => L2CapConfigOptType::ExtendedFlowSpec,
            0x07 => L2CapConfigOptType::ExtendedWindowSize,
            _ => L2CapConfigOptType::Unknown(b),
        }
    }

    pub fn from_byte(b: u8) -> (r: Self)
        ensures
            r == Self::of_byte(b),
            r.code() == b,
    {
        match b {
            0x01 => L2CapConfigOptType::Mtu,
            0x02 => L2CapConfigOptType::FlushTimeout,
            0x03 => L2CapConfigOptType::QualityOfService,
            0x04 => L2CapConfigOptType::RetransmissionAndFlowControl,
            0x05 => L2CapConfigOptType::Fcs,
            0x06 => L2CapConfigOptType::ExtendedFlowSpec,
            0x07 => L2CapConfigOptType::ExtendedWindowSize,
            _ => L2CapConfigOptType::Unknown(b),
        }
    }

    /// The raw byte of this option type.
    pub fn to_byte(self) -> (r: u8)
        ensures
            r == self.code(),
    {
        match self {
            L2CapConfigOptType::Mtu => 0x01,
            L2CapConfigOptType::FlushTimeout => 0x02,
            L2CapConfigOptType::QualityOfService => 0x03,
            L2CapConfigOptType::RetransmissionAndFlowControl => 0x04,
            L2CapConfigOptType::Fcs => 0x05,
            L2CapConfigOptType::ExtendedFlowSpec => 0x06,
            L2CapConfigOptType::ExtendedWindowSize => 0x07,
            L2CapConfigOptType::Unknown(b) => b,
        }
    }
}

/// Decoding a type byte and encoding the result gives the byte back.
pub proof fn lemma_config_opt_type_byte_roundtrip(b: u8)
    ensures
        L2CapConfigOptType::of_byte(b).code() == b,
{
}

/// A configuration option: `| type | length | value |`.
#[derive(Clone, Debug)]
pub struct L2CapConfigOpt {
    pub opt_type: L2CapConfigOptType,
    pub value: Vec<u8>,
}

impl L2CapConfigOpt {
    pub open spec fn view(&self) -> (L2CapConfigOptType, Seq<u8>) {
        (self.opt_type, self.value@)
    }
}

/// The views of a list of options.
pub open spec fn config_opt_views(v: Seq<L2CapConfigOpt>) -> Seq<(L2CapConfigOptType, Seq<u8>)> {
    v.map_values(|o: L2CapConfigOpt| o@)
}

/// Options found in `data` from offset `off` on; the scan stops at an
/// option whose value runs past the end.
pub open spec fn config_opts_from(data: Seq<u8>, off: int) -> Seq<(L2CapConfigOptType, Seq<u8>)>
    decreases data.len() - off,
{
    if off < 0 || off + 2 > data.len() {
        seq![]
    } else {
        let len = data[off + 1] as int;
        if off + 2 + len > data.len() {
            seq![]
        } else {
            seq![(L2CapConfigOptType::of_byte(data[off]), data.subrange(off + 2, off + 2 + len))]
                + config_opts_from(data, off + 2 + len)
        }
    }
}

/// Encoding of one option; the length byte holds the value length
/// truncated to 8 bits.
pub open spec fn config_opt_bytes(o: (L2CapConfigOptType, Seq<u8>)) -> Seq<u8> {
    seq![o.0.code(), o.1.len() as u8] + o.1
}

/// Encoding of a list of options, in order.
pub open spec fn config_opts_bytes(opts: Seq<(L2CapConfigOptType, Seq<u8>)>) -> Seq<u8>
    decreases opts.len(),
{
    if opts.len() == 0 {
        seq![]
    } else {
        config_opts_bytes(opts.drop_last()) + config_opt_bytes(opts.last())
    }
}

fn parse_config_options(data: &[u8], start: usize) -> (r: Vec<L2CapConfigOpt>)
    requires
        start <= data@.len(),
    ensures
        config_opt_views(r@) == config_opts_from(data@, start as int),
{
    let mut options: Vec<L2CapConfigOpt> = Vec::new();
    let mut offset: usize = start;
    let dl = data.len();
    while dl - offset >= 2
        invariant_except_break
            dl == data@.len(),
            offset <= dl,
            config_opt_views(options@) + config_opts_from(data@, offset as int)
                == config_opts_from(data@, start as int),
        ensures
            config_opt_views(options@) == config_opts_from(data@, start as int),
        decreases dl - offset,
    {
        let opt_type = L2CapConfigOptType::from_byte(data[offset]);
        let opt_len = data[offset + 1] as usize;
        if opt_len > dl - offset - 2 {
            assert(config_opt_views(options@) + config_opts_from(data@, offset as int)
                =~= config_opt_views(options@));
            break;
        }
        let end = offset + 2 + opt_len;
        let ghost before = config_opt_views(options@);
        let ghost rest = config_opts_from(data@, end as int);
        let value = copy_range(data, offset + 2, end);
        let opt = L2CapConfigOpt { opt_type, value };
        options.push(opt);
        assert(config_opt_views(options@) =~= before.push(opt@));
        assert(before.push(opt@) + rest =~= before + (seq![opt@] + rest));
        offset = end;
    }
    options
}

pub(crate) fn push_config_options(buf: &mut Vec<u8>, options: &Vec<L2CapConfigOpt>)
    ensures
        final(buf)@ == old(buf)@ + config_opts_bytes(config_opt_views(options@)),
{
    let ghost head = buf@;
    let mut i: usize = 0;
    while i < options.len()
        invariant
            0 <= i <= options@.len(),
            buf@ == head + config_opts_bytes(config_opt_views(options@.take(i as int))),
        decreases options@.len() - i,
    {
        let opt = &options[i];
        let ghost prev = buf@;
        buf.push(opt.opt_type.to_byte());
        buf.push(opt.value.len() as u8);
        push_slice(buf, opt.value.as_slice());
        proof {
            let vs = config_opt_views(options@.take(i + 1));
            assert(vs.drop_last() =~= config_opt_views(options@.take(i as int)));
            assert(vs.last() == opt@);
            assert(buf@ =~= prev + config_opt_bytes(opt@));
        }
        i = i + 1;
    }
    assert(options@.take(i as int) =~= options@);
}

/// Configure Request: `| destination CID(2) | flags(2) | options |`.
#[derive(Clone, Debug)]
pub struct L2CapConfigReq {
    pub destination_cid: u16,
    /// Bit 0: continuation.
    pub flags: u16,
    pub options: Vec<L2CapConfigOpt>,
}

impl L2CapConfigReq {
    pub open spec fn accepts(data: Seq<u8>) -> bool {
        data.len() >= 4
    }

    pub open spec fn decodes(self, data: Seq<u8>) -> bool {
        &&& self.destination_cid == field16(data, 0)
        &&& self.flags == field16(data, 2)
        &&& config_opt_views(self.options@) == config_opts_from(data, 4)
    }

    pub open spec fn spec_build(self) -> Seq<u8> {
        le16(self.destination_cid) + le16(self.flags) + config_opts_bytes(config_opt_views(self.options@))
    }

    pub fn parse(data: &[u8]) -> (r: Option<Self>)
        ensures
            r is Some <==> Self::accepts(data@),
            r matches Some(m) ==> m.decodes(data@),
    {
        if data.len() < 4 {
            return None;
        }
        let destination_cid = read_u16_le(data[0], data[1]);
        let flags = read_u16_le(data[2], data[3]);
        let options = parse_config_options(data, 4);
        Some(L2CapConfigReq { destination_cid, flags, options })
    }

    pub fn build(&self) -> (r: Vec<u8>)
        ensures
            r@ == self.spec_build(),
    {
        let mut buf: Vec<u8> = Vec::new();
        push_u16_le(&mut buf, self.destination_cid);
        push_u16_le(&mut buf, self.flags);
        push_config_options(&mut buf, &self.options);
        buf
    }
}

/// Whether an option can be encoded and decoded back unchanged: its value
/// fits the length byte and its type is the one its byte decodes to.
pub open spec fn config_opt_encodable(o: (L2CapConfigOptType, Seq<u8>)) -> bool {
    o.1.len() <= 255 && L2CapConfigOptType::of_byte(o.0.code()) == o.0
}

proof fn lemma_config_opts_bytes_front(opts: Seq<(L2CapConfigOptType, Seq<u8>)>)
    requires
        opts.len() > 0,
    ensures
        config_opts_bytes(opts) == config_opt_bytes(opts[0]) + config_opts_bytes(opts.drop_first()),
    decreases opts.len(),
{
    if opts.len() == 1 {
        assert(opts.drop_last() =~= Seq::<(L2CapConfigOptType, Seq<u8>)>::empty());
        assert(opts.drop_first() =~= Seq::<(L2CapConfigOptType, Seq<u8>)>::empty());
        assert(config_opts_bytes(opts.drop_last()) =~= Seq::<u8>::empty());
        assert(config_opts_bytes(opts.drop_first()) =~= Seq::<u8>::empty());
        assert(opts.last() == opts[0]);
        assert(config_opts_bytes(opts) =~= config_opt_bytes(opts[0]));
    } else {
        let init = opts.drop_last();
        lemma_config_opts_bytes_front(init);
        assert(init.drop_first() =~= opts.drop_first().drop_last());
        assert(opts.drop_first().last() == opts.last());
        assert(config_opts_bytes(opts) =~= config_opt_bytes(opts[0]) + config_opts_bytes(opts.drop_first()));
    }
}

proof fn lemma_config_opts_decode(prefix: Seq<u8>, opts: Seq<(L2CapConfigOptType, Seq<u8>)>)
    requires
        forall|i: int| 0 <= i < opts.len() ==> config_opt_encodable(#[trigger] opts[i]),
    ensures
        config_opts_from(prefix + config_opts_bytes(opts), prefix.len() as int) == opts,
    decreases opts.len(),
{
    let data = prefix + config_opts_bytes(opts);
    let off = prefix.len() as int;
    if opts.len() == 0 {
        assert(data =~= prefix);
    } else {
        lemma_config_opts_bytes_front(opts);
        let o = opts[0];
        assert(config_opt_encodable(o));
        let rest = opts.drop_first();
        let p2 = prefix + config_opt_bytes(o);
        assert(data =~= p2 + config_opts_bytes(rest));
        assert forall|i: int| 0 <= i < rest.len() implies config_opt_encodable(#[trigger] rest[i]) by {
            assert(rest[i] == opts[i + 1]);
        }
        lemma_config_opts_decode(p2, rest);
        assert(data[off] == o.0.code());
        assert(data[off + 1] == o.1.len() as u8);
        assert(data.subrange(off + 2, off + 2 + o.1.len()) =~= o.1);
        assert(p2.len() == off + 2 + o.1.len());
        assert(config_opts_from(data, off) =~= seq![o] + rest);
        assert(seq![o] + rest =~= opts);
    }
}

/// A Configure Request whose options all have values of at most 255
/// bytes and types that decode back to themselves decodes to exactly what
/// was encoded.
pub proof fn lemma_config_req_roundtrip(req: L2CapConfigReq)
    requires
        forall|i: int| 0 <= i < req.options@.len() ==> config_opt_encodable(#[trigger] req.options@[i]@),
    ensures
        L2CapConfigReq::accepts(req.spec_build()),
        req.decodes(req.spec_build()),
{
    let views = config_opt_views(req.options@);
    let prefix = le16(req.destination_cid) + le16(req.flags);
    assert forall|i: int| 0 <= i < views.len() implies config_opt_encodable(#[trigger] views[i]) by {
        assert(views[i] == req.options@[i]@);
    }
    lemma_config_opts_decode(prefix, views);
    lemma_le16_roundtrip(req.destination_cid);
    lemma_le16_roundtrip(req.flags);
    assert(req.spec_build() =~= prefix + config_opts_bytes(views));
}

/// Configure Response result codes.
#[derive(Clone, Copy, PartialEq, Eq, Debug, Structural)]
pub enum L2CapConfigResult {
    Success,
    UnacceptableParams,
    Rejected,
}

impl L2CapConfigResult {
    /// Wire value of this variant.
    pub open spec fn code(self) -> u16 {
        match self {
            L2CapConfigResult::Success => 0x0000,
            L2CapConfigResult::UnacceptableParams => 0x0001,
            L2CapConfigResult::Rejected => 0x0002,
        }
    }

    /// The variant a wire value stands for.
    pub open spec fn of_raw(b: u16) -> L2CapConfigResult {
        match b {
            0x0000 => L2CapConfigResult::Success,
            0x0001 => L2CapConfigResult::UnacceptableParams,
            0x0002 => L2CapConfigResult::Rejected,
            _ => L2CapConfigResult::Rejected,
        }
    }

    pub fn to_raw(&self) -> (r: u16)
        ensures
            r == self.code(),
    {
        match self {
            L2CapConfigResult::Success => 0x0000,
            L2CapConfigResult::UnacceptableParams => 0x0001,
            L2CapConfigResult::Rejected => 0x0002,
        }
    }

    pub fn from_raw(b: u16) -> (r: Self)
        ensures
            r == Self::of_raw(b),
            r.code() == b || (r == L2CapConfigResult::Rejected && forall|t: L2CapConfigResult| t.code() != b),
    {
        match b {
            0x0000 => L2CapConfigResult::Success,
            0x0001 => L2CapConfigResult::UnacceptableParams,
            0x0002 => L2CapConfigResult::Rejected,
            _ => L2CapConfigResult::Rejected,
        }
    }
}

/// Configure Response: `| source CID(2) | flags(2) | result(2) | options |`.
#[derive(Clone, Debug)]
pub struct L2CapConfigRsp {
    pub source_cid: u16,
    pub flags: u16,
    pub result: L2CapConfigResult,
    pub options: Vec<L2CapConfigOpt>,
}

impl L2CapConfigRsp {
    pub open spec fn accepts(data: Seq<u8>) -> bool {
        data.len() >= 6
    }

    pub open spec fn decodes(self, data: Seq<u8>) -> bool {
        &&& self.source_cid == field16(data, 0)
        &&& self.flags == field16(data, 2)
        &&& self.result == L2CapConfigResult::of_raw(field16(data, 4))
        &&& config_opt_views(self.options@) == config_opts_from(data, 6)
    }

    pub fn parse(data: &[u8]) -> (r: Option<Self>)
        ensures
            r is Some <==> Self::accepts(data@),
            r matches Some(m) ==> m.decodes(data@),
    {
        if data.len() < 6 {
            return None;
        }
        let source_cid = read_u16_le(data[0], data[1]);
        let flags = read_u16_le(data[2], data[3]);
        let result = L2CapConfigResult::from_raw(read_u16_le(data[4], data[5]));
        let options = parse_config_options(data, 6);
        Some(L2CapConfigRsp { source_cid, flags, result, options })
    }
}

// ============================================================================
// Disconnection
// ============================================================================

/// Disconnection Request: `| destination CID(2) | source CID(2) |`.
#[derive(Clone, Copy, Debug)]
pub struct L2CapDisconReq {
    pub destination_cid: u16,
    pub source_cid: u16,
}

/// Whether `data` holds at least two CIDs.
pub open spec fn accepts_cid_pair(data: Seq<u8>) -> bool {
    data.len() >= 4
}

impl L2CapDisconReq {
    pub open spec fn decodes(self, data: Seq<u8>) -> bool {
        self.destination_cid == field16(data, 0) && self.source_cid == field16(data, 2)
    }

    pub fn parse(data: &[u8]) -> (r: Option<Self>)
        ensures
            r is Some <==> accepts_cid_pair(data@),
            r matches Some(m) ==> m.decodes(data@),
    {
        if data.len() < 4 {
            return None;
        }
        Some(L2CapDisconReq {
            destination_cid: read_u16_le(data[0], data[1]),
            source_cid: read_u16_le(data[2], data[3]),
        })
    }

    pub fn build(&self) -> (r: Vec<u8>)
        ensures
            r@ == le16(self.destination_cid) + le16(self.source_cid),
    {
        let mut buf: Vec<u8> = Vec::new();
        push_u16_le(&mut buf, self.destination_cid);
        push_u16_le(&mut buf, self.source_cid);
        buf
    }
}

/// A Disconnection Request decodes to exactly what was encoded.
pub proof fn lemma_discon_req_roundtrip(req: L2CapDisconReq)
    ensures
        accepts_cid_pair(le16(req.destination_cid) + le16(req.source_cid)),
        req.decodes(le16(req.destination_cid) + le16(req.source_cid)),
{
    lemma_le16_roundtrip(req.destination_cid);
    lemma_le16_roundtrip(req.source_cid);
}

/// Disconnection Response: `| destination CID(2) | source CID(2) |`.
#[derive(Clone, Copy, Debug)]
pub struct L2CapDisconRsp {
    pub destination_cid: u16,
    pub source_cid: u16,
}

impl L2CapDisconRsp {
    pub open spec fn decodes(self, data: Seq<u8>) -> bool {
        self.destination_cid == field16(data, 0) && self.source_cid == field16(data, 2)
    }

    pub fn parse(data: &[u8]) -> (r: Option<Self>)
        ensures
            r is Some <==> accepts_cid_pair(data@),
            r matches Some(m) ==> m.decodes(data@),
    {
        if data.len() < 4 {
            return None;
        }
        Some(L2CapDisconRsp {
            destination_cid: read_u16_le(data[0], data[1]),
            source_cid: read_u16_le(data[2], data[3]),
        })
    }
}

// ============================================================================
// Command Reject
// ============================================================================

/// Command Reject reasons.
#[derive(Clone, Copy, PartialEq, Eq, Debug, Structural)]
pub enum L2CapRejectReason {
    NotUnderstood,
    SignalingMtuExceeded,
    InvalidCidInRequest,
}

impl L2CapRejectReason {
    /// Wire value of this variant.
    pub open spec fn code(self) -> u16 {
        match self {
            L2CapRejectReason::NotUnderstood => 0x0000,
            L2CapRejectReason::SignalingMtuExceeded => 0x0001,
            L2CapRejectReason::InvalidCidInRequest => 0x0002,
        }
    }

    pub fn to_raw(&self) -> (r: u16)
        ensures
            r == self.code(),
    {
        match self {
            L2CapRejectReason::NotUnderstood => 0x0000,
            L2CapRejectReason::SignalingMtuExceeded => 0x0001,
            L2CapRejectReason::InvalidCidInRequest => 0x0002,
        }
    }

}

/// Command Reject.
#[derive(Clone, Debug)]
pub struct L2CapCommandReject {
    pub reason: L2CapRejectReason,
    pub data: Vec<u8>,
}

/// Data of a Command Reject: the reason, then the CID when the reason
/// is an invalid CID.
pub open spec fn reject_data(reason: L2CapRejectReason, cid: u16) -> Seq<u8> {
    le16(reason.code()) + if reason == L2CapRejectReason::InvalidCidInRequest { le16(cid) } else { seq![] }
}

impl L2CapCommandReject {
    /// Encodes a Command Reject signaling command with identifier `id`.
    pub fn build(reason: L2CapRejectReason, id: u8, cid: u16) -> (r: Vec<u8>)
        ensures
            r@ == sig_command_bytes(L2CapSigCode::CommandReject, id, reject_data(reason, cid)),
    {
        let mut data: Vec<u8> = Vec::new();
        push_u16_le(&mut data, reason.to_raw());
        if reason == L2CapRejectReason::InvalidCidInRequest {
            push_u16_le(&mut data, cid);
        }
        assert(data@ =~= reject_data(reason, cid));
        build_sig_command(L2CapSigCode::CommandReject, id, data.as_slice())
    }
}


// ============================================================================
// Channels
// ============================================================================

/// One L2CAP channel.
#[derive(Clone, Copy, Debug)]
pub struct L2CapChannel {
    /// Connection handle this channel belongs to.
    pub conn_handle: ConnHandle,
    pub local_cid: u16,
    pub remote_cid: u16,
    pub psm: L2CapPsm,
    pub state: L2CapChannelState,
    pub local_mtu: u16,
    pub remote_mtu: u16,
    /// Identifier of the signaling command awaiting an answer.
    pub pending_id: u8,
}

impl L2CapChannel {
    /// A closed channel with default MTUs and no remote CID yet.
    pub open spec fn spec_new(conn_handle: ConnHandle, local_cid: u16, psm: L2CapPsm) -> L2CapChannel {
        L2CapChannel {
            conn_handle,
            local_cid,
            remote_cid: 0,
            psm,
            state: L2CapChannelState::Closed,
            local_mtu: 672,
            remote_mtu: 672,
            pending_id: 0,
        }
    }

    pub fn new(conn_handle: ConnHandle, local_cid: u16, psm: L2CapPsm) -> (r: Self)
        ensures
            r == Self::spec_new(conn_handle, local_cid, psm),
    {
        L2CapChannel {
            conn_handle,
            local_cid,
            remote_cid: 0,
            psm,
            state: L2CapChannelState::Closed,
            local_mtu: L2CAP_DEFAULT_MTU,
            remote_mtu: L2CAP_DEFAULT_MTU,
            pending_id: 0,
        }
    }
}

/// The CID allocated after `cid`: the next one, wrapping back to the start
/// of the dynamic range.
pub open spec fn next_dynamic_cid(cid: u16) -> u16 {
    if cid == 0xFFFF || cid + 1 < 0x0040 { 0x0040 } else { (cid + 1) as u16 }
}

/// `mtu` clamped to `[L2CAP_MIN_MTU, L2CAP_MAX_MTU]`.
pub open spec fn clamp_l2cap_mtu(mtu: u16) -> u16 {
    if mtu < 48 { 48 } else { mtu }
}

/// Index of the first channel with local CID `cid`.
pub open spec fn first_with_local_cid(s: Seq<L2CapChannel>, cid: u16) -> int {
    choose|i: int| 0 <= i < s.len() && s[i].local_cid == cid && forall|j: int| 0 <= j < i ==> s[j].local_cid != cid
}

/// Index of the first channel with remote CID `cid`.
pub open spec fn first_with_remote_cid(s: Seq<L2CapChannel>, cid: u16) -> int {
    choose|i: int| 0 <= i < s.len() && s[i].remote_cid == cid && forall|j: int| 0 <= j < i ==> s[j].remote_cid != cid
}

/// The channels of `s` on connection `h`, in order.
pub open spec fn channels_on(s: Seq<L2CapChannel>, h: ConnHandle) -> Seq<L2CapChannel> {
    s.filter(|c: L2CapChannel| c.conn_handle == h)
}

/// The channels of `s` whose local CID is not `cid`, in order.
pub open spec fn channels_without(s: Seq<L2CapChannel>, cid: u16) -> Seq<L2CapChannel> {
    s.filter(|c: L2CapChannel| c.local_cid != cid)
}

/// Removing a CID that no channel in `s` uses leaves `s` as it is.
pub proof fn lemma_remove_absent_cid(s: Seq<L2CapChannel>, cid: u16)
    requires
        forall|i: int| 0 <= i < s.len() ==> (#[trigger] s[i]).local_cid != cid,
    ensures
        channels_without(s, cid) == s,
    decreases s.len(),
{
    reveal_with_fuel(Seq::filter, 1);
    if s.len() > 0 {
        let init = s.drop_last();
        assert forall|i: int| 0 <= i < init.len() implies (#[trigger] init[i]).local_cid != cid by {
            assert(init[i] == s[i]);
        }
        lemma_remove_absent_cid(init, cid);
        assert(init.push(s.last()) =~= s);
    }
}

/// Removing a channel just added, when no other channel had its local
/// CID, gives back the table as it was before.
pub proof fn lemma_remove_created_channel(s: Seq<L2CapChannel>, ch: L2CapChannel)
    requires
        forall|i: int| 0 <= i < s.len() ==> (#[trigger] s[i]).local_cid != ch.local_cid,
    ensures
        channels_without(s.push(ch), ch.local_cid) == s,
{
    s.lemma_filter_push(ch, |c: L2CapChannel| c.local_cid != ch.local_cid);
    lemma_remove_absent_cid(s, ch.local_cid);
}

/// After removal no channel has the removed local CID.
pub proof fn lemma_removed_cid_gone(s: Seq<L2CapChannel>, cid: u16)
    ensures
        forall|i: int| 0 <= i < channels_without(s, cid).len() ==> (#[trigger] channels_without(s, cid)[i]).local_cid != cid,
{
    let p = |c: L2CapChannel| c.local_cid != cid;
    assert forall|i: int| 0 <= i < channels_without(s, cid).len() implies (#[trigger] channels_without(s, cid)[i]).local_cid != cid by {
        s.lemma_filter_pred(p, i);
    }
}

/// The table of active channels, with the CID and signaling-identifier
/// allocators.
pub struct L2CapChannelManager {
    channels: Vec<L2CapChannel>,
    next_local_cid: u16,
    next_sig_id: u8,
    local_mtu: u16,
}

impl L2CapChannelManager {
    /// The active channels, in creation order.
    pub closed spec fn channels(&self) -> Seq<L2CapChannel> {
        self.channels@
    }

    /// The CID the next channel gets.
    pub closed spec fn next_cid(&self) -> u16 {
        self.next_local_cid
    }

    /// The identifier the next signaling command gets.
    pub closed spec fn next_id(&self) -> u8 {
        self.next_sig_id
    }

    /// The local MTU offered on new channels.
    pub closed spec fn mtu(&self) -> u16 {
        self.local_mtu
    }

    /// The next CID is always in the dynamic range.
    pub open spec fn wf(&self) -> bool {
        self.next_cid() >= 0x0040
    }

    pub fn new() -> (r: Self)
        ensures
            r.wf(),
            r.channels() == Seq::<L2CapChannel>::empty(),
            r.next_cid() == 0x0040,
            r.next_id() == 1,
            r.mtu() == 672,
    {
        L2CapChannelManager {
            channels: Vec::new(),
            next_local_cid: L2CAP_FIRST_DYNAMIC_CID,
            next_sig_id: 1,
            local_mtu: L2CAP_DEFAULT_MTU,
        }
    }

    /// Sets the local MTU, clamped to `[L2CAP_MIN_MTU, L2CAP_MAX_MTU]`.
    pub fn set_local_mtu(&mut self, mtu: u16)
        ensures
            final(self).mtu() == clamp_l2cap_mtu(mtu),
            final(self).channels() == old(self).channels(),
            final(self).next_cid() == old(self).next_cid(),
            final(self).next_id() == old(self).next_id(),
    {
        self.local_mtu = if mtu < L2CAP_MIN_MTU { L2CAP_MIN_MTU } else { mtu };
    }

    pub fn local_mtu(&self) -> (r: u16)
        ensures
            r == self.mtu(),
    {
        self.local_mtu
    }

    /// Hands out the next signaling identifier; identifiers wrap at 256.
    pub fn alloc_sig_id(&mut self) -> (r: u8)
        ensures
            r == old(self).next_id(),
            final(self).next_id() == (old(self).next_id() + 1) % 256,
            final(self).channels() == old(self).channels(),
            final(self).next_cid() == old(self).next_cid(),
            final(self).mtu() == old(self).mtu(),
    {
        let id = self.next_sig_id;
        self.next_sig_id = if id == 255 { 0 } else { id + 1 };
        id
    }

    /// Hands out the next local CID; past 0xFFFF it starts again at the
    /// beginning of the dynamic range.
    pub fn alloc_local_cid(&mut self) -> (r: u16)
        requires
            old(self).wf(),
        ensures
            r == old(self).next_cid(),
            r >= 0x0040,
            final(self).wf(),
            final(self).next_cid() == next_dynamic_cid(old(self).next_cid()),
            final(self).channels() == old(self).channels(),
            final(self).next_id() == old(self).next_id(),
            final(self).mtu() == old(self).mtu(),
    {
        let cid = self.next_local_cid;
        let next = if cid == 0xFFFF { 0 } else { cid + 1 };
        self.next_local_cid = if next < L2CAP_FIRST_DYNAMIC_CID { L2CAP_FIRST_DYNAMIC_CID } else { next };
        cid
    }

    /// Creates a closed channel on a fresh local CID and returns it for
    /// the caller to fill in.
    pub fn create_channel(&mut self, conn_handle: ConnHandle, psm: L2CapPsm) -> (r: &mut L2CapChannel)
        requires
            old(self).wf(),
        ensures
            *r == L2CapChannel::spec_new(conn_handle, old(self).next_cid(), psm),
            r.local_cid >= 0x0040,
            final(self).wf(),
            final(self).channels() == old(self).channels().push(*final(r)),
            final(self).next_cid() == next_dynamic_cid(old(self).next_cid()),
            final(self).next_id() == old(self).next_id(),
            final(self).mtu() == old(self).mtu(),
    {
        let local_cid = self.alloc_local_cid();
        self.channels.push(L2CapChannel::new(conn_handle, local_cid, psm));
        let n = self.channels.len() - 1;
        &mut self.channels[n]
    }

    /// The first channel with local CID `cid`, for the caller to update.
    pub fn find_by_local_cid(&mut self, cid: u16) -> (r: Option<&mut L2CapChannel>)
        ensures
            r is Some <==> exists|i: int| 0 <= i < old(self).channels().len() && old(self).channels()[i].local_cid == cid,
            r is None ==> final(self).channels() == old(self).channels(),
            r matches Some(c) ==> {
                let i = first_with_local_cid(old(self).channels(), cid);
                &&& 0 <= i < old(self).channels().len()
                &&& *c == old(self).channels()[i]
                &&& final(self).channels() == old(self).channels().update(i, *final(c))
            },
            final(self).next_cid() == old(self).next_cid(),
            final(self).next_id() == old(self).next_id(),
            final(self).mtu() == old(self).mtu(),
    {
        let mut i: usize = 0;
        while i < self.channels.len()
            invariant
                0 <= i <= self.channels@.len(),
                self.channels@ == old(self).channels@,
                self.next_local_cid == old(self).next_local_cid,
                self.next_sig_id == old(self).next_sig_id,
                self.local_mtu == old(self).local_mtu,
                forall|j: int| 0 <= j < i ==> self.channels@[j].local_cid != cid,
            decreases self.channels@.len() - i,
        {
            if self.channels[i].local_cid == cid {
                assert(old(self).channels()[i as int].local_cid == cid);
                return Some(&mut self.channels[i]);
            }
            i = i + 1;
        }
        None
    }

    /// The first channel with remote CID `cid`, for the caller to update.
    pub fn find_by_remote_cid(&mut self, cid: u16) -> (r: Option<&mut L2CapChannel>)
        ensures
            r is Some <==> exists|i: int| 0 <= i < old(self).channels().len() && old(self).channels()[i].remote_cid == cid,
            r is None ==> final(self).channels() == old(self).channels(),
            r matches Some(c) ==> {
                let i = first_with_remote_cid(old(self).channels(), cid);
                &&& 0 <= i < old(self).channels().len()
                &&& *c == old(self).channels()[i]
                &&& final(self).channels() == old(self).channels().update(i, *final(c))
            },
            final(self).next_cid() == old(self).next_cid(),
            final(self).next_id() == old(self).next_id(),
            final(self).mtu() == old(self).mtu(),
    {
        let mut i: usize = 0;
        while i < self.channels.len()
            invariant
                0 <= i <= self.channels@.len(),
                self.channels@ == old(self).channels@,
                self.next_local_cid == old(self).next_local_cid,
                self.next_sig_id == old(self).next_sig_id,
                self.local_mtu == old(self).local_mtu,
                forall|j: int| 0 <= j < i ==> self.channels@[j].remote_cid != cid,
            decreases self.channels@.len() - i,
        {
            if self.channels[i].remote_cid == cid {
                assert(old(self).channels()[i as int].remote_cid == cid);
                return Some(&mut self.channels[i]);
            }
            i = i + 1;
        }
        None
    }

    /// Copies of the channels on connection `handle`, in creation order.
    pub fn find_by_conn_handle(&self, handle: ConnHandle) -> (r: Vec<L2CapChannel>)
        ensures
            r@ == channels_on(self.channels(), handle),
    {
        let mut out: Vec<L2CapChannel> = Vec::new();
        let mut i: usize = 0;
        while i < self.channels.len()
            invariant
                0 <= i <= self.channels@.len(),
                out@ == channels_on(self.channels@.take(i as int), handle),
            decreases self.channels@.len() - i,
        {
            let ch = self.channels[i];
            proof {
                let t = self.channels@.take(i + 1);
                assert(t.drop_last() =~= self.channels@.take(i as int));
                reveal_with_fuel(Seq::filter, 1);
            }
            if ch.conn_handle == handle {
                out.push(ch);
            }
            i = i + 1;
        }
        assert(self.channels@.take(i as int) =~= self.channels@);
        out
    }

    /// Removes every channel with local CID `local_cid`.
    pub fn remove_channel(&mut self, local_cid: u16)
        ensures
            final(self).channels() == channels_without(old(self).channels(), local_cid),
            final(self).next_cid() == old(self).next_cid(),
            final(self).next_id() == old(self).next_id(),
            final(self).mtu() == old(self).mtu(),
    {
        let mut kept: Vec<L2CapChannel> = Vec::new();
        let mut i: usize = 0;
        while i < self.channels.len()
            invariant
                0 <= i <= self.channels@.len(),
                self.channels@ == old(self).channels@,
                kept@ == channels_without(self.channels@.take(i as int), local_cid),
            decreases self.channels@.len() - i,
        {
            let ch = self.channels[i];
            proof {
                let t = self.channels@.take(i + 1);
                assert(t.drop_last() =~= self.channels@.take(i as int));
                reveal_with_fuel(Seq::filter, 1);
            }
            if ch.local_cid != local_cid {
                kept.push(ch);
            }
            i = i + 1;
        }
        assert(self.channels@.take(i as int) =~= self.channels@);
        self.channels = kept;
    }

    /// Number of active channels.
    pub fn channel_count(&self) -> (r: usize)
        ensures
            r == self.channels().len(),
    {
        self.channels.len()
    }
}

// ============================================================================
// Information Request
// ============================================================================

/// Information Request types.
#[derive(Clone, Copy, PartialEq, Eq, Debug, Structural)]
pub enum L2CapInfoType {
    ConnectionlessMtu,
    ExtendedFeatures,
    FixedChannels,
}

impl L2CapInfoType {
    /// Wire value of this variant.
    pub open spec fn code(self) -> u16 {
        match self {
            L2CapInfoType::ConnectionlessMtu => 0x0001,
            L2CapInfoType::ExtendedFeatures => 0x0002,
            L2CapInfoType::FixedChannels => 0x0003,
        }
    }

    /// The variant a wire value stands for.
    pub open spec fn of_raw(b: u16) -> Option<L2CapInfoType> {
        match b {
            0x0001 => Some(L2CapInfoType::ConnectionlessMtu),
            0x0002 => Some(L2CapInfoType::ExtendedFeatures),
            0x0003 => Some(L2CapInfoType::FixedChannels),
            _ => None,
        }
    }

    pub fn to_raw(&self) -> (r: u16)
        ensures
            r == self.code(),
    {
        match self {
            L2CapInfoType::ConnectionlessMtu => 0x0001,
            L2CapInfoType::ExtendedFeatures => 0x0002,
            L2CapInfoType::FixedChannels => 0x0003,
        }
    }

    pub fn from_raw(b: u16) -> (r: Option<Self>)
        ensures
            r == Self::of_raw(b),
            match r {
                Some(t) => t.code() == b,
                None => forall|t: L2CapInfoType| t.code() != b,
            },
    {
        match b {
            0x0001 => Some(L2CapInfoType::ConnectionlessMtu),
            0x0002 => Some(L2CapInfoType::ExtendedFeatures),
            0x0003 => Some(L2CapInfoType::FixedChannels),
            _ => None,
        }
    }
}

/// Extended feature mask bits.
pub const L2CAP_EXTF_FIXED_CHANNELS: u32 = 0x00000001;
pub const L2CAP_EXTF_UNICAST_CONNECTIONLESS: u32 = 0x00000002;
pub const L2CAP_EXTF_ENHANCED_RETRANSMISSION: u32 = 0x00000004;
pub const L2CAP_EXTF_STREAMING: u32 = 0x00000008;
pub const L2CAP_EXTF_FCS: u32 = 0x00000010;
pub const L2CAP_EXTF_EXTENDED_FLOW_SPEC: u32 = 0x00000020;
pub const L2CAP_EXTF_FIXED_CHANNELS_LE: u32 = 0x00000040;
pub const L2CAP_EXTF_ENHANCED_CREDIT_BASED_FLOW_CTRL: u32 = 0x00000080;

/// Fixed-channel mask bits, one per CID.
pub const L2CAP_FIXED_CHAN_SIGNALING: u64 = 0x02;
pub const L2CAP_FIXED_CHAN_CONNECTIONLESS: u64 = 0x04;
pub const L2CAP_FIXED_CHAN_ATT: u64 = 0x10;
pub const L2CAP_FIXED_CHAN_LE_SIGNALING: u64 = 0x20;
pub const L2CAP_FIXED_CHAN_LE_SECURITY: u64 = 0x40;

/// Information Request.
#[derive(Clone, Copy, Debug)]
pub struct L2CapInfoReq {
    pub info_type: L2CapInfoType,
}

/// Information Response.
#[derive(Clone, Debug)]
pub struct L2CapInfoRsp {
    pub info_type: L2CapInfoType,
    /// 0x0000: success; 0x0001: not supported.
    pub result: u16,
    pub data: Vec<u8>,
}

// ============================================================================
// LE credit-based connection
// ============================================================================

/// LE Credit Based Connection Request:
/// `| LE PSM(2) | source CID(2) | MTU(2) | MPS(2) | initial credits(2) |`.
#[derive(Clone, Copy, Debug)]
pub struct L2CapLeCreditConnReq {
    pub psm: L2CapPsm,
    pub source_cid: u16,
    pub mtu: u16,
    /// Largest PDU payload.
    pub mps: u16,
    pub initial_credits: u16,
}

impl L2CapLeCreditConnReq {
    /// At least the first four fields must be present.
    pub open spec fn accepts(data: Seq<u8>) -> bool {
        data.len() >= 8
    }

    /// Initial credits are 0 when the field is missing.
    pub open spec fn decodes(self, data: Seq<u8>) -> bool {
        &&& self.psm == spec_psm_of(field16(data, 0))
        &&& self.source_cid == field16(data, 2)
        &&& self.mtu == field16(data, 4)
        &&& self.mps == field16(data, 6)
        &&& self.initial_credits == if data.len() >= 10 { field16(data, 8) } else { 0 }
    }

    pub open spec fn spec_build(self) -> Seq<u8> {
        le16(self.psm.raw()) + le16(self.source_cid) + le16(self.mtu) + le16(self.mps) + le16(self.initial_credits)
    }

    pub fn parse(data: &[u8]) -> (r: Option<Self>)
        ensures
            r is Some <==> Self::accepts(data@),
            r matches Some(m) ==> m.decodes(data@),
    {
        if data.len() < 8 {
            return None;
        }
        let psm = L2CapPsm::from_raw(read_u16_le(data[0], data[1]));
        let source_cid = read_u16_le(data[2], data[3]);
        let mtu = read_u16_le(data[4], data[5]);
        let mps = read_u16_le(data[6], data[7]);
        let initial_credits = if data.len() >= 10 { read_u16_le(data[8], data[9]) } else { 0 };
        Some(L2CapLeCreditConnReq { psm, source_cid, mtu, mps, initial_credits })
    }

    pub fn build(&self) -> (r: Vec<u8>)
        ensures
            r@ == self.spec_build(),
    {
        let mut buf: Vec<u8> = Vec::new();
        push_u16_le(&mut buf, self.psm.to_raw());
        push_u16_le(&mut buf, self.source_cid);
        push_u16_le(&mut buf, self.mtu);
        push_u16_le(&mut buf, self.mps);
        push_u16_le(&mut buf, self.initial_credits);
        assert(buf@ =~= self.spec_build());
        buf
    }
}

/// An LE credit-based request decodes to what was encoded; the PSM comes
/// back as the variant its raw value names.
pub proof fn lemma_le_credit_conn_roundtrip(req: L2CapLeCreditConnReq)
    ensures
        L2CapLeCreditConnReq::accepts(req.spec_build()),
        (L2CapLeCreditConnReq { psm: spec_psm_of(req.psm.raw()), ..req }).decodes(req.spec_build()),
{
    lemma_le16_roundtrip(req.psm.raw());
    lemma_le16_roundtrip(req.source_cid);
    lemma_le16_roundtrip(req.mtu);
    lemma_le16_roundtrip(req.mps);
    lemma_le16_roundtrip(req.initial_credits);
}

} // verus!
