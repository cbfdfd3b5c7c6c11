//! ATT (Attribute Protocol) PDUs: opcodes, error codes, and the encoder and
//! decoder of every request, response, notification and indication, plus a
//! dispatcher that decodes any incoming PDU. All multi-byte fields are
//! little-endian.

use vstd::prelude::*;
use crate::bytes::{le16, lo8, hi8, u16_le, read_u16_le, push_u16_le, push_slice, copy_range,
    lemma_le16_roundtrip};
use crate::types::{BtUuid, BtUuidType, spec_uuid_type, base_uuid_bytes, bluetooth_base_uuid};

verus! {

/// Default ATT MTU.
pub const ATT_DEFAULT_MTU: u16 = 23;
/// Largest ATT MTU.
pub const ATT_MAX_MTU: u16 = 512;
/// Smallest ATT MTU.
pub const ATT_MIN_MTU: u16 = 23;

/// ATT PDU opcodes.
#[derive(Clone, Copy, PartialEq, Eq, Debug, Structural)]
pub enum AttOpcode {
    ErrorResponse,
    ExchangeMtuRequest,
    ExchangeMtuResponse,
    FindInformationRequest,
    FindInformationResponse,
    FindByTypeValueRequest,
    FindByTypeValueResponse,
    ReadByTypeRequest,
    ReadByTypeResponse,
    ReadRequest,
    ReadResponse,
    ReadBlobRequest,
    ReadBlobResponse,
    ReadMultipleRequest,
    ReadMultipleResponse,
    ReadByGroupTypeRequest,
    ReadByGroupTypeResponse,
    WriteRequest,
    WriteResponse,
    WriteCommand,
    SignedWriteCommand,
    PrepareWriteRequest,
    PrepareWriteResponse,
    ExecuteWriteRequest,
    ExecuteWriteResponse,
    HandleValueNotification,
    HandleValueIndication,
    HandleValueConfirmation,
}

impl AttOpcode {
    /// Wire value of this variant.
    pub open spec fn code(self) -> u8 {
        match self {
            AttOpcode::ErrorResponse => 0x01,
            AttOpcode::ExchangeMtuRequest => 0x02,
            AttOpcode::ExchangeMtuResponse => 0x03,
            AttOpcode::FindInformationRequest => 0x04,
            AttOpcode::FindInformationResponse => 0x05,
            AttOpcode::FindByTypeValueRequest => 0x06,
            AttOpcode::FindByTypeValueResponse => 0x07,
            AttOpcode::ReadByTypeRequest => 0x08,
            AttOpcode::ReadByTypeResponse => 0x09,
            AttOpcode::ReadRequest => 0x0A,
            AttOpcode::ReadResponse => 0x0B,
            AttOpcode::ReadBlobRequest => 0x0C,
            AttOpcode::ReadBlobResponse => 0x0D,
            AttOpcode::ReadMultipleRequest => 0x0E,
            AttOpcode::ReadMultipleResponse => 0x0F,
            AttOpcode::ReadByGroupTypeRequest => 0x10,
            AttOpcode::ReadByGroupTypeResponse => 0x11,
            AttOpcode::WriteRequest => 0x12,
            AttOpcode::WriteResponse => 0x13,
            AttOpcode::WriteCommand => 0x52,
            AttOpcode::SignedWriteCommand => 0xD2,
            AttOpcode::PrepareWriteRequest => 0x16,
            AttOpcode::PrepareWriteResponse => 0x17,
            AttOpcode::ExecuteWriteRequest => 0x18,
            AttOpcode::ExecuteWriteResponse => 0x19,
            AttOpcode::HandleValueNotification => 0x1B,
            AttOpcode::HandleValueIndication => 0x1D,
            AttOpcode::HandleValueConfirmation => 0x1E,
        }
    }

    pub fn to_byte(&self) -> (r: u8)
        ensures
            r == self.code(),
    {
        match self {
            AttOpcode::ErrorResponse => 0x01,
            AttOpcode::ExchangeMtuRequest => 0x02,
            AttOpcode::ExchangeMtuResponse => 0x03,
            AttOpcode::FindInformationRequest => 0x04,
            AttOpcode::FindInformationResponse => 0x05,
            AttOpcode::FindByTypeValueRequest => 0x06,
            AttOpcode::FindByTypeValueResponse => 0x07,
            AttOpcode::ReadByTypeRequest => 0x08,
            AttOpcode::ReadByTypeResponse => 0x09,
            AttOpcode::ReadRequest => 0x0A,
            AttOpcode::ReadResponse => 0x0B,
            AttOpcode::ReadBlobRequest => 0x0C,
            AttOpcode::ReadBlobResponse => 0x0D,
            AttOpcode::ReadMultipleRequest => 0x0E,
            AttOpcode::ReadMultipleResponse => 0x0F,
            AttOpcode::ReadByGroupTypeRequest => 0x10,
            AttOpcode::ReadByGroupTypeResponse => 0x11,
            AttOpcode::WriteRequest => 0x12,
            AttOpcode::WriteResponse => 0x13,
            AttOpcode::WriteCommand => 0x52,
            AttOpcode::SignedWriteCommand => 0xD2,
            AttOpcode::PrepareWriteRequest => 0x16,
            AttOpcode::PrepareWriteResponse => 0x17,
            AttOpcode::ExecuteWriteRequest => 0x18,
            AttOpcode::ExecuteWriteResponse => 0x19,
            AttOpcode::HandleValueNotification => 0x1B,
            AttOpcode::HandleValueIndication => 0x1D,
            AttOpcode::HandleValueConfirmation => 0x1E,
        }
    }

    pub fn from_byte(b: u8) -> (r: Option<Self>)
        ensures
            match r {
                Some(t) => t.code() == b,
                None => forall|t: AttOpcode| t.code() != b,
            },
    {
        match b {
            0x01 => Some(AttOpcode::ErrorResponse),
            0x02 => Some(AttOpcode::ExchangeMtuRequest),
            0x03 => Some(AttOpcode::ExchangeMtuResponse),
            0x04 => Some(AttOpcode::FindInformationRequest),
            0x05 => Some(AttOpcode::FindInformationResponse),
            0x06 => Some(AttOpcode::FindByTypeValueRequest),
            0x07 => Some(AttOpcode::FindByTypeValueResponse),
            0x08 => Some(AttOpcode::ReadByTypeRequest),
            0x09 => Some(AttOpcode::ReadByTypeResponse),
            0x0A => Some(AttOpcode::ReadRequest),
            0x0B => Some(AttOpcode::ReadResponse),
            0x0C => Some(AttOpcode::ReadBlobRequest),
            0x0D => Some(AttOpcode::ReadBlobResponse),
            0x0E => Some(AttOpcode::ReadMultipleRequest),
            0x0F => Some(AttOpcode::ReadMultipleResponse),
            0x10 => Some(AttOpcode::ReadByGroupTypeRequest),
            0x11 => Some(AttOpcode::ReadByGroupTypeResponse),
            0x12 => Some(AttOpcode::WriteRequest),
            0x13 => Some(AttOpcode::WriteResponse),
            0x52 => Some(AttOpcode::WriteCommand),
            0xD2 => Some(AttOpcode::SignedWriteCommand),
            0x16 => Some(AttOpcode::PrepareWriteRequest),
            0x17 => Some(AttOpcode::PrepareWriteResponse),
            0x18 => Some(AttOpcode::ExecuteWriteRequest),
            0x19 => Some(AttOpcode::ExecuteWriteResponse),
            0x1B => Some(AttOpcode::HandleValueNotification),
            0x1D => Some(AttOpcode::HandleValueIndication),
            0x1E => Some(AttOpcode::HandleValueConfirmation),
            _ => None,
        }
    }
}

/// ATT error codes.
#[derive(Clone, Copy, PartialEq, Eq, Debug, Structural)]
pub enum AttErrorCode {
    InvalidHandle,
    ReadNotPermitted,
    WriteNotPermitted,
    InvalidPdu,
    InsufficientAuthentication,
    RequestNotSupported,
    InvalidOffset,
    InsufficientAuthorization,
    PrepareQueueFull,
    AttributeNotFound,
    AttributeNotLong,
    InsufficientEncryptionKeySize,
    InvalidAttributeValueLength,
    UnlikelyError,
    InsufficientEncryption,
    UnsupportedGroupType,
    InsufficientResources,
}

impl AttErrorCode {
    /// Wire value of this variant.
    pub open spec fn code(self) -> u8 {
        match self {
            AttErrorCode::InvalidHandle => 0x01,
            AttErrorCode::ReadNotPermitted => 0x02,
            AttErrorCode::WriteNotPermitted => 0x03,
            AttErrorCode::InvalidPdu => 0x04,
            AttErrorCode::InsufficientAuthentication => 0x05,
            AttErrorCode::RequestNotSupported => 0x06,
            AttErrorCode::InvalidOffset => 0x07,
            AttErrorCode::InsufficientAuthorization => 0x08,
            AttErrorCode::PrepareQueueFull => 0x09,
            AttErrorCode::AttributeNotFound => 0x0A,
            AttErrorCode::AttributeNotLong => 0x0B,
            AttErrorCode::InsufficientEncryptionKeySize => 0x0C,
            AttErrorCode::InvalidAttributeValueLength => 0x0D,
            AttErrorCode::UnlikelyError => 0x0E,
            AttErrorCode::InsufficientEncryption => 0x0F,
            AttErrorCode::UnsupportedGroupType => 0x10,
            AttErrorCode::InsufficientResources => 0x11,
        }
    }

    pub fn to_byte(&self) -> (r: u8)
        ensures
            r == self.code(),
    {
        match self {
            AttErrorCode::InvalidHandle => 0x01,
            AttErrorCode::ReadNotPermitted => 0x02,
            AttErrorCode::WriteNotPermitted => 0x03,
            AttErrorCode::InvalidPdu => 0x04,
            AttErrorCode::InsufficientAuthentication => 0x05,
            AttErrorCode::RequestNotSupported => 0x06,
            AttErrorCode::InvalidOffset => 0x07,
            AttErrorCode::InsufficientAuthorization => 0x08,
            AttErrorCode::PrepareQueueFull => 0x09,
            AttErrorCode::AttributeNotFound => 0x0A,
            AttErrorCode::AttributeNotLong => 0x0B,
            AttErrorCode::InsufficientEncryptionKeySize => 0x0C,
            AttErrorCode::InvalidAttributeValueLength => 0x0D,
            AttErrorCode::UnlikelyError => 0x0E,
            AttErrorCode::InsufficientEncryption => 0x0F,
            AttErrorCode::UnsupportedGroupType => 0x10,
            AttErrorCode::InsufficientResources => 0x11,
        }
    }

    pub fn from_byte(b: u8) -> (r: Option<Self>)
        ensures
            match r {
                Some(t) => t.code() == b,
                None => forall|t: AttErrorCode| t.code() != b,
            },
    {
        match b {
            0x01 => Some(AttErrorCode::InvalidHandle),
            0x02 => Some(AttErrorCode::ReadNotPermitted),
            0x03 => Some(AttErrorCode::WriteNotPermitted),
            0x04 => Some(AttErrorCode::InvalidPdu),
            0x05 => Some(AttErrorCode::InsufficientAuthentication),
            0x06 => Some(AttErrorCode::RequestNotSupported),
            0x07 => Some(AttErrorCode::InvalidOffset),
            0x08 => Some(AttErrorCode::InsufficientAuthorization),
            0x09 => Some(AttErrorCode::PrepareQueueFull),
            0x0A => Some(AttErrorCode::AttributeNotFound),
            0x0B => Some(AttErrorCode::AttributeNotLong),
            0x0C => Some(AttErrorCode::InsufficientEncryptionKeySize),
            0x0D => Some(AttErrorCode::InvalidAttributeValueLength),
            0x0E => Some(AttErrorCode::UnlikelyError),
            0x0F => Some(AttErrorCode::InsufficientEncryption),
            0x10 => Some(AttErrorCode::UnsupportedGroupType),
            0x11 => Some(AttErrorCode::InsufficientResources),
            _ => None,
        }
    }
}

/// UUID format of a Find Information Response.
#[derive(Clone, Copy, PartialEq, Eq, Debug, Structural)]
pub enum AttFindInfoFormat {
    /// Entries of handle(2) + 16-bit UUID(2).
    Uuid16,
    /// Entries of handle(2) + 128-bit UUID(16).
    Uuid128,
}

impl AttFindInfoFormat {
    /// Wire value of this variant.
    pub open spec fn code(self) -> u8 {
        match self {
            AttFindInfoFormat::Uuid16 => 0x01,
            AttFindInfoFormat::Uuid128 => 0x02,
        }
    }

    pub fn to_byte(&self) -> (r: u8)
        ensures
            r == self.code(),
    {
        match self {
            AttFindInfoFormat::Uuid16 => 0x01,
            AttFindInfoFormat::Uuid128 => 0x02,
        }
    }

}

/// Execute Write flag: 0x00 cancels, 0x01 writes the queued values.
#[derive(Clone, Copy, PartialEq, Eq, Debug, Structural)]
pub enum AttExecWriteFlag {
    Cancel,
    Write,
}

impl AttExecWriteFlag {
    /// Wire value of this variant.
    pub open spec fn code(self) -> u8 {
        match self {
            AttExecWriteFlag::Cancel => 0x00,
            AttExecWriteFlag::Write => 0x01,
        }
    }

    pub fn to_byte(&self) -> (r: u8)
        ensures
            r == self.code(),
    {
        match self {
            AttExecWriteFlag::Cancel => 0x00,
            AttExecWriteFlag::Write => 0x01,
        }
    }

}


// ============================================================================
// Shared encodings
// ============================================================================

/// `[op | handle(2) | value]`.
pub open spec fn hv_bytes(op: u8, handle: u16, value: Seq<u8>) -> Seq<u8> {
    seq![op] + le16(handle) + value
}

/// `[op | a(2) | b(2) | value]`.
pub open spec fn hhv_bytes(op: u8, a: u16, b: u16, value: Seq<u8>) -> Seq<u8> {
    seq![op] + le16(a) + le16(b) + value
}

/// The 16-bit field at `data[i..i+2]`.
pub open spec fn field16(data: Seq<u8>, i: int) -> u16 {
    u16_le(data[i], data[i + 1])
}

fn build_hv(op: u8, handle: u16, value: &[u8]) -> (r: Vec<u8>)
    ensures
        r@ == hv_bytes(op, handle, value@),
{
    let mut buf: Vec<u8> = Vec::new();
    buf.push(op);
    push_u16_le(&mut buf, handle);
    push_slice(&mut buf, value);
    assert(buf@ =~= hv_bytes(op, handle, value@));
    buf
}

fn build_hhv(op: u8, a: u16, b: u16, value: &[u8]) -> (r: Vec<u8>)
    ensures
        r@ == hhv_bytes(op, a, b, value@),
{
    let mut buf: Vec<u8> = Vec::new();
    buf.push(op);
    push_u16_le(&mut buf, a);
    push_u16_le(&mut buf, b);
    push_slice(&mut buf, value);
    assert(buf@ =~= hhv_bytes(op, a, b, value@));
    buf
}

/// Decoding the fields of `[op | handle | value]` gives them back.
pub proof fn lemma_hv_roundtrip(op: u8, handle: u16, value: Seq<u8>)
    ensures
        hv_bytes(op, handle, value).len() == 3 + value.len(),
        hv_bytes(op, handle, value)[0] == op,
        field16(hv_bytes(op, handle, value), 1) == handle,
        hv_bytes(op, handle, value).subrange(3, 3 + value.len() as int) == value,
{
    lemma_le16_roundtrip(handle);
    assert(hv_bytes(op, handle, value).subrange(3, 3 + value.len() as int) =~= value);
}

/// Decoding the fields of `[op | a | b | value]` gives them back.
pub proof fn lemma_hhv_roundtrip(op: u8, a: u16, b: u16, value: Seq<u8>)
    ensures
        hhv_bytes(op, a, b, value).len() == 5 + value.len(),
        hhv_bytes(op, a, b, value)[0] == op,
        field16(hhv_bytes(op, a, b, value), 1) == a,
        field16(hhv_bytes(op, a, b, value), 3) == b,
        hhv_bytes(op, a, b, value).subrange(5, 5 + value.len() as int) == value,
{
    lemma_le16_roundtrip(a);
    lemma_le16_roundtrip(b);
    assert(hhv_bytes(op, a, b, value).subrange(5, 5 + value.len() as int) =~= value);
}

/// The UUID bytes carried on the wire for a UUID: a 16-bit UUID as its two
/// bytes, little-endian; all sixteen bytes otherwise.
pub open spec fn uuid_wire(u: Seq<u8>) -> Seq<u8> {
    if spec_uuid_type(u) == BtUuidType::Uuid16 { seq![u[3], u[2]] } else { u }
}

/// The UUID a 2- or 16-byte wire field stands for.
pub open spec fn uuid_from_wire(w: Seq<u8>) -> Seq<u8> {
    if w.len() == 2 { base_uuid_bytes().update(2, w[1]).update(3, w[0]) } else { w }
}

fn push_uuid_wire(buf: &mut Vec<u8>, u: &BtUuid)
    ensures
        final(buf)@ == old(buf)@ + uuid_wire(u.bytes@),
{
    match u.uuid_type() {
        BtUuidType::Uuid16 => {
            buf.push(u.bytes[3]);
            buf.push(u.bytes[2]);
            assert(final(buf)@ =~= old(buf)@ + uuid_wire(u.bytes@));
        },
        _ => {
            let ghost b0 = buf@;
            let mut i: usize = 0;
            while i < 16
                invariant
                    0 <= i <= 16,
                    buf@ == b0 + u.bytes@.subrange(0, i as int),
                decreases 16 - i,
            {
                buf.push(u.bytes[i]);
                i = i + 1;
                assert(buf@ =~= b0 + u.bytes@.subrange(0, i as int));
            }
            assert(u.bytes@.subrange(0, 16) =~= u.bytes@);
        },
    }
}

/// The UUID with base bytes and `hi`, `lo` in positions 2 and 3.
fn uuid_from_pair(hi: u8, lo: u8) -> (r: BtUuid)
    ensures
        r.bytes@ == base_uuid_bytes().update(2, hi).update(3, lo),
{
    let mut b = bluetooth_base_uuid();
    b[2] = hi;
    b[3] = lo;
    assert(b@ =~= base_uuid_bytes().update(2, hi).update(3, lo));
    BtUuid::from_bytes(b)
}

/// The UUID made of `data[at..at + 16]`.
fn uuid_from_slice(data: &[u8], at: usize) -> (r: BtUuid)
    requires
        at + 16 <= data@.len(),
    ensures
        r.bytes@ == data@.subrange(at as int, at + 16),
{
    let mut b: [u8; 16] = [0u8; 16];
    let dl = data.len();
    let mut i: usize = 0;
    while i < 16
        invariant
            0 <= i <= 16,
            at + 16 <= data@.len(),
            dl == data@.len(),
            forall|j: int| 0 <= j < i ==> b@[j] == data@[at + j],
        decreases 16 - i,
    {
        b[i] = data[at + i];
        i = i + 1;
    }
    assert(b@ =~= data@.subrange(at as int, at + 16));
    BtUuid::from_bytes(b)
}

// ============================================================================
// Error Response
// ============================================================================

/// Error Response: `| 0x01 | request opcode | handle(2) | error code |`.
#[derive(Clone, Debug)]
pub struct AttErrorRsp {
    pub request_opcode: u8,
    pub handle: u16,
    pub error_code: AttErrorCode,
}

impl AttErrorRsp {
    pub open spec fn spec_build(req_opcode: u8, handle: u16, error: AttErrorCode) -> Seq<u8> {
        seq![0x01u8, req_opcode] + le16(handle) + seq![error.code()]
    }

    pub open spec fn accepts(data: Seq<u8>) -> bool {
        data.len() >= 5 && exists|t: AttErrorCode| t.code() == data[4]
    }

    pub open spec fn decodes(self, data: Seq<u8>) -> bool {
        &&& self.request_opcode == data[1]
        &&& self.handle == field16(data, 2)
        &&& self.error_code.code() == data[4]
    }

    pub fn build(req_opcode: u8, handle: u16, error: AttErrorCode) -> (r: Vec<u8>)
        ensures
            r@ == Self::spec_build(req_opcode, handle, error),
    {
        let mut buf: Vec<u8> = Vec::new();
        buf.push(0x01);
        buf.push(req_opcode);
        push_u16_le(&mut buf, handle);
        buf.push(error.to_byte());
        assert(buf@ =~= Self::spec_build(req_opcode, handle, error));
        buf
    }

    pub fn parse(data: &[u8]) -> (r: Option<Self>)
        ensures
            r is Some <==> Self::accepts(data@),
            r matches Some(m) ==> m.decodes(data@),
    {
        if data.len() < 5 {
            return None;
        }
        let request_opcode = data[1];
        let handle = read_u16_le(data[2], data[3]);
        let error_code = AttErrorCode::from_byte(data[4])?;
        Some(AttErrorRsp { request_opcode, handle, error_code })
    }
}

// ============================================================================
// Exchange MTU
// ============================================================================

/// `mtu` clamped to `[ATT_MIN_MTU, ATT_MAX_MTU]`.
pub open spec fn clamp_mtu(mtu: u16) -> u16 {
    if mtu < 23 { 23 } else if mtu > 512 { 512 } else { mtu }
}

fn clamp_att_mtu(mtu: u16) -> (r: u16)
    ensures
        r == clamp_mtu(mtu),
{
    if mtu < ATT_MIN_MTU { ATT_MIN_MTU } else if mtu > ATT_MAX_MTU { ATT_MAX_MTU } else { mtu }
}

/// Exchange MTU Request: `| 0x02 | client RX MTU(2) |`.
#[derive(Clone, Debug)]
pub struct AttExchangeMtuReq {
    pub client_rx_mtu: u16,
}

impl AttExchangeMtuReq {
    pub open spec fn accepts(data: Seq<u8>) -> bool {
        data.len() >= 3
    }

    pub open spec fn decodes(self, data: Seq<u8>) -> bool {
        self.client_rx_mtu == field16(data, 1)
    }

    /// Encodes the request; the MTU is clamped to `[23, 512]`.
    pub fn build(client_rx_mtu: u16) -> (r: Vec<u8>)
        ensures
            r@ == seq![0x02u8] + le16(clamp_mtu(client_rx_mtu)),
    {
        let mut buf: Vec<u8> = Vec::new();
        buf.push(0x02);
        push_u16_le(&mut buf, clamp_att_mtu(client_rx_mtu));
        buf
    }

    pub fn parse(data: &[u8]) -> (r: Option<Self>)
        ensures
            r is Some <==> Self::accepts(data@),
            r matches Some(m) ==> m.decodes(data@),
    {
        if data.len() < 3 {
            return None;
        }
        Some(AttExchangeMtuReq { client_rx_mtu: read_u16_le(data[1], data[2]) })
    }
}

/// Exchange MTU Response: `| 0x03 | server RX MTU(2) |`.
#[derive(Clone, Debug)]
pub struct AttExchangeMtuRsp {
    pub server_rx_mtu: u16,
}

impl AttExchangeMtuRsp {
    pub open spec fn accepts(data: Seq<u8>) -> bool {
        data.len() >= 3
    }

    pub open spec fn decodes(self, data: Seq<u8>) -> bool {
        self.server_rx_mtu == field16(data, 1)
    }

    /// Encodes the response; the MTU is clamped to `[23, 512]`.
    pub fn build(server_rx_mtu: u16) -> (r: Vec<u8>)
        ensures
            r@ == seq![0x03u8] + le16(clamp_mtu(server_rx_mtu)),
    {
        let mut buf: Vec<u8> = Vec::new();
        buf.push(0x03);
        push_u16_le(&mut buf, clamp_att_mtu(server_rx_mtu));
        buf
    }

    pub fn parse(data: &[u8]) -> (r: Option<Self>)
        ensures
            r is Some <==> Self::accepts(data@),
            r matches Some(m) ==> m.decodes(data@),
    {
        if data.len() < 3 {
            return None;
        }
        Some(AttExchangeMtuRsp { server_rx_mtu: read_u16_le(data[1], data[2]) })
    }
}

// ============================================================================
// Find Information
// ============================================================================

/// Find Information Request: `| 0x04 | start(2) | end(2) |`.
#[derive(Clone, Debug)]
pub struct AttFindInfoReq {
    pub start_handle: u16,
    pub end_handle: u16,
}

impl AttFindInfoReq {
    pub open spec fn accepts(data: Seq<u8>) -> bool {
        data.len() >= 5
    }

    pub open spec fn decodes(self, data: Seq<u8>) -> bool {
        self.start_handle == field16(data, 1) && self.end_handle == field16(data, 3)
    }

    pub fn build(start_handle: u16, end_handle: u16) -> (r: Vec<u8>)
        ensures
            r@ == hhv_bytes(0x04, start_handle, end_handle, seq![]),
    {
        build_hhv(0x04, start_handle, end_handle, &[])
    }

    pub fn parse(data: &[u8]) -> (r: Option<Self>)
        ensures
            r is Some <==> Self::accepts(data@),
            r matches Some(m) ==> m.decodes(data@),
    {
        if data.len() < 5 {
            return None;
        }
        Some(AttFindInfoReq {
            start_handle: read_u16_le(data[1], data[2]),
            end_handle: read_u16_le(data[3], data[4]),
        })
    }
}

// ============================================================================
// Fixed-size entry lists
// ============================================================================

pub proof fn lemma_chunk_step(i: int, n: int, es: int)
    requires
        0 <= i < n,
        es > 0,
    ensures
        (i + 1) * es == i * es + es,
        i * es + es <= n * es,
        0 <= i * es,
{
    assert((i + 1) * es == i * es + es) by (nonlinear_arith);
    assert(i * es + es <= n * es) by (nonlinear_arith)
        requires
            i < n,
            es > 0,
    ;
    assert(0 <= i * es) by (nonlinear_arith)
        requires
            0 <= i,
            es > 0,
    ;
}

pub proof fn lemma_count_entries(len: int, es: int)
    requires
        len >= 0,
        es > 0,
        len % es == 0,
    ensures
        (len / es) * es == len,
        len / es >= 0,
{
    vstd::arithmetic::div_mod::lemma_fundamental_div_mod(len, es);
    assert((len / es) * es == es * (len / es)) by (nonlinear_arith);
    vstd::arithmetic::div_mod::lemma_div_pos_is_pos(len, es);
}

/// A handle and its attribute type, as listed by Find Information.
#[derive(Clone, Copy, Debug)]
pub struct AttHandleUuidPair {
    pub handle: u16,
    pub uuid: BtUuid,
}

/// Find Information Response: `| 0x05 | format | handle-UUID pairs |`.
#[derive(Clone, Debug)]
pub struct AttFindInfoRsp {
    pub pairs: Vec<AttHandleUuidPair>,
}

/// The UUID type of the first pair, or 16-bit when there is none.
pub open spec fn first_pair_type(pairs: Seq<AttHandleUuidPair>) -> BtUuidType {
    if pairs.len() == 0 { BtUuidType::Uuid16 } else { spec_uuid_type(pairs[0].uuid.bytes@) }
}

/// The encoded pairs whose UUID has type `t`, in order.
pub open spec fn pair_entries(pairs: Seq<AttHandleUuidPair>, t: BtUuidType) -> Seq<u8>
    decreases pairs.len(),
{
    if pairs.len() == 0 {
        seq![]
    } else {
        let p = pairs.last();
        pair_entries(pairs.drop_last(), t) + if spec_uuid_type(p.uuid.bytes@) == t {
            le16(p.handle) + uuid_wire(p.uuid.bytes@)
        } else {
            seq![]
        }
    }
}

/// Entry size of a Find Information format byte.
pub open spec fn find_info_entry_size(format: u8) -> int {
    if format == 0x01 { 4 } else { 18 }
}

impl AttFindInfoRsp {
    /// The format and entries follow the first pair's UUID type; pairs of
    /// another type are left out.
    pub open spec fn spec_build(pairs: Seq<AttHandleUuidPair>) -> Seq<u8> {
        let t = first_pair_type(pairs);
        seq![0x05u8, if t == BtUuidType::Uuid16 { 0x01u8 } else { 0x02u8 }] + pair_entries(pairs, t)
    }

    pub open spec fn accepts(data: Seq<u8>) -> bool {
        &&& data.len() >= 2
        &&& data[1] == 0x01 || data[1] == 0x02
        &&& (data.len() - 2) % find_info_entry_size(data[1]) == 0
    }

    pub open spec fn decodes(self, data: Seq<u8>) -> bool {
        let es = find_info_entry_size(data[1]);
        &&& self.pairs@.len() == (data.len() - 2) / es
        &&& forall|i: int| #![trigger self.pairs@[i]] 0 <= i < self.pairs@.len() ==> {
            &&& self.pairs@[i].handle == field16(data, 2 + i * es)
            &&& self.pairs@[i].uuid.bytes@ == uuid_from_wire(data.subrange(2 + i * es + 2, 2 + i * es + es))
        }
    }

    pub fn build(pairs: Vec<AttHandleUuidPair>) -> (r: Vec<u8>)
        ensures
            r@ == Self::spec_build(pairs@),
    {
        let t = if pairs.len() == 0 { BtUuidType::Uuid16 } else { pairs[0].uuid.uuid_type() };
        let mut buf: Vec<u8> = Vec::new();
        buf.push(0x05);
        buf.push(if t == BtUuidType::Uuid16 { 0x01 } else { 0x02 });
        let ghost head = buf@;
        let mut i: usize = 0;
        while i < pairs.len()
            invariant
                0 <= i <= pairs@.len(),
                t == first_pair_type(pairs@),
                buf@ == head + pair_entries(pairs@.take(i as int), t),
            decreases pairs@.len() - i,
        {
            let p = pairs[i];
            if p.uuid.uuid_type() == t {
                push_u16_le(&mut buf, p.handle);
                push_uuid_wire(&mut buf, &p.uuid);
            }
            assert(pairs@.take(i + 1).drop_last() =~= pairs@.take(i as int));
            i = i + 1;
        }
        assert(pairs@.take(i as int) =~= pairs@);
        buf
    }

    pub fn parse(data: &[u8]) -> (r: Option<Self>)
        ensures
            r is Some <==> Self::accepts(data@),
            r matches Some(m) ==> m.decodes(data@),
    {
        if data.len() < 2 {
            return None;
        }
        let es: usize = if data[1] == 0x01 { 4 } else if data[1] == 0x02 { 18 } else { return None; };
        let plen = data.len() - 2;
        if plen % es != 0 {
            return None;
        }
        let n = plen / es;
        proof { lemma_count_entries(plen as int, es as int); }
        let mut pairs: Vec<AttHandleUuidPair> = Vec::new();
        let mut i: usize = 0;
        let mut off: usize = 2;
        while i < n
            invariant
                0 <= i <= n,
                es as int == find_info_entry_size(data@[1]),
                data@[1] == 0x01 || data@[1] == 0x02,
                n * es == plen,
                plen + 2 == data@.len(),
                off == 2 + i * es,
                pairs@.len() == i,
                forall|j: int| #![trigger pairs@[j]] 0 <= j < i ==> {
                    &&& pairs@[j].handle == field16(data@, 2 + j * es)
                    &&& pairs@[j].uuid.bytes@ == uuid_from_wire(data@.subrange(2 + j * es + 2, 2 + j * es + es))
                },
            decreases n - i,
        {
            proof { lemma_chunk_step(i as int, n as int, es as int); }
            let handle = read_u16_le(data[off], data[off + 1]);
            let uuid = if es == 4 {
                let u = uuid_from_pair(data[off + 3], data[off + 2]);
                proof {
                    let w = data@.subrange(off + 2, off + es);
                    assert(w.len() == 2 && w[0] == data@[off + 2] && w[1] == data@[off + 3]);
                }
                u
            } else {
                uuid_from_slice(data, off + 2)
            };
            pairs.push(AttHandleUuidPair { handle, uuid });
            i = i + 1;
            off = off + es;
        }
        Some(AttFindInfoRsp { pairs })
    }
}

// ============================================================================
// Read By Group Type
// ============================================================================

/// Read By Group Type Request: `| 0x10 | start(2) | end(2) | group type UUID |`.
#[derive(Clone, Copy, Debug)]
pub struct AttReadByGroupTypeReq {
    pub start_handle: u16,
    pub end_handle: u16,
    pub group_type: BtUuid,
}

/// Whether the bytes after a 5-byte header carry a 2- or 16-byte UUID.
pub open spec fn accepts_typed_range(data: Seq<u8>) -> bool {
    data.len() >= 5 && (data.len() - 5 == 2 || data.len() - 5 == 16)
}

fn parse_uuid_tail(data: &[u8]) -> (r: Option<BtUuid>)
    requires
        data@.len() >= 5,
    ensures
        r is Some <==> accepts_typed_range(data@),
        r matches Some(u) ==> u.bytes@ == uuid_from_wire(data@.subrange(5, data@.len() as int)),
{
    let rem = data.len() - 5;
    if rem == 2 {
        let u = uuid_from_pair(data[6], data[5]);
        Some(u)
    } else if rem == 16 {
        let u = uuid_from_slice(data, 5);
        Some(u)
    } else {
        None
    }
}

impl AttReadByGroupTypeReq {
    pub open spec fn accepts(data: Seq<u8>) -> bool {
        accepts_typed_range(data)
    }

    pub open spec fn decodes(self, data: Seq<u8>) -> bool {
        &&& self.start_handle == field16(data, 1)
        &&& self.end_handle == field16(data, 3)
        &&& self.group_type.bytes@ == uuid_from_wire(data.subrange(5, data.len() as int))
    }

    pub fn build(start_handle: u16, end_handle: u16, group_type: BtUuid) -> (r: Vec<u8>)
        ensures
            r@ == hhv_bytes(0x10, start_handle, end_handle, uuid_wire(group_type.bytes@)),
    {
        let mut buf: Vec<u8> = Vec::new();
        buf.push(0x10);
        push_u16_le(&mut buf, start_handle);
        push_u16_le(&mut buf, end_handle);
        push_uuid_wire(&mut buf, &group_type);
        assert(buf@ =~= hhv_bytes(0x10, start_handle, end_handle, uuid_wire(group_type.bytes@)));
        buf
    }

    pub fn parse(data: &[u8]) -> (r: Option<Self>)
        ensures
            r is Some <==> Self::accepts(data@),
            r matches Some(m) ==> m.decodes(data@),
    {
        if data.len() < 5 {
            return None;
        }
        let start_handle = read_u16_le(data[1], data[2]);
        let end_handle = read_u16_le(data[3], data[4]);
        let group_type = parse_uuid_tail(data)?;
        Some(AttReadByGroupTypeReq { start_handle, end_handle, group_type })
    }
}

/// One group of a Read By Group Type Response.
#[derive(Clone, Debug)]
pub struct AttGroupAttrEntry {
    pub start_handle: u16,
    pub group_end_handle: u16,
    pub value: Vec<u8>,
}

impl AttGroupAttrEntry {
    pub open spec fn view(&self) -> (u16, u16, Seq<u8>) {
        (self.start_handle, self.group_end_handle, self.value@)
    }
}

/// The views of a list of groups.
pub open spec fn group_views(s: Seq<AttGroupAttrEntry>) -> Seq<(u16, u16, Seq<u8>)> {
    s.map_values(|e: AttGroupAttrEntry| e@)
}

/// The encoded groups, in order.
pub open spec fn group_entries(s: Seq<(u16, u16, Seq<u8>)>) -> Seq<u8>
    decreases s.len(),
{
    if s.len() == 0 {
        seq![]
    } else {
        group_entries(s.drop_last()) + le16(s.last().0) + le16(s.last().1) + s.last().2
    }
}

/// The layout of encoded groups whose values all have length `l`: entry
/// `i` starts at `i * (4 + l)` with its two handles, then its value.
proof fn lemma_group_entries_layout(s: Seq<(u16, u16, Seq<u8>)>, l: int)
    requires
        l >= 0,
        forall|i: int| 0 <= i < s.len() ==> (#[trigger] s[i]).2.len() == l,
    ensures
        group_entries(s).len() == s.len() * (4 + l),
        forall|i: int| #![trigger s[i]] 0 <= i < s.len() ==> {
            &&& field16(group_entries(s), i * (4 + l)) == s[i].0
            &&& field16(group_entries(s), i * (4 + l) + 2) == s[i].1
            &&& group_entries(s).subrange(i * (4 + l) + 4, i * (4 + l) + 4 + l) == s[i].2
        },
    decreases s.len(),
{
    if s.len() > 0 {
        let p = s.drop_last();
        lemma_group_entries_layout(p, l);
        let gp = group_entries(p);
        let g = group_entries(s);
        let k = p.len() as int;
        let es = 4 + l;
        assert(g == gp + le16(s.last().0) + le16(s.last().1) + s.last().2);
        assert((k + 1) * es == k * es + es) by (nonlinear_arith);
        lemma_le16_roundtrip(s.last().0);
        lemma_le16_roundtrip(s.last().1);
        assert forall|i: int| #![trigger s[i]] 0 <= i < s.len() implies {
            &&& field16(g, i * es) == s[i].0
            &&& field16(g, i * es + 2) == s[i].1
            &&& g.subrange(i * es + 4, i * es + 4 + l) == s[i].2
        } by {
            if i < k {
                assert(p[i] == s[i]);
                assert(i * es + es <= k * es) by (nonlinear_arith)
                    requires
                        i < k,
                        es > 0;
                assert(g.subrange(i * es + 4, i * es + 4 + l) =~= gp.subrange(i * es + 4, i * es + 4 + l));
            } else {
                assert(i == k);
                assert(g.subrange(i * es + 4, i * es + 4 + l) =~= s.last().2);
            }
        }
    }
}

/// An encoded Read By Group Type Response whose groups all have values of
/// one length (the entry length, 4 more, at most 255) decodes to the same
/// groups.
pub proof fn lemma_group_rsp_roundtrip(s: Seq<(u16, u16, Seq<u8>)>)
    requires
        s.len() > 0,
        4 + s[0].2.len() <= 255,
        forall|i: int| 0 <= i < s.len() ==> (#[trigger] s[i]).2.len() == s[0].2.len(),
    ensures
        AttReadByGroupTypeRsp::accepts(AttReadByGroupTypeRsp::spec_build(s)),
        forall|m: AttReadByGroupTypeRsp| #[trigger] m.decodes(AttReadByGroupTypeRsp::spec_build(s))
            ==> group_views(m.entries@) == s,
{
    let l = s[0].2.len() as int;
    let es = 4 + l;
    let d = AttReadByGroupTypeRsp::spec_build(s);
    let g = group_entries(s);
    lemma_group_entries_layout(s, l);
    assert(d == seq![0x11u8, es as u8] + g);
    assert(d[1] as int == es);
    assert((d.len() - 2) % es == 0 && (d.len() - 2) / es == s.len()) by (nonlinear_arith)
        requires
            d.len() - 2 == s.len() * es,
            es > 0;
    assert forall|m: AttReadByGroupTypeRsp| #[trigger] m.decodes(d) implies group_views(m.entries@) == s by {
        assert(m.entries@.len() == s.len());
        assert forall|i: int| 0 <= i < s.len() implies #[trigger] group_views(m.entries@)[i] == s[i] by {
            let e = m.entries@[i];
            assert(0 <= i * es && i * es + es <= s.len() * es) by (nonlinear_arith)
                requires
                    0 <= i < s.len(),
                    es > 0;
            let b = i * es;
            assert(d[2 + b] == g[b] && d[2 + b + 1] == g[b + 1]);
            assert(d[2 + b + 2] == g[b + 2] && d[2 + b + 3] == g[b + 3]);
            assert(field16(d, 2 + i * es) == field16(g, i * es));
            assert(field16(d, 2 + i * es + 2) == field16(g, i * es + 2));
            assert(d.subrange(2 + i * es + 4, 2 + i * es + es) =~= g.subrange(i * es + 4, i * es + 4 + l));
            assert(s[i].2.len() == l);
        }
        assert(group_views(m.entries@) =~= s);
    }
}

/// Read By Group Type Response: `| 0x11 | entry length | entries |`.
#[derive(Clone, Debug)]
pub struct AttReadByGroupTypeRsp {
    pub entries: Vec<AttGroupAttrEntry>,
}

/// Whether `data` is a list response with opcode `op`, an entry length of at
/// least `min` and a payload made of whole entries.
pub open spec fn accepts_list(data: Seq<u8>, op: u8, min: u8) -> bool {
    &&& data.len() >= 2
    &&& data[0] == op
    &&& data[1] >= min
    &&& (data.len() - 2) % (data[1] as int) == 0
}

impl AttReadByGroupTypeRsp {
    pub open spec fn accepts(data: Seq<u8>) -> bool {
        accepts_list(data, 0x11, 4)
    }

    /// The entry length byte comes from the first entry (low 8 bits of
    /// 4 + its value length); an empty list encodes as `[0x11, 0]`.
    pub open spec fn spec_build(entries: Seq<(u16, u16, Seq<u8>)>) -> Seq<u8> {
        if entries.len() == 0 {
            seq![0x11u8, 0u8]
        } else {
            seq![0x11u8, ((4 + entries[0].2.len()) % 256) as u8] + group_entries(entries)
        }
    }

    pub open spec fn decodes(self, data: Seq<u8>) -> bool {
        let es = data[1] as int;
        &&& self.entries@.len() == (data.len() - 2) / es
        &&& forall|i: int| #![trigger self.entries@[i]] 0 <= i < self.entries@.len() ==> {
            &&& self.entries@[i].start_handle == field16(data, 2 + i * es)
            &&& self.entries@[i].group_end_handle == field16(data, 2 + i * es + 2)
            &&& self.entries@[i].value@ == data.subrange(2 + i * es + 4, 2 + i * es + es)
        }
    }

    pub fn build(entries: Vec<AttGroupAttrEntry>) -> (r: Vec<u8>)
        ensures
            r@ == Self::spec_build(group_views(entries@)),
    {
        let mut buf: Vec<u8> = Vec::new();
        buf.push(0x11);
        if entries.len() == 0 {
            buf.push(0);
            assert(buf@ =~= Self::spec_build(group_views(entries@)));
            return buf;
        }
        buf.push(((entries[0].value.len() % 256 + 4) % 256) as u8);
        let ghost head = buf@;
        let mut i: usize = 0;
        while i < entries.len()
            invariant
                0 <= i <= entries@.len(),
                buf@ == head + group_entries(group_views(entries@.take(i as int))),
            decreases entries@.len() - i,
        {
            let e = &entries[i];
            push_u16_le(&mut buf, e.start_handle);
            push_u16_le(&mut buf, e.group_end_handle);
            push_slice(&mut buf, e.value.as_slice());
            assert(group_views(entries@.take(i + 1)).drop_last() =~= group_views(entries@.take(i as int)));
            i = i + 1;
        }
        assert(entries@.take(i as int) =~= entries@);
        assert(buf@ =~= Self::spec_build(group_views(entries@)));
        buf
    }

    pub fn parse(data: &[u8]) -> (r: Option<Self>)
        ensures
            r is Some <==> Self::accepts(data@),
            r matches Some(m) ==> m.decodes(data@),
    {
        if data.len() < 2 {
            return None;
        }
        if data[0] != 0x11 {
            return None;
        }
        let es = data[1] as usize;
        if es < 4 {
            return None;
        }
        let plen = data.len() - 2;
        if plen % es != 0 {
            return None;
        }
        let n = plen / es;
        proof { lemma_count_entries(plen as int, es as int); }
        let mut entries: Vec<AttGroupAttrEntry> = Vec::new();
        let mut i: usize = 0;
        let mut off: usize = 2;
        while i < n
            invariant
                0 <= i <= n,
                es as int == data@[1] as int,
                es >= 4,
                n * es == plen,
                plen + 2 == data@.len(),
                off == 2 + i * es,
                entries@.len() == i,
                forall|j: int| #![trigger entries@[j]] 0 <= j < i ==> {
                    &&& entries@[j].start_handle == field16(data@, 2 + j * es)
                    &&& entries@[j].group_end_handle == field16(data@, 2 + j * es + 2)
                    &&& entries@[j].value@ == data@.subrange(2 + j * es + 4, 2 + j * es + es)
                },
            decreases n - i,
        {
            proof { lemma_chunk_step(i as int, n as int, es as int); }
            let start_handle = read_u16_le(data[off], data[off + 1]);
            let group_end_handle = read_u16_le(data[off + 2], data[off + 3]);
            let value = copy_range(data, off + 4, off + es);
            entries.push(AttGroupAttrEntry { start_handle, group_end_handle, value });
            i = i + 1;
            off = off + es;
        }
        Some(AttReadByGroupTypeRsp { entries })
    }
}

// ============================================================================
// Read By Type
// ============================================================================

/// Read By Type Request: `| 0x08 | start(2) | end(2) | attribute type UUID |`.
#[derive(Clone, Copy, Debug)]
pub struct AttReadByTypeReq {
    pub start_handle: u16,
    pub end_handle: u16,
    pub attr_type: BtUuid,
}

impl AttReadByTypeReq {
    pub open spec fn accepts(data: Seq<u8>) -> bool {
        accepts_typed_range(data)
    }

    pub open spec fn decodes(self, data: Seq<u8>) -> bool {
        &&& self.start_handle == field16(data, 1)
        &&& self.end_handle == field16(data, 3)
        &&& self.attr_type.bytes@ == uuid_from_wire(data.subrange(5, data.len() as int))
    }

    pub fn build(start_handle: u16, end_handle: u16, attr_type: BtUuid) -> (r: Vec<u8>)
        ensures
            r@ == hhv_bytes(0x08, start_handle, end_handle, uuid_wire(attr_type.bytes@)),
    {
        let mut buf: Vec<u8> = Vec::new();
        buf.push(0x08);
        push_u16_le(&mut buf, start_handle);
        push_u16_le(&mut buf, end_handle);
        push_uuid_wire(&mut buf, &attr_type);
        assert(buf@ =~= hhv_bytes(0x08, start_handle, end_handle, uuid_wire(attr_type.bytes@)));
        buf
    }

    pub fn parse(data: &[u8]) -> (r: Option<Self>)
        ensures
            r is Some <==> Self::accepts(data@),
            r matches Some(m) ==> m.decodes(data@),
    {
        if data.len() < 5 {
            return None;
        }
        let start_handle = read_u16_le(data[1], data[2]);
        let end_handle = read_u16_le(data[3], data[4]);
        let attr_type = parse_uuid_tail(data)?;
        Some(AttReadByTypeReq { start_handle, end_handle, attr_type })
    }
}

/// The encoded handle-value pairs, in order.
pub open spec fn handle_value_entries(s: Seq<(u16, Seq<u8>)>) -> Seq<u8>
    decreases s.len(),
{
    if s.len() == 0 {
        seq![]
    } else {
        handle_value_entries(s.drop_last()) + le16(s.last().0) + s.last().1
    }
}

/// The views of a list of handle-value pairs.
pub open spec fn hv_pair_views(s: Seq<(u16, Vec<u8>)>) -> Seq<(u16, Seq<u8>)> {
    s.map_values(|p: (u16, Vec<u8>)| (p.0, p.1@))
}

/// Read By Type Response: `| 0x09 | entry length | handle-value pairs |`.
#[derive(Clone, Debug)]
pub struct AttReadByTypeRsp {
    pub handle_value_pairs: Vec<(u16, Vec<u8>)>,
}

impl AttReadByTypeRsp {
    pub open spec fn accepts(data: Seq<u8>) -> bool {
        accepts_list(data, 0x09, 2)
    }

    /// The entry length byte comes from the first pair (low 8 bits of
    /// 2 + its value length); an empty list encodes as `[0x09, 0]`.
    pub open spec fn spec_build(pairs: Seq<(u16, Seq<u8>)>) -> Seq<u8> {
        if pairs.len() == 0 {
            seq![0x09u8, 0u8]
        } else {
            seq![0x09u8, ((2 + pairs[0].1.len()) % 256) as u8] + handle_value_entries(pairs)
        }
    }

    pub open spec fn decodes(self, data: Seq<u8>) -> bool {
        let es = data[1] as int;
        &&& self.handle_value_pairs@.len() == (data.len() - 2) / es
        &&& forall|i: int| #![trigger self.handle_value_pairs@[i]] 0 <= i < self.handle_value_pairs@.len() ==> {
            &&& self.handle_value_pairs@[i].0 == field16(data, 2 + i * es)
            &&& self.handle_value_pairs@[i].1@ == data.subrange(2 + i * es + 2, 2 + i * es + es)
        }
    }

    pub fn build(pairs: Vec<(u16, Vec<u8>)>) -> (r: Vec<u8>)
        ensures
            r@ == Self::spec_build(hv_pair_views(pairs@)),
    {
        let mut buf: Vec<u8> = Vec::new();
        buf.push(0x09);
        if pairs.len() == 0 {
            buf.push(0);
            assert(buf@ =~= Self::spec_build(hv_pair_views(pairs@)));
            return buf;
        }
        buf.push(((pairs[0].1.len() % 256 + 2) % 256) as u8);
        let ghost head = buf@;
        let mut i: usize = 0;
        while i < pairs.len()
            invariant
                0 <= i <= pairs@.len(),
                buf@ == head + handle_value_entries(hv_pair_views(pairs@.take(i as int))),
            decreases pairs@.len() - i,
        {
            let p = &pairs[i];
            push_u16_le(&mut buf, p.0);
            push_slice(&mut buf, p.1.as_slice());
            assert(hv_pair_views(pairs@.take(i + 1)).drop_last() =~= hv_pair_views(pairs@.take(i as int)));
            i = i + 1;
        }
        assert(pairs@.take(i as int) =~= pairs@);
        assert(buf@ =~= Self::spec_build(hv_pair_views(pairs@)));
        buf
    }

    pub fn parse(data: &[u8]) -> (r: Option<Self>)
        ensures
            r is Some <==> Self::accepts(data@),
            r matches Some(m) ==> m.decodes(data@),
    {
        if data.len() < 2 {
            return None;
        }
        if data[0] != 0x09 {
            return None;
        }
        let es = data[1] as usize;
        if es < 2 {
            return None;
        }
        let plen = data.len() - 2;
        if plen % es != 0 {
            return None;
        }
        let n = plen / es;
        proof { lemma_count_entries(plen as int, es as int); }
        let mut pairs: Vec<(u16, Vec<u8>)> = Vec::new();
        let mut i: usize = 0;
        let mut off: usize = 2;
        while i < n
            invariant
                0 <= i <= n,
                es as int == data@[1] as int,
                es >= 2,
                n * es == plen,
                plen + 2 == data@.len(),
                off == 2 + i * es,
                pairs@.len() == i,
                forall|j: int| #![trigger pairs@[j]] 0 <= j < i ==> {
                    &&& pairs@[j].0 == field16(data@, 2 + j * es)
                    &&& pairs@[j].1@ == data@.subrange(2 + j * es + 2, 2 + j * es + es)
                },
            decreases n - i,
        {
            proof { lemma_chunk_step(i as int, n as int, es as int); }
            let handle = read_u16_le(data[off], data[off + 1]);
            let value = copy_range(data, off + 2, off + es);
            pairs.push((handle, value));
            i = i + 1;
            off = off + es;
        }
        Some(AttReadByTypeRsp { handle_value_pairs: pairs })
    }
}

// ============================================================================
// Simple handle/value PDUs
// ============================================================================

/// Read Request: `| 0x0A | handle(2) |`.
#[derive(Clone, Copy, Debug)]
pub struct AttReadReq {
    pub handle: u16,
}

impl AttReadReq {
    pub open spec fn accepts(data: Seq<u8>) -> bool {
        data.len() >= 3
    }

    pub open spec fn decodes(self, data: Seq<u8>) -> bool {
        self.handle == field16(data, 1)
    }

    pub fn build(handle: u16) -> (r: Vec<u8>)
        ensures
            r@ == hv_bytes(0x0A, handle, seq![]),
    {
        build_hv(0x0A, handle, &[])
    }

    pub fn parse(data: &[u8]) -> (r: Option<Self>)
        ensures
            r is Some <==> Self::accepts(data@),
            r matches Some(m) ==> m.decodes(data@),
    {
        if data.len() < 3 {
            return None;
        }
        Some(AttReadReq { handle: read_u16_le(data[1], data[2]) })
    }
}

/// Read Response: `| 0x0B | value |`.
#[derive(Clone, Debug)]
pub struct AttReadRsp {
    pub value: Vec<u8>,
}

impl AttReadRsp {
    pub open spec fn accepts(data: Seq<u8>) -> bool {
        data.len() >= 1
    }

    pub open spec fn decodes(self, data: Seq<u8>) -> bool {
        self.value@ == data.subrange(1, data.len() as int)
    }

    pub fn build(value: Vec<u8>) -> (r: Vec<u8>)
        ensures
            r@ == seq![0x0Bu8] + value@,
    {
        let mut buf: Vec<u8> = Vec::new();
        buf.push(0x0B);
        push_slice(&mut buf, value.as_slice());
        buf
    }

    pub fn parse(data: &[u8]) -> (r: Option<Self>)
        ensures
            r is Some <==> Self::accepts(data@),
            r matches Some(m) ==> m.decodes(data@),
    {
        if data.len() < 1 {
            return None;
        }
        Some(AttReadRsp { value: copy_range(data, 1, data.len()) })
    }
}

/// Read Blob Request: `| 0x0C | handle(2) | offset(2) |`.
#[derive(Clone, Copy, Debug)]
pub struct AttReadBlobReq {
    pub handle: u16,
    pub offset: u16,
}

impl AttReadBlobReq {
    pub open spec fn accepts(data: Seq<u8>) -> bool {
        data.len() >= 5
    }

    pub open spec fn decodes(self, data: Seq<u8>) -> bool {
        self.handle == field16(data, 1) && self.offset == field16(data, 3)
    }

    pub fn build(handle: u16, offset: u16) -> (r: Vec<u8>)
        ensures
            r@ == hhv_bytes(0x0C, handle, offset, seq![]),
    {
        build_hhv(0x0C, handle, offset, &[])
    }

    pub fn parse(data: &[u8]) -> (r: Option<Self>)
        ensures
            r is Some <==> Self::accepts(data@),
            r matches Some(m) ==> m.decodes(data@),
    {
        if data.len() < 5 {
            return None;
        }
        Some(AttReadBlobReq { handle: read_u16_le(data[1], data[2]), offset: read_u16_le(data[3], data[4]) })
    }
}

/// Read Blob Response: `| 0x0D | value |`.
#[derive(Clone, Debug)]
pub struct AttReadBlobRsp {
    pub value: Vec<u8>,
}

impl AttReadBlobRsp {
    pub open spec fn accepts(data: Seq<u8>) -> bool {
        data.len() >= 1
    }

    pub open spec fn decodes(self, data: Seq<u8>) -> bool {
        self.value@ == data.subrange(1, data.len() as int)
    }

    pub fn build(value: Vec<u8>) -> (r: Vec<u8>)
        ensures
            r@ == seq![0x0Du8] + value@,
    {
        let mut buf: Vec<u8> = Vec::new();
        buf.push(0x0D);
        push_slice(&mut buf, value.as_slice());
        buf
    }

    pub fn parse(data: &[u8]) -> (r: Option<Self>)
        ensures
            r is Some <==> Self::accepts(data@),
            r matches Some(m) ==> m.decodes(data@),
    {
        if data.len() < 1 {
            return None;
        }
        Some(AttReadBlobRsp { value: copy_range(data, 1, data.len()) })
    }
}

/// Write Request: `| 0x12 | handle(2) | value |`.
#[derive(Clone, Debug)]
pub struct AttWriteReq {
    pub handle: u16,
    pub value: Vec<u8>,
}

impl AttWriteReq {
    pub open spec fn accepts(data: Seq<u8>) -> bool {
        data.len() >= 3
    }

    pub open spec fn decodes(self, data: Seq<u8>) -> bool {
        self.handle == field16(data, 1) && self.value@ == data.subrange(3, data.len() as int)
    }

    pub fn build(handle: u16, value: Vec<u8>) -> (r: Vec<u8>)
        ensures
            r@ == hv_bytes(0x12, handle, value@),
    {
        build_hv(0x12, handle, value.as_slice())
    }

    pub fn parse(data: &[u8]) -> (r: Option<Self>)
        ensures
            r is Some <==> Self::accepts(data@),
            r matches Some(m) ==> m.decodes(data@),
    {
        if data.len() < 3 {
            return None;
        }
        Some(AttWriteReq { handle: read_u16_le(data[1], data[2]), value: copy_range(data, 3, data.len()) })
    }
}

/// Write Response: the single opcode byte 0x13.
pub fn build_write_rsp() -> (r: Vec<u8>)
    ensures
        r@ == seq![0x13u8],
{
    let mut v: Vec<u8> = Vec::new();
    v.push(0x13);
    v
}

/// Write Command (no response): `| 0x52 | handle(2) | value |`.
#[derive(Clone, Debug)]
pub struct AttWriteCmd {
    pub handle: u16,
    pub value: Vec<u8>,
}

impl AttWriteCmd {
    pub open spec fn accepts(data: Seq<u8>) -> bool {
        data.len() >= 3
    }

    pub open spec fn decodes(self, data: Seq<u8>) -> bool {
        self.handle == field16(data, 1) && self.value@ == data.subrange(3, data.len() as int)
    }

    pub fn build(handle: u16, value: Vec<u8>) -> (r: Vec<u8>)
        ensures
            r@ == hv_bytes(0x52, handle, value@),
    {
        build_hv(0x52, handle, value.as_slice())
    }

    pub fn parse(data: &[u8]) -> (r: Option<Self>)
        ensures
            r is Some <==> Self::accepts(data@),
            r matches Some(m) ==> m.decodes(data@),
    {
        if data.len() < 3 {
            return None;
        }
        Some(AttWriteCmd { handle: read_u16_le(data[1], data[2]), value: copy_range(data, 3, data.len()) })
    }
}

/// Handle Value Notification: `| 0x1B | handle(2) | value |`.
#[derive(Clone, Debug)]
pub struct AttHandleValueNtf {
    pub handle: u16,
    pub value: Vec<u8>,
}

impl AttHandleValueNtf {
    pub open spec fn accepts(data: Seq<u8>) -> bool {
        data.len() >= 3
    }

    pub open spec fn decodes(self, data: Seq<u8>) -> bool {
        self.handle == field16(data, 1) && self.value@ == data.subrange(3, data.len() as int)
    }

    pub fn build(handle: u16, value: Vec<u8>) -> (r: Vec<u8>)
        ensures
            r@ == hv_bytes(0x1B, handle, value@),
    {
        build_hv(0x1B, handle, value.as_slice())
    }

    pub fn parse(data: &[u8]) -> (r: Option<Self>)
        ensures
            r is Some <==> Self::accepts(data@),
            r matches Some(m) ==> m.decodes(data@),
    {
        if data.len() < 3 {
            return None;
        }
        Some(AttHandleValueNtf { handle: read_u16_le(data[1], data[2]), value: copy_range(data, 3, data.len()) })
    }
}

/// Handle Value Indication: `| 0x1D | handle(2) | value |`.
#[derive(Clone, Debug)]
pub struct AttHandleValueInd {
    pub handle: u16,
    pub value: Vec<u8>,
}

impl AttHandleValueInd {
    pub open spec fn accepts(data: Seq<u8>) -> bool {
        data.len() >= 3
    }

    pub open spec fn decodes(self, data: Seq<u8>) -> bool {
        self.handle == field16(data, 1) && self.value@ == data.subrange(3, data.len() as int)
    }

    pub fn build(handle: u16, value: Vec<u8>) -> (r: Vec<u8>)
        ensures
            r@ == hv_bytes(0x1D, handle, value@),
    {
        build_hv(0x1D, handle, value.as_slice())
    }

    pub fn parse(data: &[u8]) -> (r: Option<Self>)
        ensures
            r is Some <==> Self::accepts(data@),
            r matches Some(m) ==> m.decodes(data@),
    {
        if data.len() < 3 {
            return None;
        }
        Some(AttHandleValueInd { handle: read_u16_le(data[1], data[2]), value: copy_range(data, 3, data.len()) })
    }
}

/// Handle Value Confirmation: the single opcode byte 0x1E.
pub fn build_handle_value_cfm() -> (r: Vec<u8>)
    ensures
        r@ == seq![0x1Eu8],
{
    let mut v: Vec<u8> = Vec::new();
    v.push(0x1E);
    v
}

/// Prepare Write Request: `| 0x16 | handle(2) | offset(2) | value |`.
#[derive(Clone, Debug)]
pub struct AttPrepareWriteReq {
    pub handle: u16,
    pub offset: u16,
    pub value: Vec<u8>,
}

impl AttPrepareWriteReq {
    pub open spec fn accepts(data: Seq<u8>) -> bool {
        data.len() >= 5
    }

    pub open spec fn decodes(self, data: Seq<u8>) -> bool {
        self.handle == field16(data, 1) && self.offset == field16(data, 3) && self.value@ == data.subrange(5, data.len() as int)
    }

    pub fn build(handle: u16, offset: u16, value: Vec<u8>) -> (r: Vec<u8>)
        ensures
            r@ == hhv_bytes(0x16, handle, offset, value@),
    {
        build_hhv(0x16, handle, offset, value.as_slice())
    }

    pub fn parse(data: &[u8]) -> (r: Option<Self>)
        ensures
            r is Some <==> Self::accepts(data@),
            r matches Some(m) ==> m.decodes(data@),
    {
        if data.len() < 5 {
            return None;
        }
        Some(AttPrepareWriteReq {
            handle: read_u16_le(data[1], data[2]),
            offset: read_u16_le(data[3], data[4]),
            value: copy_range(data, 5, data.len()),
        })
    }
}

/// Prepare Write Response: `| 0x17 | handle(2) | offset(2) | value |`.
#[derive(Clone, Debug)]
pub struct AttPrepareWriteRsp {
    pub handle: u16,
    pub offset: u16,
    pub value: Vec<u8>,
}

impl AttPrepareWriteRsp {
    pub open spec fn accepts(data: Seq<u8>) -> bool {
        data.len() >= 5
    }

    pub open spec fn decodes(self, data: Seq<u8>) -> bool {
        self.handle == field16(data, 1) && self.offset == field16(data, 3) && self.value@ == data.subrange(5, data.len() as int)
    }

    pub fn build(handle: u16, offset: u16, value: Vec<u8>) -> (r: Vec<u8>)
        ensures
            r@ == hhv_bytes(0x17, handle, offset, value@),
    {
        build_hhv(0x17, handle, offset, value.as_slice())
    }

    pub fn parse(data: &[u8]) -> (r: Option<Self>)
        ensures
            r is Some <==> Self::accepts(data@),
            r matches Some(m) ==> m.decodes(data@),
    {
        if data.len() < 5 {
            return None;
        }
        Some(AttPrepareWriteRsp {
            handle: read_u16_le(data[1], data[2]),
            offset: read_u16_le(data[3], data[4]),
            value: copy_range(data, 5, data.len()),
        })
    }
}


// ============================================================================
// Find By Type Value
// ============================================================================

/// Find By Type Value Request:
/// `| 0x06 | start(2) | end(2) | attribute type (16-bit) | value |`.
#[derive(Clone, Debug)]
pub struct AttFindByTypeValueReq {
    pub start_handle: u16,
    pub end_handle: u16,
    pub attr_type: BtUuid,
    pub value: Vec<u8>,
}

impl AttFindByTypeValueReq {
    /// The attribute type is always sent as its 16-bit value (bytes 2 and
    /// 3 of the UUID), little-endian.
    pub open spec fn spec_build(start_handle: u16, end_handle: u16, attr_type: Seq<u8>, value: Seq<u8>) -> Seq<u8> {
        hhv_bytes(0x06, start_handle, end_handle, seq![attr_type[3], attr_type[2]] + value)
    }

    pub open spec fn accepts(data: Seq<u8>) -> bool {
        data.len() >= 7
    }

    pub open spec fn decodes(self, data: Seq<u8>) -> bool {
        &&& self.start_handle == field16(data, 1)
        &&& self.end_handle == field16(data, 3)
        &&& self.attr_type.bytes@ == base_uuid_bytes().update(2, data[6]).update(3, data[5])
        &&& self.value@ == data.subrange(7, data.len() as int)
    }

    pub fn build(start_handle: u16, end_handle: u16, attr_type: BtUuid, value: Vec<u8>) -> (r: Vec<u8>)
        ensures
            r@ == Self::spec_build(start_handle, end_handle, attr_type.bytes@, value@),
    {
        let mut buf: Vec<u8> = Vec::new();
        buf.push(0x06);
        push_u16_le(&mut buf, start_handle);
        push_u16_le(&mut buf, end_handle);
        buf.push(attr_type.bytes[3]);
        buf.push(attr_type.bytes[2]);
        push_slice(&mut buf, value.as_slice());
        assert(buf@ =~= Self::spec_build(start_handle, end_handle, attr_type.bytes@, value@));
        buf
    }

    pub fn parse(data: &[u8]) -> (r: Option<Self>)
        ensures
            r is Some <==> Self::accepts(data@),
            r matches Some(m) ==> m.decodes(data@),
    {
        if data.len() < 7 {
            return None;
        }
        let start_handle = read_u16_le(data[1], data[2]);
        let end_handle = read_u16_le(data[3], data[4]);
        let attr_type = uuid_from_pair(data[6], data[5]);
        let value = copy_range(data, 7, data.len());
        Some(AttFindByTypeValueReq { start_handle, end_handle, attr_type, value })
    }
}

/// A handle range found by Find By Type Value.
#[derive(Clone, Copy, Debug)]
pub struct AttHandleRange {
    pub start_handle: u16,
    pub end_handle: u16,
}

/// The encoded ranges, in order.
pub open spec fn range_entries(s: Seq<AttHandleRange>) -> Seq<u8>
    decreases s.len(),
{
    if s.len() == 0 {
        seq![]
    } else {
        range_entries(s.drop_last()) + le16(s.last().start_handle) + le16(s.last().end_handle)
    }
}

/// Find By Type Value Response: `| 0x07 | (start(2) | end(2))* |`.
#[derive(Clone, Debug)]
pub struct AttFindByTypeValueRsp {
    pub ranges: Vec<AttHandleRange>,
}

impl AttFindByTypeValueRsp {
    pub open spec fn accepts(data: Seq<u8>) -> bool {
        data.len() >= 1 && (data.len() - 1) % 4 == 0
    }

    pub open spec fn decodes(self, data: Seq<u8>) -> bool {
        &&& self.ranges@.len() == (data.len() - 1) / 4
        &&& forall|i: int| #![trigger self.ranges@[i]] 0 <= i < self.ranges@.len() ==> {
            &&& self.ranges@[i].start_handle == field16(data, 1 + 4 * i)
            &&& self.ranges@[i].end_handle == field16(data, 1 + 4 * i + 2)
        }
    }

    pub fn build(ranges: Vec<AttHandleRange>) -> (r: Vec<u8>)
        ensures
            r@ == seq![0x07u8] + range_entries(ranges@),
    {
        let mut buf: Vec<u8> = Vec::new();
        buf.push(0x07);
        let mut i: usize = 0;
        while i < ranges.len()
            invariant
                0 <= i <= ranges@.len(),
                buf@ == seq![0x07u8] + range_entries(ranges@.take(i as int)),
            decreases ranges@.len() - i,
        {
            push_u16_le(&mut buf, ranges[i].start_handle);
            push_u16_le(&mut buf, ranges[i].end_handle);
            assert(ranges@.take(i + 1).drop_last() =~= ranges@.take(i as int));
            i = i + 1;
        }
        assert(ranges@.take(i as int) =~= ranges@);
        buf
    }

    pub fn parse(data: &[u8]) -> (r: Option<Self>)
        ensures
            r is Some <==> Self::accepts(data@),
            r matches Some(m) ==> m.decodes(data@),
    {
        if data.len() < 1 {
            return None;
        }
        let plen = data.len() - 1;
        if plen % 4 != 0 {
            return None;
        }
        let n = plen / 4;
        let mut ranges: Vec<AttHandleRange> = Vec::new();
        let mut i: usize = 0;
        while i < n
            invariant
                0 <= i <= n,
                n * 4 == plen,
                plen + 1 == data@.len(),
                ranges@.len() == i,
                forall|j: int| #![trigger ranges@[j]] 0 <= j < i ==> {
                    &&& ranges@[j].start_handle == field16(data@, 1 + 4 * j)
                    &&& ranges@[j].end_handle == field16(data@, 1 + 4 * j + 2)
                },
            decreases n - i,
        {
            let off = 1 + 4 * i;
            ranges.push(AttHandleRange {
                start_handle: read_u16_le(data[off], data[off + 1]),
                end_handle: read_u16_le(data[off + 2], data[off + 3]),
            });
            i = i + 1;
        }
        Some(AttFindByTypeValueRsp { ranges })
    }
}

// ============================================================================
// Execute Write
// ============================================================================

/// Execute Write Request: `| 0x18 | flag |`.
#[derive(Clone, Copy, Debug)]
pub struct AttExecuteWriteReq {
    pub flag: AttExecWriteFlag,
}

impl AttExecuteWriteReq {
    pub open spec fn accepts(data: Seq<u8>) -> bool {
        data.len() >= 2 && (data[1] == 0x00 || data[1] == 0x01)
    }

    pub open spec fn decodes(self, data: Seq<u8>) -> bool {
        self.flag.code() == data[1]
    }

    pub fn build(flag: AttExecWriteFlag) -> (r: Vec<u8>)
        ensures
            r@ == seq![0x18u8, flag.code()],
    {
        let mut v: Vec<u8> = Vec::new();
        v.push(0x18);
        v.push(flag.to_byte());
        v
    }

    pub fn parse(data: &[u8]) -> (r: Option<Self>)
        ensures
            r is Some <==> Self::accepts(data@),
            r matches Some(m) ==> m.decodes(data@),
    {
        if data.len() < 2 {
            return None;
        }
        let flag = if data[1] == 0x00 {
            AttExecWriteFlag::Cancel
        } else if data[1] == 0x01 {
            AttExecWriteFlag::Write
        } else {
            return None;
        };
        Some(AttExecuteWriteReq { flag })
    }
}

/// Execute Write Response: the single opcode byte 0x19.
pub fn build_execute_write_rsp() -> (r: Vec<u8>)
    ensures
        r@ == seq![0x19u8],
{
    let mut v: Vec<u8> = Vec::new();
    v.push(0x19);
    v
}

// ============================================================================
// PDU dispatch
// ============================================================================

/// A decoded ATT PDU, one variant per opcode.
#[derive(Clone, Debug)]
pub enum AttPdu {
    ErrorRsp(AttErrorRsp),
    ExchangeMtuReq(AttExchangeMtuReq),
    ExchangeMtuRsp(AttExchangeMtuRsp),
    FindInfoReq(AttFindInfoReq),
    FindInfoRsp(AttFindInfoRsp),
    FindByTypeValueReq(AttFindByTypeValueReq),
    FindByTypeValueRsp(AttFindByTypeValueRsp),
    ReadByTypeReq(AttReadByTypeReq),
    ReadByTypeRsp(AttReadByTypeRsp),
    ReadByGroupTypeReq(AttReadByGroupTypeReq),
    ReadByGroupTypeRsp(AttReadByGroupTypeRsp),
    ReadReq(AttReadReq),
    ReadRsp(AttReadRsp),
    ReadBlobReq(AttReadBlobReq),
    ReadBlobRsp(AttReadBlobRsp),
    WriteReq(AttWriteReq),
    WriteRsp,
    WriteCmd(AttWriteCmd),
    PrepareWriteReq(AttPrepareWriteReq),
    PrepareWriteRsp(AttPrepareWriteRsp),
    ExecuteWriteReq(AttExecuteWriteReq),
    ExecuteWriteRsp,
    HandleValueNtf(AttHandleValueNtf),
    HandleValueInd(AttHandleValueInd),
    HandleValueCfm,
    /// Known opcode whose PDU is not decoded; keeps the opcode.
    Unsupported(u8),
}

/// Whether the dispatcher decodes `data`: a known opcode whose PDU body is
/// well formed.
pub open spec fn spec_pdu_accepts(data: Seq<u8>) -> bool {
    data.len() > 0 && {
        let op = data[0];
        if op == 0x01 { AttErrorRsp::accepts(data) }
        else if op == 0x02 { AttExchangeMtuReq::accepts(data) }
        else if op == 0x03 { AttExchangeMtuRsp::accepts(data) }
        else if op == 0x04 { AttFindInfoReq::accepts(data) }
        else if op == 0x05 { AttFindInfoRsp::accepts(data) }
        else if op == 0x06 { AttFindByTypeValueReq::accepts(data) }
        else if op == 0x07 { AttFindByTypeValueRsp::accepts(data) }
        else if op == 0x08 { AttReadByTypeReq::accepts(data) }
        else if op == 0x09 { AttReadByTypeRsp::accepts(data) }
        else if op == 0x10 { AttReadByGroupTypeReq::accepts(data) }
        else if op == 0x11 { AttReadByGroupTypeRsp::accepts(data) }
        else if op == 0x0A { AttReadReq::accepts(data) }
        else if op == 0x0B { AttReadRsp::accepts(data) }
        else if op == 0x0C { AttReadBlobReq::accepts(data) }
        else if op == 0x0D { AttReadBlobRsp::accepts(data) }
        else if op == 0x12 { AttWriteReq::accepts(data) }
        else if op == 0x52 { AttWriteCmd::accepts(data) }
        else if op == 0x16 { AttPrepareWriteReq::accepts(data) }
        else if op == 0x17 { AttPrepareWriteRsp::accepts(data) }
        else if op == 0x18 { AttExecuteWriteReq::accepts(data) }
        else if op == 0x1B { AttHandleValueNtf::accepts(data) }
        else if op == 0x1D { AttHandleValueInd::accepts(data) }
        else { op == 0x13 || op == 0x19 || op == 0x1E || op == 0x0E || op == 0x0F || op == 0xD2 }
    }
}

/// Whether `p` is the decoding of `data`: the variant of its opcode, with
/// the fields the PDU carries.
pub open spec fn spec_pdu_decodes(p: AttPdu, data: Seq<u8>) -> bool {
    match p {
        AttPdu::ErrorRsp(m) => data[0] == 0x01 && m.decodes(data),
        AttPdu::ExchangeMtuReq(m) => data[0] == 0x02 && m.decodes(data),
        AttPdu::ExchangeMtuRsp(m) => data[0] == 0x03 && m.decodes(data),
        AttPdu::FindInfoReq(m) => data[0] == 0x04 && m.decodes(data),
        AttPdu::FindInfoRsp(m) => data[0] == 0x05 && m.decodes(data),
        AttPdu::FindByTypeValueReq(m) => data[0] == 0x06 && m.decodes(data),
        AttPdu::FindByTypeValueRsp(m) => data[0] == 0x07 && m.decodes(data),
        AttPdu::ReadByTypeReq(m) => data[0] == 0x08 && m.decodes(data),
        AttPdu::ReadByTypeRsp(m) => data[0] == 0x09 && m.decodes(data),
        AttPdu::ReadByGroupTypeReq(m) => data[0] == 0x10 && m.decodes(data),
        AttPdu::ReadByGroupTypeRsp(m) => data[0] == 0x11 && m.decodes(data),
        AttPdu::ReadReq(m) => data[0] == 0x0A && m.decodes(data),
        AttPdu::ReadRsp(m) => data[0] == 0x0B && m.decodes(data),
        AttPdu::ReadBlobReq(m) => data[0] == 0x0C && m.decodes(data),
        AttPdu::ReadBlobRsp(m) => data[0] == 0x0D && m.decodes(data),
        AttPdu::WriteReq(m) => data[0] == 0x12 && m.decodes(data),
        AttPdu::WriteRsp => data[0] == 0x13,
        AttPdu::WriteCmd(m) => data[0] == 0x52 && m.decodes(data),
        AttPdu::PrepareWriteReq(m) => data[0] == 0x16 && m.decodes(data),
        AttPdu::PrepareWriteRsp(m) => data[0] == 0x17 && m.decodes(data),
        AttPdu::ExecuteWriteReq(m) => data[0] == 0x18 && m.decodes(data),
        AttPdu::ExecuteWriteRsp => data[0] == 0x19,
        AttPdu::HandleValueNtf(m) => data[0] == 0x1B && m.decodes(data),
        AttPdu::HandleValueInd(m) => data[0] == 0x1D && m.decodes(data),
        AttPdu::HandleValueCfm => data[0] == 0x1E,
        AttPdu::Unsupported(op) => op == data[0] && (op == 0x0E || op == 0x0F || op == 0xD2),
    }
}

/// Decodes any ATT PDU from raw bytes.
pub fn parse_att_pdu(data: &[u8]) -> (r: Option<AttPdu>)
    ensures
        r is Some <==> spec_pdu_accepts(data@),
        r matches Some(p) ==> spec_pdu_decodes(p, data@),
{
    if data.len() == 0 {
        return None;
    }
    let op = data[0];
    if op == 0x01 { return match AttErrorRsp::parse(data) { Some(m) => Some(AttPdu::ErrorRsp(m)), None => None }; }
    if op == 0x02 { return match AttExchangeMtuReq::parse(data) { Some(m) => Some(AttPdu::ExchangeMtuReq(m)), None => None }; }
    if op == 0x03 { return match AttExchangeMtuRsp::parse(data) { Some(m) => Some(AttPdu::ExchangeMtuRsp(m)), None => None }; }
    if op == 0x04 { return match AttFindInfoReq::parse(data) { Some(m) => Some(AttPdu::FindInfoReq(m)), None => None }; }
    if op == 0x05 { return match AttFindInfoRsp::parse(data) { Some(m) => Some(AttPdu::FindInfoRsp(m)), None => None }; }
    if op == 0x06 { return match AttFindByTypeValueReq::parse(data) { Some(m) => Some(AttPdu::FindByTypeValueReq(m)), None => None }; }
    if op == 0x07 { return match AttFindByTypeValueRsp::parse(data) { Some(m) => Some(AttPdu::FindByTypeValueRsp(m)), None => None }; }
    if op == 0x08 { return match AttReadByTypeReq::parse(data) { Some(m) => Some(AttPdu::ReadByTypeReq(m)), None => None }; }
    if op == 0x09 { return match AttReadByTypeRsp::parse(data) { Some(m) => Some(AttPdu::ReadByTypeRsp(m)), None => None }; }
    if op == 0x10 { return match AttReadByGroupTypeReq::parse(data) { Some(m) => Some(AttPdu::ReadByGroupTypeReq(m)), None => None }; }
    if op == 0x11 { return match AttReadByGroupTypeRsp::parse(data) { Some(m) => Some(AttPdu::ReadByGroupTypeRsp(m)), None => None }; }
    if op == 0x0A { return match AttReadReq::parse(data) { Some(m) => Some(AttPdu::ReadReq(m)), None => None }; }
    if op == 0x0B { return match AttReadRsp::parse(data) { Some(m) => Some(AttPdu::ReadRsp(m)), None => None }; }
    if op == 0x0C { return match AttReadBlobReq::parse(data) { Some(m) => Some(AttPdu::ReadBlobReq(m)), None => None }; }
    if op == 0x0D { return match AttReadBlobRsp::parse(data) { Some(m) => Some(AttPdu::ReadBlobRsp(m)), None => None }; }
    if op == 0x12 { return match AttWriteReq::parse(data) { Some(m) => Some(AttPdu::WriteReq(m)), None => None }; }
    if op == 0x13 { return Some(AttPdu::WriteRsp); }
    if op == 0x52 { return match AttWriteCmd::parse(data) { Some(m) => Some(AttPdu::WriteCmd(m)), None => None }; }
    if op == 0x0E || op == 0x0F || op == 0xD2 { return Some(AttPdu::Unsupported(op)); }
    if op == 0x16 { return match AttPrepareWriteReq::parse(data) { Some(m) => Some(AttPdu::PrepareWriteReq(m)), None => None }; }
    if op == 0x17 { return match AttPrepareWriteRsp::parse(data) { Some(m) => Some(AttPdu::PrepareWriteRsp(m)), None => None }; }
    if op == 0x18 { return match AttExecuteWriteReq::parse(data) { Some(m) => Some(AttPdu::ExecuteWriteReq(m)), None => None }; }
    if op == 0x19 { return Some(AttPdu::ExecuteWriteRsp); }
    if op == 0x1B { return match AttHandleValueNtf::parse(data) { Some(m) => Some(AttPdu::HandleValueNtf(m)), None => None }; }
    if op == 0x1D { return match AttHandleValueInd::parse(data) { Some(m) => Some(AttPdu::HandleValueInd(m)), None => None }; }
    if op == 0x1E { return Some(AttPdu::HandleValueCfm); }
    None
}

// ============================================================================
// Round trips
// ============================================================================

/// Decoding an encoded Error Response gives back its fields.
pub proof fn lemma_error_rsp_roundtrip(req_opcode: u8, handle: u16, error: AttErrorCode)
    ensures
        AttErrorRsp::accepts(AttErrorRsp::spec_build(req_opcode, handle, error)),
        forall|m: AttErrorRsp| #[trigger] m.decodes(AttErrorRsp::spec_build(req_opcode, handle, error))
            ==> m.request_opcode == req_opcode && m.handle == handle && m.error_code == error,
{
    let b = AttErrorRsp::spec_build(req_opcode, handle, error);
    lemma_le16_roundtrip(handle);
    assert(b[4] == error.code());
}

/// `[op | clamped MTU(2)]`, the encoding of an MTU exchange.
pub open spec fn mtu_bytes(op: u8, mtu: u16) -> Seq<u8> {
    seq![op] + le16(clamp_mtu(mtu))
}

/// `[0x18 | flag]`, the encoding of an Execute Write Request.
pub open spec fn exec_write_bytes(flag: AttExecWriteFlag) -> Seq<u8> {
    seq![0x18u8, flag.code()]
}

/// Decoding an encoded MTU exchange gives back the clamped MTU.
pub proof fn lemma_exchange_mtu_roundtrip(mtu: u16)
    ensures
        AttExchangeMtuReq::accepts(mtu_bytes(0x02, mtu)),
        forall|m: AttExchangeMtuReq| #[trigger] m.decodes(mtu_bytes(0x02, mtu))
            ==> m.client_rx_mtu == clamp_mtu(mtu),
        AttExchangeMtuRsp::accepts(mtu_bytes(0x03, mtu)),
        forall|m: AttExchangeMtuRsp| #[trigger] m.decodes(mtu_bytes(0x03, mtu))
            ==> m.server_rx_mtu == clamp_mtu(mtu),
        23 <= clamp_mtu(mtu) <= 512,
{
    lemma_le16_roundtrip(clamp_mtu(mtu));
}

/// Decoding any encoded `[op | handle | value]` PDU gives back the handle
/// and value: Read, Write, Write Command, Notification and Indication.
pub proof fn lemma_handle_value_roundtrip(handle: u16, value: Seq<u8>)
    ensures
        AttWriteReq::accepts(hv_bytes(0x12, handle, value)),
        forall|m: AttWriteReq| #[trigger] m.decodes(hv_bytes(0x12, handle, value))
            ==> m.handle == handle && m.value@ == value,
        forall|m: AttWriteCmd| #[trigger] m.decodes(hv_bytes(0x52, handle, value))
            ==> m.handle == handle && m.value@ == value,
        forall|m: AttHandleValueNtf| #[trigger] m.decodes(hv_bytes(0x1B, handle, value))
            ==> m.handle == handle && m.value@ == value,
        forall|m: AttHandleValueInd| #[trigger] m.decodes(hv_bytes(0x1D, handle, value))
            ==> m.handle == handle && m.value@ == value,
        forall|m: AttReadReq| #[trigger] m.decodes(hv_bytes(0x0A, handle, seq![])) ==> m.handle == handle,
        spec_pdu_accepts(hv_bytes(0x12, handle, value)),
        spec_pdu_accepts(hv_bytes(0x1B, handle, value)),
{
    lemma_hv_roundtrip(0x12, handle, value);
    lemma_hv_roundtrip(0x52, handle, value);
    lemma_hv_roundtrip(0x1B, handle, value);
    lemma_hv_roundtrip(0x1D, handle, value);
    lemma_hv_roundtrip(0x0A, handle, seq![]);
    assert(hv_bytes(0x12, handle, value).subrange(3, hv_bytes(0x12, handle, value).len() as int) =~= value);
    assert(hv_bytes(0x52, handle, value).subrange(3, hv_bytes(0x52, handle, value).len() as int) =~= value);
    assert(hv_bytes(0x1B, handle, value).subrange(3, hv_bytes(0x1B, handle, value).len() as int) =~= value);
    assert(hv_bytes(0x1D, handle, value).subrange(3, hv_bytes(0x1D, handle, value).len() as int) =~= value);
}

/// Decoding an encoded `[op | a | b | value]` PDU gives back both 16-bit
/// fields and the value: Find Information, Read Blob and Prepare Write.
pub proof fn lemma_two_field_roundtrip(a: u16, b: u16, value: Seq<u8>)
    ensures
        forall|m: AttFindInfoReq| #[trigger] m.decodes(hhv_bytes(0x04, a, b, seq![]))
            ==> m.start_handle == a && m.end_handle == b,
        forall|m: AttReadBlobReq| #[trigger] m.decodes(hhv_bytes(0x0C, a, b, seq![]))
            ==> m.handle == a && m.offset == b,
        AttPrepareWriteReq::accepts(hhv_bytes(0x16, a, b, value)),
        forall|m: AttPrepareWriteReq| #[trigger] m.decodes(hhv_bytes(0x16, a, b, value))
            ==> m.handle == a && m.offset == b && m.value@ == value,
        forall|m: AttPrepareWriteRsp| #[trigger] m.decodes(hhv_bytes(0x17, a, b, value))
            ==> m.handle == a && m.offset == b && m.value@ == value,
{
    lemma_hhv_roundtrip(0x04, a, b, seq![]);
    lemma_hhv_roundtrip(0x0C, a, b, seq![]);
    lemma_hhv_roundtrip(0x16, a, b, value);
    lemma_hhv_roundtrip(0x17, a, b, value);
    assert(hhv_bytes(0x16, a, b, value).subrange(5, hhv_bytes(0x16, a, b, value).len() as int) =~= value);
    assert(hhv_bytes(0x17, a, b, value).subrange(5, hhv_bytes(0x17, a, b, value).len() as int) =~= value);
}

/// The wire form of a UUID reads back as the same UUID.
pub proof fn lemma_uuid_wire_roundtrip(u: Seq<u8>)
    requires
        u.len() == 16,
    ensures
        uuid_from_wire(uuid_wire(u)) == u,
{
    if spec_uuid_type(u) == BtUuidType::Uuid16 {
        let w = uuid_wire(u);
        assert(crate::types::has_base_tail(u));
        assert forall|i: int| 0 <= i < 16 implies #[trigger] uuid_from_wire(w)[i] == u[i] by {
            if 4 <= i {
                assert(u[i] == base_uuid_bytes()[i]);
            }
        }
        assert(uuid_from_wire(w) =~= u);
    }
}

/// Decoding an encoded typed-range request (Read By Type or Read By Group
/// Type) gives back the handles and the UUID.
pub proof fn lemma_typed_range_roundtrip(a: u16, b: u16, u: Seq<u8>)
    requires
        u.len() == 16,
    ensures
        accepts_typed_range(hhv_bytes(0x10, a, b, uuid_wire(u))),
        forall|m: AttReadByGroupTypeReq| #[trigger] m.decodes(hhv_bytes(0x10, a, b, uuid_wire(u)))
            ==> m.start_handle == a && m.end_handle == b && m.group_type.bytes@ == u,
        forall|m: AttReadByTypeReq| #[trigger] m.decodes(hhv_bytes(0x08, a, b, uuid_wire(u)))
            ==> m.start_handle == a && m.end_handle == b && m.attr_type.bytes@ == u,
{
    let w = uuid_wire(u);
    lemma_uuid_wire_roundtrip(u);
    lemma_hhv_roundtrip(0x10, a, b, w);
    lemma_hhv_roundtrip(0x08, a, b, w);
    assert(hhv_bytes(0x10, a, b, w).subrange(5, hhv_bytes(0x10, a, b, w).len() as int) =~= w);
    assert(hhv_bytes(0x08, a, b, w).subrange(5, hhv_bytes(0x08, a, b, w).len() as int) =~= w);
}

/// Decoding an encoded Execute Write Request gives back its flag.
pub proof fn lemma_execute_write_roundtrip(flag: AttExecWriteFlag)
    ensures
        AttExecuteWriteReq::accepts(exec_write_bytes(flag)),
        forall|m: AttExecuteWriteReq| #[trigger] m.decodes(exec_write_bytes(flag)) ==> m.flag == flag,
{
}

} // verus!
