//! RFCOMM: serial-port emulation over L2CAP. Address, control and length
//! fields, the CRC-8 frame check sequence, frame encoding and decoding,
//! multiplexer commands (modem status, parameter negotiation), and the
//! per-DLCI state of a session.
//!
//! Frame: `| address | control | length (1 or 2) | data | FCS |`.

use vstd::prelude::*;
use crate::bytes::{has_bit, le16, lo8, hi8, u16_le, read_u16_le, push_u16_le, push_slice, copy_range,
    lemma_le16_roundtrip};

verus! {

/// Default RFCOMM MTU.
pub const RFCOMM_DEFAULT_MTU: u16 = 127;
/// Smallest MTU.
pub const RFCOMM_MIN_MTU: u16 = 23;
/// Largest DLCI.
pub const RFCOMM_MAX_DLCI: u8 = 30;
/// DLCI of the multiplexer control channel.
pub const RFCOMM_MUX_DLCI: u8 = 0;
/// First server channel number.
pub const RFCOMM_SERVER_CHANNEL_BASE: u8 = 1;
/// Sessions per L2CAP channel.
pub const RFCOMM_MAX_SESSIONS: usize = 1;

// ============================================================================
// Address field
// ============================================================================

/// Address byte: DLCI in bits 2-7, C/R in bit 1 (0 for a command), EA set.
pub open spec fn address_byte(dlci: u8, command: bool) -> u8 {
    ((dlci as int % 64) * 4 + if command { 1int } else { 3int }) as u8
}

/// The (DLCI, is-command) of a final address byte whose DLCI is at most 30.
pub open spec fn spec_parse_address(addr: u8) -> Option<(u8, bool)> {
    if addr % 2 != 1 || addr / 4 > 30 {
        None
    } else {
        Some(((addr / 4) as u8, (addr / 2) % 2 == 0))
    }
}

/// Builds an address byte; the DLCI is taken modulo 64.
pub fn build_address(dlci: u8, command: bool) -> (r: u8)
    ensures
        r == address_byte(dlci, command),
{
    let cr: u8 = if command { 0 } else { 1 };
    (dlci % 64) * 4 + cr * 2 + 1
}

/// Decodes an address byte: `None` when the EA bit is clear (extended
/// addresses are not supported) or the DLCI is above 30.
pub fn parse_address(addr: u8) -> (r: Option<(u8, bool)>)
    ensures
        r == spec_parse_address(addr),
{
    if addr % 2 != 1 {
        return None;
    }
    let cr = (addr / 2) % 2;
    let dlci = addr / 4;
    if dlci > RFCOMM_MAX_DLCI {
        return None;
    }
    Some((dlci, cr == 0))
}

/// An address built for a DLCI of at most 30 decodes to that DLCI and
/// direction.
pub proof fn lemma_address_roundtrip(dlci: u8, command: bool)
    requires
        dlci <= 30,
    ensures
        spec_parse_address(address_byte(dlci, command)) == Some((dlci, command)),
{
}

/// Frame types, by control-field value.
#[derive(Clone, Copy, PartialEq, Eq, Debug, Structural)]
pub enum RfcommControl {
    /// Set Asynchronous Balanced Mode: open a DLCI.
    Sabm,
    /// Unnumbered Acknowledgement of SABM or DISC.
    Ua,
    /// Disconnected Mode: refuse SABM or confirm DISC.
    Dm,
    /// Disconnect a DLCI.
    Disc,
    /// Unnumbered Information with Header check: data.
    Uih,
}

impl RfcommControl {
    /// Wire value of this variant.
    pub open spec fn code(self) -> u8 {
        match self {
            RfcommControl::Sabm => 0x1F,
            RfcommControl::Ua => 0x63,
            RfcommControl::Dm => 0x0F,
            RfcommControl::Disc => 0x43,
            RfcommControl::Uih => 0xEF,
        }
    }

    /// The variant a wire value stands for.
    pub open spec fn of_byte(b: u8) -> Option<RfcommControl> {
        match b {
            0x1F => Some(RfcommControl::Sabm),
            0x63 => Some(RfcommControl::Ua),
            0x0F => Some(RfcommControl::Dm),
            0x43 => Some(RfcommControl::Disc),
            0xEF => Some(RfcommControl::Uih),
            _ => None,
        }
    }

    pub fn to_byte(&self) -> (r: u8)
        ensures
            r == self.code(),
    {
        match self {
            RfcommControl::Sabm => 0x1F,
            RfcommControl::Ua => 0x63,
            RfcommControl::Dm => 0x0F,
            RfcommControl::Disc => 0x43,
            RfcommControl::Uih => 0xEF,
        }
    }

    pub fn from_byte(b: u8) -> (r: Option<Self>)
        ensures
            r == Self::of_byte(b),
            match r {
                Some(t) => t.code() == b,
                None => forall|t: RfcommControl| t.code() != b,
            },
    {
        match b {
            0x1F => Some(RfcommControl::Sabm),
            0x63 => Some(RfcommControl::Ua),
            0x0F => Some(RfcommControl::Dm),
            0x43 => Some(RfcommControl::Disc),
            0xEF => Some(RfcommControl::Uih),
            _ => None,
        }
    }
}

// ============================================================================
// Length field
// ============================================================================

/// Length field: one byte `len << 1 | 1` up to 127; two bytes (low seven
/// bits with EA clear, then bits 7-13 with EA set) up to 0x7FFF, the second
/// byte keeping only seven bits of `len >> 7`; a single `0x01` above.
pub open spec fn length_field(len: nat) -> Seq<u8> {
    if len <= 127 {
        seq![(len * 2 + 1) as u8]
    } else if len <= 0x7FFF {
        seq![((len % 128) * 2) as u8, (((len / 128) % 128) * 2 + 1) as u8]
    } else {
        seq![0x01u8]
    }
}

/// The (length, field size) a length field starting at `data[at]` holds.
pub open spec fn spec_decode_length(data: Seq<u8>, at: int) -> Option<(usize, usize)> {
    if at >= data.len() {
        None
    } else if data[at] % 2 == 1 {
        Some(((data[at] / 2) as usize, 1usize))
    } else if at + 2 <= data.len() {
        Some(((data[at] / 2 + (data[at + 1] / 2) * 128) as usize, 2usize))
    } else {
        None
    }
}

/// Encodes a length field.
pub fn encode_length(len: usize) -> (r: Vec<u8>)
    ensures
        r@ == length_field(len as nat),
{
    let mut v: Vec<u8> = Vec::new();
    if len <= 0x7F {
        v.push((len * 2 + 1) as u8);
    } else if len <= 0x7FFF {
        v.push(((len % 128) * 2) as u8);
        v.push((((len / 128) % 128) * 2 + 1) as u8);
    } else {
        v.push(0x01);
    }
    assert(v@ =~= length_field(len as nat));
    v
}

fn decode_length_at(data: &[u8], at: usize) -> (r: Option<(usize, usize)>)
    ensures
        r == spec_decode_length(data@, at as int),
{
    if at >= data.len() {
        return None;
    }
    let b0 = data[at];
    let len0 = (b0 / 2) as usize;
    if b0 % 2 == 1 {
        Some((len0, 1))
    } else if data.len() - at >= 2 {
        let len1 = (data[at + 1] / 2) as usize * 128;
        Some((len0 + len1, 2))
    } else {
        None
    }
}

/// Decodes the length field at the start of `data`: (length, bytes used),
/// or `None` when a two-byte field is cut short.
pub fn decode_length(data: &[u8]) -> (r: Option<(usize, usize)>)
    ensures
        r == spec_decode_length(data@, 0),
{
    decode_length_at(data, 0)
}

/// A length of at most 0x3FFF decodes from its encoding, followed by
/// anything, to itself and the field's size.
pub proof fn lemma_length_roundtrip(len: nat, rest: Seq<u8>)
    requires
        len <= 0x3FFF,
    ensures
        spec_decode_length(length_field(len) + rest, 0) == Some((len as usize, length_field(len).len() as usize)),
{
    let f = length_field(len) + rest;
    if len > 127 {
        assert(f[0] == ((len % 128) * 2) as u8);
        assert(f[1] == (((len / 128) % 128) * 2 + 1) as u8);
    }
}

// ============================================================================
// Frame check sequence
// ============================================================================

/// Polynomial of the CRC-8.
const CRC8_POLY: u8 = 0x07;

/// One bit step of the CRC-8 (polynomial 0x07, most significant bit first).
pub open spec fn crc_shift(c: u8) -> u8 {
    if c & 0x80u8 != 0 { (c << 1u8) ^ 0x07u8 } else { c << 1u8 }
}

/// `n` bit steps.
pub open spec fn crc_shift_n(c: u8, n: nat) -> u8
    decreases n,
{
    if n == 0 { c } else { crc_shift(crc_shift_n(c, (n - 1) as nat)) }
}

/// The CRC register after all of `data`, starting from 0xFF.
pub open spec fn crc_fold(data: Seq<u8>) -> u8
    decreases data.len(),
{
    if data.len() == 0 { 0xFFu8 } else { crc_shift_n(crc_fold(data.drop_last()) ^ data.last(), 8) }
}

/// The frame check sequence of `data`: the final register inverted.
pub open spec fn fcs(data: Seq<u8>) -> u8 {
    crc_fold(data) ^ 0xFFu8
}

/// Computes the FCS over the address, control and length fields.
pub fn compute_fcs(data: &[u8]) -> (r: u8)
    ensures
        r == fcs(data@),
{
    let mut crc: u8 = 0xFF;
    let mut i: usize = 0;
    while i < data.len()
        invariant
            i <= data@.len(),
            crc == crc_fold(data@.take(i as int)),
        decreases data@.len() - i,
    {
        let start = crc ^ data[i];
        crc = start;
        let mut k: usize = 0;
        while k < 8
            invariant
                k <= 8,
                crc == crc_shift_n(start, k as nat),
            decreases 8 - k,
        {
            if crc & 0x80u8 != 0 {
                crc = (crc << 1u8) ^ CRC8_POLY;
            } else {
                crc = crc << 1u8;
            }
            k = k + 1;
        }
        proof {
            let t = data@.take(i + 1);
            assert(t.drop_last() =~= data@.take(i as int));
        }
        i = i + 1;
    }
    assert(data@.take(i as int) =~= data@);
    crc ^ 0xFF
}

// ============================================================================
// Frames
// ============================================================================


/// Header of a frame: address, control and length fields.
pub open spec fn frame_header(dlci: u8, command: bool, control: RfcommControl, len: nat) -> Seq<u8> {
    seq![address_byte(dlci, command), control.code()] + length_field(len)
}

/// A whole frame: header, data, and the FCS over the header.
pub open spec fn frame_bytes(dlci: u8, command: bool, control: RfcommControl, data: Seq<u8>) -> Seq<u8> {
    let h = frame_header(dlci, command, control, data.len());
    h + data + seq![fcs(h)]
}

/// Size of the header of a received frame.
pub open spec fn rx_header_len(data: Seq<u8>) -> int {
    2 + spec_decode_length(data, 2).unwrap().1
}

/// Data length of a received frame.
pub open spec fn rx_data_len(data: Seq<u8>) -> int {
    spec_decode_length(data, 2).unwrap().0 as int
}

/// An RFCOMM frame.
#[derive(Clone, Debug)]
pub struct RfcommFrame {
    pub dlci: u8,
    pub command: bool,
    pub control: RfcommControl,
    pub data: Vec<u8>,
}

impl RfcommFrame {
    pub open spec fn spec_encode(&self) -> Seq<u8> {
        frame_bytes(self.dlci, self.command, self.control, self.data@)
    }

    /// Whether `data` starts with a complete frame: at least four bytes, a
    /// valid address, a known control value, all data present, and an FCS
    /// matching the header.
    pub open spec fn accepts(data: Seq<u8>) -> bool {
        &&& data.len() >= 4
        &&& spec_parse_address(data[0]) is Some
        &&& RfcommControl::of_byte(data[1]) is Some
        &&& rx_header_len(data) + rx_data_len(data) + 1 <= data.len()
        &&& data[rx_header_len(data) + rx_data_len(data)] == fcs(data.subrange(0, rx_header_len(data)))
    }

    /// The frame and size decoded from `data`.
    pub open spec fn decodes(self, n: usize, data: Seq<u8>) -> bool {
        let h = rx_header_len(data);
        let l = rx_data_len(data);
        &&& spec_parse_address(data[0]) == Some((self.dlci, self.command))
        &&& RfcommControl::of_byte(data[1]) == Some(self.control)
        &&& self.data@ == data.subrange(h, h + l)
        &&& n == h + l + 1
    }

    /// Encodes the frame.
    pub fn encode(&self) -> (r: Vec<u8>)
        ensures
            r@ == self.spec_encode(),
    {
        let mut buf: Vec<u8> = Vec::new();
        buf.push(build_address(self.dlci, self.command));
        buf.push(self.control.to_byte());
        let length = encode_length(self.data.len());
        push_slice(&mut buf, length.as_slice());
        let ghost h = buf@;
        assert(h =~= frame_header(self.dlci, self.command, self.control, self.data@.len()));
        let fcs_byte = compute_fcs(buf.as_slice());
        push_slice(&mut buf, self.data.as_slice());
        buf.push(fcs_byte);
        assert(buf@ =~= h + self.data@ + seq![fcs(h)]);
        buf
    }

    /// Decodes the frame at the start of `data`, with the number of bytes
    /// it takes; `None` when it is incomplete or invalid, or its FCS does
    /// not match.
    pub fn parse(data: &[u8]) -> (r: Option<(Self, usize)>)
        ensures
            r is Some <==> Self::accepts(data@),
            r matches Some((f, n)) ==> f.decodes(n, data@),
    {
        if data.len() < 4 {
            return None;
        }
        let (dlci, is_command) = parse_address(data[0])?;
        let control = RfcommControl::from_byte(data[1])?;
        let (data_len, len_size) = match decode_length_at(data, 2) {
            Some(x) => x,
            None => { return None; },
        };
        let header_size = 2 + len_size;
        if data_len >= data.len() - header_size {
            return None;
        }
        let payload = copy_range(data, header_size, header_size + data_len);
        let fcs_byte = data[header_size + data_len];
        let total_size = header_size + data_len + 1;
        let header = copy_range(data, 0, header_size);
        let expected_fcs = compute_fcs(header.as_slice());
        if fcs_byte != expected_fcs {
            return None;
        }
        Some((RfcommFrame { dlci, command: is_command, control, data: payload }, total_size))
    }
}

/// Every control value decodes back from its own byte.
pub proof fn lemma_control_roundtrip(c: RfcommControl)
    ensures
        RfcommControl::of_byte(c.code()) == Some(c),
{
}

/// A frame for a DLCI of at most 30 carrying at most 0x3FFF bytes decodes
/// to the same DLCI, direction, control and data, taking all of its bytes.
pub proof fn lemma_frame_roundtrip(dlci: u8, command: bool, control: RfcommControl, data: Seq<u8>)
    requires
        dlci <= 30,
        data.len() <= 0x3FFF,
    ensures
        RfcommFrame::accepts(frame_bytes(dlci, command, control, data)),
        spec_parse_address(frame_bytes(dlci, command, control, data)[0]) == Some((dlci, command)),
        RfcommControl::of_byte(frame_bytes(dlci, command, control, data)[1]) == Some(control),
        ({
            let b = frame_bytes(dlci, command, control, data);
            &&& b.subrange(rx_header_len(b), rx_header_len(b) + rx_data_len(b)) == data
            &&& rx_header_len(b) + rx_data_len(b) + 1 == b.len()
        }),
{
    let h = frame_header(dlci, command, control, data.len());
    let b = frame_bytes(dlci, command, control, data);
    let lf = length_field(data.len());
    lemma_address_roundtrip(dlci, command);
    lemma_control_roundtrip(control);
    let tail = b.subrange(2, b.len() as int);
    assert(tail =~= lf + (data + seq![fcs(h)]));
    lemma_length_roundtrip(data.len(), data + seq![fcs(h)]);
    assert(spec_decode_length(b, 2) == spec_decode_length(tail, 0)) by {
        assert(b[2] == tail[0]);
        if lf.len() == 2 {
            assert(b[3] == tail[1]);
        }
    }
    assert(rx_header_len(b) == h.len());
    assert(b.subrange(0, h.len() as int) =~= h);
    assert(b.subrange(h.len() as int, h.len() + data.len() as int) =~= data);
}

// ============================================================================
// DLCIs
// ============================================================================

/// Side of a DLCI: the initiator's is `channel * 2`, the responder's
/// `channel * 2 + 1`.
#[derive(Clone, Copy, PartialEq, Eq, Debug, Structural)]
pub enum DlciDirection {
    Initiator(u8),
    Responder(u8),
}

impl DlciDirection {
    pub open spec fn spec_channel(self) -> u8 {
        match self {
            DlciDirection::Initiator(ch) => ch,
            DlciDirection::Responder(ch) => ch,
        }
    }

    pub open spec fn spec_dlci(self) -> int {
        match self {
            DlciDirection::Initiator(ch) => ch * 2,
            DlciDirection::Responder(ch) => ch * 2 + 1,
        }
    }

    /// The DLCI; the channel must be at most 127.
    pub fn dlci(&self) -> (r: u8)
        requires
            self.spec_channel() <= 127,
        ensures
            r == self.spec_dlci(),
    {
        match self {
            DlciDirection::Initiator(ch) => *ch * 2,
            DlciDirection::Responder(ch) => *ch * 2 + 1,
        }
    }

    /// The server channel number.
    pub fn channel(&self) -> (r: u8)
        ensures
            r == self.spec_channel(),
    {
        match self {
            DlciDirection::Initiator(ch) => *ch,
            DlciDirection::Responder(ch) => *ch,
        }
    }

    /// The (channel, direction) of a DLCI in `1..=30`.
    pub fn from_dlci(dlci: u8) -> (r: Option<(u8, DlciDirection)>)
        ensures
            r is Some <==> 1 <= dlci <= 30,
            r matches Some((ch, d)) ==> {
                &&& ch == dlci / 2
                &&& d.spec_channel() == ch
                &&& d.spec_dlci() == dlci
                &&& (d is Initiator <==> dlci % 2 == 0)
            },
    {
        if dlci == 0 || dlci > RFCOMM_MAX_DLCI {
            return None;
        }
        let channel = dlci / 2;
        if dlci % 2 == 0 {
            Some((channel, DlciDirection::Initiator(channel)))
        } else {
            Some((channel, DlciDirection::Responder(channel)))
        }
    }
}

// ============================================================================
// Multiplexer commands
// ============================================================================

/// Multiplexer control command types (sent on DLCI 0).
#[derive(Clone, Copy, PartialEq, Eq, Debug, Structural)]
pub enum MuxCommandType {
    /// Modem Status Command.
    Msc,
    /// Remote Port Negotiation.
    Rpn,
    /// Remote Line Status.
    Rls,
    /// DLC Parameter Negotiation.
    Pn,
    /// Non-Supported Command response.
    Nsc,
    /// Test command.
    Test,
    /// Flow control on.
    Fcon,
    /// Flow control off.
    Fcoff,
}

impl MuxCommandType {
    /// Wire value of this variant.
    pub open spec fn code(self) -> u8 {
        match self {
            MuxCommandType::Msc => 0xEF,
            MuxCommandType::Rpn => 0x10,
            MuxCommandType::Rls => 0x14,
            MuxCommandType::Pn => 0x20,
            MuxCommandType::Nsc => 0x04,
            MuxCommandType::Test => 0x08,
            MuxCommandType::Fcon => 0xA0,
            MuxCommandType::Fcoff => 0x60,
        }
    }

    /// The variant a wire value stands for.
    pub open spec fn of_byte(b: u8) -> Option<MuxCommandType> {
        match b {
            0xEF => Some(MuxCommandType::Msc),
            0x10 => Some(MuxCommandType::Rpn),
            0x14 => Some(MuxCommandType::Rls),
            0x20 => Some(MuxCommandType::Pn),
            0x04 => Some(MuxCommandType::Nsc),
            0x08 => Some(MuxCommandType::Test),
            0xA0 => Some(MuxCommandType::Fcon),
            0x60 => Some(MuxCommandType::Fcoff),
            _ => None,
        }
    }

    pub fn to_byte(&self) -> (r: u8)
        ensures
            r == self.code(),
    {
        match self {
            MuxCommandType::Msc => 0xEF,
            MuxCommandType::Rpn => 0x10,
            MuxCommandType::Rls => 0x14,
            MuxCommandType::Pn => 0x20,
            MuxCommandType::Nsc => 0x04,
            MuxCommandType::Test => 0x08,
            MuxCommandType::Fcon => 0xA0,
            MuxCommandType::Fcoff => 0x60,
        }
    }

    pub fn from_byte(b: u8) -> (r: Option<Self>)
        ensures
            r == Self::of_byte(b),
            match r {
                Some(t) => t.code() == b,
                None => forall|t: MuxCommandType| t.code() != b,
            },
    {
        match b {
            0xEF => Some(MuxCommandType::Msc),
            0x10 => Some(MuxCommandType::Rpn),
            0x14 => Some(MuxCommandType::Rls),
            0x20 => Some(MuxCommandType::Pn),
            0x04 => Some(MuxCommandType::Nsc),
            0x08 => Some(MuxCommandType::Test),
            0xA0 => Some(MuxCommandType::Fcon),
            0x60 => Some(MuxCommandType::Fcoff),
            _ => None,
        }
    }
}

/// A multiplexer command: `| type | length | value |`.
#[derive(Clone, Debug)]
pub struct MuxCommand {
    pub cmd_type: MuxCommandType,
    pub data: Vec<u8>,
}

/// Encoding of a multiplexer command; the length byte holds the value
/// length truncated to 8 bits.
pub open spec fn mux_bytes(t: MuxCommandType, data: Seq<u8>) -> Seq<u8> {
    seq![t.code(), data.len() as u8] + data
}

impl MuxCommand {
    pub open spec fn accepts(data: Seq<u8>) -> bool {
        &&& data.len() >= 2
        &&& MuxCommandType::of_byte(data[0]) is Some
        &&& 2 + data[1] <= data.len()
    }

    pub open spec fn decodes(self, n: usize, data: Seq<u8>) -> bool {
        &&& MuxCommandType::of_byte(data[0]) == Some(self.cmd_type)
        &&& self.data@ == data.subrange(2, 2 + data[1])
        &&& n == 2 + data[1]
    }

    pub fn encode(&self) -> (r: Vec<u8>)
        ensures
            r@ == mux_bytes(self.cmd_type, self.data@),
    {
        let mut buf: Vec<u8> = Vec::new();
        buf.push(self.cmd_type.to_byte());
        buf.push(self.data.len() as u8);
        push_slice(&mut buf, self.data.as_slice());
        assert(buf@ =~= mux_bytes(self.cmd_type, self.data@));
        buf
    }

    /// Decodes the command at the start of `data`, with the bytes it takes.
    pub fn parse(data: &[u8]) -> (r: Option<(Self, usize)>)
        ensures
            r is Some <==> Self::accepts(data@),
            r matches Some((c, n)) ==> c.decodes(n, data@),
    {
        if data.len() < 2 {
            return None;
        }
        let cmd_type = MuxCommandType::from_byte(data[0])?;
        let len = data[1] as usize;
        if len > data.len() - 2 {
            return None;
        }
        Some((MuxCommand { cmd_type, data: copy_range(data, 2, 2 + len) }, 2 + len))
    }
}

/// A multiplexer command with at most 255 bytes of value decodes to itself.
pub proof fn lemma_mux_roundtrip(t: MuxCommandType, data: Seq<u8>)
    requires
        data.len() <= 255,
    ensures
        MuxCommand::accepts(mux_bytes(t, data)),
        MuxCommandType::of_byte(mux_bytes(t, data)[0]) == Some(t),
        mux_bytes(t, data).subrange(2, 2 + data.len() as int) == data,
{
    assert(mux_bytes(t, data).subrange(2, 2 + data.len() as int) =~= data);
}

// ============================================================================
// Modem status
// ============================================================================

/// Modem signals carried by a Modem Status Command.
#[derive(Clone, Copy, PartialEq, Eq, Debug, Structural)]
pub struct ModemSignals {
    /// Flow control.
    pub fc: bool,
    /// Ready to communicate.
    pub rtc: bool,
    /// Ready to receive.
    pub rtr: bool,
    /// Incoming call.
    pub ic: bool,
    /// Data valid.
    pub dv: bool,
}

/// 1 for true, 0 for false.
pub open spec fn bit(b: bool) -> int {
    if b { 1 } else { 0 }
}

impl ModemSignals {
    /// Signal byte: FC bit 1, RTC bit 2, RTR bit 3, IC bit 6, DV bit 7.
    pub open spec fn spec_encode(self) -> u8 {
        (bit(self.fc) * 2 + bit(self.rtc) * 4 + bit(self.rtr) * 8 + bit(self.ic) * 64 + bit(self.dv) * 128) as u8
    }

    pub open spec fn spec_decode(b: u8) -> ModemSignals {
        ModemSignals {
            fc: has_bit(b, 2),
            rtc: has_bit(b, 4),
            rtr: has_bit(b, 8),
            ic: has_bit(b, 64),
            dv: has_bit(b, 128),
        }
    }

    /// Ready to communicate and to receive; no flow control, call or data.
    pub fn new() -> (r: Self)
        ensures
            r == (ModemSignals { fc: false, rtc: true, rtr: true, ic: false, dv: false }),
    {
        ModemSignals { fc: false, rtc: true, rtr: true, ic: false, dv: false }
    }

    pub fn encode_signal_byte(&self) -> (r: u8)
        ensures
            r == self.spec_encode(),
    {
        let mut b: u8 = 0;
        if self.fc {
            b = b + 2;
        }
        if self.rtc {
            b = b + 4;
        }
        if self.rtr {
            b = b + 8;
        }
        if self.ic {
            b = b + 64;
        }
        if self.dv {
            b = b + 128;
        }
        b
    }

    pub fn decode_signal_byte(b: u8) -> (r: Self)
        ensures
            r == Self::spec_decode(b),
    {
        ModemSignals {
            fc: (b / 2) % 2 == 1,
            rtc: (b / 4) % 2 == 1,
            rtr: (b / 8) % 2 == 1,
            ic: (b / 64) % 2 == 1,
            dv: (b / 128) % 2 == 1,
        }
    }
}

/// Decoding an encoded signal byte gives the signals back.
pub proof fn lemma_modem_signals_roundtrip(s: ModemSignals)
    ensures
        ModemSignals::spec_decode(s.spec_encode()) == s,
{
}

proof fn lemma_signal_byte_bits(e: u8, fc: bool, rtc: bool, rtr: bool, ic: bool, dv: bool)
    by (bit_vector)
    requires
        e == (if fc { 2u8 } else { 0u8 }) + (if rtc { 4u8 } else { 0u8 }) + (if rtr { 8u8 } else { 0u8 })
            + (if ic { 64u8 } else { 0u8 }) + (if dv { 128u8 } else { 0u8 }),
    ensures
        (e & 0x02u8 != 0) == fc,
        (e & 0x04u8 != 0) == rtc,
        (e & 0x08u8 != 0) == rtr,
        (e & 0x40u8 != 0) == ic,
        (e & 0x80u8 != 0) == dv,
        e & 0x31u8 == 0,
{
}

proof fn lemma_byte_weights(b: u8)
    by (bit_vector)
    ensures
        ((b / 2) % 2 == 1) == (b & 0x02u8 != 0),
        ((b / 4) % 2 == 1) == (b & 0x04u8 != 0),
        ((b / 8) % 2 == 1) == (b & 0x08u8 != 0),
        ((b / 64) % 2 == 1) == (b & 0x40u8 != 0),
        ((b / 128) % 2 == 1) == (b & 0x80u8 != 0),
{
}

/// The signal byte has fixed bit positions: FC is bit 1 (0x02), RTC bit 2
/// (0x04), RTR bit 3 (0x08), IC bit 6 (0x40), DV bit 7 (0x80); the other
/// bits are clear. Decoding reads each signal from the same bit of any
/// byte.
pub proof fn lemma_signal_bit_positions(s: ModemSignals, b: u8)
    ensures
        (s.spec_encode() & 0x02u8 != 0) == s.fc,
        (s.spec_encode() & 0x04u8 != 0) == s.rtc,
        (s.spec_encode() & 0x08u8 != 0) == s.rtr,
        (s.spec_encode() & 0x40u8 != 0) == s.ic,
        (s.spec_encode() & 0x80u8 != 0) == s.dv,
        s.spec_encode() & 0x31u8 == 0,
        ModemSignals::spec_decode(b).fc == (b & 0x02u8 != 0),
        ModemSignals::spec_decode(b).rtc == (b & 0x04u8 != 0),
        ModemSignals::spec_decode(b).rtr == (b & 0x08u8 != 0),
        ModemSignals::spec_decode(b).ic == (b & 0x40u8 != 0),
        ModemSignals::spec_decode(b).dv == (b & 0x80u8 != 0),
{
    let e = s.spec_encode();
    assert(e == (if s.fc { 2u8 } else { 0u8 }) + (if s.rtc { 4u8 } else { 0u8 }) + (if s.rtr { 8u8 } else { 0u8 })
        + (if s.ic { 64u8 } else { 0u8 }) + (if s.dv { 128u8 } else { 0u8 }));
    lemma_signal_byte_bits(e, s.fc, s.rtc, s.rtr, s.ic, s.dv);
    lemma_byte_weights(b);
}

/// Payload of a Modem Status Command: the target DLCI as an address byte
/// with EA set, and the signal byte.
pub open spec fn msc_payload(dlci: u8, signals: ModemSignals) -> Seq<u8> {
    mux_bytes(MuxCommandType::Msc, seq![((dlci as int % 64) * 4 + 1) as u8, signals.spec_encode()])
}

/// Builds a Modem Status Command, sent as a UIH frame on DLCI 0.
pub fn build_msc(dlci: u8, signals: &ModemSignals, command: bool) -> (r: Vec<u8>)
    ensures
        r@ == frame_bytes(0, command, RfcommControl::Uih, msc_payload(dlci, *signals)),
{
    let dlci_addr = (dlci % 64) * 4 + 1;
    let signal_byte = signals.encode_signal_byte();
    let msc = MuxCommand { cmd_type: MuxCommandType::Msc, data: vec![dlci_addr, signal_byte] };
    let mux_payload = msc.encode();
    let frame = RfcommFrame { dlci: RFCOMM_MUX_DLCI, command, control: RfcommControl::Uih, data: mux_payload };
    frame.encode()
}

/// The (target DLCI, signals) a Modem Status Command payload carries.
pub open spec fn spec_parse_msc(data: Seq<u8>) -> Option<(u8, ModemSignals)> {
    if MuxCommand::accepts(data) && data[1] >= 2 && data[2] / 4 <= 30 {
        Some(((data[2] / 4) as u8, ModemSignals::spec_decode(data[3])))
    } else {
        None
    }
}

/// Decodes a Modem Status Command from the data of a UIH frame; `None`
/// when the command is malformed, shorter than two bytes, or names a
/// DLCI above 30.
pub fn parse_msc(data: &[u8]) -> (r: Option<(u8, ModemSignals)>)
    ensures
        r == spec_parse_msc(data@),
{
    let (cmd, _n) = MuxCommand::parse(data)?;
    if cmd.data.len() < 2 {
        return None;
    }
    let target_dlci = cmd.data[0] / 4;
    if target_dlci > RFCOMM_MAX_DLCI {
        return None;
    }
    let signals = ModemSignals::decode_signal_byte(cmd.data[1]);
    Some((target_dlci, signals))
}

/// A Modem Status Command for a DLCI of at most 30 decodes to that DLCI
/// and the signals it was built with.
pub proof fn lemma_msc_roundtrip(dlci: u8, signals: ModemSignals)
    requires
        dlci <= 30,
    ensures
        spec_parse_msc(msc_payload(dlci, signals)) == Some((dlci, signals)),
{
    lemma_modem_signals_roundtrip(signals);
}

// ============================================================================
// DLC parameter negotiation
// ============================================================================

/// Flags byte of a PN command: priority in bits 4-5 (shifted in as
/// given), credit-based flow control in bit 6.
pub open spec fn pn_flags(priority: u8, credit_based_flow: bool) -> u8 {
    if credit_based_flow { (priority << 4u8) | 0x40u8 } else { priority << 4u8 }
}

/// DLC Parameter Negotiation.
#[derive(Clone, Copy, Debug)]
pub struct DlcParameterNegotiation {
    pub dlci: u8,
    /// Credit-based flow control.
    pub credit_based_flow: bool,
    pub priority: u8,
    /// Largest frame size.
    pub max_frame_size: u16,
    /// Credits granted up front.
    pub initial_credits: u8,
}

impl DlcParameterNegotiation {
    /// The nine data bytes of the command.
    pub open spec fn spec_encode(self) -> Seq<u8> {
        seq![((self.dlci as int % 64) * 4) as u8, 0x01u8, pn_flags(self.priority, self.credit_based_flow), 0x00u8]
            + le16(self.max_frame_size) + seq![0x00u8, 0x00u8, self.initial_credits]
    }

    pub open spec fn decodes(self, data: Seq<u8>) -> bool {
        &&& self.dlci == data[0] / 4
        &&& self.credit_based_flow == (data[2] & 0x40u8 != 0)
        &&& self.priority == (data[2] >> 4u8) & 0x03u8
        &&& self.max_frame_size == u16_le(data[4], data[5])
        &&& self.initial_credits == data[8]
    }

    /// Credit-based flow, priority 0, the default MTU and 7 credits.
    pub fn new(dlci: u8) -> (r: Self)
        ensures
            r == (DlcParameterNegotiation {
                dlci,
                credit_based_flow: true,
                priority: 0,
                max_frame_size: 127,
                initial_credits: 7,
            }),
    {
        DlcParameterNegotiation {
            dlci,
            credit_based_flow: true,
            priority: 0,
            max_frame_size: RFCOMM_DEFAULT_MTU,
            initial_credits: 7,
        }
    }

    pub fn encode(&self) -> (r: Vec<u8>)
        ensures
            r@ == self.spec_encode(),
    {
        let mut buf: Vec<u8> = Vec::new();
        buf.push((self.dlci % 64) * 4);
        buf.push(0x01);
        let flags: u8 = if self.credit_based_flow { (self.priority << 4u8) | 0x40u8 } else { self.priority << 4u8 };
        buf.push(flags);
        buf.push(0x00);
        push_u16_le(&mut buf, self.max_frame_size);
        buf.push(0x00);
        buf.push(0x00);
        buf.push(self.initial_credits);
        assert(buf@ =~= self.spec_encode());
        buf
    }

    /// Decodes PN data of at least nine bytes.
    pub fn parse(data: &[u8]) -> (r: Option<Self>)
        ensures
            r is Some <==> data@.len() >= 9,
            r matches Some(p) ==> p.decodes(data@),
    {
        if data.len() < 9 {
            return None;
        }
        let flags = data[2];
        Some(DlcParameterNegotiation {
            dlci: data[0] / 4,
            credit_based_flow: flags & 0x40u8 != 0,
            priority: (flags >> 4u8) & 0x03u8,
            max_frame_size: read_u16_le(data[4], data[5]),
            initial_credits: data[8],
        })
    }
}

/// A PN command with a DLCI below 64 and a priority of at most 3 decodes
/// to the parameters it was built with.
pub proof fn lemma_pn_roundtrip(pn: DlcParameterNegotiation)
    requires
        pn.dlci < 64,
        pn.priority <= 3,
    ensures
        pn.decodes(pn.spec_encode()),
{
    let p = pn.priority;
    assert((((p << 4u8) | 0x40u8) >> 4u8) & 0x03u8 == p && ((p << 4u8) | 0x40u8) & 0x40u8 != 0) by (bit_vector)
        requires
            p <= 3,
    ;
    assert(((p << 4u8) >> 4u8) & 0x03u8 == p && (p << 4u8) & 0x40u8 == 0) by (bit_vector)
        requires
            p <= 3,
    ;
    lemma_le16_roundtrip(pn.max_frame_size);
}

/// Builds a PN command, sent as a UIH frame on DLCI 0.
pub fn build_pn(pn: &DlcParameterNegotiation, command: bool) -> (r: Vec<u8>)
    ensures
        r@ == frame_bytes(0, command, RfcommControl::Uih, mux_bytes(MuxCommandType::Pn, pn.spec_encode())),
{
    let pn_data = pn.encode();
    let cmd = MuxCommand { cmd_type: MuxCommandType::Pn, data: pn_data };
    let mux_payload = cmd.encode();
    let frame = RfcommFrame { dlci: RFCOMM_MUX_DLCI, command, control: RfcommControl::Uih, data: mux_payload };
    frame.encode()
}

// ============================================================================
// Sessions
// ============================================================================

/// State of one DLCI.
#[derive(Clone, Copy, PartialEq, Eq, Debug, Structural)]
pub enum DlciState {
    /// Closed.
    Closed,
    /// SABM sent, waiting for UA.
    Connecting,
    /// Open for data.
    Open,
    /// DISC sent, waiting for UA or DM.
    Disconnecting,
}

/// One RFCOMM session over an L2CAP channel, with the state and modem
/// signals of DLCIs 0 to 30.
#[derive(Clone, Copy)]
pub struct RfcommSession {
    /// Remote CID of the L2CAP channel.
    pub remote_cid: u16,
    /// Whether this side initiated the session.
    pub initiator: bool,
    pub max_frame_size: u16,
    pub dlci_states: [DlciState; 31],
    pub dlci_signals: [ModemSignals; 31],
}

impl RfcommSession {
    /// All DLCIs closed with default signals.
    pub fn new(remote_cid: u16, initiator: bool) -> (r: Self)
        ensures
            r.remote_cid == remote_cid,
            r.initiator == initiator,
            r.max_frame_size == 127,
            forall|i: int| 0 <= i < 31 ==> r.dlci_states@[i] == DlciState::Closed,
            forall|i: int| 0 <= i < 31 ==> r.dlci_signals@[i] == (ModemSignals { fc: false, rtc: true, rtr: true, ic: false, dv: false }),
    {
        RfcommSession {
            remote_cid,
            initiator,
            max_frame_size: RFCOMM_DEFAULT_MTU,
            dlci_states: [DlciState::Closed; 31],
            dlci_signals: [ModemSignals::new(); 31],
        }
    }

    /// State of a DLCI; a DLCI above 30 reads as closed.
    pub fn dlci_state(&self, dlci: u8) -> (r: DlciState)
        ensures
            r == (if dlci <= 30 { self.dlci_states@[dlci as int] } else { DlciState::Closed }),
    {
        if dlci > RFCOMM_MAX_DLCI {
            return DlciState::Closed;
        }
        self.dlci_states[dlci as usize]
    }

    /// Sets the state of a DLCI; a DLCI above 30 is ignored.
    pub fn set_dlci_state(&mut self, dlci: u8, state: DlciState)
        ensures
            final(self).dlci_states@ == (if dlci <= 30 { old(self).dlci_states@.update(dlci as int, state) } else { old(self).dlci_states@ }),
            final(self).dlci_signals@ == old(self).dlci_signals@,
            final(self).remote_cid == old(self).remote_cid,
            final(self).initiator == old(self).initiator,
            final(self).max_frame_size == old(self).max_frame_size,
    {
        if dlci <= RFCOMM_MAX_DLCI {
            self.dlci_states[dlci as usize] = state;
        }
    }

    /// Modem signals of a DLCI; a DLCI above 30 reads as the defaults.
    pub fn dlci_signals(&self, dlci: u8) -> (r: ModemSignals)
        ensures
            r == (if dlci <= 30 { self.dlci_signals@[dlci as int] } else { ModemSignals { fc: false, rtc: true, rtr: true, ic: false, dv: false } }),
    {
        if dlci > RFCOMM_MAX_DLCI {
            return ModemSignals::new();
        }
        self.dlci_signals[dlci as usize]
    }

    /// Sets the modem signals of a DLCI; a DLCI above 30 is ignored.
    pub fn set_dlci_signals(&mut self, dlci: u8, signals: ModemSignals)
        ensures
            final(self).dlci_signals@ == (if dlci <= 30 { old(self).dlci_signals@.update(dlci as int, signals) } else { old(self).dlci_signals@ }),
            final(self).dlci_states@ == old(self).dlci_states@,
            final(self).remote_cid == old(self).remote_cid,
            final(self).initiator == old(self).initiator,
            final(self).max_frame_size == old(self).max_frame_size,
    {
        if dlci <= RFCOMM_MAX_DLCI {
            self.dlci_signals[dlci as usize] = signals;
        }
    }
}

// ============================================================================
// Frame builders
// ============================================================================

/// Builds a SABM frame, opening a DLCI.
pub fn build_sabm(dlci: u8, command: bool) -> (r: Vec<u8>)
    ensures
        r@ == frame_bytes(dlci, command, RfcommControl::Sabm, seq![]),
{
    let frame = RfcommFrame { dlci, command, control: RfcommControl::Sabm, data: Vec::new() };
    frame.encode()
}

/// Builds a UA frame, acknowledging SABM or DISC.
pub fn build_ua(dlci: u8, command: bool) -> (r: Vec<u8>)
    ensures
        r@ == frame_bytes(dlci, command, RfcommControl::Ua, seq![]),
{
    let frame = RfcommFrame { dlci, command, control: RfcommControl::Ua, data: Vec::new() };
    frame.encode()
}

/// Builds a DM frame, refusing a connection or confirming a disconnection.
pub fn build_dm(dlci: u8, command: bool) -> (r: Vec<u8>)
    ensures
        r@ == frame_bytes(dlci, command, RfcommControl::Dm, seq![]),
{
    let frame = RfcommFrame { dlci, command, control: RfcommControl::Dm, data: Vec::new() };
    frame.encode()
}

/// Builds a DISC frame, closing a DLCI.
pub fn build_disc(dlci: u8, command: bool) -> (r: Vec<u8>)
    ensures
        r@ == frame_bytes(dlci, command, RfcommControl::Disc, seq![]),
{
    let frame = RfcommFrame { dlci, command, control: RfcommControl::Disc, data: Vec::new() };
    frame.encode()
}

/// Builds a UIH data frame.
pub fn build_uih(dlci: u8, data: &[u8], command: bool) -> (r: Vec<u8>)
    ensures
        r@ == frame_bytes(dlci, command, RfcommControl::Uih, data@),
{
    let mut payload: Vec<u8> = Vec::new();
    push_slice(&mut payload, data);
    let frame = RfcommFrame { dlci, command, control: RfcommControl::Uih, data: payload };
    frame.encode()
}

} // verus!
