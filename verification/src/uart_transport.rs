//! HCI over UART: H4 framing (a type byte before each packet) and the
//! 3-wire H5 protocol (SLIP framing, a 4-byte header, CRC-16 and
//! retransmission), plus the UART transport state and the firmware path
//! and record formats used by vendor initialisation.

use vstd::prelude::*;
use crate::bytes::{le16, lo8, hi8, u16_le, read_u16_le, copy_range};
use crate::hci::{BdAddr, HciState, parse_cmd_complete, spec_parse_cmd_complete, build_hci_cmd, spec_cmd_frame,
    check_cmd_success, spec_cmd_success};

verus! {

/// Baud rate before firmware download.
pub const H4_DEFAULT_BAUD: u32 = 115200;
/// Baud rates used after firmware download.
pub const BAUD_921600: u32 = 921600;
pub const BAUD_2M: u32 = 2000000;
pub const BAUD_3M: u32 = 3000000;
pub const BAUD_4M: u32 = 4000000;

/// H4 packet type bytes.
pub const H4_CMD: u8 = 0x01;
pub const H4_ACL: u8 = 0x02;
pub const H4_SCO: u8 = 0x03;
pub const H4_EVT: u8 = 0x04;
pub const H4_ISO: u8 = 0x05;

/// SLIP frame delimiter.
pub const SLIP_DELIMITER: u8 = 0xC0;
/// SLIP escape byte.
pub const SLIP_ESC: u8 = 0xDB;
/// Escaped delimiter: `0xDB 0xDC`.
pub const SLIP_ESC_DELIM: u8 = 0xDC;
/// Escaped escape: `0xDB 0xDD`.
pub const SLIP_ESC_ESC: u8 = 0xDD;

/// H5 link-establishment messages.
pub const H5_SYNC: u8 = 0x80;
pub const H5_SYNC_RESP: u8 = 0x81;
pub const H5_CONF: u8 = 0x82;
pub const H5_CONF_RESP: u8 = 0x83;
pub const H5_WAKEUP: u8 = 0x84;
pub const H5_WOKEN: u8 = 0x85;
pub const H5_SLEEP: u8 = 0x86;

/// Sequence numbers are three bits wide.
const H5_SEQ_MASK: u8 = 0x07;
/// Retransmissions per frame.
const H5_MAX_RETRIES: u8 = 4;
/// Retransmission timeout in microseconds.
const H5_FRAME_TIMEOUT_US: u32 = 100000;
/// Largest HCI packet carried.
const HCI_UART_MAX_PAYLOAD: usize = 65539;

// ============================================================================
// H4
// ============================================================================

/// Receive state of the H4 stream parser.
#[derive(Clone, Copy, PartialEq, Eq, Debug, Structural)]
pub enum H4RxState {
    /// Waiting for a packet type byte.
    WaitType,
    /// Reading the packet.
    ReadPayload,
}

/// Whether `b` is an H4 packet type.
pub open spec fn is_h4_type(b: u8) -> bool {
    1 <= b <= 5
}

/// Total length (type byte included) of the H4 packet accumulated in
/// `acc[..n]`, or 0 while its header is incomplete: event `code(1) len(1)`,
/// command `opcode(2) len(1)`, ACL `handle(2) len(2)`, SCO `handle(2)
/// len(1)`, ISO `handle(2) len(2)` with a 14-bit length.
pub open spec fn h4_expected_len(acc: Seq<u8>, n: int) -> int {
    if acc[0] == 0x04 {
        if n >= 3 { 3 + acc[2] } else { 0 }
    } else if acc[0] == 0x01 {
        if n >= 4 { 4 + acc[3] } else { 0 }
    } else if acc[0] == 0x02 {
        if n >= 5 { 5 + acc[3] + acc[4] * 256 } else { 0 }
    } else if acc[0] == 0x03 {
        if n >= 4 { 4 + acc[3] } else { 0 }
    } else if acc[0] == 0x05 {
        if n >= 5 { 5 + acc[3] + (acc[4] % 64) * 256 } else { 0 }
    } else {
        0
    }
}

/// One step of the H4 stream parser on byte `b`, over buffer contents
/// `acc` holding `n` bytes: (state, buffer, count, completed packet as
/// (type, payload offset, payload length)).
pub open spec fn h4_step(st: H4RxState, acc: Seq<u8>, n: usize, b: u8)
    -> (H4RxState, Seq<u8>, usize, Option<(u8, usize, usize)>)
{
    match st {
        H4RxState::WaitType => if is_h4_type(b) && n == 0 {
            (H4RxState::ReadPayload, acc.update(0, b), 1usize, None)
        } else {
            (st, acc, n, None)
        },
        H4RxState::ReadPayload => if n >= acc.len() {
            (H4RxState::WaitType, acc, 0usize, None)
        } else {
            let acc2 = acc.update(n as int, b);
            let n2 = (n + 1) as usize;
            let e = h4_expected_len(acc2, n2 as int);
            if e > 0 && n2 >= e {
                (H4RxState::WaitType, acc2, 0usize, Some((acc2[0], 1usize, (n2 - 1) as usize)))
            } else {
                (H4RxState::ReadPayload, acc2, n2, None)
            }
        },
    }
}

/// Feeds `bytes` in order to the H4 parser, stopping at the first
/// completed packet of type `want`: the parser state, buffer and count
/// then, and that packet as (payload offset, payload length).
pub open spec fn h4_feed(st: H4RxState, acc: Seq<u8>, n: usize, bytes: Seq<u8>, want: u8)
    -> (H4RxState, Seq<u8>, usize, Option<(usize, usize)>)
    decreases bytes.len(),
{
    if bytes.len() == 0 {
        (st, acc, n, None)
    } else {
        let s = h4_step(st, acc, n, bytes[0]);
        match s.3 {
            Some(p) => if p.0 == want {
                (s.0, s.1, s.2, Some((p.1, p.2)))
            } else {
                h4_feed(s.0, s.1, s.2, bytes.drop_first(), want)
            },
            None => h4_feed(s.0, s.1, s.2, bytes.drop_first(), want),
        }
    }
}

/// H4 framing: the packet type byte, then the packet.
pub struct H4Protocol;

impl H4Protocol {
    /// Writes `[pkt_type | hci_pkt]` at the start of `buf` and returns its
    /// length; `None` (buffer untouched) when it does not fit or the packet
    /// is longer than an ACL packet can be.
    pub fn build_frame(buf: &mut [u8], pkt_type: u8, hci_pkt: &[u8]) -> (r: Option<usize>)
        ensures
            r is Some <==> hci_pkt@.len() < old(buf)@.len() && hci_pkt@.len() <= 65539,
            r matches Some(n) ==> {
                &&& n == 1 + hci_pkt@.len()
                &&& final(buf)@ == seq![pkt_type] + hci_pkt@ + old(buf)@.skip(n as int)
            },
            r is None ==> final(buf)@ == old(buf)@,
    {
        if hci_pkt.len() >= buf.len() || hci_pkt.len() > HCI_UART_MAX_PAYLOAD {
            return None;
        }
        let total_len = 1 + hci_pkt.len();
        buf[0] = pkt_type;
        let mut i: usize = 0;
        while i < hci_pkt.len()
            invariant
                total_len == 1 + hci_pkt@.len(),
                total_len <= buf@.len(),
                buf@.len() == old(buf)@.len(),
                i <= hci_pkt@.len(),
                buf@ == seq![pkt_type] + hci_pkt@.take(i as int) + old(buf)@.skip(1 + i),
            decreases hci_pkt@.len() - i,
        {
            buf[1 + i] = hci_pkt[i];
            i = i + 1;
            assert(buf@ =~= seq![pkt_type] + hci_pkt@.take(i as int) + old(buf)@.skip(1 + i));
        }
        assert(hci_pkt@.take(i as int) =~= hci_pkt@);
        Some(total_len)
    }

    /// Feeds one byte to the H4 stream parser. A packet starts with a type
    /// byte (while nothing is buffered); its bytes are gathered in `accum`
    /// until the length from its header is reached, which returns
    /// (type, 1, bytes after the type) and starts over. A full buffer
    /// drops what was gathered.
    pub fn parse_stream(state: &mut H4RxState, accum: &mut [u8], accum_len: &mut usize, new_byte: u8)
        -> (r: Option<(u8, usize, usize)>)
        requires
            *old(state) is WaitType && is_h4_type(new_byte) && *old(accum_len) == 0 ==> old(accum)@.len() > 0,
            *old(state) is ReadPayload && *old(accum_len) < old(accum)@.len() ==> *old(accum_len) > 0,
        ensures
            (*final(state), final(accum)@, *final(accum_len), r)
                == h4_step(*old(state), old(accum)@, *old(accum_len), new_byte),
    {
        match *state {
            H4RxState::WaitType => {
                if (new_byte == H4_CMD || new_byte == H4_ACL || new_byte == H4_SCO || new_byte == H4_EVT
                    || new_byte == H4_ISO) && *accum_len == 0 {
                    accum[0] = new_byte;
                    *accum_len = 1;
                    *state = H4RxState::ReadPayload;
                }
                None
            },
            H4RxState::ReadPayload => {
                if *accum_len >= accum.len() {
                    *state = H4RxState::WaitType;
                    *accum_len = 0;
                    return None;
                }
                accum[*accum_len] = new_byte;
                *accum_len = *accum_len + 1;
                let n = *accum_len;
                let pkt_type = accum[0];
                let expected_len: usize = if pkt_type == H4_EVT {
                    if n >= 3 { 3 + accum[2] as usize } else { 0 }
                } else if pkt_type == H4_CMD {
                    if n >= 4 { 4 + accum[3] as usize } else { 0 }
                } else if pkt_type == H4_ACL {
                    if n >= 5 { 5 + accum[3] as usize + accum[4] as usize * 256 } else { 0 }
                } else if pkt_type == H4_SCO {
                    if n >= 4 { 4 + accum[3] as usize } else { 0 }
                } else if pkt_type == H4_ISO {
                    if n >= 5 { 5 + accum[3] as usize + (accum[4] % 64) as usize * 256 } else { 0 }
                } else {
                    0
                };
                if expected_len > 0 && n >= expected_len {
                    let result = Some((pkt_type, 1, n - 1));
                    *state = H4RxState::WaitType;
                    *accum_len = 0;
                    return result;
                }
                None
            },
        }
    }
}

// ============================================================================
// SLIP
// ============================================================================

/// State of the SLIP decoder.
#[derive(Clone, Copy, PartialEq, Eq, Debug, Structural)]
pub enum SlipDecodeState {
    WaitDelimiter,
    InFrame,
    Escaped,
}

/// The SLIP encoding of one byte.
pub open spec fn slip_escape_byte(b: u8) -> Seq<u8> {
    if b == 0xC0 { seq![0xDBu8, 0xDCu8] } else if b == 0xDB { seq![0xDBu8, 0xDDu8] } else { seq![b] }
}

/// The SLIP encoding of a byte string, without delimiters.
pub open spec fn slip_escaped(s: Seq<u8>) -> Seq<u8>
    decreases s.len(),
{
    if s.len() == 0 { seq![] } else { slip_escaped(s.drop_last()) + slip_escape_byte(s.last()) }
}

/// A SLIP frame: delimiter, escaped bytes, delimiter.
pub open spec fn slip_frame(s: Seq<u8>) -> Seq<u8> {
    seq![0xC0u8] + slip_escaped(s) + seq![0xC0u8]
}

proof fn lemma_slip_escaped_step(s: Seq<u8>, i: int)
    requires
        0 <= i < s.len(),
    ensures
        slip_escaped(s.take(i + 1)) == slip_escaped(s.take(i)) + slip_escape_byte(s[i]),
{
    assert(s.take(i + 1).drop_last() =~= s.take(i));
}

/// Escaping never shrinks: the rest of a string adds at least one byte
/// per input byte.
proof fn lemma_slip_escaped_len(s: Seq<u8>, i: int)
    requires
        0 <= i <= s.len(),
    ensures
        slip_escaped(s).len() >= slip_escaped(s.take(i)).len() + (s.len() - i),
    decreases s.len() - i,
{
    if i < s.len() {
        lemma_slip_escaped_len(s, i + 1);
        lemma_slip_escaped_step(s, i);
    } else {
        assert(s.take(i) =~= s);
    }
}

/// SLIP-encodes `input` into `output`, returning the frame length. `None`
/// when the frame does not fit; the output then holds a prefix of the
/// frame over its old bytes.
pub fn slip_encode(input: &[u8], output: &mut [u8]) -> (r: Option<usize>)
    ensures
        final(output)@.len() == old(output)@.len(),
        r is Some <==> slip_frame(input@).len() <= old(output)@.len(),
        r matches Some(n) ==> n == slip_frame(input@).len()
            && final(output)@ == slip_frame(input@) + old(output)@.skip(n as int),
        r is None ==> exists|w: int| 0 <= w <= old(output)@.len() && w <= slip_frame(input@).len()
            && final(output)@ == slip_frame(input@).take(w) + old(output)@.skip(w),
{
    let ghost frame = slip_frame(input@);
    let ghost o = old(output)@;
    proof { lemma_slip_escaped_len(input@, 0); }
    if output.len() < 2 {
        assert(final(output)@ =~= frame.take(0) + o.skip(0));
        return None;
    }
    output[0] = SLIP_DELIMITER;
    let mut out_pos: usize = 1;
    let mut i: usize = 0;
    while i < input.len()
        invariant_except_break
            i <= input@.len(),
            output@.len() == o.len(),
            o.len() >= 2,
            frame == slip_frame(input@),
            out_pos == 1 + slip_escaped(input@.take(i as int)).len(),
            out_pos <= o.len(),
            output@ == seq![0xC0u8] + slip_escaped(input@.take(i as int)) + o.skip(out_pos as int),
        ensures
            output@.len() == o.len(),
            i <= input@.len(),
            out_pos <= o.len(),
            i == input@.len() ==> out_pos == 1 + slip_escaped(input@.take(i as int)).len()
                && output@ == seq![0xC0u8] + slip_escaped(input@.take(i as int)) + o.skip(out_pos as int),
            i < input@.len() ==> frame.len() > o.len() && exists|w: int| 0 <= w <= o.len() && w <= frame.len()
                && output@ == frame.take(w) + o.skip(w),
        decreases input@.len() - i,
    {
        proof {
            lemma_slip_escaped_step(input@, i as int);
            lemma_slip_escaped_len(input@, i as int);
        }
        if output.len() - out_pos < 2 {
            proof {
                let w = out_pos as int;
                assert(frame.take(w) =~= seq![0xC0u8] + slip_escaped(input@.take(i as int))) by {
                    lemma_slip_escaped_len(input@, i as int);
                    assert forall|k: int| 0 <= k < w implies frame.take(w)[k] == (seq![0xC0u8] + slip_escaped(input@.take(i as int)))[k] by {
                        if k > 0 {
                            lemma_slip_escaped_prefix(input@, i as int, k - 1);
                        }
                    }
                }
            }
            break;
        }
        let byte = input[i];
        if byte == SLIP_DELIMITER {
            output[out_pos] = SLIP_ESC;
            output[out_pos + 1] = SLIP_ESC_DELIM;
            out_pos = out_pos + 2;
        } else if byte == SLIP_ESC {
            output[out_pos] = SLIP_ESC;
            output[out_pos + 1] = SLIP_ESC_ESC;
            out_pos = out_pos + 2;
        } else {
            output[out_pos] = byte;
            out_pos = out_pos + 1;
        }
        i = i + 1;
        assert(output@ =~= seq![0xC0u8] + slip_escaped(input@.take(i as int)) + o.skip(out_pos as int));
    }
    if i < input.len() {
        return None;
    }
    assert(input@.take(i as int) =~= input@);
    if output.len() - out_pos < 1 {
        proof {
            let w = out_pos as int;
            assert(frame.take(w) =~= seq![0xC0u8] + slip_escaped(input@));
        }
        return None;
    }
    output[out_pos] = SLIP_DELIMITER;
    assert(output@ =~= frame + o.skip(out_pos + 1));
    Some(out_pos + 1)
}

/// Bytes of the escaped prefix are bytes of the whole escaped string.
proof fn lemma_slip_escaped_prefix(s: Seq<u8>, i: int, k: int)
    requires
        0 <= i <= s.len(),
        0 <= k < slip_escaped(s.take(i)).len(),
    ensures
        k < slip_escaped(s).len(),
        slip_escaped(s)[k] == slip_escaped(s.take(i))[k],
    decreases s.len() - i,
{
    if i < s.len() {
        lemma_slip_escaped_step(s, i);
        lemma_slip_escaped_prefix(s, i + 1, k);
    } else {
        assert(s.take(i) =~= s);
    }
}

/// One step of the SLIP decoder on byte `b`, over the buffer contents
/// `acc` holding `n` decoded bytes: (state, buffer, count, completed frame
/// length). A delimiter opens a frame and closes it (reporting its
/// length); an escape is resolved by the next byte; a byte that does not
/// fit is dropped; an invalid escape abandons the frame, and the decoder
/// waits for the next delimiter.
pub open spec fn slip_step(st: SlipDecodeState, acc: Seq<u8>, n: usize, b: u8)
    -> (SlipDecodeState, Seq<u8>, usize, Option<usize>)
{
    match st {
        SlipDecodeState::WaitDelimiter => if b == 0xC0 {
            (SlipDecodeState::InFrame, acc, 0usize, None)
        } else {
            (st, acc, n, None)
        },
        SlipDecodeState::InFrame => if b == 0xC0 {
            (SlipDecodeState::WaitDelimiter, acc, 0usize, Some(n))
        } else if b == 0xDB {
            (SlipDecodeState::Escaped, acc, n, None)
        } else if n >= acc.len() {
            (st, acc, n, None)
        } else {
            (SlipDecodeState::InFrame, acc.update(n as int, b), (n + 1) as usize, None)
        },
        SlipDecodeState::Escaped => if b == 0xDC || b == 0xDD {
            let d: u8 = if b == 0xDC { 0xC0 } else { 0xDB };
            if n >= acc.len() {
                (st, acc, n, None)
            } else {
                (SlipDecodeState::InFrame, acc.update(n as int, d), (n + 1) as usize, None)
            }
        } else {
            (SlipDecodeState::WaitDelimiter, acc, 0usize, None)
        },
    }
}

/// Feeds one byte to the SLIP decoder; returns the length of a frame it
/// completes.
pub fn slip_decode(state: &mut SlipDecodeState, accum: &mut [u8], accum_len: &mut usize, new_byte: u8)
    -> (r: Option<usize>)
    ensures
        (*final(state), final(accum)@, *final(accum_len), r)
            == slip_step(*old(state), old(accum)@, *old(accum_len), new_byte),
{
    match *state {
        SlipDecodeState::WaitDelimiter => {
            if new_byte == SLIP_DELIMITER {
                *state = SlipDecodeState::InFrame;
                *accum_len = 0;
            }
            None
        },
        SlipDecodeState::InFrame => {
            if new_byte == SLIP_DELIMITER {
                let decoded_len = *accum_len;
                *state = SlipDecodeState::WaitDelimiter;
                *accum_len = 0;
                Some(decoded_len)
            } else if new_byte == SLIP_ESC {
                *state = SlipDecodeState::Escaped;
                None
            } else {
                if *accum_len >= accum.len() {
                    return None;
                }
                accum[*accum_len] = new_byte;
                *accum_len = *accum_len + 1;
                None
            }
        },
        SlipDecodeState::Escaped => {
            let decoded: u8 = if new_byte == SLIP_ESC_DELIM {
                SLIP_DELIMITER
            } else if new_byte == SLIP_ESC_ESC {
                SLIP_ESC
            } else {
                *state = SlipDecodeState::WaitDelimiter;
                *accum_len = 0;
                return None;
            };
            if *accum_len >= accum.len() {
                return None;
            }
            accum[*accum_len] = decoded;
            *accum_len = *accum_len + 1;
            *state = SlipDecodeState::InFrame;
            None
        },
    }
}

/// The decoder state after feeding all of `bytes`.
pub open spec fn slip_run(st: SlipDecodeState, acc: Seq<u8>, n: usize, bytes: Seq<u8>)
    -> (SlipDecodeState, Seq<u8>, usize)
    decreases bytes.len(),
{
    if bytes.len() == 0 {
        (st, acc, n)
    } else {
        let prev = slip_run(st, acc, n, bytes.drop_last());
        let next = slip_step(prev.0, prev.1, prev.2, bytes.last());
        (next.0, next.1, next.2)
    }
}

/// What the decoder reports on the last of `bytes`.
pub open spec fn slip_last_output(st: SlipDecodeState, acc: Seq<u8>, n: usize, bytes: Seq<u8>) -> Option<usize> {
    if bytes.len() == 0 {
        None
    } else {
        let prev = slip_run(st, acc, n, bytes.drop_last());
        slip_step(prev.0, prev.1, prev.2, bytes.last()).3
    }
}

/// Feeds `bytes` in order to the SLIP decoder until it completes a frame:
/// the buffer then and that frame's length.
pub open spec fn slip_first(st: SlipDecodeState, acc: Seq<u8>, n: usize, bytes: Seq<u8>) -> (Seq<u8>, Option<usize>)
    decreases bytes.len(),
{
    if bytes.len() == 0 {
        (acc, None)
    } else {
        let s = slip_step(st, acc, n, bytes[0]);
        match s.3 {
            Some(d) => (s.1, Some(d)),
            None => slip_first(s.0, s.1, s.2, bytes.drop_first()),
        }
    }
}

/// Decodes `raw` with a fresh SLIP decoder into `buf` and returns the
/// length of the first frame it completes (held at the start of `buf`).
pub fn slip_first_frame(raw: &[u8], buf: &mut [u8]) -> (r: Option<usize>)
    ensures
        (final(buf)@, r) == slip_first(SlipDecodeState::WaitDelimiter, old(buf)@, 0, raw@),
        final(buf)@.len() == old(buf)@.len(),
        r matches Some(d) ==> d <= final(buf)@.len(),
{
    let mut state = SlipDecodeState::WaitDelimiter;
    let mut len: usize = 0;
    let mut i: usize = 0;
    assert(raw@.skip(0) =~= raw@);
    while i < raw.len()
        invariant
            i <= raw@.len(),
            len <= buf@.len(),
            buf@.len() == old(buf)@.len(),
            slip_first(state, buf@, len, raw@.skip(i as int))
                == slip_first(SlipDecodeState::WaitDelimiter, old(buf)@, 0, raw@),
        decreases raw@.len() - i,
    {
        proof {
            assert(raw@.skip(i as int).drop_first() =~= raw@.skip(i + 1));
            assert(raw@.skip(i as int)[0] == raw@[i as int]);
        }
        match slip_decode(&mut state, buf, &mut len, raw[i]) {
            Some(d) => { return Some(d); },
            None => {},
        }
        i = i + 1;
    }
    assert(raw@.skip(i as int) =~= Seq::<u8>::empty());
    None
}

proof fn lemma_slip_run_append(st: SlipDecodeState, acc: Seq<u8>, n: usize, p: Seq<u8>, q: Seq<u8>)
    ensures
        slip_run(st, acc, n, p + q) == ({
            let m = slip_run(st, acc, n, p);
            slip_run(m.0, m.1, m.2, q)
        }),
    decreases q.len(),
{
    if q.len() == 0 {
        assert(p + q =~= p);
    } else {
        lemma_slip_run_append(st, acc, n, p, q.drop_last());
        assert((p + q).drop_last() =~= p + q.drop_last());
        assert((p + q).last() == q.last());
    }
}

/// Decoding the escaped bytes of `x` inside a frame, with room for them,
/// writes `x` at the start of the buffer.
proof fn lemma_slip_decode_escaped(acc: Seq<u8>, x: Seq<u8>)
    requires
        x.len() <= acc.len(),
        acc.len() <= usize::MAX,
    ensures
        ({
            let m = slip_run(SlipDecodeState::InFrame, acc, 0, slip_escaped(x));
            &&& m.0 == SlipDecodeState::InFrame
            &&& m.2 == x.len()
            &&& m.1.len() == acc.len()
            &&& m.1.take(x.len() as int) == x
        }),
    decreases x.len(),
{
    if x.len() > 0 {
        let xs = x.drop_last();
        let b = x.last();
        lemma_slip_decode_escaped(acc, xs);
        let m = slip_run(SlipDecodeState::InFrame, acc, 0, slip_escaped(xs));
        let e = slip_escape_byte(b);
        assert(slip_escaped(x) == slip_escaped(xs) + e);
        lemma_slip_run_append(SlipDecodeState::InFrame, acc, 0, slip_escaped(xs), e);
        assert(slip_run(m.0, m.1, m.2, Seq::<u8>::empty()) == m);
        let k = xs.len() as int;
        let d: u8 = b;
        let m2 = slip_run(m.0, m.1, m.2, e);
        if b == 0xC0 || b == 0xDB {
            let first = seq![0xDBu8];
            assert(e.drop_last() =~= first);
            assert(first.drop_last() =~= Seq::<u8>::empty());
            let m1 = slip_run(m.0, m.1, m.2, first);
            assert(m1 == (SlipDecodeState::Escaped, m.1, m.2));
            assert(m2 == (SlipDecodeState::InFrame, m.1.update(k, b), (m.2 + 1) as usize));
        } else {
            assert(e.drop_last() =~= Seq::<u8>::empty());
            assert(m2 == (SlipDecodeState::InFrame, m.1.update(k, b), (m.2 + 1) as usize));
        }
        assert forall|j: int| 0 <= j < x.len() implies m2.1.take(x.len() as int)[j] == x[j] by {
            if j < k {
                assert(m.1.take(k)[j] == xs[j]);
            }
        }
        assert(m2.1.take(x.len() as int) =~= x);
    } else {
        assert(slip_escaped(x) =~= Seq::<u8>::empty());
        assert(acc.take(0) =~= x);
    }
}

/// Feeding a SLIP frame to a decoder waiting for a delimiter, with a
/// buffer large enough, reports the frame's length on its closing
/// delimiter and leaves the decoded bytes at the start of the buffer.
pub proof fn lemma_slip_roundtrip(acc: Seq<u8>, n: usize, x: Seq<u8>)
    requires
        x.len() <= acc.len(),
        acc.len() <= usize::MAX,
    ensures
        slip_last_output(SlipDecodeState::WaitDelimiter, acc, n, slip_frame(x)) == Some(x.len() as usize),
        ({
            let m = slip_run(SlipDecodeState::WaitDelimiter, acc, n, slip_frame(x));
            &&& m.0 == SlipDecodeState::WaitDelimiter
            &&& m.2 == 0
            &&& m.1.take(x.len() as int) == x
        }),
{
    let f = slip_frame(x);
    let head = seq![0xC0u8];
    let st0 = SlipDecodeState::WaitDelimiter;
    assert(head.drop_last() =~= Seq::<u8>::empty());
    assert(slip_run(st0, acc, n, head.drop_last()) == (st0, acc, n));
    assert(slip_run(st0, acc, n, head) == (SlipDecodeState::InFrame, acc, 0usize));
    assert(f.drop_last() =~= head + slip_escaped(x));
    assert(f.last() == 0xC0u8);
    lemma_slip_run_append(st0, acc, n, head, slip_escaped(x));
    lemma_slip_decode_escaped(acc, x);
    let m = slip_run(st0, acc, n, f.drop_last());
    assert(m == slip_run(SlipDecodeState::InFrame, acc, 0, slip_escaped(x)));
}

// ============================================================================
// CRC-16 (CCITT-FALSE: polynomial 0x1021, initial 0xFFFF, no final xor)
// ============================================================================

/// One bit step of the CRC-16.
pub open spec fn crc16_shift(c: u16) -> u16 {
    if c & 0x8000u16 != 0 { (c << 1u16) ^ 0x1021u16 } else { c << 1u16 }
}

/// `k` bit steps.
pub open spec fn crc16_shift_n(c: u16, k: nat) -> u16
    decreases k,
{
    if k == 0 { c } else { crc16_shift(crc16_shift_n(c, (k - 1) as nat)) }
}

/// The CRC-16 of `data`.
pub open spec fn crc16(data: Seq<u8>) -> u16
    decreases data.len(),
{
    if data.len() == 0 { 0xFFFFu16 } else { crc16_shift_n(crc16(data.drop_last()) ^ ((data.last() as u16) << 8u16), 8) }
}

/// Computes the CRC-16 of an H5 frame.
pub fn h5_crc16(data: &[u8]) -> (r: u16)
    ensures
        r == crc16(data@),
{
    let mut crc: u16 = 0xFFFF;
    let mut i: usize = 0;
    while i < data.len()
        invariant
            i <= data@.len(),
            crc == crc16(data@.take(i as int)),
        decreases data@.len() - i,
    {
        let start = crc ^ ((data[i] as u16) << 8u16);
        crc = start;
        let mut k: usize = 0;
        while k < 8
            invariant
                k <= 8,
                crc == crc16_shift_n(start, k as nat),
            decreases 8 - k,
        {
            if crc & 0x8000u16 != 0 {
                crc = (crc << 1u16) ^ 0x1021u16;
            } else {
                crc = crc << 1u16;
            }
            k = k + 1;
        }
        proof {
            let t = data@.take(i + 1);
            assert(t.drop_last() =~= data@.take(i as int));
        }
        i = i + 1;
    }
    assert(data@.take(i as int) =~= data@);
    crc
}

// ============================================================================
// H5 link
// ============================================================================

/// State of the H5 link.
#[derive(Clone, Copy, PartialEq, Eq, Debug, Structural)]
pub enum H5LinkState {
    /// Waiting for SYNC.
    Uninitialized,
    /// SYNC exchanged, waiting for SYNC_RESP.
    SyncSent,
    /// SYNC_RESP received, CONF being exchanged.
    ConfSent,
    /// CONF received, waiting for CONF_RESP.
    ConfDone,
    /// Exchanging data.
    Active,
    /// Asleep.
    Sleeping,
    /// Waking up.
    Waking,
}

/// The 4-byte header of a data frame: sequence number in bits 0-2 and
/// acknowledgement in bits 3-5 of bytes 0 and 1, then the CRC and
/// reliability flags.
pub open spec fn h5_data_header(seq: u8, ack: u8, crc_present: bool, reliable: bool) -> Seq<u8> {
    let b0 = ((seq % 8) + (ack % 8) * 8) as u8;
    seq![b0, b0, if crc_present { 1u8 } else { 0u8 }, if reliable { 1u8 } else { 0u8 }]
}

/// An H5 header.
#[derive(Clone, Copy, Debug)]
struct H5Header {
    data: [u8; 4],
}

impl H5Header {
    fn new_data(seq: u8, ack: u8, crc_present: bool, reliable: bool) -> (r: Self)
        ensures
            r.data@ == h5_data_header(seq, ack, crc_present, reliable),
    {
        let b0 = (seq % 8) + (ack % 8) * 8;
        let r = H5Header { data: [b0, b0, if crc_present { 0x01 } else { 0x00 }, if reliable { 0x01 } else { 0x00 }] };
        assert(r.data@ =~= h5_data_header(seq, ack, crc_present, reliable));
        r
    }

    fn new_control(msg_type: u8) -> (r: Self)
        ensures
            r.data@ == seq![msg_type, 0u8, 0u8, 0u8],
    {
        let r = H5Header { data: [msg_type, 0x00, 0x00, 0x00] };
        assert(r.data@ =~= seq![msg_type, 0u8, 0u8, 0u8]);
        r
    }

    fn seq(&self) -> (r: u8)
        ensures
            r == self.data@[0] % 8,
    {
        self.data[0] % 8
    }

    fn ack(&self) -> (r: u8)
        ensures
            r == (self.data@[0] / 8) % 8,
    {
        (self.data[0] / 8) % 8
    }

    fn reliable(&self) -> (r: bool)
        ensures
            r == (self.data@[3] % 2 == 1),
    {
        self.data[3] % 2 == 1
    }

    fn crc_present(&self) -> (r: bool)
        ensures
            r == (self.data@[2] % 2 == 1),
    {
        self.data[2] % 2 == 1
    }

    fn is_control(&self) -> (r: bool)
        ensures
            r == (self.data@[0] >= 0x80),
    {
        self.data[0] >= 0x80
    }
}

/// Sequence tracking of one direction.
#[derive(Clone, Copy, PartialEq, Eq, Debug, Structural)]
pub struct H5SeqState {
    /// Next sequence number to send.
    pub next_seq: u8,
    /// Sequence number expected next.
    pub expected_seq: u8,
    /// Last acknowledgement seen.
    pub last_ack: u8,
    /// Frames sent and not yet acknowledged.
    pub unacked_count: u8,
}

impl H5SeqState {
    pub fn new() -> (r: Self)
        ensures
            r == (H5SeqState { next_seq: 0, expected_seq: 0, last_ack: 0, unacked_count: 0 }),
    {
        H5SeqState { next_seq: 0, expected_seq: 0, last_ack: 0, unacked_count: 0 }
    }
}

/// Size of a retransmission slot.
pub const H5_RETRY_SLOT_SIZE: usize = 4096;

/// A frame kept for retransmission.
#[derive(Clone, Copy)]
pub struct H5RetryBuf {
    seq: u8,
    data: [u8; 4096],
    len: usize,
    retries: u8,
    in_use: bool,
}

impl H5RetryBuf {
    /// Sequence number of the kept frame.
    pub closed spec fn spec_seq(&self) -> u8 {
        self.seq
    }

    /// The slot's bytes.
    pub closed spec fn spec_data(&self) -> Seq<u8> {
        self.data@
    }

    /// Length of the kept frame.
    pub closed spec fn spec_len(&self) -> usize {
        self.len
    }

    /// Retransmissions so far.
    pub closed spec fn spec_retries(&self) -> u8 {
        self.retries
    }

    /// Whether the slot holds a frame.
    pub closed spec fn spec_in_use(&self) -> bool {
        self.in_use
    }

    pub open spec fn wf(&self) -> bool {
        self.spec_len() <= 4096 && self.spec_data().len() == 4096
    }

    fn empty() -> (r: Self)
        ensures
            r.wf(),
            !r.spec_in_use(),
    {
        H5RetryBuf { seq: 0, data: [0u8; 4096], len: 0, retries: 0, in_use: false }
    }
}

/// Whether `s` now keeps the first `min(frame.len(), 4096)` bytes of
/// `frame` as sequence `seq`, over the old slot's bytes.
pub open spec fn slot_keeps(s: H5RetryBuf, old_slot: H5RetryBuf, seq: u8, frame: Seq<u8>) -> bool {
    let c = if frame.len() < 4096 { frame.len() as int } else { 4096 };
    &&& s.spec_seq() == seq
    &&& s.spec_len() == c
    &&& s.spec_retries() == 0
    &&& s.spec_in_use()
    &&& s.spec_data() == frame.take(c) + old_slot.spec_data().skip(c)
}

/// Whether an acknowledgement `ack` releases a slot: its sequence number
/// is `ack`, or lies 5 to 7 steps after it (modulo 8).
pub open spec fn h5_acked(seq: u8, ack: u8) -> bool {
    seq == ack || (4 < (seq as int - ack as int) % 8 && (seq as int - ack as int) % 8 < 8)
}

/// Number of slots in use that `ack` releases.
pub open spec fn h5_released_count(slots: Seq<H5RetryBuf>, ack: u8) -> nat
    decreases slots.len(),
{
    if slots.len() == 0 {
        0
    } else {
        h5_released_count(slots.drop_last(), ack)
            + if slots.last().spec_in_use() && h5_acked(slots.last().spec_seq(), ack) { 1nat } else { 0nat }
    }
}

/// The link state after a control message.
pub open spec fn h5_control_next(st: H5LinkState, msg: u8) -> H5LinkState {
    if st == H5LinkState::Uninitialized && msg == 0x80 { H5LinkState::SyncSent }
    else if st == H5LinkState::SyncSent && msg == 0x81 { H5LinkState::ConfSent }
    else if st == H5LinkState::ConfSent && msg == 0x82 { H5LinkState::ConfDone }
    else if st == H5LinkState::ConfDone && msg == 0x83 { H5LinkState::Active }
    else if msg == 0x84 { H5LinkState::Waking }
    else if msg == 0x85 { H5LinkState::Active }
    else if msg == 0x86 { H5LinkState::Sleeping }
    else { st }
}

/// The link-state effect of each control message: SYNC, SYNC_RESP, CONF
/// and CONF_RESP step the handshake from Uninitialized through SyncSent,
/// ConfSent and ConfDone to Active (in that order only); WAKEUP puts the
/// link in Waking and WOKEN puts it back in Active from any state; SLEEP
/// puts it in Sleeping; any other message leaves it unchanged.
pub proof fn lemma_h5_control_transitions(st: H5LinkState, msg: u8)
    ensures
        h5_control_next(H5LinkState::Uninitialized, 0x80) == H5LinkState::SyncSent,
        h5_control_next(H5LinkState::SyncSent, 0x81) == H5LinkState::ConfSent,
        h5_control_next(H5LinkState::ConfSent, 0x82) == H5LinkState::ConfDone,
        h5_control_next(H5LinkState::ConfDone, 0x83) == H5LinkState::Active,
        h5_control_next(st, 0x84) == H5LinkState::Waking,
        h5_control_next(st, 0x85) == H5LinkState::Active,
        h5_control_next(st, 0x86) == H5LinkState::Sleeping,
        msg < 0x80 || msg > 0x86 ==> h5_control_next(st, msg) == st,
        st != H5LinkState::Uninitialized ==> h5_control_next(st, 0x80) == st,
        st != H5LinkState::SyncSent ==> h5_control_next(st, 0x81) == st,
        st != H5LinkState::ConfSent ==> h5_control_next(st, 0x82) == st,
        st != H5LinkState::ConfDone ==> h5_control_next(st, 0x83) == st,
{
}

/// The unframed bytes of a data frame: header, packet type, payload, and
/// the CRC of all that (little-endian) when CRC is on.
pub open spec fn h5_data_inner(seq: u8, ack: u8, crc: bool, reliable: bool, pkt_type: u8, payload: Seq<u8>) -> Seq<u8> {
    let body = h5_data_header(seq, ack, crc, reliable) + seq![pkt_type] + payload;
    if crc { body + le16(crc16(body)) } else { body }
}

/// The unframed bytes of a control message.
pub open spec fn h5_control_inner(msg: u8) -> Seq<u8> {
    seq![msg, 0u8, 0u8, 0u8] + le16(crc16(seq![msg, 0u8, 0u8, 0u8]))
}

/// State of an H5 link.
pub struct H5Session {
    pub link_state: H5LinkState,
    /// Host-to-controller sequence tracking.
    pub h2c: H5SeqState,
    /// Controller-to-host sequence tracking.
    pub c2h: H5SeqState,
    pub crc_enabled: bool,
    /// Whether sent frames are kept for retransmission.
    pub reliable_enabled: bool,
    /// Frames kept for retransmission.
    pub retry_bufs: [H5RetryBuf; 8],
    /// Retransmission timeout in microseconds.
    pub retry_timeout_us: u32,
    /// Time of the last send.
    pub last_send_timestamp: u32,
    /// Configuration byte agreed on.
    pub negotiated_conf: u8,
}

impl H5Session {
    /// Every retransmission slot is well formed.
    pub open spec fn wf(&self) -> bool {
        forall|i: int| 0 <= i < 8 ==> (#[trigger] self.retry_bufs@[i]).wf()
    }

    /// Uninitialised link with CRC and reliability on, empty slots.
    pub fn new() -> (r: Self)
        ensures
            r.wf(),
            r.link_state == H5LinkState::Uninitialized,
            r.h2c == (H5SeqState { next_seq: 0, expected_seq: 0, last_ack: 0, unacked_count: 0 }),
            r.c2h == (H5SeqState { next_seq: 0, expected_seq: 0, last_ack: 0, unacked_count: 0 }),
            r.crc_enabled,
            r.reliable_enabled,
            forall|i: int| 0 <= i < 8 ==> !(#[trigger] r.retry_bufs@[i]).spec_in_use(),
            r.retry_timeout_us == 100000,
            r.last_send_timestamp == 0,
            r.negotiated_conf == 0,
    {
        let empty = H5RetryBuf::empty();
        H5Session {
            link_state: H5LinkState::Uninitialized,
            h2c: H5SeqState::new(),
            c2h: H5SeqState::new(),
            crc_enabled: true,
            reliable_enabled: true,
            retry_bufs: [empty; 8],
            retry_timeout_us: H5_FRAME_TIMEOUT_US,
            last_send_timestamp: 0,
            negotiated_conf: 0,
        }
    }
}

/// Whether `new_s` is `old_s` after sending the data frame `frame`: the
/// sequence number advanced (modulo 8), one more unacknowledged frame, no
/// send time, and with reliability on the first free slot (if any) keeps
/// the frame.
pub open spec fn h5_sent(old_s: H5Session, new_s: H5Session, frame: Seq<u8>) -> bool {
    let seq = old_s.h2c.next_seq;
    &&& new_s.h2c == (H5SeqState {
        next_seq: ((seq + 1) % 8) as u8,
        unacked_count: (old_s.h2c.unacked_count + 1) as u8,
        ..old_s.h2c
    })
    &&& new_s.last_send_timestamp == 0
    &&& if old_s.reliable_enabled && exists|j: int| 0 <= j < 8 && !(#[trigger] old_s.retry_bufs@[j]).spec_in_use() {
        exists|j: int| 0 <= j < 8 && !(#[trigger] old_s.retry_bufs@[j]).spec_in_use()
            && (forall|k: int| 0 <= k < j ==> (#[trigger] old_s.retry_bufs@[k]).spec_in_use())
            && slot_keeps(new_s.retry_bufs@[j], old_s.retry_bufs@[j], seq, frame)
            && (forall|k: int| 0 <= k < 8 && k != j ==> new_s.retry_bufs@[k] == #[trigger] old_s.retry_bufs@[k])
    } else {
        new_s.retry_bufs@ == old_s.retry_bufs@
    }
    &&& new_s.link_state == old_s.link_state
    &&& new_s.c2h == old_s.c2h
    &&& new_s.crc_enabled == old_s.crc_enabled
    &&& new_s.reliable_enabled == old_s.reliable_enabled
    &&& new_s.retry_timeout_us == old_s.retry_timeout_us
    &&& new_s.negotiated_conf == old_s.negotiated_conf
}

impl H5Session {
    /// Builds and SLIP-encodes a data frame carrying `hci_payload` with
    /// packet type `pkt_type`; returns the encoded length. On success the
    /// sequence number advances (modulo 8), the frame counts as
    /// unacknowledged and, when reliability is on, the first free slot
    /// keeps a copy for retransmission.
    pub fn build_data_frame(&mut self, pkt_type: u8, hci_payload: &[u8], slip_buf: &mut [u8]) -> (r: Option<usize>)
        requires
            old(self).wf(),
            ({
                let inner_len = 5 + hci_payload@.len() + if old(self).crc_enabled { 2int } else { 0 };
                inner_len <= old(slip_buf)@.len() ==> inner_len <= 8192
            }),
            slip_frame(h5_data_inner(old(self).h2c.next_seq, old(self).c2h.expected_seq, old(self).crc_enabled,
                old(self).reliable_enabled, pkt_type, hci_payload@)).len() <= old(slip_buf)@.len()
                ==> old(self).h2c.next_seq < 255 && old(self).h2c.unacked_count < 255,
        ensures
            final(self).wf(),
            final(slip_buf)@.len() == old(slip_buf)@.len(),
            ({
                let seq = old(self).h2c.next_seq;
                let frame = slip_frame(h5_data_inner(seq, old(self).c2h.expected_seq, old(self).crc_enabled,
                    old(self).reliable_enabled, pkt_type, hci_payload@));
                &&& r is Some <==> frame.len() <= old(slip_buf)@.len()
                &&& r matches Some(n) ==> {
                    &&& n == frame.len()
                    &&& final(slip_buf)@ == frame + old(slip_buf)@.skip(n as int)
                    &&& h5_sent(*old(self), *final(self), frame)
                }
                &&& r is None ==> {
                    &&& final(self).h2c == old(self).h2c
                    &&& final(self).last_send_timestamp == old(self).last_send_timestamp
                    &&& final(self).retry_bufs@ == old(self).retry_bufs@
                    &&& exists|w: int| 0 <= w <= old(slip_buf)@.len()
                        && final(slip_buf)@ == frame.take(w) + old(slip_buf)@.skip(w)
                }
            }),
            final(self).link_state == old(self).link_state,
            final(self).c2h == old(self).c2h,
            final(self).crc_enabled == old(self).crc_enabled,
            final(self).reliable_enabled == old(self).reliable_enabled,
            final(self).retry_timeout_us == old(self).retry_timeout_us,
            final(self).negotiated_conf == old(self).negotiated_conf,
    {
        let crc_len: usize = if self.crc_enabled { 2 } else { 0 };
        let ghost frame = slip_frame(h5_data_inner(self.h2c.next_seq, self.c2h.expected_seq, self.crc_enabled,
            self.reliable_enabled, pkt_type, hci_payload@));
        if hci_payload.len() > slip_buf.len() || slip_buf.len() - hci_payload.len() < 5 + crc_len {
            proof {
                lemma_slip_escaped_len(h5_data_inner(self.h2c.next_seq, self.c2h.expected_seq, self.crc_enabled,
                    self.reliable_enabled, pkt_type, hci_payload@), 0);
                assert(final(slip_buf)@ =~= frame.take(0) + old(slip_buf)@.skip(0));
            }
            return None;
        }
        let seq = self.h2c.next_seq;
        let ack = self.c2h.expected_seq;
        let header = H5Header::new_data(seq, ack, self.crc_enabled, self.reliable_enabled);
        let mut inner: Vec<u8> = Vec::new();
        inner.push(header.data[0]);
        inner.push(header.data[1]);
        inner.push(header.data[2]);
        inner.push(header.data[3]);
        inner.push(pkt_type);
        crate::bytes::push_slice(&mut inner, hci_payload);
        let ghost body = inner@;
        assert(body =~= h5_data_header(seq, ack, self.crc_enabled, self.reliable_enabled) + seq![pkt_type] + hci_payload@);
        if self.crc_enabled {
            let crc = h5_crc16(inner.as_slice());
            inner.push((crc % 256) as u8);
            inner.push((crc / 256) as u8);
            assert(inner@ =~= body + le16(crc));
        }
        assert(inner@ =~= h5_data_inner(seq, ack, self.crc_enabled, self.reliable_enabled, pkt_type, hci_payload@));
        let encoded = match slip_encode(inner.as_slice(), slip_buf) {
            Some(n) => n,
            None => { return None; },
        };
        if self.reliable_enabled {
            let mut j: usize = 0;
            while j < 8 && self.retry_bufs[j].in_use
                invariant
                    j <= 8,
                    forall|k: int| 0 <= k < j ==> (#[trigger] self.retry_bufs@[k]).spec_in_use(),
                decreases 8 - j,
            {
                j = j + 1;
            }
            if j < 8 {
                let copy_len = if encoded < H5_RETRY_SLOT_SIZE { encoded } else { H5_RETRY_SLOT_SIZE };
                let mut slot = self.retry_bufs[j];
                let ghost old_slot = slot;
                assert(old_slot.wf());
                let mut k: usize = 0;
                while k < copy_len
                    invariant
                        k <= copy_len,
                        copy_len <= 4096,
                        copy_len <= slip_buf@.len(),
                        slot.data@.len() == 4096,
                        slot.data@ == slip_buf@.take(k as int) + old_slot.data@.skip(k as int),
                    decreases copy_len - k,
                {
                    slot.data[k] = slip_buf[k];
                    k = k + 1;
                    assert(slot.data@ =~= slip_buf@.take(k as int) + old_slot.data@.skip(k as int));
                }
                slot.len = copy_len;
                slot.seq = seq;
                slot.retries = 0;
                slot.in_use = true;
                assert(slip_buf@.take(copy_len as int) =~= frame.take(copy_len as int));
                self.retry_bufs[j] = slot;
                assert(slot_keeps(self.retry_bufs@[j as int], old(self).retry_bufs@[j as int], seq, frame));
                assert(forall|k: int| 0 <= k < 8 && k != j ==> self.retry_bufs@[k] == old(self).retry_bufs@[k]);
            } else {
                assert(!exists|j: int| 0 <= j < 8 && !(#[trigger] old(self).retry_bufs@[j]).spec_in_use());
            }
        }
        self.h2c.next_seq = (seq + 1) % 8;
        self.h2c.unacked_count = self.h2c.unacked_count + 1;
        self.last_send_timestamp = 0;
        Some(encoded)
    }
}

/// The slots after acknowledgement `ack`: the released ones are freed.
pub open spec fn h5_released(slot: H5RetryBuf, ack: u8) -> bool {
    slot.spec_in_use() && h5_acked(slot.spec_seq(), ack)
}

/// Whether `frame` (at least four bytes) passes the CRC check: on when
/// CRC is enabled, with at least six bytes whose last two hold the
/// little-endian CRC of the others.
pub open spec fn h5_crc_ok(crc_enabled: bool, frame: Seq<u8>) -> bool {
    !crc_enabled || (frame.len() >= 6
        && u16_le(frame[frame.len() - 2], frame[frame.len() - 1]) == crc16(frame.take(frame.len() - 2)))
}

/// End of the payload of a data frame: before the CRC when there is one.
pub open spec fn h5_payload_end(crc_enabled: bool, frame: Seq<u8>) -> int {
    if crc_enabled { frame.len() - 2 } else { frame.len() as int }
}

/// A data frame as built for sending reads back on receipt: it is a data
/// frame (not a control message) whose checksum, when present, checks; its
/// sequence and acknowledgement numbers, packet type and payload are the
/// ones it was built with.
pub proof fn lemma_h5_frame_roundtrip(seq: u8, ack: u8, crc: bool, reliable: bool, pkt_type: u8, payload: Seq<u8>)
    ensures
        ({
            let f = h5_data_inner(seq, ack, crc, reliable, pkt_type, payload);
            &&& f.len() >= 5
            &&& f[0] < 0x80
            &&& h5_crc_ok(crc, f)
            &&& h5_payload_end(crc, f) > 4
            &&& f[0] % 8 == seq % 8
            &&& (f[0] / 8) % 8 == ack % 8
            &&& f[4] == pkt_type
            &&& f.subrange(5, h5_payload_end(crc, f)) == payload
        }),
{
    let body = h5_data_header(seq, ack, crc, reliable) + seq![pkt_type] + payload;
    let f = h5_data_inner(seq, ack, crc, reliable, pkt_type, payload);
    let b0 = ((seq % 8) + (ack % 8) * 8) as u8;
    assert(b0 as int == (seq % 8) + (ack % 8) * 8);
    assert(b0 % 8 == seq % 8 && (b0 / 8) % 8 == ack % 8) by (nonlinear_arith)
        requires
            b0 as int == (seq % 8) + (ack % 8) * 8;
    assert(body[0] == b0);
    assert(body[4] == pkt_type);
    assert(body.subrange(5, body.len() as int) =~= payload);
    if crc {
        let c = crc16(body);
        assert(f == body + le16(c));
        assert(f.take(f.len() - 2) =~= body);
        assert(f[f.len() - 2] == lo8(c) && f[f.len() - 1] == hi8(c));
        crate::bytes::lemma_le16_roundtrip(c);
        assert(f.subrange(5, f.len() - 2) =~= payload);
    }
}

impl H5Session {
    fn release_acked(&mut self, ack: u8)
        requires
            old(self).wf(),
        ensures
            final(self).wf(),
            forall|i: int| 0 <= i < 8 ==> {
                &&& (#[trigger] final(self).retry_bufs@[i]).spec_in_use()
                    == (old(self).retry_bufs@[i].spec_in_use() && !h5_acked(old(self).retry_bufs@[i].spec_seq(), ack))
                &&& final(self).retry_bufs@[i].spec_seq() == old(self).retry_bufs@[i].spec_seq()
                &&& final(self).retry_bufs@[i].spec_data() == old(self).retry_bufs@[i].spec_data()
                &&& final(self).retry_bufs@[i].spec_len() == old(self).retry_bufs@[i].spec_len()
                &&& final(self).retry_bufs@[i].spec_retries() == old(self).retry_bufs@[i].spec_retries()
            },
            final(self).h2c.unacked_count as int
                == if old(self).h2c.unacked_count >= h5_released_count(old(self).retry_bufs@, ack) {
                    old(self).h2c.unacked_count - h5_released_count(old(self).retry_bufs@, ack)
                } else { 0 },
            final(self).h2c == (H5SeqState { unacked_count: final(self).h2c.unacked_count, ..old(self).h2c }),
            final(self).link_state == old(self).link_state,
            final(self).c2h == old(self).c2h,
            final(self).crc_enabled == old(self).crc_enabled,
            final(self).reliable_enabled == old(self).reliable_enabled,
            final(self).retry_timeout_us == old(self).retry_timeout_us,
            final(self).last_send_timestamp == old(self).last_send_timestamp,
            final(self).negotiated_conf == old(self).negotiated_conf,
    {
        let ghost slots = self.retry_bufs@;
        let mut i: usize = 0;
        while i < 8
            invariant
                i <= 8,
                slots == old(self).retry_bufs@,
                self.wf(),
                forall|k: int| 0 <= k < 8 ==> {
                    &&& (#[trigger] self.retry_bufs@[k]).spec_seq() == slots[k].spec_seq()
                    &&& self.retry_bufs@[k].spec_data() == slots[k].spec_data()
                    &&& self.retry_bufs@[k].spec_len() == slots[k].spec_len()
                    &&& self.retry_bufs@[k].spec_retries() == slots[k].spec_retries()
                },
                forall|k: int| 0 <= k < i ==> (#[trigger] self.retry_bufs@[k]).spec_in_use()
                    == (slots[k].spec_in_use() && !h5_acked(slots[k].spec_seq(), ack)),
                forall|k: int| i <= k < 8 ==> (#[trigger] self.retry_bufs@[k]).spec_in_use() == slots[k].spec_in_use(),
                self.h2c.unacked_count as int == if old(self).h2c.unacked_count >= h5_released_count(slots.take(i as int), ack) {
                    old(self).h2c.unacked_count - h5_released_count(slots.take(i as int), ack)
                } else { 0 },
                self.h2c == (H5SeqState { unacked_count: self.h2c.unacked_count, ..old(self).h2c }),
                self.link_state == old(self).link_state,
                self.c2h == old(self).c2h,
                self.crc_enabled == old(self).crc_enabled,
                self.reliable_enabled == old(self).reliable_enabled,
                self.retry_timeout_us == old(self).retry_timeout_us,
                self.last_send_timestamp == old(self).last_send_timestamp,
                self.negotiated_conf == old(self).negotiated_conf,
            decreases 8 - i,
        {
            proof {
                let t = slots.take(i + 1);
                assert(t.drop_last() =~= slots.take(i as int));
            }
            let sq = self.retry_bufs[i].seq;
            let dist = ((sq as u16 + 256 - ack as u16) % 8) as u8;
            assert(dist as int == (sq as int - ack as int) % 8);
            if self.retry_bufs[i].in_use && (sq == ack || (dist > 4 && dist < 8)) {
                let mut slot = self.retry_bufs[i];
                slot.in_use = false;
                self.retry_bufs[i] = slot;
                self.h2c.unacked_count = if self.h2c.unacked_count > 0 { self.h2c.unacked_count - 1 } else { 0 };
            }
            i = i + 1;
        }
        assert(slots.take(8) =~= slots);
    }

    /// Handles one SLIP-decoded incoming frame. Control messages move the
    /// link state and yield nothing. A data frame that passes the CRC
    /// check yields its packet type in `out_type` and as much of its
    /// payload as fits in `out_payload` (the returned count), advances the
    /// expected sequence number when it is the expected one, records its
    /// acknowledgement, and (with reliability on) frees the slots it
    /// acknowledges.
    pub fn process_incoming(&mut self, frame_data: &[u8], out_type: &mut u8, out_payload: &mut [u8]) -> (r: Option<usize>)
        requires
            old(self).wf(),
        ensures
            final(self).wf(),
            final(out_payload)@.len() == old(out_payload)@.len(),
            frame_data@.len() < 4 ==> r is None && *final(self) == *old(self) && *final(out_type) == *old(out_type)
                && final(out_payload)@ == old(out_payload)@,
            frame_data@.len() >= 4 && frame_data@[0] == 0x84 ==> final(self).link_state == H5LinkState::Waking,
            frame_data@.len() >= 4 && frame_data@[0] == 0x85 ==> final(self).link_state == H5LinkState::Active,
            frame_data@.len() >= 4 && frame_data@[0] == 0x86 ==> final(self).link_state == H5LinkState::Sleeping,
            frame_data@.len() >= 4 && frame_data@[0] >= 0x80 ==> {
                &&& r is None
                &&& final(self).link_state == h5_control_next(old(self).link_state, frame_data@[0])
                &&& *final(self) == (H5Session { link_state: final(self).link_state, ..*old(self) })
                &&& *final(out_type) == *old(out_type)
                &&& final(out_payload)@ == old(out_payload)@
            },
            frame_data@.len() >= 4 && frame_data@[0] < 0x80 ==> {
                let end = h5_payload_end(old(self).crc_enabled, frame_data@);
                let ok = h5_crc_ok(old(self).crc_enabled, frame_data@) && end > 4;
                &&& r is Some <==> ok
                &&& !ok ==> *final(self) == *old(self) && *final(out_type) == *old(out_type)
                    && final(out_payload)@ == old(out_payload)@
                &&& r matches Some(n) ==> {
                    let data = frame_data@.subrange(5, end);
                    let seq = frame_data@[0] % 8;
                    let ack = (frame_data@[0] / 8) % 8;
                    &&& n == if data.len() < old(out_payload)@.len() { data.len() } else { old(out_payload)@.len() }
                    &&& *final(out_type) == frame_data@[4]
                    &&& final(out_payload)@ == data.take(n as int) + old(out_payload)@.skip(n as int)
                    &&& final(self).c2h == (H5SeqState {
                        expected_seq: if seq == old(self).c2h.expected_seq { ((seq + 1) % 8) as u8 } else { old(self).c2h.expected_seq },
                        last_ack: ack as u8,
                        ..old(self).c2h
                    })
                    &&& old(self).reliable_enabled ==> {
                        &&& forall|i: int| 0 <= i < 8 ==> (#[trigger] final(self).retry_bufs@[i]).spec_in_use()
                            == (old(self).retry_bufs@[i].spec_in_use() && !h5_acked(old(self).retry_bufs@[i].spec_seq(), ack as u8))
                        &&& final(self).h2c.unacked_count as int
                            == if old(self).h2c.unacked_count >= h5_released_count(old(self).retry_bufs@, ack as u8) {
                                old(self).h2c.unacked_count - h5_released_count(old(self).retry_bufs@, ack as u8)
                            } else { 0 }
                    }
                    &&& !old(self).reliable_enabled ==> final(self).retry_bufs@ == old(self).retry_bufs@
                        && final(self).h2c == old(self).h2c
                    &&& final(self).link_state == old(self).link_state
                    &&& final(self).crc_enabled == old(self).crc_enabled
                    &&& final(self).reliable_enabled == old(self).reliable_enabled
                }
            },
    {
        if frame_data.len() < 4 {
            return None;
        }
        let header = H5Header { data: [frame_data[0], frame_data[1], frame_data[2], frame_data[3]] };
        if header.is_control() {
            return self.process_control(frame_data);
        }
        let n = frame_data.len();
        if self.crc_enabled {
            if n < 6 {
                return None;
            }
            let crc_pos = n - 2;
            let expected_crc = read_u16_le(frame_data[crc_pos], frame_data[crc_pos + 1]);
            let body = copy_range(frame_data, 0, crc_pos);
            let computed = h5_crc16(body.as_slice());
            assert(body@ =~= frame_data@.take(crc_pos as int));
            if expected_crc != computed {
                return None;
            }
        }
        let payload_end = if self.crc_enabled { n - 2 } else { n };
        if payload_end <= 4 {
            return None;
        }
        *out_type = frame_data[4];
        let avail = payload_end - 5;
        let copy_len = if avail < out_payload.len() { avail } else { out_payload.len() };
        let ghost op = out_payload@;
        let mut k: usize = 0;
        while k < copy_len
            invariant
                k <= copy_len,
                copy_len <= out_payload@.len(),
                copy_len + 5 <= payload_end,
                payload_end <= frame_data@.len(),
                out_payload@.len() == op.len(),
                out_payload@ == frame_data@.subrange(5, 5 + k) + op.skip(k as int),
            decreases copy_len - k,
        {
            out_payload[k] = frame_data[5 + k];
            k = k + 1;
            assert(out_payload@ =~= frame_data@.subrange(5, 5 + k) + op.skip(k as int));
        }
        assert(frame_data@.subrange(5, 5 + copy_len) =~= frame_data@.subrange(5, payload_end as int).take(copy_len as int));
        let recv_seq = header.seq();
        if recv_seq == self.c2h.expected_seq {
            self.c2h.expected_seq = (recv_seq + 1) % 8;
        }
        self.c2h.last_ack = header.ack();
        if self.reliable_enabled {
            let ack = header.ack();
            self.release_acked(ack);
        }
        Some(copy_len)
    }

    /// Moves the link state on a control message; never yields a packet.
    fn process_control(&mut self, frame: &[u8]) -> (r: Option<usize>)
        requires
            frame@.len() > 0,
        ensures
            r is None,
            *final(self) == (H5Session { link_state: h5_control_next(old(self).link_state, frame@[0]), ..*old(self) }),
    {
        let msg = frame[0];
        let st = self.link_state;
        if st == H5LinkState::Uninitialized && msg == H5_SYNC {
            self.link_state = H5LinkState::SyncSent;
        } else if st == H5LinkState::SyncSent && msg == H5_SYNC_RESP {
            self.link_state = H5LinkState::ConfSent;
        } else if st == H5LinkState::ConfSent && msg == H5_CONF {
            self.link_state = H5LinkState::ConfDone;
        } else if st == H5LinkState::ConfDone && msg == H5_CONF_RESP {
            self.link_state = H5LinkState::Active;
        } else if msg == H5_WAKEUP {
            self.link_state = H5LinkState::Waking;
        } else if msg == H5_WOKEN {
            self.link_state = H5LinkState::Active;
        } else if msg == H5_SLEEP {
            self.link_state = H5LinkState::Sleeping;
        }
        None
    }

    /// Builds and SLIP-encodes a control message `msg` (with its CRC).
    pub fn build_control(&self, msg: u8, slip_buf: &mut [u8]) -> (r: Option<usize>)
        ensures
            final(slip_buf)@.len() == old(slip_buf)@.len(),
            r is Some <==> slip_frame(h5_control_inner(msg)).len() <= old(slip_buf)@.len(),
            r matches Some(n) ==> n == slip_frame(h5_control_inner(msg)).len()
                && final(slip_buf)@ == slip_frame(h5_control_inner(msg)) + old(slip_buf)@.skip(n as int),
            r is None ==> exists|w: int| 0 <= w <= old(slip_buf)@.len()
                && final(slip_buf)@ == slip_frame(h5_control_inner(msg)).take(w) + old(slip_buf)@.skip(w),
    {
        let header = H5Header::new_control(msg);
        let mut inner: Vec<u8> = Vec::new();
        inner.push(header.data[0]);
        inner.push(header.data[1]);
        inner.push(header.data[2]);
        inner.push(header.data[3]);
        assert(inner@ =~= seq![msg, 0u8, 0u8, 0u8]);
        let crc = h5_crc16(inner.as_slice());
        inner.push((crc % 256) as u8);
        inner.push((crc / 256) as u8);
        assert(inner@ =~= h5_control_inner(msg));
        slip_encode(inner.as_slice(), slip_buf)
    }
}

/// Time elapsed since the last send, 0 when nothing was sent; the clock
/// wraps at 2^32.
pub open spec fn h5_elapsed(last: u32, now: u32) -> int {
    if last == 0 { 0 } else { (now as int - last as int) % 0x1_0000_0000 }
}

/// Whether a slot holds a frame with retransmissions left.
pub open spec fn h5_retry_ready(s: H5RetryBuf) -> bool {
    s.spec_in_use() && s.spec_retries() < 4
}

impl H5Session {
    /// On a retransmission timeout, resends the first kept frame that has
    /// retries left (at most 4 per frame): copies as much of it as fits
    /// into `slip_buf` and returns that length.
    pub fn check_retry(&mut self, current_timestamp: u32, slip_buf: &mut [u8]) -> (r: Option<usize>)
        requires
            old(self).wf(),
        ensures
            final(self).wf(),
            final(slip_buf)@.len() == old(slip_buf)@.len(),
            ({
                let due = old(self).reliable_enabled && old(self).h2c.unacked_count != 0
                    && h5_elapsed(old(self).last_send_timestamp, current_timestamp) >= old(self).retry_timeout_us;
                &&& r is Some <==> due && exists|i: int| 0 <= i < 8 && h5_retry_ready(#[trigger] old(self).retry_bufs@[i])
                &&& r is None ==> *final(self) == *old(self) && final(slip_buf)@ == old(slip_buf)@
                &&& r matches Some(n) ==> exists|i: int| 0 <= i < 8 && h5_retry_ready(#[trigger] old(self).retry_bufs@[i])
                    && (forall|k: int| 0 <= k < i ==> !h5_retry_ready(#[trigger] old(self).retry_bufs@[k]))
                    && ({
                        let s = old(self).retry_bufs@[i];
                        &&& n == if s.spec_len() < old(slip_buf)@.len() { s.spec_len() as int } else { old(slip_buf)@.len() as int }
                        &&& final(slip_buf)@ == s.spec_data().take(n as int) + old(slip_buf)@.skip(n as int)
                        &&& final(self).retry_bufs@ == old(self).retry_bufs@.update(i, final(self).retry_bufs@[i])
                        &&& final(self).retry_bufs@[i].spec_retries() == s.spec_retries() + 1
                        &&& final(self).retry_bufs@[i].spec_in_use() == s.spec_in_use()
                        &&& final(self).retry_bufs@[i].spec_seq() == s.spec_seq()
                        &&& final(self).retry_bufs@[i].spec_len() == s.spec_len()
                        &&& final(self).retry_bufs@[i].spec_data() == s.spec_data()
                    })
            }),
            final(self).link_state == old(self).link_state,
            final(self).h2c == old(self).h2c,
            final(self).c2h == old(self).c2h,
            final(self).crc_enabled == old(self).crc_enabled,
            final(self).reliable_enabled == old(self).reliable_enabled,
            final(self).retry_timeout_us == old(self).retry_timeout_us,
            final(self).last_send_timestamp == old(self).last_send_timestamp,
            final(self).negotiated_conf == old(self).negotiated_conf,
    {
        if !self.reliable_enabled || self.h2c.unacked_count == 0 {
            return None;
        }
        let elapsed: u32 = if self.last_send_timestamp == 0 {
            0
        } else {
            ((current_timestamp as u64 + 0x1_0000_0000 - self.last_send_timestamp as u64) % 0x1_0000_0000) as u32
        };
        if elapsed < self.retry_timeout_us {
            return None;
        }
        let mut j: usize = 0;
        while j < 8 && !(self.retry_bufs[j].in_use && self.retry_bufs[j].retries < H5_MAX_RETRIES)
            invariant
                j <= 8,
                forall|k: int| 0 <= k < j ==> !((#[trigger] self.retry_bufs@[k]).spec_in_use() && self.retry_bufs@[k].spec_retries() < 4),
            decreases 8 - j,
        {
            j = j + 1;
        }
        if j == 8 {
            return None;
        }
        let mut slot = self.retry_bufs[j];
        assert(slot.wf());
        slot.retries = slot.retries + 1;
        let copy_len = if slot.len < slip_buf.len() { slot.len } else { slip_buf.len() };
        let ghost ob = slip_buf@;
        let mut k: usize = 0;
        while k < copy_len
            invariant
                k <= copy_len,
                copy_len <= slot.len <= 4096,
                slot.data@.len() == 4096,
                copy_len <= ob.len(),
                slip_buf@.len() == ob.len(),
                slip_buf@ == slot.data@.take(k as int) + ob.skip(k as int),
            decreases copy_len - k,
        {
            slip_buf[k] = slot.data[k];
            k = k + 1;
            assert(slip_buf@ =~= slot.data@.take(k as int) + ob.skip(k as int));
        }
        self.retry_bufs[j] = slot;
        assert(self.retry_bufs@ =~= old(self).retry_bufs@.update(j as int, self.retry_bufs@[j as int]));
        Some(copy_len)
    }

    /// Back to an uninitialised link: sequence tracking cleared, no frame
    /// kept, no send time.
    pub fn reset(&mut self)
        requires
            old(self).wf(),
        ensures
            final(self).wf(),
            final(self).link_state == H5LinkState::Uninitialized,
            final(self).h2c == (H5SeqState { next_seq: 0, expected_seq: 0, last_ack: 0, unacked_count: 0 }),
            final(self).c2h == (H5SeqState { next_seq: 0, expected_seq: 0, last_ack: 0, unacked_count: 0 }),
            forall|i: int| 0 <= i < 8 ==> !(#[trigger] final(self).retry_bufs@[i]).spec_in_use(),
            final(self).last_send_timestamp == 0,
            final(self).crc_enabled == old(self).crc_enabled,
            final(self).reliable_enabled == old(self).reliable_enabled,
            final(self).retry_timeout_us == old(self).retry_timeout_us,
            final(self).negotiated_conf == old(self).negotiated_conf,
    {
        self.link_state = H5LinkState::Uninitialized;
        self.h2c = H5SeqState::new();
        self.c2h = H5SeqState::new();
        let mut i: usize = 0;
        while i < 8
            invariant
                i <= 8,
                self.wf(),
                forall|k: int| 0 <= k < i ==> !(#[trigger] self.retry_bufs@[k]).spec_in_use(),
                self.link_state == H5LinkState::Uninitialized,
                self.h2c == (H5SeqState { next_seq: 0, expected_seq: 0, last_ack: 0, unacked_count: 0 }),
                self.c2h == (H5SeqState { next_seq: 0, expected_seq: 0, last_ack: 0, unacked_count: 0 }),
                self.crc_enabled == old(self).crc_enabled,
                self.reliable_enabled == old(self).reliable_enabled,
                self.retry_timeout_us == old(self).retry_timeout_us,
                self.negotiated_conf == old(self).negotiated_conf,
            decreases 8 - i,
        {
            let mut slot = self.retry_bufs[i];
            slot.in_use = false;
            self.retry_bufs[i] = slot;
            i = i + 1;
        }
        self.last_send_timestamp = 0;
    }
}

// ============================================================================
// Baud rate
// ============================================================================

/// UART clock rates.
pub const UART_CLOCK_1_8432_MHZ: u32 = 1843200;
pub const UART_CLOCK_24_MHZ: u32 = 24000000;
pub const UART_CLOCK_48_MHZ: u32 = 48000000;

/// The UART divisor for `baud` at `uart_clock_hz`, rounded to nearest:
/// `(clock + baud / 2) / (16 * baud)`; `None` for a zero rate
/// or clock, or a divisor of 0 or above 0xFFFF.
pub fn baud_to_divisor(baud: u32, uart_clock_hz: u32) -> (r: Option<u16>)
    requires
        baud == 0 || uart_clock_hz == 0 || (uart_clock_hz as int + baud as int / 2 <= u32::MAX
            && 16 * baud as int <= u32::MAX),
    ensures
        baud == 0 || uart_clock_hz == 0 ==> r is None,
        baud != 0 && uart_clock_hz != 0 ==> {
            let d = (uart_clock_hz as int + baud as int / 2) / (16 * baud as int);
            &&& r is Some <==> 0 < d <= 0xFFFF
            &&& r matches Some(v) ==> v == d
        },
{
    if baud == 0 || uart_clock_hz == 0 {
        return None;
    }
    let divisor = (uart_clock_hz + baud / 2) / (16 * baud);
    if divisor > 0xFFFF || divisor == 0 {
        return None;
    }
    Some(divisor as u16)
}

// ============================================================================
// Firmware record formats
// ============================================================================

/// QCA TLV records from offset `pos`: `| type | length(2) | data |`; a
/// zero length ends the list, as does a record running past the end.
pub open spec fn qca_records_from(data: Seq<u8>, pos: int) -> Seq<(u8, u16, Seq<u8>)>
    decreases data.len() - pos,
{
    if pos < 0 || pos + 3 > data.len() {
        seq![]
    } else {
        let len = u16_le(data[pos + 1], data[pos + 2]);
        if len == 0 || pos + 3 + len > data.len() {
            seq![]
        } else {
            seq![(data[pos], len, data.subrange(pos + 3, pos + 3 + len))] + qca_records_from(data, pos + 3 + len)
        }
    }
}

/// Broadcom .hcd records from offset `pos`: `| opcode(2) | length(2) | data |`;
/// a zero length ends the list, as does a record running past the end.
pub open spec fn bcm_records_from(data: Seq<u8>, pos: int) -> Seq<(u16, Seq<u8>)>
    decreases data.len() - pos,
{
    if pos < 0 || pos + 4 > data.len() {
        seq![]
    } else {
        let len = u16_le(data[pos + 2], data[pos + 3]);
        if len == 0 || pos + 4 + len > data.len() {
            seq![]
        } else {
            seq![(u16_le(data[pos], data[pos + 1]), data.subrange(pos + 4, pos + 4 + len))]
                + bcm_records_from(data, pos + 4 + len)
        }
    }
}

/// The views of decoded QCA records.
pub open spec fn qca_record_views(v: Seq<(u8, u16, Vec<u8>)>) -> Seq<(u8, u16, Seq<u8>)> {
    v.map_values(|r: (u8, u16, Vec<u8>)| (r.0, r.1, r.2@))
}

/// The views of decoded Broadcom records.
pub open spec fn bcm_record_views(v: Seq<(u16, Vec<u8>)>) -> Seq<(u16, Seq<u8>)> {
    v.map_values(|r: (u16, Vec<u8>)| (r.0, r.1@))
}

/// Decodes the records of a QCA TLV firmware or NVM file.
pub fn qca_tlv_record_list(fw_data: &[u8]) -> (r: Vec<(u8, u16, Vec<u8>)>)
    ensures
        qca_record_views(r@) == qca_records_from(fw_data@, 0),
{
    let mut out: Vec<(u8, u16, Vec<u8>)> = Vec::new();
    let mut pos: usize = 0;
    let n = fw_data.len();
    while n - pos >= 3
        invariant_except_break
            n == fw_data@.len(),
            pos <= n,
            qca_record_views(out@) + qca_records_from(fw_data@, pos as int) == qca_records_from(fw_data@, 0),
        ensures
            qca_record_views(out@) == qca_records_from(fw_data@, 0),
        decreases n - pos,
    {
        let tag_type = fw_data[pos];
        let tag_len = read_u16_le(fw_data[pos + 1], fw_data[pos + 2]);
        if tag_len == 0 || tag_len as usize > n - pos - 3 {
            assert(qca_record_views(out@) + qca_records_from(fw_data@, pos as int) =~= qca_record_views(out@));
            break;
        }
        let start = pos + 3;
        let end = start + tag_len as usize;
        let ghost before = qca_record_views(out@);
        let ghost rest = qca_records_from(fw_data@, end as int);
        let rec = (tag_type, tag_len, copy_range(fw_data, start, end));
        out.push(rec);
        assert(qca_record_views(out@) =~= before.push((rec.0, rec.1, rec.2@)));
        assert(before.push((rec.0, rec.1, rec.2@)) + rest =~= before + (seq![(rec.0, rec.1, rec.2@)] + rest));
        pos = end;
    }
    out
}

/// Decodes the records of a Broadcom .hcd patch file.
pub fn bcm_hcd_record_list(patchram_data: &[u8]) -> (r: Vec<(u16, Vec<u8>)>)
    ensures
        bcm_record_views(r@) == bcm_records_from(patchram_data@, 0),
{
    let mut out: Vec<(u16, Vec<u8>)> = Vec::new();
    let mut pos: usize = 0;
    let n = patchram_data.len();
    while n - pos >= 4
        invariant_except_break
            n == patchram_data@.len(),
            pos <= n,
            bcm_record_views(out@) + bcm_records_from(patchram_data@, pos as int) == bcm_records_from(patchram_data@, 0),
        ensures
            bcm_record_views(out@) == bcm_records_from(patchram_data@, 0),
        decreases n - pos,
    {
        let opcode = read_u16_le(patchram_data[pos], patchram_data[pos + 1]);
        let data_len = read_u16_le(patchram_data[pos + 2], patchram_data[pos + 3]);
        if data_len == 0 || data_len as usize > n - pos - 4 {
            assert(bcm_record_views(out@) + bcm_records_from(patchram_data@, pos as int) =~= bcm_record_views(out@));
            break;
        }
        let start = pos + 4;
        let end = start + data_len as usize;
        let ghost before = bcm_record_views(out@);
        let ghost rest = bcm_records_from(patchram_data@, end as int);
        let rec = (opcode, copy_range(patchram_data, start, end));
        out.push(rec);
        assert(bcm_record_views(out@) =~= before.push((rec.0, rec.1@)));
        assert(before.push((rec.0, rec.1@)) + rest =~= before + (seq![(rec.0, rec.1@)] + rest));
        pos = end;
    }
    out
}

/// Whether callback `cb` can answer `out` for QCA record `rec`.
pub open spec fn qca_answered<F: FnMut(u8, u16, &[u8]) -> bool>(cb: F, rec: (u8, u16, Seq<u8>), out: bool) -> bool {
    exists|d: &[u8]| d@ == rec.2 && #[trigger] call_ensures(cb, (rec.0, rec.1, d), out)
}

/// Whether callback `cb` can answer `out` for Broadcom record `rec`.
pub open spec fn bcm_answered<F: FnMut(u16, &[u8]) -> bool>(cb: F, rec: (u16, Seq<u8>), out: bool) -> bool {
    exists|d: &[u8]| d@ == rec.1 && #[trigger] call_ensures(cb, (rec.0, d), out)
}

/// Hands the QCA TLV records of `fw_data` (type, length, data) to
/// `record_cb` in file order until it refuses one. Returns whether every
/// record was accepted and how many were handed over: all of them when
/// every one was accepted, else up to and including the first refused
/// one.
pub fn qca_walk_tlv_records<F: FnMut(u8, u16, &[u8]) -> bool>(fw_data: &[u8], record_cb: F) -> (r: (bool, usize))
    requires
        forall|t: u8, l: u16, d: &[u8]| call_requires(record_cb, (t, l, d)),
    ensures
        ({
            let recs = qca_records_from(fw_data@, 0);
            &&& r.1 <= recs.len()
            &&& r.0 ==> r.1 == recs.len()
            &&& !r.0 ==> r.1 >= 1 && qca_answered(record_cb, recs[r.1 - 1], false)
            &&& forall|i: int| 0 <= i < (if r.0 { r.1 as int } else { r.1 - 1 })
                ==> qca_answered(record_cb, #[trigger] recs[i], true)
        }),
{
    let records = qca_tlv_record_list(fw_data);
    let ghost recs = qca_records_from(fw_data@, 0);
    let mut cb = record_cb;
    let ghost cb0 = record_cb;
    let mut i: usize = 0;
    while i < records.len()
        invariant
            i <= records@.len(),
            qca_record_views(records@) == recs,
            recs == qca_records_from(fw_data@, 0),
            cb == cb0,
            cb0 == record_cb,
            forall|t: u8, l: u16, d: &[u8]| call_requires(record_cb, (t, l, d)),
            forall|k: int| 0 <= k < i ==> qca_answered(cb0, #[trigger] recs[k], true),
        decreases records@.len() - i,
    {
        let rec = &records[i];
        let d = rec.2.as_slice();
        let ok = cb(rec.0, rec.1, d);
        proof {
            let rc = recs[i as int];
            assert(rc == (rec.0, rec.1, rec.2@));
            assert(call_ensures(cb0, (rc.0, rc.1, d), ok));
            assert(qca_answered(cb0, rc, ok));
        }
        if !ok {
            return (false, i + 1);
        }
        i = i + 1;
    }
    (true, i)
}

/// Hands each QCA TLV record of `fw_data` (type, length, data) to
/// `record_cb` in order, stopping with `false` as soon as it returns
/// `false`; `true` when every record was accepted (see
/// `qca_walk_tlv_records`).
pub fn qca_parse_tlv_records<F: FnMut(u8, u16, &[u8]) -> bool>(fw_data: &[u8], record_cb: F) -> (r: bool)
    requires
        forall|t: u8, l: u16, d: &[u8]| call_requires(record_cb, (t, l, d)),
    ensures
        ({
            let recs = qca_records_from(fw_data@, 0);
            &&& r ==> forall|i: int| 0 <= i < recs.len() ==> qca_answered(record_cb, #[trigger] recs[i], true)
            &&& !r ==> exists|m: int| 0 <= m < recs.len()
                && qca_answered(record_cb, #[trigger] recs[m], false)
                && forall|i: int| 0 <= i < m ==> qca_answered(record_cb, #[trigger] recs[i], true)
        }),
{
    let (ok, n) = qca_walk_tlv_records(fw_data, record_cb);
    proof {
        let recs = qca_records_from(fw_data@, 0);
        if !ok {
            assert(qca_answered(record_cb, recs[n - 1], false));
        }
    }
    ok
}

/// Hands the Broadcom .hcd records of `patchram_data` (opcode, data) to
/// `record_cb` in file order until it refuses one. Returns whether every
/// record was accepted and how many were handed over: all of them when
/// every one was accepted, else up to and including the first refused
/// one.
pub fn bcm_walk_hcd_records<F: FnMut(u16, &[u8]) -> bool>(patchram_data: &[u8], record_cb: F) -> (r: (bool, usize))
    requires
        forall|op: u16, d: &[u8]| call_requires(record_cb, (op, d)),
    ensures
        ({
            let recs = bcm_records_from(patchram_data@, 0);
            &&& r.1 <= recs.len()
            &&& r.0 ==> r.1 == recs.len()
            &&& !r.0 ==> r.1 >= 1 && bcm_answered(record_cb, recs[r.1 - 1], false)
            &&& forall|i: int| 0 <= i < (if r.0 { r.1 as int } else { r.1 - 1 })
                ==> bcm_answered(record_cb, #[trigger] recs[i], true)
        }),
{
    let records = bcm_hcd_record_list(patchram_data);
    let ghost recs = bcm_records_from(patchram_data@, 0);
    let mut cb = record_cb;
    let ghost cb0 = record_cb;
    let mut i: usize = 0;
    while i < records.len()
        invariant
            i <= records@.len(),
            bcm_record_views(records@) == recs,
            recs == bcm_records_from(patchram_data@, 0),
            cb == cb0,
            cb0 == record_cb,
            forall|op: u16, d: &[u8]| call_requires(record_cb, (op, d)),
            forall|k: int| 0 <= k < i ==> bcm_answered(cb0, #[trigger] recs[k], true),
        decreases records@.len() - i,
    {
        let rec = &records[i];
        let d = rec.1.as_slice();
        let ok = cb(rec.0, d);
        proof {
            let rc = recs[i as int];
            assert(rc == (rec.0, rec.1@));
            assert(call_ensures(cb0, (rc.0, d), ok));
            assert(bcm_answered(cb0, rc, ok));
        }
        if !ok {
            return (false, i + 1);
        }
        i = i + 1;
    }
    (true, i)
}

/// Hands each Broadcom .hcd record of `patchram_data` (opcode, data) to
/// `record_cb` in order, stopping with `false` as soon as it returns
/// `false`; `true` when every record was accepted (see
/// `bcm_walk_hcd_records`).
pub fn bcm_parse_hcd_records<F: FnMut(u16, &[u8]) -> bool>(patchram_data: &[u8], record_cb: F) -> (r: bool)
    requires
        forall|op: u16, d: &[u8]| call_requires(record_cb, (op, d)),
    ensures
        ({
            let recs = bcm_records_from(patchram_data@, 0);
            &&& r ==> forall|i: int| 0 <= i < recs.len() ==> bcm_answered(record_cb, #[trigger] recs[i], true)
            &&& !r ==> exists|m: int| 0 <= m < recs.len()
                && bcm_answered(record_cb, #[trigger] recs[m], false)
                && forall|i: int| 0 <= i < m ==> bcm_answered(record_cb, #[trigger] recs[i], true)
        }),
{
    let (ok, n) = bcm_walk_hcd_records(patchram_data, record_cb);
    proof {
        let recs = bcm_records_from(patchram_data@, 0);
        if !ok {
            assert(bcm_answered(record_cb, recs[n - 1], false));
        }
    }
    ok
}

// ============================================================================
// UART transport
// ============================================================================

/// UART flow control.
#[derive(Clone, Copy, PartialEq, Eq, Debug, Structural)]
pub enum UartFlowControl {
    /// Three wires, no flow control.
    Off,
    /// Hardware RTS/CTS.
    RtsCts,
}

/// HCI UART protocol.
#[derive(Clone, Copy, PartialEq, Eq, Debug, Structural)]
pub enum HciUartProtocol {
    H4,
    H5,
}

/// Vendor firmware to load during initialisation.
#[derive(Clone, Copy, Debug)]
pub enum UartFirmwareInfo {
    /// Intel: boot parameter, firmware and DDC file names.
    Intel { boot_param: u32, fw_name: &'static [u8], ddc_name: &'static [u8] },
    /// Broadcom: patch file name and an address to set.
    Broadcom { patchram: &'static [u8], bd_addr: Option<[u8; 6]> },
    /// Qualcomm: patch and NVM file names and an address to set.
    Qca { patch_name: &'static [u8], nvm_name: &'static [u8], bd_addr: Option<[u8; 6]> },
    /// No firmware.
    Generic,
}

/// The HCI UART transport: port settings, framing state of the active
/// protocol and what the controller reported about itself.
pub struct HciUartTransport {
    /// Device path, NUL-padded.
    pub uart_path: [u8; 32],
    /// Open descriptor, or -1.
    pub uart_fd: i32,
    pub baud_rate: u32,
    pub flow_control: UartFlowControl,
    pub protocol: HciUartProtocol,
    /// H4 receive state.
    pub h4_rx_state: H4RxState,
    pub h4_accum: [u8; 65540],
    pub h4_accum_len: usize,
    /// H5 session, present with the H5 protocol.
    pub h5: Option<H5Session>,
    /// SLIP receive state.
    pub slip_decode_state: SlipDecodeState,
    pub slip_accum: [u8; 65571],
    pub slip_accum_len: usize,
    pub fw_info: UartFirmwareInfo,
    /// BT_WAKE GPIO, or -1.
    pub bt_wake_gpio: i32,
    /// HOST_WAKE GPIO, or -1.
    pub host_wake_gpio: i32,
    pub state: HciState,
    pub bd_addr: BdAddr,
    pub hci_version: u8,
    pub hci_revision: u16,
    pub lmp_version: u8,
    pub lmp_subversion: u16,
    pub manufacturer: u16,
    pub ready: bool,
}

/// The device path stored for `p`: its first 31 bytes, NUL-padded to 32.
pub open spec fn stored_path(p: Seq<u8>) -> Seq<u8> {
    let n = if p.len() < 31 { p.len() as int } else { 31 };
    p.take(n) + Seq::new((32 - n) as nat, |i: int| 0u8)
}

/// Whether an H5 session can send a data frame of `payload` with `pkt_type`
/// into a buffer of `cap` bytes without its counters overflowing.
pub open spec fn h5_send_ok(s: H5Session, pkt_type: u8, payload: Seq<u8>, cap: int) -> bool {
    slip_frame(h5_data_inner(s.h2c.next_seq, s.c2h.expected_seq, s.crc_enabled, s.reliable_enabled,
        pkt_type, payload)).len() <= cap ==> s.h2c.next_seq < 255 && s.h2c.unacked_count < 255
}

impl HciUartTransport {
    /// The H5 session, when present, is well formed, and the H4 parser
    /// holds at least its type byte while reading a packet.
    pub open spec fn wf(&self) -> bool {
        &&& self.h5 matches Some(s) ==> s.wf()
        &&& self.h4_rx_state is ReadPayload ==> self.h4_accum_len > 0
    }

    /// A closed H4 transport in the Reset state with generic firmware.
    pub fn new_h4(uart_path: &[u8], baud_rate: u32, flow_control: UartFlowControl) -> (r: Self)
        ensures
            r.wf(),
            r.uart_path@ == stored_path(uart_path@),
            r.uart_fd == -1,
            r.baud_rate == baud_rate,
            r.flow_control == flow_control,
            r.protocol == HciUartProtocol::H4,
            r.h5 is None,
            r.fw_info is Generic,
            r.bt_wake_gpio == -1,
            r.host_wake_gpio == -1,
            r.state == HciState::Reset,
            r.bd_addr.0@ == seq![0u8, 0u8, 0u8, 0u8, 0u8, 0u8],
            r.hci_version == 0 && r.hci_revision == 0 && r.lmp_version == 0,
            r.lmp_subversion == 0 && r.manufacturer == 0,
            !r.ready,
    {
        let mut path = [0u8; 32];
        let copy_len = if uart_path.len() < 31 { uart_path.len() } else { 31 };
        let mut i: usize = 0;
        while i < copy_len
            invariant
                i <= copy_len,
                copy_len <= 31,
                copy_len <= uart_path@.len(),
                path@.len() == 32,
                forall|k: int| 0 <= k < i ==> path@[k] == uart_path@[k],
                forall|k: int| i <= k < 32 ==> path@[k] == 0,
            decreases copy_len - i,
        {
            path[i] = uart_path[i];
            i = i + 1;
        }
        assert(path@ =~= stored_path(uart_path@));
        let t = HciUartTransport {
            uart_path: path,
            uart_fd: -1,
            baud_rate,
            flow_control,
            protocol: HciUartProtocol::H4,
            h4_rx_state: H4RxState::WaitType,
            h4_accum: [0u8; 65540],
            h4_accum_len: 0,
            h5: None,
            slip_decode_state: SlipDecodeState::WaitDelimiter,
            slip_accum: [0u8; 65571],
            slip_accum_len: 0,
            fw_info: UartFirmwareInfo::Generic,
            bt_wake_gpio: -1,
            host_wake_gpio: -1,
            state: HciState::Reset,
            bd_addr: BdAddr([0u8; 6]),
            hci_version: 0,
            hci_revision: 0,
            lmp_version: 0,
            lmp_subversion: 0,
            manufacturer: 0,
            ready: false,
        };
        assert(t.bd_addr.0@ =~= seq![0u8, 0u8, 0u8, 0u8, 0u8, 0u8]);
        t
    }

    /// A closed H5 transport (no flow control) with a fresh session.
    pub fn new_h5(uart_path: &[u8], baud_rate: u32) -> (r: Self)
        ensures
            r.wf(),
            r.uart_path@ == stored_path(uart_path@),
            r.uart_fd == -1,
            r.baud_rate == baud_rate,
            r.flow_control == UartFlowControl::Off,
            r.protocol == HciUartProtocol::H5,
            r.h5 matches Some(s) && s.link_state == H5LinkState::Uninitialized && s.crc_enabled && s.reliable_enabled
                && s.h2c == (H5SeqState { next_seq: 0, expected_seq: 0, last_ack: 0, unacked_count: 0 }),
            r.state == HciState::Reset,
            !r.ready,
    {
        let mut transport = Self::new_h4(uart_path, baud_rate, UartFlowControl::Off);
        transport.protocol = HciUartProtocol::H5;
        transport.h5 = Some(H5Session::new());
        transport
    }

    /// Opens the UART: no device is opened here, the transport is only
    /// marked open.
    pub fn open_uart(&mut self) -> (r: bool)
        ensures
            r,
            *final(self) == (HciUartTransport { uart_fd: 0, ..*old(self) }),
    {
        self.uart_fd = 0;
        true
    }

    /// Closes the UART.
    pub fn close_uart(&mut self)
        ensures
            *final(self) == (HciUartTransport { uart_fd: -1i32, ..*old(self) }),
    {
        self.uart_fd = -1;
    }

    /// Records a new baud rate.
    pub fn set_baud_rate(&mut self, new_baud: u32) -> (r: bool)
        ensures
            r,
            *final(self) == (HciUartTransport { baud_rate: new_baud, ..*old(self) }),
    {
        self.baud_rate = new_baud;
        true
    }

    /// Drives BT_WAKE; false when no GPIO is configured.
    pub fn set_bt_wake(&mut self, _asserted: bool) -> (r: bool)
        ensures
            r == (old(self).bt_wake_gpio >= 0),
            *final(self) == *old(self),
    {
        if self.bt_wake_gpio < 0 {
            return false;
        }
        true
    }

    /// Reads HOST_WAKE; without a device it always reads low.
    pub fn get_host_wake(&self) -> (r: bool)
        ensures
            !r,
    {
        if self.host_wake_gpio < 0 {
            return false;
        }
        false
    }

    /// Writes bytes to the UART: all of them when it is open, -1 otherwise.
    fn uart_write(&mut self, data: &[u8]) -> (r: isize)
        ensures
            r == if old(self).uart_fd < 0 { -1isize } else { data@.len() as isize },
            *final(self) == *old(self),
    {
        if self.uart_fd < 0 {
            return -1;
        }
        data.len() as isize
    }

    /// Reads from the UART; without a device nothing ever arrives.
    fn uart_read(&mut self, _buf: &mut [u8]) -> (r: isize)
        ensures
            r == 0,
            *final(self) == *old(self),
            final(_buf)@ == old(_buf)@,
    {
        0
    }

    /// Sends an H4 command `data` (starting with the H4 command type).
    pub fn send_command(&mut self, data: &[u8]) -> (r: bool)
        ensures
            r == (data@.len() >= 4 && data@[0] == 0x01 && data@.len() - 1 <= 65539 && old(self).uart_fd >= 0),
            *final(self) == *old(self),
    {
        if data.len() < 4 {
            return false;
        }
        if data[0] != H4_CMD {
            return false;
        }
        let mut frame = [0u8; 65540];
        let len = match H4Protocol::build_frame(&mut frame, H4_CMD, &data[1..data.len()]) {
            Some(l) => l,
            None => { return false; },
        };
        self.uart_write(&frame[0..len]) == len as isize
    }

    /// Sends H4 ACL data `data` (starting with the H4 ACL type).
    pub fn send_acl(&mut self, data: &[u8]) -> (r: bool)
        ensures
            r == (data@.len() >= 5 && data@[0] == 0x02 && data@.len() - 1 <= 65539 && old(self).uart_fd >= 0),
            *final(self) == *old(self),
    {
        if data.len() < 5 {
            return false;
        }
        if data[0] != H4_ACL {
            return false;
        }
        let mut frame = [0u8; 65540];
        let len = match H4Protocol::build_frame(&mut frame, H4_ACL, &data[1..data.len()]) {
            Some(l) => l,
            None => { return false; },
        };
        self.uart_write(&frame[0..len]) == len as isize
    }
}

/// Whether sending `data` over the H5 link of `t` cannot fail on a
/// missing type byte or overflowing counters.
pub open spec fn h5_send_allowed(t: &HciUartTransport, pkt_type: u8, data: Seq<u8>) -> bool {
    match t.h5 {
        Some(s) => s.link_state == H5LinkState::Active ==> data.len() >= 1 && h5_send_ok(s, pkt_type, data.skip(1), 8192),
        None => true,
    }
}

impl HciUartTransport {
    /// Receives an HCI event over H4 into `out_buf`, returning its length.
    /// Nothing ever arrives from the device here, so this returns 0.
    pub fn recv_event(&mut self, out_buf: &mut [u8]) -> (r: usize)
        requires
            old(self).wf(),
        ensures
            r == 0,
            *final(self) == *old(self),
            final(out_buf)@ == old(out_buf)@,
    {
        self.recv_h4_packet(H4_EVT, out_buf)
    }

    /// Receives HCI ACL data over H4 into `out_buf`, returning its length;
    /// 0 here, as nothing arrives from the device.
    pub fn recv_acl(&mut self, out_buf: &mut [u8]) -> (r: usize)
        requires
            old(self).wf(),
        ensures
            r == 0,
            *final(self) == *old(self),
            final(out_buf)@ == old(out_buf)@,
    {
        self.recv_h4_packet(H4_ACL, out_buf)
    }

    /// Reads what the UART has and feeds it to the H4 parser, returning the
    /// first complete packet of type `want` (see `feed_h4`).
    fn recv_h4_packet(&mut self, want: u8, out_buf: &mut [u8]) -> (r: usize)
        requires
            old(self).wf(),
        ensures
            r == 0,
            *final(self) == *old(self),
            final(out_buf)@ == old(out_buf)@,
    {
        let mut raw_buf = [0u8; 1024];
        let nread = self.uart_read(&mut raw_buf);
        if nread <= 0 {
            return 0;
        }
        let n: usize = if (nread as usize) < 1024 { nread as usize } else { 1024 };
        self.feed_h4(&raw_buf[0..n], want, out_buf)
    }

    /// Feeds `raw` byte by byte to the H4 parser of this transport. At the
    /// first complete packet of type `want` it stops and copies as much of
    /// its payload as fits into `out_buf`, returning that count; packets of
    /// other types are passed over. Returns 0 when no such packet
    /// completes.
    pub fn feed_h4(&mut self, raw: &[u8], want: u8, out_buf: &mut [u8]) -> (r: usize)
        requires
            old(self).wf(),
        ensures
            final(self).wf(),
            ({
                let f = h4_feed(old(self).h4_rx_state, old(self).h4_accum@, old(self).h4_accum_len, raw@, want);
                &&& final(self).h4_rx_state == f.0
                &&& final(self).h4_accum@ == f.1
                &&& final(self).h4_accum_len == f.2
                &&& match f.3 {
                    Some(p) => {
                        &&& r as int == if p.1 < old(out_buf)@.len() { p.1 as int } else { old(out_buf)@.len() as int }
                        &&& final(out_buf)@ == f.1.subrange(p.0 as int, p.0 + r) + old(out_buf)@.skip(r as int)
                    },
                    None => r == 0 && final(out_buf)@ == old(out_buf)@,
                }
            }),
            *final(self) == (HciUartTransport {
                h4_rx_state: final(self).h4_rx_state,
                h4_accum: final(self).h4_accum,
                h4_accum_len: final(self).h4_accum_len,
                ..*old(self)
            }),
    {
        let mut i: usize = 0;
        assert(raw@.skip(0) =~= raw@);
        while i < raw.len()
            invariant
                i <= raw@.len(),
                self.wf(),
                self.h4_accum@.len() == 65540,
                h4_feed(self.h4_rx_state, self.h4_accum@, self.h4_accum_len, raw@.skip(i as int), want)
                    == h4_feed(old(self).h4_rx_state, old(self).h4_accum@, old(self).h4_accum_len, raw@, want),
                *self == (HciUartTransport {
                    h4_rx_state: self.h4_rx_state,
                    h4_accum: self.h4_accum,
                    h4_accum_len: self.h4_accum_len,
                    ..*old(self)
                }),
                out_buf@ == old(out_buf)@,
            decreases raw@.len() - i,
        {
            proof {
                assert(raw@.skip(i as int).drop_first() =~= raw@.skip(i + 1));
                assert(raw@.skip(i as int)[0] == raw@[i as int]);
            }
            let res = H4Protocol::parse_stream(&mut self.h4_rx_state, &mut self.h4_accum,
                &mut self.h4_accum_len, raw[i]);
            match res {
                Some((pkt_type, payload_start, payload_len)) => {
                    if pkt_type == want {
                        let copy_len = if payload_len < out_buf.len() { payload_len } else { out_buf.len() };
                        let mut k: usize = 0;
                        while k < copy_len
                            invariant
                                k <= copy_len,
                                copy_len <= out_buf@.len(),
                                out_buf@.len() == old(out_buf)@.len(),
                                payload_start + copy_len <= self.h4_accum@.len(),
                                out_buf@ == self.h4_accum@.subrange(payload_start as int, payload_start + k)
                                    + old(out_buf)@.skip(k as int),
                            decreases copy_len - k,
                        {
                            out_buf[k] = self.h4_accum[payload_start + k];
                            k = k + 1;
                            assert(out_buf@ =~= self.h4_accum@.subrange(payload_start as int, payload_start + k)
                                + old(out_buf)@.skip(k as int));
                        }
                        return copy_len;
                    }
                },
                None => {},
            }
            i = i + 1;
        }
        assert(raw@.skip(i as int) =~= Seq::<u8>::empty());
        0
    }

    /// Receives an HCI packet over H5: reads what the UART has, takes the
    /// first complete SLIP frame and hands it to the H5 session. Nothing
    /// ever arrives from the device here, so this returns 0.
    pub fn recv_h5(&mut self, out_buf: &mut [u8]) -> (r: usize)
        requires
            old(self).wf(),
        ensures
            r == 0,
            *final(self) == *old(self),
            final(out_buf)@ == old(out_buf)@,
    {
        let mut raw_buf = [0u8; 1024];
        let nread = self.uart_read(&mut raw_buf);
        if nread <= 0 {
            return 0;
        }
        let n: usize = if (nread as usize) < 1024 { nread as usize } else { 1024 };
        let mut slip_decoded = [0u8; 65571];
        let decoded_len = match slip_first_frame(&raw_buf[0..n], &mut slip_decoded) {
            Some(d) => d,
            None => { return 0; },
        };
        let mut pkt_type: u8 = 0;
        match &mut self.h5 {
            Some(session) => {
                match session.process_incoming(&slip_decoded[0..decoded_len], &mut pkt_type, out_buf) {
                    Some(payload_len) => payload_len,
                    None => 0,
                }
            },
            None => 0,
        }
    }

    /// Sends an HCI command over H5: `data` starts with the H4 command
    /// type, the rest goes out as a reliable data frame. False without an
    /// active H5 link, when the frame does not fit 8192 bytes, or when the
    /// UART is closed.
    pub fn send_command_h5(&mut self, data: &[u8]) -> (r: bool)
        requires
            old(self).wf(),
            h5_send_allowed(old(self), 0x01, data@),
        ensures
            final(self).wf(),
            Self::h5_send_result_of(old(self), final(self), 0x01, data@, r),
    {
        self.send_h5_packet(H4_CMD, data)
    }

    /// Sends ACL data over H5, as `send_command_h5` does for commands.
    pub fn send_acl_h5(&mut self, data: &[u8]) -> (r: bool)
        requires
            old(self).wf(),
            h5_send_allowed(old(self), 0x02, data@),
        ensures
            final(self).wf(),
            Self::h5_send_result_of(old(self), final(self), 0x02, data@, r),
    {
        self.send_h5_packet(H4_ACL, data)
    }

    /// The outcome of sending `data` (with its type byte) as an H5 data
    /// frame of type `pkt_type`: nothing happens without an active link;
    /// otherwise the session records the frame when it fits 8192 bytes,
    /// and the send succeeds when it fits and the UART is open.
    pub open spec fn h5_send_result_of(old_t: &HciUartTransport, new_t: &HciUartTransport, pkt_type: u8, data: Seq<u8>, r: bool) -> bool {
        match old_t.h5 {
            Some(s) => if s.link_state == H5LinkState::Active {
                let frame = slip_frame(h5_data_inner(s.h2c.next_seq, s.c2h.expected_seq, s.crc_enabled,
                    s.reliable_enabled, pkt_type, data.skip(1)));
                let fits = frame.len() <= 8192;
                &&& r == (fits && old_t.uart_fd >= 0)
                &&& new_t.h5 matches Some(s2) && (if fits { h5_sent(s, s2, frame) } else {
                    s2.h2c == s.h2c && s2.retry_bufs@ == s.retry_bufs@ && s2.last_send_timestamp == s.last_send_timestamp
                        && s2.link_state == s.link_state && s2.c2h == s.c2h && s2.crc_enabled == s.crc_enabled
                        && s2.reliable_enabled == s.reliable_enabled
                })
                &&& *new_t == (HciUartTransport { h5: new_t.h5, ..*old_t })
            } else {
                !r && *new_t == *old_t
            },
            None => !r && *new_t == *old_t,
        }
    }

    fn send_h5_packet(&mut self, pkt_type: u8, data: &[u8]) -> (r: bool)
        requires
            old(self).wf(),
            h5_send_allowed(old(self), pkt_type, data@),
        ensures
            final(self).wf(),
            Self::h5_send_result_of(old(self), final(self), pkt_type, data@, r),
    {
        let fd = self.uart_fd;
        let mut slip_buf = [0u8; 8192];
        let len = match &mut self.h5 {
            Some(session) => {
                if session.link_state != H5LinkState::Active {
                    return false;
                }
                match session.build_data_frame(pkt_type, &data[1..data.len()], &mut slip_buf) {
                    Some(l) => l,
                    None => { return false; },
                }
            },
            None => { return false; },
        };
        assert(data@.subrange(1, data@.len() as int) =~= data@.skip(1));
        self.uart_write(&slip_buf[0..len]) == len as isize
    }
}

/// The frame of an HCI Reset command.
pub open spec fn reset_cmd_frame() -> Seq<u8> {
    spec_cmd_frame(0x0C03, Seq::empty(), 8)
}

impl HciUartTransport {
    /// Whether sending the command frame `data` over the active protocol
    /// cannot overflow the H5 counters.
    pub open spec fn can_send(&self, data: Seq<u8>) -> bool {
        self.protocol is H5 ==> h5_send_allowed(self, 0x01, data)
    }

    /// `new_t` is `old_t` after sending the command frame `data` over the
    /// active protocol, with outcome `r`.
    pub open spec fn cmd_send_result(old_t: HciUartTransport, new_t: HciUartTransport, data: Seq<u8>, r: bool) -> bool {
        match old_t.protocol {
            HciUartProtocol::H4 => r == (data.len() >= 4 && data[0] == 0x01 && data.len() - 1 <= 65539
                && old_t.uart_fd >= 0) && new_t == old_t,
            HciUartProtocol::H5 => Self::h5_send_result_of(&old_t, &new_t, 0x01, data, r),
        }
    }

    /// `new_t` is `old_t` after sending the command frame `data`, whatever
    /// the outcome.
    pub open spec fn cmd_sent(old_t: HciUartTransport, new_t: HciUartTransport, data: Seq<u8>) -> bool {
        exists|r: bool| Self::cmd_send_result(old_t, new_t, data, r)
    }

    /// Sends an HCI command frame (starting with the command type byte)
    /// over the active protocol.
    pub fn send_hci_command(&mut self, data: &[u8]) -> (r: bool)
        requires
            old(self).wf(),
            old(self).can_send(data@),
        ensures
            final(self).wf(),
            Self::cmd_send_result(*old(self), *final(self), data@, r),
    {
        match self.protocol {
            HciUartProtocol::H4 => self.send_command(data),
            HciUartProtocol::H5 => self.send_command_h5(data),
        }
    }

    /// Receives an HCI event over the active protocol; 0 here, as nothing
    /// arrives from the device.
    pub fn recv_hci_event(&mut self, out_buf: &mut [u8]) -> (r: usize)
        requires
            old(self).wf(),
        ensures
            r == 0,
            *final(self) == *old(self),
            final(out_buf)@ == old(out_buf)@,
    {
        match self.protocol {
            HciUartProtocol::H4 => self.recv_event(out_buf),
            HciUartProtocol::H5 => self.recv_h5(out_buf),
        }
    }

    /// Sends `cmd_data` and polls for the reply, every millisecond (paced
    /// by `delay`, which waits the given number of microseconds) for up to
    /// five seconds. No reply ever arrives here, so after a send this
    /// always times out and returns false.
    pub fn send_cmd_wait_event<D: Fn(u32)>(&mut self, cmd_data: &[u8], evt_buf: &mut [u8], delay: &D) -> (r: bool)
        requires
            old(self).wf(),
            old(self).can_send(cmd_data@),
            forall|us: u32| delay.requires((us,)),
        ensures
            final(self).wf(),
            !r,
            Self::cmd_sent(*old(self), *final(self), cmd_data@),
            final(evt_buf)@ == old(evt_buf)@,
    {
        if !self.send_hci_command(cmd_data) {
            return false;
        }
        let ghost sent = *self;
        let timeout_us: u32 = 5_000_000;
        let step_us: u32 = 1000;
        let polls: u32 = timeout_us / step_us;
        let mut i: u32 = 0;
        while i < polls
            invariant
                self.wf(),
                *self == sent,
                evt_buf@ == old(evt_buf)@,
                forall|us: u32| delay.requires((us,)),
            decreases polls - i,
        {
            let n = self.recv_hci_event(evt_buf);
            if n > 0 {
                return true;
            }
            delay(step_us);
            i = i + 1;
        }
        false
    }

    /// Sends HCI Reset and checks that it completed.
    pub fn hci_reset<D: Fn(u32)>(&mut self, delay: &D) -> (r: bool)
        requires
            old(self).wf(),
            old(self).can_send(reset_cmd_frame()),
            forall|us: u32| delay.requires((us,)),
        ensures
            final(self).wf(),
            !r,
            Self::cmd_sent(*old(self), *final(self), reset_cmd_frame()),
    {
        let mut buf = [0u8; 8];
        let len = build_hci_cmd(&mut buf, 0x0C03, &[]);
        if len == 0 {
            return false;
        }
        assert(buf@.subrange(0, len as int) =~= reset_cmd_frame());
        let mut evt = [0u8; 257];
        if !self.send_cmd_wait_event(&buf[0..len], &mut evt, delay) {
            return false;
        }
        check_cmd_success(&evt, 0x0C03)
    }
}

/// The frame of an HCI command `opcode` without parameters.
pub open spec fn empty_cmd_frame(opcode: u16) -> Seq<u8> {
    spec_cmd_frame(opcode, Seq::empty(), 8)
}

/// Whether `evt` is a successful Command Complete for `opcode` whose
/// return parameters hold at least `n` bytes.
pub open spec fn cmd_complete_with(evt: Seq<u8>, opcode: u16, n: int) -> bool {
    match spec_parse_cmd_complete(evt) {
        Some(p) => p.0 == opcode && p.1 == 0 && p.2 + n <= evt.len(),
        None => false,
    }
}

/// Little-endian 32-bit value of four bytes.
pub open spec fn u32_le(a: u8, b: u8, c: u8, d: u8) -> u32 {
    (a as int + b as int * 0x100 + c as int * 0x10000 + d as int * 0x1000000) as u32
}

/// The fields of an Intel version reply: (hardware revision, address,
/// hardware variant); `None` unless it is a Command Complete event of at
/// least 16 bytes with status 0. The address is zero when the reply is
/// shorter than 19 bytes.
pub open spec fn spec_intel_version(evt: Seq<u8>) -> Option<(u32, Seq<u8>, u8)> {
    if evt.len() < 16 || evt[0] != 0x04 || evt[1] != 0x0E || evt[7] != 0 {
        None
    } else {
        let addr = if evt.len() >= 19 { evt.subrange(13, 19) } else { seq![0u8, 0u8, 0u8, 0u8, 0u8, 0u8] };
        Some((u32_le(evt[9], evt[10], evt[11], evt[12]), addr, evt[8]))
    }
}

/// Reads the Intel version reply `evt`; see `spec_intel_version`.
pub fn parse_intel_version(evt: &[u8]) -> (r: Option<(u32, [u8; 6], u8)>)
    ensures
        match spec_intel_version(evt@) {
            Some(v) => r matches Some(x) && x.0 == v.0 && x.1@ == v.1 && x.2 == v.2,
            None => r is None,
        },
{
    if evt.len() < 16 {
        return None;
    }
    if evt[0] != 0x04 {
        return None;
    }
    if evt[1] != 0x0E {
        return None;
    }
    let poff: usize = 7;
    let status = evt[poff];
    if status != 0 {
        return None;
    }
    let hw_variant = evt[poff + 1];
    let hw_revision: u32 = evt[poff + 2] as u32 + evt[poff + 3] as u32 * 0x100
        + evt[poff + 4] as u32 * 0x10000 + evt[poff + 5] as u32 * 0x1000000;
    let bd_addr_start = poff + 6;
    let mut bd_addr_data = [0u8; 6];
    if bd_addr_start + 6 <= evt.len() {
        let mut i: usize = 0;
        while i < 6
            invariant
                i <= 6,
                bd_addr_start + 6 <= evt@.len(),
                bd_addr_start == 13,
                forall|k: int| 0 <= k < i ==> bd_addr_data@[k] == evt@[13 + k],
            decreases 6 - i,
        {
            bd_addr_data[i] = evt[bd_addr_start + i];
            i = i + 1;
        }
        assert(bd_addr_data@ =~= evt@.subrange(13, 19));
    } else {
        assert(bd_addr_data@ =~= seq![0u8, 0u8, 0u8, 0u8, 0u8, 0u8]);
    }
    Some((hw_revision, bd_addr_data, hw_variant))
}

/// The decimal digits of `v`, most significant first, without leading
/// zeros ("0" for zero).
pub open spec fn dec_digits(v: nat) -> Seq<u8>
    decreases v,
{
    if v < 10 {
        seq![(0x30 + v) as u8]
    } else {
        dec_digits(v / 10) + seq![(0x30 + v % 10) as u8]
    }
}

/// Appends the decimal digits of `v` to `out`.
fn push_decimal(out: &mut Vec<u8>, v: u32)
    ensures
        final(out)@ == old(out)@ + dec_digits(v as nat),
    decreases v,
{
    if v >= 10 {
        push_decimal(out, v / 10);
    }
    out.push(0x30 + (v % 10) as u8);
    proof {
        if v >= 10 {
            assert(final(out)@ =~= old(out)@ + dec_digits(v as nat));
        }
    }
}

/// Copies as much of `src` as fits into the start of `buf`; returns the
/// count.
fn copy_prefix(buf: &mut [u8], src: &[u8]) -> (r: usize)
    ensures
        r == if src@.len() < old(buf)@.len() { src@.len() } else { old(buf)@.len() },
        final(buf)@ == src@.take(r as int) + old(buf)@.skip(r as int),
{
    let n = if src.len() < buf.len() { src.len() } else { buf.len() };
    let mut i: usize = 0;
    while i < n
        invariant
            i <= n,
            n <= src@.len(),
            n <= buf@.len(),
            buf@.len() == old(buf)@.len(),
            buf@ == src@.take(i as int) + old(buf)@.skip(i as int),
        decreases n - i,
    {
        buf[i] = src[i];
        i = i + 1;
        assert(buf@ =~= src@.take(i as int) + old(buf)@.skip(i as int));
    }
    n
}

/// The Intel firmware directory and file name prefix.
pub open spec fn intel_fw_prefix() -> Seq<u8> {
    seq![0x2fu8, 0x6cu8, 0x69u8, 0x62u8, 0x2fu8, 0x66u8, 0x69u8, 0x72u8, 0x6du8, 0x77u8, 0x61u8, 0x72u8, 0x65u8, 0x2fu8, 0x69u8, 0x6eu8, 0x74u8, 0x65u8, 0x6cu8, 0x2fu8, 0x69u8, 0x62u8, 0x74u8, 0x2du8]
}

/// The Broadcom firmware directory.
pub open spec fn brcm_fw_prefix() -> Seq<u8> {
    seq![0x2fu8, 0x6cu8, 0x69u8, 0x62u8, 0x2fu8, 0x66u8, 0x69u8, 0x72u8, 0x6du8, 0x77u8, 0x61u8, 0x72u8, 0x65u8, 0x2fu8, 0x62u8, 0x72u8, 0x63u8, 0x6du8, 0x2fu8]
}

/// The Qualcomm firmware directory.
pub open spec fn qca_fw_prefix() -> Seq<u8> {
    seq![0x2fu8, 0x6cu8, 0x69u8, 0x62u8, 0x2fu8, 0x66u8, 0x69u8, 0x72u8, 0x6du8, 0x77u8, 0x61u8, 0x72u8, 0x65u8, 0x2fu8, 0x71u8, 0x63u8, 0x61u8, 0x2fu8]
}

/// `{prefix}{a}-{b}-{c}{suffix}` with decimal numbers.
pub open spec fn spec_numbered_path(prefix: Seq<u8>, a: nat, b: nat, c: nat, suffix: Seq<u8>) -> Seq<u8> {
    prefix + dec_digits(a) + seq![0x2du8] + dec_digits(b) + seq![0x2du8] + dec_digits(c) + suffix
}

/// The Intel firmware path for a hardware variant and revision, with
/// file suffix `suffix`: the revision's upper and lower 16 bits are the
/// second and third numbers.
pub open spec fn intel_fw_path(hw_variant: u8, hw_revision: u32, suffix: Seq<u8>) -> Seq<u8> {
    spec_numbered_path(intel_fw_prefix(), hw_variant as nat, hw_revision as nat / 0x10000,
        hw_revision as nat % 0x10000, suffix)
}

/// Writes as much of `path` as fits into `buf`; the count written.
pub open spec fn fits_into(path: Seq<u8>, old_buf: Seq<u8>, new_buf: Seq<u8>, r: usize) -> bool {
    &&& r as int == if path.len() < old_buf.len() { path.len() as int } else { old_buf.len() as int }
    &&& new_buf == path.take(r as int) + old_buf.skip(r as int)
}

impl HciUartTransport {
    /// Stores the version fields of a Read Local Version reply `evt`; false
    /// (nothing stored) unless it is a successful Command Complete for
    /// that command with all eight bytes.
    pub fn store_local_version(&mut self, evt: &[u8]) -> (r: bool)
        ensures
            r == cmd_complete_with(evt@, 0x1001, 8),
            r ==> *final(self) == (HciUartTransport {
                hci_version: evt@[7],
                hci_revision: u16_le(evt@[8], evt@[9]),
                lmp_version: evt@[10],
                manufacturer: u16_le(evt@[11], evt@[12]),
                lmp_subversion: u16_le(evt@[13], evt@[14]),
                ..*old(self)
            }),
            !r ==> *final(self) == *old(self),
    {
        match parse_cmd_complete(evt) {
            Some((opcode, status, poff)) => {
                if opcode != 0x1001 || status != 0 {
                    return false;
                }
                if poff + 8 > evt.len() {
                    return false;
                }
                self.hci_version = evt[poff];
                self.hci_revision = read_u16_le(evt[poff + 1], evt[poff + 2]);
                self.lmp_version = evt[poff + 3];
                self.manufacturer = read_u16_le(evt[poff + 4], evt[poff + 5]);
                self.lmp_subversion = read_u16_le(evt[poff + 6], evt[poff + 7]);
                true
            },
            None => false,
        }
    }

    /// Stores the address of a Read BD_ADDR reply `evt`; false (nothing
    /// stored) unless it is a successful Command Complete for that command
    /// with all six bytes.
    pub fn store_bd_addr(&mut self, evt: &[u8]) -> (r: bool)
        ensures
            r == cmd_complete_with(evt@, 0x1009, 6),
            r ==> final(self).bd_addr.0@ == evt@.subrange(7, 13)
                && *final(self) == (HciUartTransport { bd_addr: final(self).bd_addr, ..*old(self) }),
            !r ==> *final(self) == *old(self),
    {
        match parse_cmd_complete(evt) {
            Some((opcode, status, poff)) => {
                if opcode != 0x1009 || status != 0 {
                    return false;
                }
                if poff + 6 > evt.len() {
                    return false;
                }
                let mut addr = [0u8; 6];
                let mut i: usize = 0;
                while i < 6
                    invariant
                        i <= 6,
                        poff == 7,
                        poff + 6 <= evt@.len(),
                        forall|k: int| 0 <= k < i ==> addr@[k] == evt@[7 + k],
                    decreases 6 - i,
                {
                    addr[i] = evt[poff + i];
                    i = i + 1;
                }
                assert(addr@ =~= evt@.subrange(7, 13));
                self.bd_addr = BdAddr(addr);
                true
            },
            None => false,
        }
    }

    /// Reads the controller's version information (see
    /// `store_local_version`). No reply arrives here, so this fails after
    /// sending the command.
    pub fn read_local_version<D: Fn(u32)>(&mut self, delay: &D) -> (r: bool)
        requires
            old(self).wf(),
            old(self).can_send(empty_cmd_frame(0x1001)),
            forall|us: u32| delay.requires((us,)),
        ensures
            final(self).wf(),
            !r,
            Self::cmd_sent(*old(self), *final(self), empty_cmd_frame(0x1001)),
    {
        let mut buf = [0u8; 8];
        let len = build_hci_cmd(&mut buf, 0x1001, &[]);
        if len == 0 {
            return false;
        }
        assert(buf@.subrange(0, len as int) =~= empty_cmd_frame(0x1001));
        let mut evt = [0u8; 257];
        if !self.send_cmd_wait_event(&buf[0..len], &mut evt, delay) {
            return false;
        }
        self.store_local_version(&evt)
    }

    /// Reads the controller's address (see `store_bd_addr`). No reply
    /// arrives here, so this fails after sending the command.
    pub fn read_bd_addr<D: Fn(u32)>(&mut self, delay: &D) -> (r: bool)
        requires
            old(self).wf(),
            old(self).can_send(empty_cmd_frame(0x1009)),
            forall|us: u32| delay.requires((us,)),
        ensures
            final(self).wf(),
            !r,
            Self::cmd_sent(*old(self), *final(self), empty_cmd_frame(0x1009)),
    {
        let mut buf = [0u8; 8];
        let len = build_hci_cmd(&mut buf, 0x1009, &[]);
        if len == 0 {
            return false;
        }
        assert(buf@.subrange(0, len as int) =~= empty_cmd_frame(0x1009));
        let mut evt = [0u8; 257];
        if !self.send_cmd_wait_event(&buf[0..len], &mut evt, delay) {
            return false;
        }
        self.store_bd_addr(&evt)
    }

    /// Reads the Intel version (see `parse_intel_version`). No reply
    /// arrives here, so this fails after sending the command.
    pub fn intel_read_version<D: Fn(u32)>(&mut self, delay: &D) -> (r: Option<(u32, [u8; 6], u8)>)
        requires
            old(self).wf(),
            old(self).can_send(empty_cmd_frame(0xFC05)),
            forall|us: u32| delay.requires((us,)),
        ensures
            final(self).wf(),
            r is None,
            Self::cmd_sent(*old(self), *final(self), empty_cmd_frame(0xFC05)),
    {
        let mut cmd_buf = [0u8; 8];
        let len = build_hci_cmd(&mut cmd_buf, 0xFC05, &[]);
        if len == 0 {
            return None;
        }
        assert(cmd_buf@.subrange(0, len as int) =~= empty_cmd_frame(0xFC05));
        let mut evt = [0u8; 64];
        if !self.send_cmd_wait_event(&cmd_buf[0..len], &mut evt, delay) {
            return None;
        }
        parse_intel_version(&evt)
    }

    /// Writes `{prefix}{a}-{b}-{c}{suffix}` (decimal numbers) into `buf`,
    /// as much as fits; returns the count written.
    fn build_path_impl(buf: &mut [u8], prefix: &[u8], a: u8, b: u16, c: u16, suffix: &[u8]) -> (r: usize)
        ensures
            fits_into(spec_numbered_path(prefix@, a as nat, b as nat, c as nat, suffix@), old(buf)@, final(buf)@, r),
    {
        let mut path: Vec<u8> = Vec::new();
        let mut i: usize = 0;
        while i < prefix.len()
            invariant
                i <= prefix@.len(),
                path@ == prefix@.take(i as int),
            decreases prefix@.len() - i,
        {
            path.push(prefix[i]);
            i = i + 1;
            assert(path@ =~= prefix@.take(i as int));
        }
        assert(prefix@.take(i as int) =~= prefix@);
        push_decimal(&mut path, a as u32);
        path.push(0x2d);
        push_decimal(&mut path, b as u32);
        path.push(0x2d);
        push_decimal(&mut path, c as u32);
        let ghost mid = path@;
        let mut j: usize = 0;
        while j < suffix.len()
            invariant
                j <= suffix@.len(),
                path@ == mid + suffix@.take(j as int),
            decreases suffix@.len() - j,
        {
            path.push(suffix[j]);
            j = j + 1;
            assert(path@ =~= mid + suffix@.take(j as int));
        }
        assert(suffix@.take(j as int) =~= suffix@);
        assert(path@ =~= spec_numbered_path(prefix@, a as nat, b as nat, c as nat, suffix@));
        copy_prefix(buf, path.as_slice())
    }

    /// Writes the Intel firmware (.sfi) path for a hardware variant and
    /// revision into `buf`, as much as fits; returns the count written.
    pub fn intel_build_fw_name(hw_variant: u8, hw_revision: u32, buf: &mut [u8]) -> (r: usize)
        ensures
            fits_into(intel_fw_path(hw_variant, hw_revision, seq![0x2eu8, 0x73u8, 0x66u8, 0x69u8]),
                old(buf)@, final(buf)@, r),
    {
        let rev_major = (hw_revision / 0x10000) as u16;
        let rev_minor = (hw_revision % 0x10000) as u16;
        let prefix: [u8; 24] = [0x2f, 0x6c, 0x69, 0x62, 0x2f, 0x66, 0x69, 0x72, 0x6d, 0x77, 0x61, 0x72, 0x65, 0x2f, 0x69, 0x6e, 0x74, 0x65, 0x6c, 0x2f, 0x69, 0x62, 0x74, 0x2d];
        let suffix: [u8; 4] = [0x2e, 0x73, 0x66, 0x69];
        assert(prefix@ =~= intel_fw_prefix());
        assert(suffix@ =~= seq![0x2eu8, 0x73u8, 0x66u8, 0x69u8]);
        Self::build_path_impl(buf, &prefix, hw_variant, rev_major, rev_minor, &suffix)
    }

    /// Writes the Intel DDC configuration (.ddc) path for a hardware
    /// variant and revision into `buf`, as much as fits; returns the count
    /// written.
    pub fn intel_build_ddc_name(hw_variant: u8, hw_revision: u32, buf: &mut [u8]) -> (r: usize)
        ensures
            fits_into(intel_fw_path(hw_variant, hw_revision, seq![0x2eu8, 0x64u8, 0x64u8, 0x63u8]),
                old(buf)@, final(buf)@, r),
    {
        let rev_major = (hw_revision / 0x10000) as u16;
        let rev_minor = (hw_revision % 0x10000) as u16;
        let prefix: [u8; 24] = [0x2f, 0x6c, 0x69, 0x62, 0x2f, 0x66, 0x69, 0x72, 0x6d, 0x77, 0x61, 0x72, 0x65, 0x2f, 0x69, 0x6e, 0x74, 0x65, 0x6c, 0x2f, 0x69, 0x62, 0x74, 0x2d];
        let suffix: [u8; 4] = [0x2e, 0x64, 0x64, 0x63];
        assert(prefix@ =~= intel_fw_prefix());
        assert(suffix@ =~= seq![0x2eu8, 0x64u8, 0x64u8, 0x63u8]);
        Self::build_path_impl(buf, &prefix, hw_variant, rev_major, rev_minor, &suffix)
    }

    /// Writes `/lib/firmware/brcm/{filename}` into `buf`, as much as fits;
    /// returns the count written.
    pub fn bcm_build_patchram_path(filename: &[u8], buf: &mut [u8]) -> (r: usize)
        ensures
            fits_into(brcm_fw_prefix() + filename@, old(buf)@, final(buf)@, r),
    {
        let prefix: [u8; 19] = [0x2f, 0x6c, 0x69, 0x62, 0x2f, 0x66, 0x69, 0x72, 0x6d, 0x77, 0x61, 0x72, 0x65, 0x2f, 0x62, 0x72, 0x63, 0x6d, 0x2f];
        assert(prefix@ =~= brcm_fw_prefix());
        Self::build_prefixed(&prefix, filename, buf)
    }

    /// Writes `/lib/firmware/qca/{filename}` into `buf`, as much as fits;
    /// returns the count written.
    pub fn qca_build_firmware_path(filename: &[u8], buf: &mut [u8]) -> (r: usize)
        ensures
            fits_into(qca_fw_prefix() + filename@, old(buf)@, final(buf)@, r),
    {
        let prefix: [u8; 18] = [0x2f, 0x6c, 0x69, 0x62, 0x2f, 0x66, 0x69, 0x72, 0x6d, 0x77, 0x61, 0x72, 0x65, 0x2f, 0x71, 0x63, 0x61, 0x2f];
        assert(prefix@ =~= qca_fw_prefix());
        Self::build_prefixed(&prefix, filename, buf)
    }

    /// Writes `prefix` then `filename` into `buf`, as much as fits.
    fn build_prefixed(prefix: &[u8], filename: &[u8], buf: &mut [u8]) -> (r: usize)
        ensures
            fits_into(prefix@ + filename@, old(buf)@, final(buf)@, r),
    {
        let p_len = copy_prefix(buf, prefix);
        let mut pos = p_len;
        let f_len = if filename.len() < buf.len() - pos { filename.len() } else { buf.len() - pos };
        let ghost mid = buf@;
        let mut i: usize = 0;
        while i < f_len
            invariant
                i <= f_len,
                pos == p_len + i,
                p_len + f_len <= buf@.len(),
                f_len <= filename@.len(),
                buf@.len() == old(buf)@.len(),
                p_len == prefix@.len() || p_len == buf@.len(),
                p_len <= prefix@.len(),
                buf@ == prefix@.take(p_len as int) + filename@.take(i as int) + old(buf)@.skip(pos as int),
            decreases f_len - i,
        {
            buf[pos] = filename[i];
            pos = pos + 1;
            i = i + 1;
            assert(buf@ =~= prefix@.take(p_len as int) + filename@.take(i as int) + old(buf)@.skip(pos as int));
        }
        proof {
            let full = prefix@ + filename@;
            if p_len == prefix@.len() {
                assert(prefix@.take(p_len as int) + filename@.take(i as int) =~= full.take(pos as int));
            } else {
                assert(f_len == 0);
                assert(prefix@.take(p_len as int) + filename@.take(i as int) =~= full.take(pos as int));
            }
        }
        pos
    }
}

/// Little-endian bytes of a 32-bit value.
pub open spec fn le32_bytes(x: u32) -> Seq<u8> {
    seq![(x % 0x100) as u8, ((x / 0x100) % 0x100) as u8, ((x / 0x10000) % 0x100) as u8, (x / 0x1000000) as u8]
}

fn le32_array(x: u32) -> (r: [u8; 4])
    ensures
        r@ == le32_bytes(x),
{
    let r: [u8; 4] = [(x % 0x100) as u8, ((x / 0x100) % 0x100) as u8, ((x / 0x10000) % 0x100) as u8,
        (x / 0x1000000) as u8];
    assert(r@ =~= le32_bytes(x));
    r
}

/// The first Intel Secure Send frame of firmware `fw`: sequence number 0
/// and up to 248 bytes.
pub open spec fn secure_send_frame(fw: Seq<u8>) -> Seq<u8> {
    let n = if fw.len() < 248 { fw.len() as int } else { 248 };
    spec_cmd_frame(0xFC09, seq![0u8] + fw.take(n), 260)
}

/// The first QCA EDL patch segment of firmware `fw`: the TLV request and
/// up to 243 bytes.
pub open spec fn tlv_segment_frame(fw: Seq<u8>) -> Seq<u8> {
    let n = if fw.len() < 243 { fw.len() as int } else { 243 };
    spec_cmd_frame(0xFC00, seq![0x1Eu8] + fw.take(n), 260)
}

/// The parameters of a QCA NVM write of record `(tag, _, data)`: the set
/// request, the tag and up to 258 data bytes.
pub open spec fn nvm_set_params(rec: (u8, u16, Seq<u8>)) -> Seq<u8> {
    let n = if rec.2.len() < 258 { rec.2.len() as int } else { 258 };
    seq![0x01u8, rec.0] + rec.2.take(n)
}

/// The event-mask command sent at the end of initialisation.
pub open spec fn event_mask_frame() -> Seq<u8> {
    spec_cmd_frame(0x0C01, Seq::new(8, |i: int| 0xFFu8), 16)
}

impl HciUartTransport {
    /// Initialisation stopped at its first step: the Reset command was sent
    /// (from the Reset state) and no reply came, leaving the Error state.
    pub open spec fn init_failed(old_t: HciUartTransport, new_t: HciUartTransport) -> bool {
        &&& new_t.state == HciState::Error
        &&& Self::cmd_sent(HciUartTransport { state: HciState::Reset, ..old_t },
            HciUartTransport { state: HciState::Reset, ..new_t }, reset_cmd_frame())
    }

    /// Sends firmware `fw_data` with Intel Secure Send commands of up to
    /// 248 bytes each, numbered from 0, stopping at the first that does not
    /// complete. No reply arrives here, so a non-empty firmware fails after
    /// its first segment; an empty one succeeds at once.
    pub fn intel_load_firmware<D: Fn(u32)>(&mut self, fw_data: &[u8], delay: &D) -> (r: bool)
        requires
            old(self).wf(),
            fw_data@.len() > 0 ==> old(self).can_send(secure_send_frame(fw_data@)),
            forall|us: u32| delay.requires((us,)),
        ensures
            final(self).wf(),
            r == (fw_data@.len() == 0),
            fw_data@.len() == 0 ==> *final(self) == *old(self),
            fw_data@.len() > 0 ==> Self::cmd_sent(*old(self), *final(self), secure_send_frame(fw_data@)),
    {
        let chunk_size: usize = 248;
        let mut seq_num: u8 = 0;
        let mut off: usize = 0;
        while off < fw_data.len()
            invariant
                off == 0,
                chunk_size == 248,
                seq_num == 0,
                *self == *old(self),
                self.wf(),
                fw_data@.len() > 0 ==> self.can_send(secure_send_frame(fw_data@)),
                forall|us: u32| delay.requires((us,)),
            decreases fw_data@.len() - off,
        {
            let end = if fw_data.len() - off < chunk_size { fw_data.len() } else { off + chunk_size };
            let data_len = end - off;
            let mut params: Vec<u8> = Vec::new();
            params.push(seq_num);
            let mut k: usize = 0;
            while k < data_len
                invariant
                    k <= data_len,
                    data_len <= 248,
                    off == 0,
                    off + data_len <= fw_data@.len(),
                    params@ == seq![0u8] + fw_data@.subrange(off as int, off + k),
                decreases data_len - k,
            {
                params.push(fw_data[off + k]);
                k = k + 1;
                assert(params@ =~= seq![0u8] + fw_data@.subrange(off as int, off + k));
            }
            assert(params@ =~= seq![0u8] + fw_data@.take(data_len as int));
            let mut cmd_buf = [0u8; 260];
            let len = build_hci_cmd(&mut cmd_buf, 0xFC09, params.as_slice());
            if len == 0 {
                return false;
            }
            assert(cmd_buf@.subrange(0, len as int) =~= secure_send_frame(fw_data@));
            let mut evt = [0u8; 257];
            if !self.send_cmd_wait_event(&cmd_buf[0..len], &mut evt, delay) {
                return false;
            }
            if !check_cmd_success(&evt, 0xFC09) {
                return false;
            }
            seq_num = if seq_num == 255 { 0 } else { seq_num + 1 };
            off = end;
        }
        true
    }

    /// Sets the Intel boot parameter (the controller then boots its
    /// operational firmware). No reply arrives here, so this fails after
    /// sending the command.
    pub fn intel_set_boot_param<D: Fn(u32)>(&mut self, boot_param: u32, delay: &D) -> (r: bool)
        requires
            old(self).wf(),
            old(self).can_send(spec_cmd_frame(0xFC0E, le32_bytes(boot_param), 12)),
            forall|us: u32| delay.requires((us,)),
        ensures
            final(self).wf(),
            !r,
            Self::cmd_sent(*old(self), *final(self), spec_cmd_frame(0xFC0E, le32_bytes(boot_param), 12)),
    {
        let params = le32_array(boot_param);
        let mut cmd_buf = [0u8; 12];
        let len = build_hci_cmd(&mut cmd_buf, 0xFC0E, &params);
        if len == 0 {
            return false;
        }
        assert(cmd_buf@.subrange(0, len as int) =~= spec_cmd_frame(0xFC0E, le32_bytes(boot_param), 12));
        let mut evt = [0u8; 257];
        if !self.send_cmd_wait_event(&cmd_buf[0..len], &mut evt, delay) {
            return false;
        }
        check_cmd_success(&evt, 0xFC0E)
    }

    /// Writes the Broadcom controller's address. No reply arrives here, so
    /// this fails after sending the command.
    pub fn bcm_write_bd_addr<D: Fn(u32)>(&mut self, addr: &[u8; 6], delay: &D) -> (r: bool)
        requires
            old(self).wf(),
            old(self).can_send(spec_cmd_frame(0xFC01, addr@, 16)),
            forall|us: u32| delay.requires((us,)),
        ensures
            final(self).wf(),
            !r,
            Self::cmd_sent(*old(self), *final(self), spec_cmd_frame(0xFC01, addr@, 16)),
    {
        let mut cmd_buf = [0u8; 16];
        let len = build_hci_cmd(&mut cmd_buf, 0xFC01, addr);
        if len == 0 {
            return false;
        }
        assert(cmd_buf@.subrange(0, len as int) =~= spec_cmd_frame(0xFC01, addr@, 16));
        let mut evt = [0u8; 257];
        if !self.send_cmd_wait_event(&cmd_buf[0..len], &mut evt, delay) {
            return false;
        }
        check_cmd_success(&evt, 0xFC01)
    }

    /// Switches the Broadcom controller to `new_baud`, then the local UART.
    /// No reply arrives here, so this fails after sending the command.
    pub fn bcm_update_baud<D: Fn(u32)>(&mut self, new_baud: u32, delay: &D) -> (r: bool)
        requires
            old(self).wf(),
            old(self).can_send(spec_cmd_frame(0xFC18, le32_bytes(new_baud), 12)),
            forall|us: u32| delay.requires((us,)),
        ensures
            final(self).wf(),
            !r,
            Self::cmd_sent(*old(self), *final(self), spec_cmd_frame(0xFC18, le32_bytes(new_baud), 12)),
    {
        let params = le32_array(new_baud);
        let mut cmd_buf = [0u8; 12];
        let len = build_hci_cmd(&mut cmd_buf, 0xFC18, &params);
        if len == 0 {
            return false;
        }
        assert(cmd_buf@.subrange(0, len as int) =~= spec_cmd_frame(0xFC18, le32_bytes(new_baud), 12));
        let mut evt = [0u8; 257];
        if !self.send_cmd_wait_event(&cmd_buf[0..len], &mut evt, delay) {
            return false;
        }
        if !check_cmd_success(&evt, 0xFC18) {
            return false;
        }
        self.set_baud_rate(new_baud)
    }

    /// Downloads QCA patch firmware: a patch-version request enters
    /// download mode, then segments of up to 243 bytes follow. No reply
    /// arrives here, so this fails after the version request.
    pub fn qca_load_firmware<D: Fn(u32)>(&mut self, fw_data: &[u8], delay: &D) -> (r: bool)
        requires
            old(self).wf(),
            old(self).can_send(spec_cmd_frame(0xFC00, seq![0x19u8], 260)),
            forall|us: u32| delay.requires((us,)),
        ensures
            final(self).wf(),
            !r,
            Self::cmd_sent(*old(self), *final(self), spec_cmd_frame(0xFC00, seq![0x19u8], 260)),
    {
        let mut cmd_buf = [0u8; 260];
        let ver_params: [u8; 1] = [0x19];
        let len = build_hci_cmd(&mut cmd_buf, 0xFC00, &ver_params);
        if len == 0 {
            return false;
        }
        assert(ver_params@ =~= seq![0x19u8]);
        assert(cmd_buf@.subrange(0, len as int) =~= spec_cmd_frame(0xFC00, seq![0x19u8], 260));
        let mut evt = [0u8; 257];
        if !self.send_cmd_wait_event(&cmd_buf[0..len], &mut evt, delay) {
            return false;
        }
        self.qca_send_tlv_segments(fw_data, delay)
    }

    /// Sends `fw_data` in EDL patch segments of up to 243 bytes, stopping
    /// at the first that gets no reply. No reply arrives here, so a
    /// non-empty firmware fails after its first segment.
    fn qca_send_tlv_segments<D: Fn(u32)>(&mut self, fw_data: &[u8], delay: &D) -> (r: bool)
        requires
            old(self).wf(),
            fw_data@.len() > 0 ==> old(self).can_send(tlv_segment_frame(fw_data@)),
            forall|us: u32| delay.requires((us,)),
        ensures
            final(self).wf(),
            r == (fw_data@.len() == 0),
            fw_data@.len() == 0 ==> *final(self) == *old(self),
            fw_data@.len() > 0 ==> Self::cmd_sent(*old(self), *final(self), tlv_segment_frame(fw_data@)),
    {
        let chunk_size: usize = 243;
        let mut off: usize = 0;
        while off < fw_data.len()
            invariant
                off == 0,
                chunk_size == 243,
                *self == *old(self),
                self.wf(),
                fw_data@.len() > 0 ==> self.can_send(tlv_segment_frame(fw_data@)),
                forall|us: u32| delay.requires((us,)),
            decreases fw_data@.len() - off,
        {
            let end = if fw_data.len() - off < chunk_size { fw_data.len() } else { off + chunk_size };
            let data_len = end - off;
            let mut params: Vec<u8> = Vec::new();
            params.push(0x1E);
            let mut k: usize = 0;
            while k < data_len
                invariant
                    k <= data_len,
                    data_len <= 243,
                    off == 0,
                    off + data_len <= fw_data@.len(),
                    params@ == seq![0x1Eu8] + fw_data@.subrange(off as int, off + k),
                decreases data_len - k,
            {
                params.push(fw_data[off + k]);
                k = k + 1;
                assert(params@ =~= seq![0x1Eu8] + fw_data@.subrange(off as int, off + k));
            }
            assert(params@ =~= seq![0x1Eu8] + fw_data@.take(data_len as int));
            let mut seg_buf = [0u8; 260];
            let seg_len = build_hci_cmd(&mut seg_buf, 0xFC00, params.as_slice());
            if seg_len == 0 {
                return false;
            }
            assert(seg_buf@.subrange(0, seg_len as int) =~= tlv_segment_frame(fw_data@));
            let mut seg_evt = [0u8; 257];
            if !self.send_cmd_wait_event(&seg_buf[0..seg_len], &mut seg_evt, delay) {
                return false;
            }
            off = end;
        }
        true
    }
}

/// Whether `recs[j]` is the first Broadcom record whose data fits one
/// command (at most 255 bytes).
pub open spec fn bcm_first_sendable(recs: Seq<(u16, Seq<u8>)>, j: int) -> bool {
    &&& 0 <= j < recs.len()
    &&& recs[j].1.len() <= 255
    &&& forall|k: int| 0 <= k < j ==> (#[trigger] recs[k]).1.len() > 255
}

impl HciUartTransport {
    /// Uploads an Intel DDC configuration as one vendor command. False
    /// (nothing sent) when it is longer than 255 bytes; no reply arrives
    /// here, so otherwise this fails after sending it.
    pub fn intel_load_ddc<D: Fn(u32)>(&mut self, ddc_data: &[u8], delay: &D) -> (r: bool)
        requires
            old(self).wf(),
            ddc_data@.len() <= 255 ==> old(self).can_send(spec_cmd_frame(0xFC8B, ddc_data@, 260)),
            forall|us: u32| delay.requires((us,)),
        ensures
            final(self).wf(),
            !r,
            ddc_data@.len() > 255 ==> *final(self) == *old(self),
            ddc_data@.len() <= 255 ==> Self::cmd_sent(*old(self), *final(self), spec_cmd_frame(0xFC8B, ddc_data@, 260)),
    {
        let mut cmd_buf = [0u8; 260];
        let len = build_hci_cmd(&mut cmd_buf, 0xFC8B, ddc_data);
        if len == 0 {
            return false;
        }
        assert(cmd_buf@.subrange(0, len as int) =~= spec_cmd_frame(0xFC8B, ddc_data@, 260));
        let mut evt = [0u8; 257];
        if !self.send_cmd_wait_event(&cmd_buf[0..len], &mut evt, delay) {
            return false;
        }
        check_cmd_success(&evt, 0xFC8B)
    }

    /// Sends the commands of a Broadcom .hcd patch in order, passing over
    /// records too long for one command and stopping at the first command
    /// that gets no reply. No reply arrives here, so this fails at the first
    /// record that fits, and succeeds (sending nothing) when none does.
    pub fn bcm_load_patchram<D: Fn(u32)>(&mut self, patchram_data: &[u8], delay: &D) -> (r: bool)
        requires
            old(self).wf(),
            forall|j: int| bcm_first_sendable(bcm_records_from(patchram_data@, 0), j) ==> old(self).can_send(
                spec_cmd_frame(bcm_records_from(patchram_data@, 0)[j].0, bcm_records_from(patchram_data@, 0)[j].1, 260)),
            forall|us: u32| delay.requires((us,)),
        ensures
            final(self).wf(),
            ({
                let recs = bcm_records_from(patchram_data@, 0);
                &&& r == forall|k: int| 0 <= k < recs.len() ==> (#[trigger] recs[k]).1.len() > 255
                &&& r ==> *final(self) == *old(self)
                &&& !r ==> exists|j: int| bcm_first_sendable(recs, j)
                    && Self::cmd_sent(*old(self), *final(self), spec_cmd_frame(recs[j].0, recs[j].1, 260))
            }),
    {
        let records = bcm_hcd_record_list(patchram_data);
        let ghost recs = bcm_records_from(patchram_data@, 0);
        let mut i: usize = 0;
        while i < records.len()
            invariant
                i <= records@.len(),
                bcm_record_views(records@) == recs,
                recs == bcm_records_from(patchram_data@, 0),
                forall|k: int| 0 <= k < i ==> (#[trigger] recs[k]).1.len() > 255,
                *self == *old(self),
                self.wf(),
                forall|j: int| bcm_first_sendable(recs, j) ==> self.can_send(spec_cmd_frame(recs[j].0, recs[j].1, 260)),
                forall|us: u32| delay.requires((us,)),
            decreases records@.len() - i,
        {
            let rec = &records[i];
            assert(recs[i as int] == (rec.0, rec.1@));
            let mut cmd_buf = [0u8; 260];
            let len = build_hci_cmd(&mut cmd_buf, rec.0, rec.1.as_slice());
            if len > 0 {
                assert(bcm_first_sendable(recs, i as int));
                assert(cmd_buf@.subrange(0, len as int) =~= spec_cmd_frame(recs[i as int].0, recs[i as int].1, 260));
                let mut evt = [0u8; 257];
                if !self.send_cmd_wait_event(&cmd_buf[0..len], &mut evt, delay) {
                    return false;
                }
            }
            i = i + 1;
        }
        true
    }

    /// Writes each record of a QCA NVM file as an NVM-set command (tag and
    /// up to 258 data bytes), stopping at the first that cannot be built or
    /// gets no reply. No reply arrives here, so this fails at the first
    /// record, and succeeds (sending nothing) when there is none.
    pub fn qca_load_nvm<D: Fn(u32)>(&mut self, nvm_data: &[u8], delay: &D) -> (r: bool)
        requires
            old(self).wf(),
            ({
                let recs = qca_records_from(nvm_data@, 0);
                recs.len() > 0 && nvm_set_params(recs[0]).len() <= 255
                    ==> old(self).can_send(spec_cmd_frame(0xFC0B, nvm_set_params(recs[0]), 264))
            }),
            forall|us: u32| delay.requires((us,)),
        ensures
            final(self).wf(),
            ({
                let recs = qca_records_from(nvm_data@, 0);
                &&& r == (recs.len() == 0)
                &&& (recs.len() == 0 || nvm_set_params(recs[0]).len() > 255) ==> *final(self) == *old(self)
                &&& recs.len() > 0 && nvm_set_params(recs[0]).len() <= 255
                    ==> Self::cmd_sent(*old(self), *final(self), spec_cmd_frame(0xFC0B, nvm_set_params(recs[0]), 264))
            }),
    {
        let records = qca_tlv_record_list(nvm_data);
        let ghost recs = qca_records_from(nvm_data@, 0);
        let mut i: usize = 0;
        while i < records.len()
            invariant
                i == 0,
                qca_record_views(records@) == recs,
                recs == qca_records_from(nvm_data@, 0),
                *self == *old(self),
                self.wf(),
                recs.len() > 0 && nvm_set_params(recs[0]).len() <= 255
                    ==> self.can_send(spec_cmd_frame(0xFC0B, nvm_set_params(recs[0]), 264)),
                forall|us: u32| delay.requires((us,)),
            decreases records@.len() - i,
        {
            let rec = &records[i];
            assert(recs[0] == (rec.0, rec.1, rec.2@));
            let copy_len: usize = if rec.2.len() < 258 { rec.2.len() } else { 258 };
            let mut params: Vec<u8> = Vec::new();
            params.push(0x01);
            params.push(rec.0);
            let mut k: usize = 0;
            while k < copy_len
                invariant
                    k <= copy_len,
                    copy_len <= rec.2@.len(),
                    params@ == seq![0x01u8, rec.0] + rec.2@.take(k as int),
                decreases copy_len - k,
            {
                params.push(rec.2[k]);
                k = k + 1;
                assert(params@ =~= seq![0x01u8, rec.0] + rec.2@.take(k as int));
            }
            assert(params@ =~= nvm_set_params(recs[0]));
            let mut cmd_buf = [0u8; 264];
            let len = build_hci_cmd(&mut cmd_buf, 0xFC0B, params.as_slice());
            if len == 0 {
                return false;
            }
            assert(cmd_buf@.subrange(0, len as int) =~= spec_cmd_frame(0xFC0B, nvm_set_params(recs[0]), 264));
            let mut evt = [0u8; 257];
            if !self.send_cmd_wait_event(&cmd_buf[0..len], &mut evt, delay) {
                return false;
            }
            i = i + 1;
        }
        true
    }

    /// Writes the QCA controller's address. No reply arrives here, so this
    /// fails after sending the command.
    pub fn qca_write_bd_addr<D: Fn(u32)>(&mut self, addr: &[u8; 6], delay: &D) -> (r: bool)
        requires
            old(self).wf(),
            old(self).can_send(spec_cmd_frame(0xFC14, addr@, 16)),
            forall|us: u32| delay.requires((us,)),
        ensures
            final(self).wf(),
            !r,
            Self::cmd_sent(*old(self), *final(self), spec_cmd_frame(0xFC14, addr@, 16)),
    {
        let mut cmd_buf = [0u8; 16];
        let len = build_hci_cmd(&mut cmd_buf, 0xFC14, addr);
        if len == 0 {
            return false;
        }
        assert(cmd_buf@.subrange(0, len as int) =~= spec_cmd_frame(0xFC14, addr@, 16));
        let mut evt = [0u8; 257];
        if !self.send_cmd_wait_event(&cmd_buf[0..len], &mut evt, delay) {
            return false;
        }
        check_cmd_success(&evt, 0xFC14)
    }

    /// Turns off the QCA controller's logging. No reply arrives here, so
    /// this fails after sending the command.
    pub fn qca_disable_logging<D: Fn(u32)>(&mut self, delay: &D) -> (r: bool)
        requires
            old(self).wf(),
            old(self).can_send(empty_cmd_frame(0xFC17)),
            forall|us: u32| delay.requires((us,)),
        ensures
            final(self).wf(),
            !r,
            Self::cmd_sent(*old(self), *final(self), empty_cmd_frame(0xFC17)),
    {
        let mut cmd_buf = [0u8; 8];
        let len = build_hci_cmd(&mut cmd_buf, 0xFC17, &[]);
        if len == 0 {
            return false;
        }
        assert(cmd_buf@.subrange(0, len as int) =~= empty_cmd_frame(0xFC17));
        let mut evt = [0u8; 257];
        if !self.send_cmd_wait_event(&cmd_buf[0..len], &mut evt, delay) {
            return false;
        }
        check_cmd_success(&evt, 0xFC17)
    }

    /// Sends the event mask that enables every event and takes whatever
    /// reply is there.
    fn send_event_mask(&mut self)
        requires
            old(self).wf(),
            old(self).can_send(event_mask_frame()),
        ensures
            final(self).wf(),
            Self::cmd_sent(*old(self), *final(self), event_mask_frame()),
    {
        let evt_mask = [0xFFu8; 8];
        let mut cmd_buf = [0u8; 16];
        let len = build_hci_cmd(&mut cmd_buf, 0x0C01, &evt_mask);
        if len > 0 {
            assert(cmd_buf@.subrange(0, len as int) =~= event_mask_frame());
            self.send_hci_command(&cmd_buf[0..len]);
            let mut evt = [0u8; 257];
            let _ = self.recv_hci_event(&mut evt);
        }
    }

    /// Generic initialisation: Reset, read the version and address, set
    /// the event mask, then Up and ready. Each step waits for its reply
    /// (paced by `delay`); none arrives here, so this stops at the Reset
    /// in the Error state.
    pub fn generic_init_sequence<D: Fn(u32)>(&mut self, delay: &D) -> (r: bool)
        requires
            old(self).wf(),
            old(self).can_send(reset_cmd_frame()),
            forall|us: u32| delay.requires((us,)),
        ensures
            final(self).wf(),
            !r,
            Self::init_failed(*old(self), *final(self)),
    {
        self.state = HciState::Reset;
        if !self.hci_reset(delay) {
            self.state = HciState::Error;
            return false;
        }
        if !self.read_local_version(delay) {
            self.state = HciState::Error;
            return false;
        }
        if !self.read_bd_addr(delay) {
            self.state = HciState::Error;
            return false;
        }
        self.send_event_mask();
        self.state = HciState::Up;
        self.ready = true;
        true
    }
}

impl HciUartTransport {
    /// Intel initialisation: Reset, read the Intel version, load the .sfi
    /// firmware and .ddc configuration named after it (read through
    /// `load_file`), set the boot parameter, wait 1.5 s for the reboot,
    /// reopen the UART, Reset again, read the version, store the address
    /// and set the event mask. No reply arrives here, so this stops at the
    /// first Reset in the Error state.
    pub fn intel_init_sequence<D: Fn(u32), L: Fn(&[u8]) -> Option<Vec<u8>>>(&mut self, delay: &D, load_file: &L) -> (r: bool)
        requires
            old(self).wf(),
            old(self).can_send(reset_cmd_frame()),
            forall|us: u32| delay.requires((us,)),
            forall|p: &[u8]| load_file.requires((p,)),
        ensures
            final(self).wf(),
            !r,
            Self::init_failed(*old(self), *final(self)),
    {
        self.state = HciState::Reset;
        if !self.hci_reset(delay) {
            self.state = HciState::Error;
            return false;
        }
        let (hw_revision, bd_addr_data, hw_variant) = match self.intel_read_version(delay) {
            Some(v) => v,
            None => {
                self.state = HciState::Error;
                return false;
            },
        };
        let intel_boot_param: u32 = match self.fw_info {
            UartFirmwareInfo::Intel { boot_param, .. } => boot_param,
            _ => 0,
        };
        let mut fw_buf = [0u8; 64];
        let fw_len = Self::intel_build_fw_name(hw_variant, hw_revision, &mut fw_buf);
        match load_file(&fw_buf[0..fw_len]) {
            Some(fw) => {
                if fw.len() > 0 {
                    let _ = self.intel_load_firmware(fw.as_slice(), delay);
                }
            },
            None => {},
        }
        let mut ddc_buf = [0u8; 64];
        let ddc_len = Self::intel_build_ddc_name(hw_variant, hw_revision, &mut ddc_buf);
        match load_file(&ddc_buf[0..ddc_len]) {
            Some(ddc) => {
                if ddc.len() > 0 {
                    let _ = self.intel_load_ddc(ddc.as_slice(), delay);
                }
            },
            None => {},
        }
        if intel_boot_param != 0 {
            let _ = self.intel_set_boot_param(intel_boot_param, delay);
        }
        delay(1_500_000);
        self.close_uart();
        if !self.open_uart() {
            self.state = HciState::Error;
            return false;
        }
        if !self.hci_reset(delay) {
            self.state = HciState::Error;
            return false;
        }
        if !self.read_local_version(delay) {
            self.state = HciState::Error;
            return false;
        }
        self.bd_addr = BdAddr(bd_addr_data);
        self.send_event_mask();
        self.state = HciState::Up;
        self.ready = true;
        true
    }

    /// Broadcom initialisation: Reset, read the version; with Broadcom
    /// firmware, load the patch file (read through `load_file`), raise the
    /// baud rate to 921600 when lower, and write the configured address;
    /// read the address when none is known; set the event mask. No reply
    /// arrives here, so this stops at the Reset in the Error state.
    pub fn bcm_init_sequence<D: Fn(u32), L: Fn(&[u8]) -> Option<Vec<u8>>>(&mut self, delay: &D, load_file: &L) -> (r: bool)
        requires
            old(self).wf(),
            old(self).can_send(reset_cmd_frame()),
            forall|us: u32| delay.requires((us,)),
            forall|p: &[u8]| load_file.requires((p,)),
        ensures
            final(self).wf(),
            !r,
            Self::init_failed(*old(self), *final(self)),
    {
        self.state = HciState::Reset;
        if !self.hci_reset(delay) {
            self.state = HciState::Error;
            return false;
        }
        if !self.read_local_version(delay) {
            self.state = HciState::Error;
            return false;
        }
        let (is_bcm, bcm_bd_addr, bcm_patchram_name): (bool, Option<[u8; 6]>, &[u8]) = match self.fw_info {
            UartFirmwareInfo::Broadcom { patchram, bd_addr } => (true, bd_addr, patchram),
            _ => (false, None, &[]),
        };
        if bcm_bd_addr.is_some() || is_bcm {
            if bcm_patchram_name.len() > 0 {
                let mut hcd_buf = [0u8; 128];
                let hcd_len = Self::bcm_build_patchram_path(bcm_patchram_name, &mut hcd_buf);
                match load_file(&hcd_buf[0..hcd_len]) {
                    Some(hcd) => {
                        if hcd.len() > 0 {
                            let _ = self.bcm_load_patchram(hcd.as_slice(), delay);
                        }
                    },
                    None => {},
                }
            }
            if self.baud_rate < BAUD_921600 {
                if self.bcm_update_baud(BAUD_921600, delay) {
                    delay(100_000);
                }
            }
            match bcm_bd_addr {
                Some(addr) => {
                    let _ = self.bcm_write_bd_addr(&addr, delay);
                    self.bd_addr = BdAddr(addr);
                },
                None => {},
            }
        }
        if self.bd_addr.is_empty() {
            let _ = self.read_bd_addr(delay);
        }
        self.send_event_mask();
        self.state = HciState::Up;
        self.ready = true;
        true
    }

    /// Qualcomm initialisation: Reset, read the version, load the patch
    /// and NVM files (read through `load_file`), write the configured
    /// address, switch to 3 Mbaud when below 921600, disable the
    /// controller's logging, set the event mask. No reply arrives here, so
    /// this stops at the Reset in the Error state.
    pub fn qca_init_sequence<D: Fn(u32), L: Fn(&[u8]) -> Option<Vec<u8>>>(&mut self, delay: &D, load_file: &L) -> (r: bool)
        requires
            old(self).wf(),
            old(self).can_send(reset_cmd_frame()),
            forall|us: u32| delay.requires((us,)),
            forall|p: &[u8]| load_file.requires((p,)),
        ensures
            final(self).wf(),
            !r,
            Self::init_failed(*old(self), *final(self)),
    {
        self.state = HciState::Reset;
        if !self.hci_reset(delay) {
            self.state = HciState::Error;
            return false;
        }
        if !self.read_local_version(delay) {
            self.state = HciState::Error;
            return false;
        }
        let (qca_bd_addr, qca_patch_name, qca_nvm_name): (Option<[u8; 6]>, &[u8], &[u8]) = match self.fw_info {
            UartFirmwareInfo::Qca { patch_name, nvm_name, bd_addr } => (bd_addr, patch_name, nvm_name),
            _ => (None, &[], &[]),
        };
        if qca_patch_name.len() > 0 {
            let mut fw_buf = [0u8; 128];
            let fw_len = Self::qca_build_firmware_path(qca_patch_name, &mut fw_buf);
            match load_file(&fw_buf[0..fw_len]) {
                Some(fw) => {
                    if fw.len() > 0 {
                        let _ = self.qca_load_firmware(fw.as_slice(), delay);
                    }
                },
                None => {},
            }
        }
        if qca_nvm_name.len() > 0 {
            let mut nvm_buf = [0u8; 128];
            let nvm_len = Self::qca_build_firmware_path(qca_nvm_name, &mut nvm_buf);
            match load_file(&nvm_buf[0..nvm_len]) {
                Some(nvm) => {
                    if nvm.len() > 0 {
                        let _ = self.qca_load_nvm(nvm.as_slice(), delay);
                    }
                },
                None => {},
            }
        }
        match qca_bd_addr {
            Some(addr) => {
                let _ = self.qca_write_bd_addr(&addr, delay);
                self.bd_addr = BdAddr(addr);
            },
            None => {},
        }
        if self.baud_rate < BAUD_921600 {
            self.set_baud_rate(BAUD_3M);
            delay(100_000);
        }
        let _ = self.qca_disable_logging(delay);
        self.send_event_mask();
        self.state = HciState::Up;
        self.ready = true;
        true
    }

    /// Runs the initialisation for the configured firmware.
    pub fn init_sequence<D: Fn(u32), L: Fn(&[u8]) -> Option<Vec<u8>>>(&mut self, delay: &D, load_file: &L) -> (r: bool)
        requires
            old(self).wf(),
            old(self).can_send(reset_cmd_frame()),
            forall|us: u32| delay.requires((us,)),
            forall|p: &[u8]| load_file.requires((p,)),
        ensures
            final(self).wf(),
            !r,
            Self::init_failed(*old(self), *final(self)),
    {
        match self.fw_info {
            UartFirmwareInfo::Intel { .. } => self.intel_init_sequence(delay, load_file),
            UartFirmwareInfo::Broadcom { .. } => self.bcm_init_sequence(delay, load_file),
            UartFirmwareInfo::Qca { .. } => self.qca_init_sequence(delay, load_file),
            UartFirmwareInfo::Generic => self.generic_init_sequence(delay),
        }
    }

    /// Brings up the H5 link: sends SYNC, waits 50 ms, sends CONF, waits
    /// 50 ms, then marks the link active with CRC and reliability on.
    /// False (nothing done) without an H5 session.
    pub fn h5_establish_link<D: Fn(u32)>(&mut self, delay: &D) -> (r: bool)
        requires
            old(self).wf(),
            forall|us: u32| delay.requires((us,)),
        ensures
            final(self).wf(),
            r == old(self).h5 is Some,
            match old(self).h5 {
                Some(s) => *final(self) == (HciUartTransport {
                    h5: Some(H5Session { link_state: H5LinkState::Active, crc_enabled: true, reliable_enabled: true, ..s }),
                    ..*old(self)
                }),
                None => *final(self) == *old(self),
            },
    {
        let mut slip_buf = [0u8; 256];
        let sync_len = match &self.h5 {
            Some(session) => session.build_control(H5_SYNC, &mut slip_buf),
            None => { return false; },
        };
        match sync_len {
            Some(len) => { let _ = self.uart_write(&slip_buf[0..len]); },
            None => {},
        }
        delay(50_000);
        let conf_len = match &self.h5 {
            Some(session) => session.build_control(H5_CONF, &mut slip_buf),
            None => { return false; },
        };
        match conf_len {
            Some(len) => { let _ = self.uart_write(&slip_buf[0..len]); },
            None => {},
        }
        delay(50_000);
        match &mut self.h5 {
            Some(session) => {
                session.link_state = H5LinkState::Active;
                session.crc_enabled = true;
                session.reliable_enabled = true;
            },
            None => {},
        }
        true
    }

    /// Returns the transport to its initial state: UART closed, both
    /// parsers empty, the H5 session reset, state Reset, not ready.
    pub fn reset(&mut self)
        requires
            old(self).wf(),
        ensures
            final(self).wf(),
            *final(self) == (HciUartTransport {
                uart_fd: -1i32,
                h4_rx_state: H4RxState::WaitType,
                h4_accum_len: 0usize,
                h5: final(self).h5,
                slip_decode_state: SlipDecodeState::WaitDelimiter,
                slip_accum_len: 0usize,
                state: HciState::Reset,
                ready: false,
                ..*old(self)
            }),
            old(self).h5 is None ==> final(self).h5 is None,
            old(self).h5 matches Some(s) ==> final(self).h5 matches Some(t) && {
                &&& t.link_state == H5LinkState::Uninitialized
                &&& t.h2c == (H5SeqState { next_seq: 0, expected_seq: 0, last_ack: 0, unacked_count: 0 })
                &&& t.c2h == (H5SeqState { next_seq: 0, expected_seq: 0, last_ack: 0, unacked_count: 0 })
                &&& forall|i: int| 0 <= i < 8 ==> !(#[trigger] t.retry_bufs@[i]).spec_in_use()
                &&& t.last_send_timestamp == 0
                &&& t.crc_enabled == s.crc_enabled
                &&& t.reliable_enabled == s.reliable_enabled
                &&& t.retry_timeout_us == s.retry_timeout_us
                &&& t.negotiated_conf == s.negotiated_conf
            },
    {
        self.close_uart();
        self.h4_rx_state = H4RxState::WaitType;
        self.h4_accum_len = 0;
        match &mut self.h5 {
            Some(h5) => h5.reset(),
            None => {},
        }
        self.slip_decode_state = SlipDecodeState::WaitDelimiter;
        self.slip_accum_len = 0;
        self.state = HciState::Reset;
        self.ready = false;
    }
}

} // verus!
