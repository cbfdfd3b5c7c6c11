//! Message layout of the daemon's IPC interface: recognising the kinds of
//! incoming messages and packing command arguments (device address,
//! connection handle, name) into the 56-byte message payload.
//!
//! Arguments use the `mess_4` layout: four 32-bit little-endian words at
//! offsets 0, 8, 16 and 24, and a name field from offset 32 to the end of
//! the payload.

use vstd::prelude::*;
use vstd::utf8::valid_utf8;
use crate::bytes::{lo8, hi8};
use crate::types::BdAddr;
use crate::bt_daemon::utf8_text;

verus! {

/// A process endpoint number.
pub type Endpoint = i32;

// RS init request
pub const RS_INIT: i32 = 0x720;
pub const RS_PROC_NR: Endpoint = 2;

// Signal and fault-injection requests
pub const SIGS_SIGNAL_RECEIVED: i32 = 0xE00;
pub const COMMON_REQ_FI_CTL: i32 = 0xE02;

// Signals
pub const SIGTERM: i32 = 15;
pub const SIGHUP: i32 = 1;
pub const SIGALRM: i32 = 14;

// SEF init types
pub const SEF_INIT_FRESH: i32 = 0;
pub const SEF_INIT_RESTART: i32 = 2;

// Reply codes
pub const OK: i32 = 0;
pub const EINVAL: i32 = 22;
pub const ENOSYS: i32 = 78;

/// First message type of the Bluetooth daemon's request range.
pub const BT_RQ_BASE: i32 = 0x1D00;

/// Message type of a kernel notification.
pub const NOTIFY_MESSAGE: i32 = 0x1000;

/// The endpoint that stands for "no process".
pub const NONE: Endpoint = 31743;

/// An IPC message: sender, type and a 56-byte payload.
pub struct Message {
    pub m_source: Endpoint,
    pub m_type: i32,
    pub payload: [u8; 56],
}

/// The 32-bit word whose little-endian bytes are `b0..b3`.
pub open spec fn le_word(b0: u8, b1: u8, b2: u8, b3: u8) -> u32 {
    (b0 as u32) | ((b1 as u32) << 8u32) | ((b2 as u32) << 16u32) | ((b3 as u32) << 24u32)
}

/// Unsigned value of the four little-endian bytes at `off`.
pub open spec fn field_u32(p: Seq<u8>, off: int) -> int {
    p[off] + 256 * p[off + 1] + 65536 * p[off + 2] + 16777216 * p[off + 3]
}

/// Unsigned value of the two little-endian bytes at `off`.
pub open spec fn field_u16(p: Seq<u8>, off: int) -> int {
    p[off] + 256 * p[off + 1]
}

/// The payload after writing `v` as a little-endian word at `off`.
pub open spec fn with_word(p: Seq<u8>, off: int, v: i32) -> Seq<u8> {
    p.update(off, v as u8).update(off + 1, (v >> 8u32) as u8).update(off + 2, (v >> 16u32) as u8).update(
        off + 3,
        (v >> 24u32) as u8,
    )
}

/// The payload after storing device address `low`/`high`: the word at 8
/// holds `low`, the word at 16 holds `high` (so its upper half, the
/// connection handle, becomes zero).
pub open spec fn with_bdaddr(p: Seq<u8>, low: u32, high: u16) -> Seq<u8> {
    p.update(8, (low % 256) as u8).update(9, ((low / 256) % 256) as u8).update(
        10,
        ((low / 65536) % 256) as u8,
    ).update(11, (low / 16777216) as u8).update(16, lo8(high)).update(17, hi8(high)).update(
        18,
        0u8,
    ).update(19, 0u8)
}

/// The payload after storing connection handle `h` in the upper half of
/// the word at 16.
pub open spec fn with_handle(p: Seq<u8>, h: u16) -> Seq<u8> {
    p.update(18, lo8(h)).update(19, hi8(h))
}

/// Number of name bytes that fit in the payload (one byte is kept for the
/// terminating zero).
pub open spec fn name_room(name: Seq<u8>) -> int {
    if name.len() < 23 { name.len() as int } else { 23 }
}

/// The payload after storing `name`: at most 23 bytes from offset 32,
/// followed by a zero byte.
pub open spec fn with_name(p: Seq<u8>, name: Seq<u8>) -> Seq<u8> {
    Seq::new(
        p.len(),
        |k: int|
            if 32 <= k < 32 + name_room(name) {
                name[k - 32]
            } else if k == 32 + name_room(name) {
                0u8
            } else {
                p[k]
            },
    )
}

/// `r` is the name held in payload `p`: the bytes from offset 32 up to the
/// first zero byte or the end of the payload.
pub open spec fn is_name_field(p: Seq<u8>, r: Seq<u8>) -> bool {
    &&& 32 + r.len() <= p.len()
    &&& r == p.subrange(32, 32 + r.len() as int)
    &&& forall|k: int| 0 <= k < r.len() ==> r[k] != 0
    &&& 32 + r.len() < p.len() ==> p[32 + r.len() as int] == 0
}

proof fn lemma_word_bytes(b0: u8, b1: u8, b2: u8, b3: u8)
    by (bit_vector)
    ensures
        (le_word(b0, b1, b2, b3) as i32) as u32 == le_word(b0, b1, b2, b3),
        le_word(b0, b1, b2, b3) == b0 + 256 * b1 + 65536 * b2 + 16777216 * b3,
        ((le_word(b0, b1, b2, b3) as i32) & 0xFFFFi32) as u16 == b0 + 256 * b1,
        (((le_word(b0, b1, b2, b3) as i32) >> 16u32) & 0xFFFFi32) as u16 == b2 + 256 * b3,
{
}

proof fn lemma_low_byte0(low: u32)
    by (bit_vector)
    ensures
        (low as i32) as u8 == (low % 256) as u8,
{
}

proof fn lemma_low_byte1(low: u32)
    by (bit_vector)
    ensures
        ((low as i32) >> 8u32) as u8 == ((low / 256) % 256) as u8,
{
}

proof fn lemma_low_byte2(low: u32)
    by (bit_vector)
    ensures
        ((low as i32) >> 16u32) as u8 == ((low / 65536) % 256) as u8,
{
}

proof fn lemma_low_byte3(low: u32)
    by (bit_vector)
    ensures
        ((low as i32) >> 24u32) as u8 == (low / 16777216) as u8,
{
}

proof fn lemma_high_bytes(high: u16)
    by (bit_vector)
    ensures
        (high as i32) as u8 == (high % 256) as u8,
        ((high as i32) >> 8u32) as u8 == (high / 256) as u8,
        ((high as i32) >> 16u32) as u8 == 0u8,
        ((high as i32) >> 24u32) as u8 == 0u8,
{
}

proof fn lemma_handle_bytes(b0: u8, b1: u8, b2: u8, b3: u8, h: u16)
    by (bit_vector)
    ensures
        (((le_word(b0, b1, b2, b3) as i32) & 0x0000FFFFi32) | ((h as i32) << 16u32)) as u8 == b0,
        ((((le_word(b0, b1, b2, b3) as i32) & 0x0000FFFFi32) | ((h as i32) << 16u32))
            >> 8u32) as u8 == b1,
        ((((le_word(b0, b1, b2, b3) as i32) & 0x0000FFFFi32) | ((h as i32) << 16u32))
            >> 16u32) as u8 == (h % 256) as u8,
        ((((le_word(b0, b1, b2, b3) as i32) & 0x0000FFFFi32) | ((h as i32) << 16u32))
            >> 24u32) as u8 == (h / 256) as u8,
{
}

proof fn lemma_low_split(low: u32)
    by (bit_vector)
    ensures
        low % 256 + 256 * ((low / 256) % 256) + 65536 * ((low / 65536) % 256) + 16777216 * (low
            / 16777216) == low,
{
}

impl Message {
    /// An empty message: no sender, type zero, zeroed payload.
    pub fn new() -> (r: Self)
        ensures
            r.m_source == 0,
            r.m_type == 0,
            forall|i: int| 0 <= i < 56 ==> r.payload@[i] == 0,
    {
        Message { m_source: 0, m_type: 0, payload: [0u8; 56] }
    }

    /// Sets the message type.
    pub fn set_type(&mut self, t: i32)
        ensures
            final(self).m_type == t,
            final(self).m_source == old(self).m_source,
            final(self).payload@ == old(self).payload@,
    {
        self.m_type = t;
    }

    /// Reads the little-endian 32-bit word at `offset` of the payload.
    pub fn read_i32(&self, offset: usize) -> (r: i32)
        requires
            offset + 4 <= 56,
        ensures
            r == le_word(
                self.payload@[offset as int],
                self.payload@[offset + 1],
                self.payload@[offset + 2],
                self.payload@[offset + 3],
            ) as i32,
    {
        let w: u32 = (self.payload[offset] as u32) | ((self.payload[offset + 1] as u32) << 8u32)
            | ((self.payload[offset + 2] as u32) << 16u32) | ((self.payload[offset + 3] as u32)
            << 24u32);
        w as i32
    }

    /// Writes `v` as a little-endian 32-bit word at `offset` of the payload.
    pub fn write_i32(&mut self, offset: usize, v: i32)
        requires
            offset + 4 <= 56,
        ensures
            final(self).payload@ == with_word(old(self).payload@, offset as int, v),
            final(self).m_type == old(self).m_type,
            final(self).m_source == old(self).m_source,
    {
        self.payload[offset] = v as u8;
        self.payload[offset + 1] = (v >> 8u32) as u8;
        self.payload[offset + 2] = (v >> 16u32) as u8;
        self.payload[offset + 3] = (v >> 24u32) as u8;
    }
}

/// True if the message is an init request from the reincarnation server.
pub fn is_sef_init(msg: &Message) -> (r: bool)
    ensures
        r == (msg.m_type == RS_INIT && msg.m_source == RS_PROC_NR),
{
    msg.m_type == RS_INIT && msg.m_source == RS_PROC_NR
}

/// True if the message is a signal from the signal manager.
pub fn is_signal(msg: &Message, _status: i32) -> (r: bool)
    ensures
        r == (msg.m_type == SIGS_SIGNAL_RECEIVED),
{
    msg.m_type == SIGS_SIGNAL_RECEIVED
}

/// True if the message is a fault-injection control request.
pub fn is_fault_injection(msg: &Message) -> (r: bool)
    ensures
        r == (msg.m_type == COMMON_REQ_FI_CTL),
{
    msg.m_type == COMMON_REQ_FI_CTL
}

/// True if the message is one of the sixteen Bluetooth daemon commands.
pub fn is_bt_cmd(msg: &Message) -> (r: bool)
    ensures
        r == (BT_RQ_BASE <= msg.m_type <= BT_RQ_BASE + 15),
{
    let m = msg.m_type;
    let base = m & !0x3fi32;
    proof {
        assert((m & !0x3fi32) == 0x1D00i32 && 0x1D00i32 <= m && m <= 0x1D0Fi32 <==> 0x1D00i32
            <= m && m <= 0x1D0Fi32) by (bit_vector);
    }
    base == BT_RQ_BASE && m >= BT_RQ_BASE && m <= BT_RQ_BASE + 15
}

/// True if the message is a kernel notification.
pub fn is_notify(msg: &Message) -> (r: bool)
    ensures
        r == (msg.m_type == NOTIFY_MESSAGE),
{
    msg.m_type == NOTIFY_MESSAGE
}

/// True if signal `signo` asks the daemon to exit.
pub fn is_shutdown(_msg: &Message, signo: i32) -> (r: bool)
    ensures
        r == (signo == SIGTERM || signo == SIGHUP),
{
    signo == SIGTERM || signo == SIGHUP
}

/// The low 32 bits of the device address (the word at offset 8).
pub fn msg_read_bdaddr_low(msg: &Message) -> (r: u32)
    ensures
        r as int == field_u32(msg.payload@, 8),
{
    proof {
        lemma_word_bytes(msg.payload@[8], msg.payload@[9], msg.payload@[10], msg.payload@[11]);
    }
    msg.read_i32(8) as u32
}

/// The high 16 bits of the device address (low half of the word at 16).
pub fn msg_read_bdaddr_high(msg: &Message) -> (r: u16)
    ensures
        r as int == field_u16(msg.payload@, 16),
{
    proof {
        lemma_word_bytes(msg.payload@[16], msg.payload@[17], msg.payload@[18], msg.payload@[19]);
    }
    (msg.read_i32(16) & 0xFFFF) as u16
}

/// Stores a device address: `low` in the word at 8, `high` in the word at 16.
pub fn msg_write_bdaddr(msg: &mut Message, low: u32, high: u16)
    ensures
        final(msg).payload@ == with_bdaddr(old(msg).payload@, low, high),
        final(msg).m_type == old(msg).m_type,
        final(msg).m_source == old(msg).m_source,
{
    proof {
        lemma_low_byte0(low);
        lemma_low_byte1(low);
        lemma_low_byte2(low);
        lemma_low_byte3(low);
        lemma_high_bytes(high);
    }
    msg.write_i32(8, low as i32);
    msg.write_i32(16, high as i32);
    assert(msg.payload@ =~= with_bdaddr(old(msg).payload@, low, high));
}

/// The connection handle (upper half of the word at 16).
pub fn msg_read_handle(msg: &Message) -> (r: u16)
    ensures
        r as int == field_u16(msg.payload@, 18),
{
    proof {
        lemma_word_bytes(msg.payload@[16], msg.payload@[17], msg.payload@[18], msg.payload@[19]);
    }
    ((msg.read_i32(16) >> 16u32) & 0xFFFF) as u16
}

/// Stores a connection handle in the upper half of the word at 16, keeping
/// the lower half.
pub fn msg_write_handle(msg: &mut Message, handle: u16)
    ensures
        final(msg).payload@ == with_handle(old(msg).payload@, handle),
        final(msg).m_type == old(msg).m_type,
        final(msg).m_source == old(msg).m_source,
{
    let existing = msg.read_i32(16);
    let new_val = (existing & 0x0000FFFF) | ((handle as i32) << 16u32);
    proof {
        lemma_handle_bytes(
            msg.payload@[16],
            msg.payload@[17],
            msg.payload@[18],
            msg.payload@[19],
            handle,
        );
    }
    msg.write_i32(16, new_val);
    assert(msg.payload@ =~= with_handle(old(msg).payload@, handle));
}

/// The name held in the payload: the bytes from offset 32 up to the first
/// zero byte, at most 24 bytes.
pub fn msg_read_name(msg: &Message) -> (r: &[u8])
    ensures
        is_name_field(msg.payload@, r@),
{
    let max_bytes: usize = 24;
    let mut len: usize = max_bytes;
    let mut i: usize = 0;
    while i < max_bytes
        invariant_except_break
            len == max_bytes,
        invariant
            0 <= i <= max_bytes,
            max_bytes == 24,
            forall|k: int| 32 <= k < 32 + i ==> msg.payload@[k] != 0,
        ensures
            len <= 24,
            forall|k: int| 32 <= k < 32 + len ==> msg.payload@[k] != 0,
            len < 24 ==> msg.payload@[32 + len] == 0,
        decreases max_bytes - i,
    {
        if msg.payload[32 + i] == 0 {
            len = i;
            break;
        }
        i = i + 1;
    }
    let whole = msg.payload.as_slice();
    let r = vstd::slice::slice_subrange(whole, 32, 32 + len);
    proof {
        assert(r@ =~= msg.payload@.subrange(32, 32 + len as int));
    }
    r
}

/// Stores a name: at most 23 bytes of `name` from offset 32, then a zero.
pub fn msg_write_name(msg: &mut Message, name: &[u8])
    ensures
        final(msg).payload@ == with_name(old(msg).payload@, name@),
        final(msg).m_type == old(msg).m_type,
        final(msg).m_source == old(msg).m_source,
{
    let max_bytes: usize = 23;
    let len: usize = if name.len() < max_bytes { name.len() } else { max_bytes };
    let ghost orig = msg.payload@;
    let mut i: usize = 0;
    while i < len
        invariant
            0 <= i <= len,
            len == name_room(name@),
            len <= 23,
            msg.payload@.len() == 56,
            msg.m_type == old(msg).m_type,
            msg.m_source == old(msg).m_source,
            orig == old(msg).payload@,
            forall|k: int| 0 <= k < 56 && !(32 <= k < 32 + i) ==> msg.payload@[k] == orig[k],
            forall|k: int| 32 <= k < 32 + i ==> msg.payload@[k] == name@[k - 32],
        decreases len - i,
    {
        msg.payload[32 + i] = name[i];
        i = i + 1;
    }
    msg.payload[32 + len] = 0;
    assert(msg.payload@ =~= with_name(orig, name@));
}

/// Storing a device address and reading it back gives the address; the
/// connection handle sharing its word reads as zero afterwards.
pub proof fn lemma_bdaddr_roundtrip(p: Seq<u8>, low: u32, high: u16)
    requires
        p.len() == 56,
    ensures
        field_u32(with_bdaddr(p, low, high), 8) == low,
        field_u16(with_bdaddr(p, low, high), 16) == high,
        field_u16(with_bdaddr(p, low, high), 18) == 0,
{
    lemma_low_split(low);
}

/// Storing a connection handle and reading it back gives the handle, and
/// leaves the device address fields as they were.
pub proof fn lemma_handle_roundtrip(p: Seq<u8>, h: u16)
    requires
        p.len() == 56,
    ensures
        field_u16(with_handle(p, h), 18) == h,
        field_u32(with_handle(p, h), 8) == field_u32(p, 8),
        field_u16(with_handle(p, h), 16) == field_u16(p, 16),
{
}

/// Storing a name without zero bytes and reading it back gives the name,
/// cut to 23 bytes.
pub proof fn lemma_name_roundtrip(p: Seq<u8>, name: Seq<u8>)
    requires
        p.len() == 56,
        forall|k: int| 0 <= k < name_room(name) ==> name[k] != 0,
    ensures
        is_name_field(with_name(p, name), name.take(name_room(name))),
{
    let q = with_name(p, name);
    let n = name_room(name);
    assert(name.take(n) =~= q.subrange(32, 32 + n));
}

/// A payload holds one name only.
pub proof fn lemma_name_field_unique(p: Seq<u8>, a: Seq<u8>, b: Seq<u8>)
    requires
        is_name_field(p, a),
        is_name_field(p, b),
    ensures
        a == b,
{
    if a.len() < b.len() {
        assert(b[a.len() as int] == p[32 + a.len() as int]);
    } else if b.len() < a.len() {
        assert(a[b.len() as int] == p[32 + b.len() as int]);
    }
}


// ============================================================================
// Daemon requests
// ============================================================================

/// A request of the daemon's command range, decoded from a message.
pub enum DaemonRequest {
    StartDiscovery,
    StopDiscovery,
    GetDevices,
    Connect(BdAddr),
    Disconnect { handle: u16, reason: u8 },
    GetConnections,
    /// Set the local name; `None` when the name field is empty or not
    /// UTF-8, so that there is nothing to set.
    SetName(Option<Vec<u8>>),
    SetDiscoverable(bool),
    SetConnectable(bool),
    GetStatus,
    Pair(BdAddr),
    Unpair(BdAddr),
    /// Register a service; `name` is `None` when the name field is not
    /// UTF-8 (a default name is used then).
    RegisterService { psm: u16, channel: u8, uuid16: u16, name: Option<Vec<u8>> },
    /// An unknown command, or pairing requested for the all-zero address.
    Invalid,
}

/// The device address carried by a request: the word at 8 and the low half
/// of the word at 16, least significant byte first.
pub open spec fn request_addr(p: Seq<u8>) -> Seq<u8> {
    seq![p[8], p[9], p[10], p[11], p[16], p[17]]
}

/// True when every byte of address `a` is zero.
pub open spec fn addr_is_null(a: Seq<u8>) -> bool {
    forall|i: int| 0 <= i < 6 ==> a[i] == 0
}

/// `n` is what a set-name request carries for payload `p`.
pub open spec fn set_name_arg(p: Seq<u8>, n: Option<Vec<u8>>) -> bool {
    match n {
        Some(v) => is_name_field(p, v@) && v@.len() > 0 && valid_utf8(v@),
        None => forall|nm: Seq<u8>| is_name_field(p, nm) ==> nm.len() == 0 || !valid_utf8(nm),
    }
}

/// `n` is the service name a register request carries for payload `p`.
pub open spec fn service_name_arg(p: Seq<u8>, n: Option<Vec<u8>>) -> bool {
    match n {
        Some(v) => is_name_field(p, v@) && valid_utf8(v@),
        None => forall|nm: Seq<u8>| is_name_field(p, nm) ==> !valid_utf8(nm),
    }
}

/// `r` is the request that command number `cmd` (counted from
/// `BT_RQ_BASE`) with payload `p` stands for.
pub open spec fn request_matches(cmd: int, p: Seq<u8>, r: DaemonRequest) -> bool {
    if cmd == 0 {
        r is StartDiscovery
    } else if cmd == 1 {
        r is StopDiscovery
    } else if cmd == 2 {
        r is GetDevices
    } else if cmd == 3 {
        r matches DaemonRequest::Connect(a) && a.0@ == request_addr(p)
    } else if cmd == 4 {
        r matches DaemonRequest::Disconnect { handle, reason } && handle == field_u16(p, 18)
            && reason == p[24]
    } else if cmd == 5 {
        r is GetConnections
    } else if cmd == 6 {
        r matches DaemonRequest::SetName(n) && set_name_arg(p, n)
    } else if cmd == 7 {
        r matches DaemonRequest::SetDiscoverable(on) && on == (field_u32(p, 8) != 0)
    } else if cmd == 8 {
        r matches DaemonRequest::SetConnectable(on) && on == (field_u32(p, 8) != 0)
    } else if cmd == 9 {
        r is GetStatus
    } else if cmd == 10 || cmd == 11 {
        if addr_is_null(request_addr(p)) {
            r is Invalid
        } else if cmd == 10 {
            r matches DaemonRequest::Pair(a) && a.0@ == request_addr(p)
        } else {
            r matches DaemonRequest::Unpair(a) && a.0@ == request_addr(p)
        }
    } else if cmd == 12 {
        r matches DaemonRequest::RegisterService { psm, channel, uuid16, name } && psm == field_u16(
            p,
            0,
        ) && channel == p[8] && uuid16 == field_u16(p, 16) && service_name_arg(p, name)
    } else {
        r is Invalid
    }
}

proof fn lemma_word_fields(b0: u8, b1: u8, b2: u8, b3: u8)
    by (bit_vector)
    ensures
        ((le_word(b0, b1, b2, b3) as i32) == 0i32) == (le_word(b0, b1, b2, b3) == 0u32),
        (le_word(b0, b1, b2, b3) as i32) as u16 == b0 + 256 * b1,
        (le_word(b0, b1, b2, b3) as i32) as u8 == b0,
        ((le_word(b0, b1, b2, b3) as i32) & 0xFFi32) as u8 == b0,
{
}

proof fn lemma_split_u32(w: u32, b0: u8, b1: u8, b2: u8, b3: u8)
    by (bit_vector)
    requires
        w == b0 + 256 * b1 + 65536 * b2 + 16777216 * b3,
    ensures
        w as u8 == b0,
        (w >> 8u32) as u8 == b1,
        (w >> 16u32) as u8 == b2,
        (w >> 24u32) as u8 == b3,
{
}

proof fn lemma_split_u16(h: u16, b0: u8, b1: u8)
    by (bit_vector)
    requires
        h == b0 + 256 * b1,
    ensures
        h as u8 == b0,
        (h >> 8u16) as u8 == b1,
{
}

/// The device address carried in the request payload.
fn read_request_addr(msg: &Message) -> (a: BdAddr)
    ensures
        a.0@ == request_addr(msg.payload@),
{
    let low = msg_read_bdaddr_low(msg);
    let high = msg_read_bdaddr_high(msg);
    proof {
        let p = msg.payload@;
        lemma_split_u32(low, p[8], p[9], p[10], p[11]);
        lemma_split_u16(high, p[16], p[17]);
    }
    let a = BdAddr::new(
        [low as u8, (low >> 8u32) as u8, (low >> 16u32) as u8, (low >> 24u32) as u8, high as u8, (high
            >> 8u16) as u8],
    );
    assert(a.0@ =~= request_addr(msg.payload@));
    a
}

/// The name field as UTF-8 text, when it is.
fn read_text_name(msg: &Message) -> (r: Option<Vec<u8>>)
    ensures
        match r {
            Some(v) => is_name_field(msg.payload@, v@) && valid_utf8(v@),
            None => forall|nm: Seq<u8>| is_name_field(msg.payload@, nm) ==> !valid_utf8(nm),
        },
{
    let bytes = msg_read_name(msg);
    match utf8_text(bytes) {
        Some(_) => Some(vstd::slice::slice_to_vec(bytes)),
        None => {
            proof {
                assert forall|nm: Seq<u8>| is_name_field(msg.payload@, nm) implies !valid_utf8(nm) by {
                    lemma_name_field_unique(msg.payload@, nm, bytes@);
                }
            }
            None
        },
    }
}

/// Decodes a command of the daemon's range into the request it stands for.
pub fn decode_request(msg: &Message) -> (r: DaemonRequest)
    requires
        BT_RQ_BASE <= msg.m_type <= BT_RQ_BASE + 15,
    ensures
        request_matches(msg.m_type - BT_RQ_BASE, msg.payload@, r),
{
    let cmd_offset = (msg.m_type - BT_RQ_BASE) as u8;
    let ghost p = msg.payload@;
    if cmd_offset == 0 {
        DaemonRequest::StartDiscovery
    } else if cmd_offset == 1 {
        DaemonRequest::StopDiscovery
    } else if cmd_offset == 2 {
        DaemonRequest::GetDevices
    } else if cmd_offset == 3 {
        DaemonRequest::Connect(read_request_addr(msg))
    } else if cmd_offset == 4 {
        let handle = msg_read_handle(msg);
        proof {
            lemma_word_fields(p[24], p[25], p[26], p[27]);
        }
        let reason = (msg.read_i32(24) & 0xFF) as u8;
        DaemonRequest::Disconnect { handle, reason }
    } else if cmd_offset == 5 {
        DaemonRequest::GetConnections
    } else if cmd_offset == 6 {
        match read_text_name(msg) {
            Some(v) => {
                if v.len() > 0 {
                    DaemonRequest::SetName(Some(v))
                } else {
                    proof {
                        assert forall|nm: Seq<u8>| is_name_field(p, nm) implies nm.len() == 0
                            || !valid_utf8(nm) by {
                            lemma_name_field_unique(p, nm, v@);
                        }
                    }
                    DaemonRequest::SetName(None)
                }
            },
            None => DaemonRequest::SetName(None),
        }
    } else if cmd_offset == 7 || cmd_offset == 8 {
        proof {
            lemma_word_fields(p[8], p[9], p[10], p[11]);
            lemma_word_bytes(p[8], p[9], p[10], p[11]);
        }
        let enable = msg.read_i32(8) != 0;
        if cmd_offset == 7 {
            DaemonRequest::SetDiscoverable(enable)
        } else {
            DaemonRequest::SetConnectable(enable)
        }
    } else if cmd_offset == 9 {
        DaemonRequest::GetStatus
    } else if cmd_offset == 10 || cmd_offset == 11 {
        let addr = read_request_addr(msg);
        if addr.is_null() {
            DaemonRequest::Invalid
        } else if cmd_offset == 10 {
            DaemonRequest::Pair(addr)
        } else {
            DaemonRequest::Unpair(addr)
        }
    } else if cmd_offset == 12 {
        proof {
            lemma_word_fields(p[0], p[1], p[2], p[3]);
            lemma_word_fields(p[8], p[9], p[10], p[11]);
            lemma_word_fields(p[16], p[17], p[18], p[19]);
        }
        let psm = msg.read_i32(0) as u16;
        let channel = msg.read_i32(8) as u8;
        let uuid16 = msg.read_i32(16) as u16;
        let name = read_text_name(msg);
        DaemonRequest::RegisterService { psm, channel, uuid16, name }
    } else {
        DaemonRequest::Invalid
    }
}


// ============================================================================
// Replies
// ============================================================================

/// Reply code of a request that succeeded (`ok`) or was refused.
pub open spec fn outcome_code(ok: bool) -> int {
    if ok { OK as int } else { -EINVAL }
}

/// Finishes the reply to a request that succeeded or was refused: the reply
/// code becomes the message type and is returned.
pub fn reply_outcome(msg: &mut Message, ok: bool) -> (r: i32)
    ensures
        r == outcome_code(ok),
        final(msg).m_type == r,
        final(msg).payload@ == old(msg).payload@,
        final(msg).m_source == old(msg).m_source,
{
    let r = if ok { OK } else { -EINVAL };
    msg.m_type = r;
    r
}

/// Finishes the reply to a listing request: the number of entries, at most
/// 65535, goes to the word at 0.
pub fn reply_count(msg: &mut Message, count: usize) -> (r: i32)
    ensures
        r == OK,
        final(msg).m_type == OK,
        final(msg).payload@ == with_word(
            old(msg).payload@,
            0,
            (if count < 65535 { count } else { 65535 }) as i32,
        ),
        final(msg).m_source == old(msg).m_source,
{
    let capped: usize = if count < 65535 { count } else { 65535 };
    msg.write_i32(0, capped as i32);
    msg.m_type = OK;
    OK
}

/// Finishes the reply to a status request: running flag, number of known
/// devices, number of active connections and controller flag go to the
/// words at 0, 8, 16 and 24.
pub fn reply_status(
    msg: &mut Message,
    running: bool,
    devices: usize,
    connections: usize,
    enabled: bool,
) -> (r: i32)
    ensures
        r == OK,
        final(msg).m_type == OK,
        final(msg).payload@ == with_word(
            with_word(
                with_word(
                    with_word(old(msg).payload@, 0, if running { 1i32 } else { 0i32 }),
                    8,
                    devices as i32,
                ),
                16,
                connections as i32,
            ),
            24,
            if enabled { 1i32 } else { 0i32 },
        ),
        final(msg).m_source == old(msg).m_source,
{
    let run_flag: i32 = if running { 1 } else { 0 };
    let enabled_flag: i32 = if enabled { 1 } else { 0 };
    msg.write_i32(0, run_flag);
    msg.write_i32(8, devices as i32);
    msg.write_i32(16, connections as i32);
    msg.write_i32(24, enabled_flag);
    msg.m_type = OK;
    OK
}

} // verus!
