//! State and controller information the daemon keeps about its HCI device.

use vstd::prelude::*;
use crate::types::BdAddr;
use crate::bytes::{le16, lo8, hi8, u16_le, read_u16_le, push_u16_le, push_slice, copy_range};
use crate::hci::{hci_opcode, spec_opcode};

verus! {

/// State of the HCI device as the daemon manages it.
#[derive(Clone, Copy, PartialEq, Eq, Debug, Structural)]
pub enum HciDevState {
    /// Not opened or initialised.
    Down,
    /// Being opened.
    Opening,
    /// HCI Reset in progress.
    Resetting,
    /// Reading controller version and features.
    Configuring,
    /// Operational.
    Up,
    /// Fatal error; needs a reset.
    Error,
}

/// Controller information read during initialisation.
#[derive(Clone, Debug)]
pub struct HciDevInfo {
    /// Local address.
    pub bdaddr: BdAddr,
    pub hci_version: u8,
    pub hci_revision: u16,
    pub lmp_version: u8,
    pub lmp_subversion: u16,
    /// Manufacturer ID assigned by the Bluetooth SIG.
    pub manufacturer: u16,
    /// ACL data packet length.
    pub acl_mtu: u16,
    /// SCO data packet length.
    pub sco_mtu: u8,
    /// Number of ACL buffers.
    pub acl_pkts: u16,
    /// Local name.
    pub name: [u8; 248],
    pub class_of_device: [u8; 3],
}

impl HciDevInfo {
    /// Nothing read yet: the null address, all numbers 0, an empty name
    /// and class.
    pub fn new() -> (r: Self)
        ensures
            r.bdaddr.0@ == seq![0u8, 0u8, 0u8, 0u8, 0u8, 0u8],
            r.hci_version == 0 && r.hci_revision == 0,
            r.lmp_version == 0 && r.lmp_subversion == 0,
            r.manufacturer == 0,
            r.acl_mtu == 0 && r.sco_mtu == 0 && r.acl_pkts == 0,
            r.name@ == Seq::new(248, |i: int| 0u8),
            r.class_of_device@ == seq![0u8, 0u8, 0u8],
    {
        let r = HciDevInfo {
            bdaddr: BdAddr::null(),
            hci_version: 0,
            hci_revision: 0,
            lmp_version: 0,
            lmp_subversion: 0,
            manufacturer: 0,
            acl_mtu: 0,
            sco_mtu: 0,
            acl_pkts: 0,
            name: [0u8; 248],
            class_of_device: [0u8; 3],
        };
        assert(r.name@ =~= Seq::new(248, |i: int| 0u8));
        assert(r.class_of_device@ =~= seq![0u8, 0u8, 0u8]);
        r
    }
}

// ============================================================================
// Command packets and their parameters
// ============================================================================

/// A command packet: type 0x01, the opcode of `ogf` and `ocf` (little
/// endian), the parameter count truncated to 8 bits, the parameters.
pub open spec fn command_bytes(ogf: u8, ocf: u16, params: Seq<u8>) -> Seq<u8> {
    seq![0x01u8] + le16(spec_opcode(ogf, ocf)) + seq![params.len() as u8] + params
}

/// Builds the command packet for `ogf`, `ocf` and `params`.
pub fn command_packet(ogf: u8, ocf: u16, params: &[u8]) -> (r: Vec<u8>)
    ensures
        r@ == command_bytes(ogf, ocf, params@),
{
    let mut pkt: Vec<u8> = Vec::new();
    pkt.push(0x01);
    push_u16_le(&mut pkt, hci_opcode(ogf, ocf));
    pkt.push(params.len() as u8);
    push_slice(&mut pkt, params);
    assert(pkt@ =~= command_bytes(ogf, ocf, params@));
    pkt
}

/// Inquiry parameters: the LAP, the inquiry length, the most responses.
pub fn inquiry_params(lap: [u8; 3], inquiry_length: u8, num_responses: u8) -> (r: Vec<u8>)
    ensures
        r@ == lap@ + seq![inquiry_length, num_responses],
{
    let mut p: Vec<u8> = Vec::new();
    push_slice(&mut p, lap.as_slice());
    p.push(inquiry_length);
    p.push(num_responses);
    assert(p@ =~= lap@ + seq![inquiry_length, num_responses]);
    p
}

/// Create Connection parameters: the address (least significant byte
/// first), the packet types, then page scan mode, reserved, clock offset
/// and role switch all 0.
pub fn create_connection_params(bdaddr: &BdAddr, pkt_type: u16) -> (r: Vec<u8>)
    ensures
        r@ == bdaddr.0@ + le16(pkt_type) + seq![0u8, 0u8, 0u8, 0u8, 0u8],
{
    let mut p: Vec<u8> = Vec::new();
    push_slice(&mut p, bdaddr.0.as_slice());
    push_u16_le(&mut p, pkt_type);
    p.push(0x00);
    p.push(0x00);
    p.push(0x00);
    p.push(0x00);
    p.push(0x00);
    assert(p@ =~= bdaddr.0@ + le16(pkt_type) + seq![0u8, 0u8, 0u8, 0u8, 0u8]);
    p
}

/// Disconnect parameters: the handle (little endian) and the reason.
pub fn disconnect_params(handle: u16, reason: u8) -> (r: Vec<u8>)
    ensures
        r@ == le16(handle) + seq![reason],
{
    let mut p: Vec<u8> = Vec::new();
    push_u16_le(&mut p, handle);
    p.push(reason);
    assert(p@ =~= le16(handle) + seq![reason]);
    p
}

/// LE Create Connection parameters: zero scan interval and window, no
/// filter list, the peer address type and address, the same type as own
/// address type, and zero connection intervals, latency, supervision
/// timeout and connection event lengths.
pub open spec fn le_create_connection_bytes(bdaddr: Seq<u8>, addr_type: u8) -> Seq<u8> {
    seq![0u8, 0u8, 0u8, 0u8, 0u8, addr_type] + bdaddr + seq![addr_type]
        + seq![0u8, 0u8, 0u8, 0u8, 0u8, 0u8, 0u8, 0u8, 0u8, 0u8, 0u8]
}

/// LE Create Connection parameters (see `le_create_connection_bytes`).
pub fn le_create_connection_params(bdaddr: &BdAddr, addr_type: u8) -> (r: Vec<u8>)
    ensures
        r@ == le_create_connection_bytes(bdaddr.0@, addr_type),
{
    let mut p: Vec<u8> = vec![0u8, 0, 0, 0, 0, addr_type];
    push_slice(&mut p, bdaddr.0.as_slice());
    p.push(addr_type);
    let tail: [u8; 11] = [0u8; 11];
    push_slice(&mut p, tail.as_slice());
    assert(tail@ =~= seq![0u8, 0u8, 0u8, 0u8, 0u8, 0u8, 0u8, 0u8, 0u8, 0u8, 0u8]);
    assert(p@ =~= le_create_connection_bytes(bdaddr.0@, addr_type));
    p
}

/// LE advertising parameters: the interval bounds, connectable undirected
/// advertising, public addresses, no peer address, no filter, TX power 7.
pub open spec fn le_adv_param_bytes(interval_min: u16, interval_max: u16) -> Seq<u8> {
    le16(interval_min) + le16(interval_max)
        + seq![0u8, 0u8, 0u8, 0u8, 0u8, 0u8, 0u8, 0u8, 0u8, 0u8, 0x07u8]
}

/// LE advertising parameters (see `le_adv_param_bytes`).
pub fn le_adv_params(interval_min: u16, interval_max: u16) -> (r: Vec<u8>)
    ensures
        r@ == le_adv_param_bytes(interval_min, interval_max),
{
    let mut p: Vec<u8> = Vec::new();
    push_u16_le(&mut p, interval_min);
    push_u16_le(&mut p, interval_max);
    let tail: [u8; 11] = [0u8, 0, 0, 0, 0, 0, 0, 0, 0, 0, 0x07];
    push_slice(&mut p, tail.as_slice());
    assert(p@ =~= le_adv_param_bytes(interval_min, interval_max));
    p
}

/// IO Capability Request Reply parameters: the address, the IO capability
/// (2 bits), whether OOB data is present, the authentication requirements
/// (3 bits).
pub fn io_capability_reply_params(bdaddr: &BdAddr, io_capability: u8, oob_data: bool, auth_requirements: u8) -> (r: Vec<u8>)
    ensures
        r@ == bdaddr.0@ + seq![io_capability % 4, if oob_data { 1u8 } else { 0u8 }, auth_requirements % 8],
{
    let mut p: Vec<u8> = Vec::new();
    push_slice(&mut p, bdaddr.0.as_slice());
    p.push(io_capability % 4);
    p.push(if oob_data { 0x01 } else { 0x00 });
    p.push(auth_requirements % 8);
    assert(p@ =~= bdaddr.0@ + seq![io_capability % 4, if oob_data { 1u8 } else { 0u8 }, auth_requirements % 8]);
    p
}

/// Default IO capabilities parameters: the IO capability (2 bits), whether
/// OOB data is present, the authentication requirements (3 bits).
pub fn default_io_capabilities_params(io_capability: u8, oob_data: bool, auth_requirements: u8) -> (r: [u8; 3])
    ensures
        r@ == seq![io_capability % 4, if oob_data { 1u8 } else { 0u8 }, auth_requirements % 8],
{
    let r: [u8; 3] = [io_capability % 4, if oob_data { 0x01 } else { 0x00 }, auth_requirements % 8];
    assert(r@ =~= seq![io_capability % 4, if oob_data { 1u8 } else { 0u8 }, auth_requirements % 8]);
    r
}

/// PIN Code Request Reply parameters: the address, the PIN length (at
/// most 16), the PIN padded with zeros to 16 bytes.
pub open spec fn pin_reply_bytes(bdaddr: Seq<u8>, pin: Seq<u8>) -> Seq<u8> {
    let n = if pin.len() < 16 { pin.len() as int } else { 16 };
    bdaddr + seq![n as u8] + pin.take(n) + Seq::new((16 - n) as nat, |i: int| 0u8)
}

/// PIN Code Request Reply parameters (see `pin_reply_bytes`).
pub fn pin_code_reply_params(bdaddr: &BdAddr, pin: &[u8]) -> (r: Vec<u8>)
    ensures
        r@ == pin_reply_bytes(bdaddr.0@, pin@),
{
    let n = if pin.len() < 16 { pin.len() } else { 16 };
    let mut p: Vec<u8> = Vec::new();
    push_slice(&mut p, bdaddr.0.as_slice());
    p.push(n as u8);
    push_slice(&mut p, &pin[0..n]);
    let ghost head = p@;
    let mut i: usize = n;
    while i < 16
        invariant
            n <= i <= 16,
            p@ == head + Seq::new((i - n) as nat, |k: int| 0u8),
        decreases 16 - i,
    {
        p.push(0);
        i = i + 1;
        assert(p@ =~= head + Seq::new((i - n) as nat, |k: int| 0u8));
    }
    assert(p@ =~= pin_reply_bytes(bdaddr.0@, pin@));
    p
}

/// Delete Stored Link Key parameters: the address, then 1 to delete every
/// key or 0 for this address only.
pub fn delete_stored_link_key_params(bdaddr: &BdAddr, delete_all: bool) -> (r: Vec<u8>)
    ensures
        r@ == bdaddr.0@ + seq![if delete_all { 1u8 } else { 0u8 }],
{
    let mut p: Vec<u8> = Vec::new();
    push_slice(&mut p, bdaddr.0.as_slice());
    p.push(if delete_all { 0x01 } else { 0x00 });
    assert(p@ =~= bdaddr.0@ + seq![if delete_all { 1u8 } else { 0u8 }]);
    p
}

/// Write Stored Link Key parameters: one key, the address, the key type (4
/// bits), the key.
pub fn write_stored_link_key_params(bdaddr: &BdAddr, key: &[u8; 16], key_type: u8) -> (r: Vec<u8>)
    ensures
        r@ == seq![1u8] + bdaddr.0@ + seq![key_type % 16] + key@,
{
    let mut p: Vec<u8> = Vec::new();
    p.push(0x01);
    push_slice(&mut p, bdaddr.0.as_slice());
    p.push(key_type % 16);
    push_slice(&mut p, key.as_slice());
    assert(p@ =~= seq![1u8] + bdaddr.0@ + seq![key_type % 16] + key@);
    p
}

/// Read Stored Link Key parameters: the address, then 0 (this address
/// only).
pub fn read_stored_link_key_params(bdaddr: &BdAddr) -> (r: Vec<u8>)
    ensures
        r@ == bdaddr.0@ + seq![0u8],
{
    let mut p: Vec<u8> = Vec::new();
    push_slice(&mut p, bdaddr.0.as_slice());
    p.push(0x00);
    assert(p@ =~= bdaddr.0@ + seq![0u8]);
    p
}

/// LE Start Encryption parameters: the handle, the random number, the
/// EDIV, the long-term key.
pub fn le_start_encryption_params(handle: u16, rand: &[u8; 8], ediv: u16, ltk: &[u8; 16]) -> (r: Vec<u8>)
    ensures
        r@ == le16(handle) + rand@ + le16(ediv) + ltk@,
{
    let mut p: Vec<u8> = Vec::new();
    push_u16_le(&mut p, handle);
    push_slice(&mut p, rand.as_slice());
    push_u16_le(&mut p, ediv);
    push_slice(&mut p, ltk.as_slice());
    p
}

/// Write Local Name parameter: the first (at most 247) bytes of `name`,
/// padded with zeros to 248 bytes.
pub fn local_name_param(name: &[u8]) -> (r: [u8; 248])
    ensures
        ({
            let n = if name@.len() < 247 { name@.len() as int } else { 247 };
            r@ == name@.take(n) + Seq::new((248 - n) as nat, |i: int| 0u8)
        }),
{
    let n = if name.len() < 247 { name.len() } else { 247 };
    let mut r = [0u8; 248];
    let mut i: usize = 0;
    while i < n
        invariant
            i <= n,
            n <= 247,
            n <= name@.len(),
            r@.len() == 248,
            forall|k: int| 0 <= k < i ==> r@[k] == name@[k],
            forall|k: int| i <= k < 248 ==> r@[k] == 0u8,
        decreases n - i,
    {
        r[i] = name[i];
        i = i + 1;
    }
    assert(r@ =~= name@.take(n as int) + Seq::new((248 - n) as nat, |i: int| 0u8));
    r
}

// ============================================================================
// Incoming packets
// ============================================================================

/// An event payload `| code | length | parameters |`: the code and the
/// parameters, or `None` when the announced parameters are missing.
pub open spec fn spec_event(p: Seq<u8>) -> Option<(u8, Seq<u8>)> {
    if p.len() < 2 || p.len() < 2 + p[1] {
        None
    } else {
        Some((p[0], p.subrange(2, 2 + p[1] as int)))
    }
}

/// Splits an event payload (see `spec_event`).
pub fn split_event(payload: &[u8]) -> (r: Option<(u8, Vec<u8>)>)
    ensures
        match spec_event(payload@) {
            Some((c, d)) => r matches Some((rc, rd)) && rc == c && rd@ == d,
            None => r is None,
        },
{
    if payload.len() < 2 {
        return None;
    }
    let len = payload[1] as usize;
    if payload.len() - 2 < len {
        return None;
    }
    Some((payload[0], copy_range(payload, 2, 2 + len)))
}

/// The number of commands awaiting an answer after event `code`: one
/// fewer (not below 0) after Command Complete (0x0E) or Command Status
/// (0x0F).
pub fn pending_after_event(pending: u32, code: u8) -> (r: u32)
    ensures
        r == if (code == 0x0E || code == 0x0F) && pending > 0 { (pending - 1) as u32 } else { pending },
{
    if (code == 0x0E || code == 0x0F) && pending > 0 {
        pending - 1
    } else {
        pending
    }
}

/// An ACL payload `| handle+flags (2) | length (2) | data |`: the 12-bit
/// handle, the packet boundary and broadcast flags (2 bits each) and the
/// data, or `None` when the announced data is missing.
pub open spec fn spec_acl(p: Seq<u8>) -> Option<(u16, u8, u8, Seq<u8>)> {
    if p.len() < 4 {
        None
    } else {
        let hf = u16_le(p[0], p[1]) as int;
        let n = u16_le(p[2], p[3]) as int;
        if p.len() < 4 + n {
            None
        } else {
            Some(((hf % 4096) as u16, ((hf / 4096) % 4) as u8, ((hf / 16384) % 4) as u8, p.subrange(4, 4 + n)))
        }
    }
}

/// Splits an ACL payload (see `spec_acl`).
pub fn split_acl(payload: &[u8]) -> (r: Option<(u16, u8, u8, Vec<u8>)>)
    ensures
        match spec_acl(payload@) {
            Some((h, pb, bc, d)) => r matches Some((rh, rpb, rbc, rd)) && rh == h && rpb == pb && rbc == bc && rd@ == d,
            None => r is None,
        },
{
    if payload.len() < 4 {
        return None;
    }
    let hf = read_u16_le(payload[0], payload[1]);
    let len = read_u16_le(payload[2], payload[3]) as usize;
    if payload.len() - 4 < len {
        return None;
    }
    let handle = hf % 4096;
    let pb = ((hf / 4096) % 4) as u8;
    let bc = ((hf / 16384) % 4) as u8;
    Some((handle, pb, bc, copy_range(payload, 4, 4 + len)))
}

/// An SCO payload `| handle low | handle high | length | data |`: a
/// handle made of the low four bits of each of the first two bytes, and
/// the data, or `None` when the announced data is missing.
pub open spec fn spec_sco(p: Seq<u8>) -> Option<(u16, Seq<u8>)> {
    if p.len() < 3 || p.len() < 3 + p[2] {
        None
    } else {
        Some((u16_le((p[0] % 16) as u8, (p[1] % 16) as u8), p.subrange(3, 3 + p[2] as int)))
    }
}

/// Splits an SCO payload (see `spec_sco`).
pub fn split_sco(payload: &[u8]) -> (r: Option<(u16, Vec<u8>)>)
    ensures
        match spec_sco(payload@) {
            Some((h, d)) => r matches Some((rh, rd)) && rh == h && rd@ == d,
            None => r is None,
        },
{
    if payload.len() < 3 {
        return None;
    }
    let len = payload[2] as usize;
    if payload.len() - 3 < len {
        return None;
    }
    let handle = read_u16_le(payload[0] % 16, payload[1] % 16);
    Some((handle, copy_range(payload, 3, 3 + len)))
}

} // verus!
