//! The Bluetooth daemon's bookkeeping: known remote devices and active
//! connections, the protocol multiplexer that answers L2CAP signaling and
//! routes channel data, local settings, pairing state and the decoding of
//! requests from applications.

use vstd::prelude::*;
use vstd::string::StringSliceAdditionalSpecFns;
use vstd::utf8::valid_utf8;
use crate::types::{BdAddr, ClassOfDevice, ConnHandle, L2CapPsm, L2CapCid, spec_psm_of, spec_cid_of};
use crate::bytes::{le16, read_u16_le, push_u16_le};
use crate::att::field16;
use crate::l2cap::{
    L2CapChannel, L2CapChannelManager, L2CapChannelState, L2CapSigCode, L2CapSigCommand, L2CapConnReq,
    L2CapConnRsp, L2CapConnResult, L2CapConfigReq, L2CapConfigRsp, L2CapConfigResult, L2CapDisconReq,
    L2CapDisconRsp, L2CapLeCreditConnReq, L2CapCommandReject, L2CapRejectReason, b_frame_bytes,
    sig_command_bytes, sig_commands_from, sig_command_views, first_with_local_cid, first_with_remote_cid,
    channels_without, next_dynamic_cid, config_opts_bytes, config_opts_from, config_opt_views, reject_data,
    build_l2cap_b_frame, build_sig_command, parse_sig_commands, push_config_options,
};

verus! {

/// Most devices remembered.
pub const MAX_DEVICES: usize = 32;
/// Most simultaneous connections.
pub const MAX_CONNECTIONS: usize = 16;
/// Default local name.
pub const DEFAULT_DEVICE_NAME: &'static str = "GergiOS";
/// Default inquiry length in seconds.
pub const DEFAULT_INQUIRY_SECS: u8 = 10;
/// Event poll interval in milliseconds.
pub const HCI_POLL_MS: u64 = 50;
/// Weakest RSSI taken.
pub const MIN_RSSI: i8 = -127;

/// Default class of device: computer, uncategorised.
pub open spec fn default_class() -> Seq<u8> {
    seq![0x00u8, 0x1Eu8, 0x00u8]
}

/// `core::str::from_utf8`: the bytes as text when they are valid UTF-8.
#[verifier::external_body]
pub(crate) fn utf8_text<'a>(bytes: &'a [u8]) -> (r: Option<&'a str>)
    ensures
        r is Some <==> valid_utf8(bytes@),
        r matches Some(s) ==> s.spec_bytes() == bytes@,
{
    match core::str::from_utf8(bytes) {
        Ok(s) => Some(s),
        Err(_) => None,
    }
}

// ============================================================================
// Devices
// ============================================================================

/// Kind of remote device.
#[derive(Clone, Copy, PartialEq, Eq, Debug, Structural)]
pub enum DeviceType {
    Classic,
    Le,
    Dual,
}

/// Bonding state of a device.
#[derive(Clone, Copy, PartialEq, Eq, Debug, Structural)]
pub struct BondFlags {
    pub bonded: bool,
    pub authenticated: bool,
    pub encrypted: bool,
}

/// A remote device seen or connected.
#[derive(Clone, Copy, Debug)]
pub struct RemoteDevice {
    pub bdaddr: BdAddr,
    /// Cached name: the first `name_len` bytes.
    pub name: [u8; 248],
    pub name_len: usize,
    pub class: ClassOfDevice,
    pub dev_type: DeviceType,
    /// Latest signal strength (127: unknown).
    pub rssi: i8,
    /// Seen in the latest inquiry.
    pub found: bool,
    pub bond: BondFlags,
    /// Time last seen, in ticks.
    pub last_seen: u64,
}

/// No bonding.
pub open spec fn no_bond() -> BondFlags {
    BondFlags { bonded: false, authenticated: false, encrypted: false }
}

impl RemoteDevice {
    /// The cached name.
    pub open spec fn spec_name(&self) -> Seq<u8> {
        self.name@.take(self.name_len as int)
    }

    /// Whether `d` is a device just created for address `a`: no name, no
    /// class, classic, unknown RSSI, found, not bonded, never seen.
    pub open spec fn is_fresh(d: RemoteDevice, a: BdAddr) -> bool {
        &&& same_addr(d.bdaddr, a)
        &&& d.name@ == Seq::new(248, |i: int| 0u8)
        &&& d.name_len == 0
        &&& d.class.bytes@ == seq![0u8, 0u8, 0u8]
        &&& d.dev_type == DeviceType::Classic
        &&& d.rssi == 127
        &&& d.found
        &&& d.bond == no_bond()
        &&& d.last_seen == 0
    }

    /// A device just seen at address `bdaddr` (see `is_fresh`).
    pub fn new(bdaddr: BdAddr) -> (r: Self)
        ensures
            Self::is_fresh(r, bdaddr),
    {
        let r = RemoteDevice {
            bdaddr,
            name: [0u8; 248],
            name_len: 0,
            class: ClassOfDevice::new([0u8; 3]),
            dev_type: DeviceType::Classic,
            rssi: 127,
            found: true,
            bond: BondFlags { bonded: false, authenticated: false, encrypted: false },
            last_seen: 0,
        };
        assert(r.name@ =~= Seq::new(248, |i: int| 0u8));
        assert(r.class.bytes@ =~= seq![0u8, 0u8, 0u8]);
        r
    }

    /// The name as text, or "(invalid utf8)" when its first `name_len`
    /// bytes (at most 247) are not valid UTF-8.
    pub fn name_str(&self) -> (r: &str)
        ensures
            ({
                let n = if self.name_len < 247 { self.name_len as int } else { 247 };
                let bytes = self.name@.take(n);
                &&& valid_utf8(bytes) ==> r.spec_bytes() == bytes
                &&& !valid_utf8(bytes) ==> r@ == "(invalid utf8)"@
            }),
    {
        let len = if self.name_len < 247 { self.name_len } else { 247 };
        match utf8_text(&self.name[0..len]) {
            Some(s) => s,
            None => "(invalid utf8)",
        }
    }

    /// Stores the first (at most 247) bytes of `name` as the name.
    pub fn set_name(&mut self, name: &[u8])
        ensures
            ({
                let n = if name@.len() < 247 { name@.len() as int } else { 247 };
                &&& final(self).name_len == n
                &&& final(self).spec_name() == name@.take(n)
                &&& final(self).name@.skip(n) == old(self).name@.skip(n)
                &&& *final(self) == (RemoteDevice { name: final(self).name, name_len: final(self).name_len, ..*old(self) })
            }),
    {
        let len = if name.len() < 247 { name.len() } else { 247 };
        let mut i: usize = 0;
        while i < len
            invariant
                i <= len,
                len <= 247,
                len <= name@.len(),
                self.name@.len() == 248,
                forall|k: int| 0 <= k < i ==> self.name@[k] == name@[k],
                forall|k: int| i <= k < 248 ==> self.name@[k] == old(self).name@[k],
                *self == (RemoteDevice { name: self.name, ..*old(self) }),
            decreases len - i,
        {
            self.name[i] = name[i];
            i = i + 1;
        }
        self.name_len = len;
        assert(self.spec_name() =~= name@.take(len as int));
        assert(self.name@.skip(len as int) =~= old(self).name@.skip(len as int));
    }
}

/// Reads the AD structures of advertising data `data` from offset `i`
/// (`| length | type | data |`, stopping at a zero length or a structure
/// that runs past the end) and returns the data of the last local-name
/// structure (shortened 0x08 or complete 0x09), if any.
pub open spec fn ad_last_name(data: Seq<u8>, i: int) -> Option<Seq<u8>>
    decreases data.len() - i,
{
    if i < 0 || i + 1 >= data.len() {
        None
    } else {
        let len = data[i] as int;
        if len == 0 || i + 1 + len > data.len() {
            None
        } else {
            let here = if data[i + 1] == 0x08 || data[i + 1] == 0x09 {
                Some(data.subrange(i + 2, i + 1 + len))
            } else {
                None
            };
            match ad_last_name(data, i + 1 + len) {
                Some(n) => Some(n),
                None => here,
            }
        }
    }
}

/// Takes the device name from advertising data: the last local-name AD
/// structure, if any, becomes the name (see `RemoteDevice::set_name`).
fn parse_advertising_name(data: &[u8], device: &mut RemoteDevice)
    ensures
        match ad_last_name(data@, 0) {
            Some(n) => {
                let k = if n.len() < 247 { n.len() as int } else { 247 };
                &&& final(device).name_len == k
                &&& final(device).spec_name() == n.take(k)
            },
            None => *final(device) == *old(device),
        },
        *final(device) == (RemoteDevice { name: final(device).name, name_len: final(device).name_len, ..*old(device) }),
{
    let mut i: usize = 0;
    let ghost mut last: Option<Seq<u8>> = None;
    while i < data.len() && data.len() - i > 1
        invariant_except_break
            i <= data@.len(),
            match ad_last_name(data@, i as int) {
                Some(n) => ad_last_name(data@, 0) == Some(n),
                None => ad_last_name(data@, 0) == last,
            },
            match last {
                Some(n) => {
                    let k = if n.len() < 247 { n.len() as int } else { 247 };
                    device.name_len == k && device.spec_name() == n.take(k)
                },
                None => *device == *old(device),
            },
            *device == (RemoteDevice { name: device.name, name_len: device.name_len, ..*old(device) }),
        ensures
            match ad_last_name(data@, 0) {
                Some(n) => {
                    let k = if n.len() < 247 { n.len() as int } else { 247 };
                    device.name_len == k && device.spec_name() == n.take(k)
                },
                None => *device == *old(device),
            },
            *device == (RemoteDevice { name: device.name, name_len: device.name_len, ..*old(device) }),
        decreases data@.len() - i,
    {
        let len = data[i] as usize;
        if len == 0 {
            break;
        }
        let ad_type = data[i + 1];
        if len > data.len() - i - 1 {
            break;
        }
        if ad_type == 0x08 || ad_type == 0x09 {
            let ad = crate::bytes::copy_range(data, i + 2, i + 1 + len);
            device.set_name(ad.as_slice());
            proof {
                last = Some(data@.subrange(i + 2, i + 1 + len));
            }
        }
        i = i + 1 + len;
    }
}

// ============================================================================
// Connections
// ============================================================================

/// Who opened a connection.
#[derive(Clone, Copy, PartialEq, Eq, Debug, Structural)]
pub enum ConnDirection {
    Outgoing,
    Incoming,
}

/// State of a connection.
#[derive(Clone, Copy, PartialEq, Eq, Debug, Structural)]
pub enum ConnState {
    Connecting,
    Connected,
    Disconnecting,
}

/// An HCI connection.
#[derive(Clone, Debug)]
pub struct Connection {
    pub handle: u16,
    pub bdaddr: BdAddr,
    pub direction: ConnDirection,
    pub state: ConnState,
    /// 0: SCO, 1: ACL, 2: eSCO, 3: LE.
    pub link_type: u8,
    pub encrypted: bool,
    pub authenticated: bool,
    /// Local CIDs of its L2CAP channels.
    pub l2cap_channels: Vec<u16>,
}

impl Connection {
    /// A new ACL connection being established.
    pub fn new(handle: u16, bdaddr: BdAddr, direction: ConnDirection) -> (r: Self)
        ensures
            r.handle == handle && r.bdaddr == bdaddr && r.direction == direction,
            r.state == ConnState::Connecting,
            r.link_type == 1,
            !r.encrypted && !r.authenticated,
            r.l2cap_channels@.len() == 0,
    {
        Connection {
            handle,
            bdaddr,
            direction,
            state: ConnState::Connecting,
            link_type: 1,
            encrypted: false,
            authenticated: false,
            l2cap_channels: Vec::new(),
        }
    }

    /// Whether the connection is established.
    pub fn is_connected(&self) -> (r: bool)
        ensures
            r == (self.state == ConnState::Connected),
    {
        self.state == ConnState::Connected
    }
}

// ============================================================================
// Connection manager
// ============================================================================

/// Whether two addresses are the same.
pub open spec fn same_addr(x: BdAddr, y: BdAddr) -> bool {
    x.0@ == y.0@
}

/// Whether `devs` holds a device with address `a`.
pub open spec fn has_device(devs: Seq<RemoteDevice>, a: BdAddr) -> bool {
    exists|i: int| 0 <= i < devs.len() && same_addr(devs[i].bdaddr, a)
}

/// Index of the first device with address `a`.
pub open spec fn first_device(devs: Seq<RemoteDevice>, a: BdAddr) -> int {
    choose|i: int| 0 <= i < devs.len() && same_addr(devs[i].bdaddr, a)
        && forall|j: int| 0 <= j < i ==> !same_addr(devs[j].bdaddr, a)
}

/// Index of the device a full table gives up for a new one: the first not
/// seen in the latest inquiry, else the first.
pub open spec fn evict_index(devs: Seq<RemoteDevice>) -> int {
    if exists|i: int| 0 <= i < devs.len() && !devs[i].found {
        choose|i: int| 0 <= i < devs.len() && !devs[i].found && forall|j: int| 0 <= j < i ==> devs[j].found
    } else {
        0
    }
}

/// Where the entry for address `a` stands once it exists: its current
/// index, the end of a table with room, or the evicted index.
pub open spec fn slot_index(devs: Seq<RemoteDevice>, a: BdAddr) -> int {
    if has_device(devs, a) {
        first_device(devs, a)
    } else if devs.len() < 32 {
        devs.len() as int
    } else {
        evict_index(devs)
    }
}

/// Whether `new_devs` is `old_devs` with the entry for `a` put in place
/// (kept, appended or replacing the evicted one) and then turned into `d`;
/// `base` is what that entry was before `d` was written: the existing
/// entry, or a fresh one.
pub open spec fn slot_written(old_devs: Seq<RemoteDevice>, new_devs: Seq<RemoteDevice>, a: BdAddr, base: RemoteDevice, d: RemoteDevice) -> bool {
    let i = slot_index(old_devs, a);
    &&& has_device(old_devs, a) ==> base == old_devs[i]
    &&& !has_device(old_devs, a) ==> RemoteDevice::is_fresh(base, a)
    &&& if !has_device(old_devs, a) && old_devs.len() < 32 {
        new_devs == old_devs.push(d)
    } else {
        new_devs == old_devs.update(i, d)
    }
}

/// Whether an RSSI report is taken: not "unknown" (127) and not below the
/// weakest value.
pub open spec fn rssi_taken(rssi: i8) -> bool {
    rssi != 127 && rssi >= -127
}

/// Writing over the element just pushed is pushing the new value.
proof fn lemma_push_then_update<A>(s: Seq<A>, x: A)
    ensures
        forall|y: A| #[trigger] s.push(x).update(s.len() as int, y) == s.push(y),
{
    assert forall|y: A| #[trigger] s.push(x).update(s.len() as int, y) == s.push(y) by {
        assert(s.push(x).update(s.len() as int, y) =~= s.push(y));
    }
}

/// Writing twice at one index keeps the second value.
proof fn lemma_update_twice<A>(s: Seq<A>, i: int, x: A)
    requires
        0 <= i < s.len(),
    ensures
        forall|y: A| #[trigger] s.update(i, x).update(i, y) == s.update(i, y),
{
    assert forall|y: A| #[trigger] s.update(i, x).update(i, y) == s.update(i, y) by {
        assert(s.update(i, x).update(i, y) =~= s.update(i, y));
    }
}

/// `d` after an inquiry result: class set, found, seen at `ticks`, and the
/// RSSI taken when it is (see `rssi_taken`).
pub open spec fn after_inquiry(d: RemoteDevice, class: ClassOfDevice, rssi: i8, ticks: u64) -> RemoteDevice {
    RemoteDevice {
        class,
        found: true,
        last_seen: ticks,
        rssi: if rssi_taken(rssi) { rssi } else { d.rssi },
        ..d
    }
}

/// `d` after an LE advertising report, before its name is read: LE, found,
/// seen at `ticks`, and the RSSI taken when it is.
pub open spec fn after_le_report(d: RemoteDevice, rssi: i8, ticks: u64) -> RemoteDevice {
    RemoteDevice {
        dev_type: DeviceType::Le,
        found: true,
        last_seen: ticks,
        rssi: if rssi_taken(rssi) { rssi } else { d.rssi },
        ..d
    }
}

/// Whether `d` is `b` with its name taken from advertising data `data`:
/// the last local-name structure, cut at 247 bytes, or the name unchanged
/// when there is none.
pub open spec fn named_from_ad(b: RemoteDevice, d: RemoteDevice, data: Seq<u8>) -> bool {
    &&& d == (RemoteDevice { name: d.name, name_len: d.name_len, ..b })
    &&& match ad_last_name(data, 0) {
        Some(n) => {
            let k = if n.len() < 247 { n.len() as int } else { 247 };
            d.name_len == k && d.spec_name() == n.take(k)
        },
        None => d == b,
    }
}

/// `d` with its found flag cleared.
pub open spec fn unfound(d: RemoteDevice) -> RemoteDevice {
    RemoteDevice { found: false, ..d }
}

/// The devices of `devs` found in the latest inquiry, in order.
pub open spec fn found_of(devs: Seq<RemoteDevice>) -> Seq<RemoteDevice> {
    devs.filter(|d: RemoteDevice| d.found)
}

/// Whether `c` is a connection just added: the given handle, address,
/// direction and link type, connecting, neither encrypted nor
/// authenticated, with no channels.
pub open spec fn is_new_connection(c: Connection, handle: u16, bdaddr: BdAddr, direction: ConnDirection, link_type: u8) -> bool {
    &&& c.handle == handle
    &&& c.bdaddr == bdaddr
    &&& c.direction == direction
    &&& c.state == ConnState::Connecting
    &&& c.link_type == link_type
    &&& !c.encrypted
    &&& !c.authenticated
    &&& c.l2cap_channels@.len() == 0
}

/// The connections of `cs` whose handle is not `h`, in order.
pub open spec fn conns_without(cs: Seq<Connection>, h: u16) -> Seq<Connection> {
    cs.filter(|c: Connection| c.handle != h)
}

/// The devices and connections known to the daemon and its local settings.
pub struct ConnectionManager {
    devices: Vec<RemoteDevice>,
    connections: Vec<Connection>,
    local_name: [u8; 248],
    local_name_len: usize,
    local_class: ClassOfDevice,
    discoverable: bool,
    connectable: bool,
}

/// Index of the first connection with handle `h`.
pub open spec fn first_conn_handle(cs: Seq<Connection>, h: u16) -> int {
    choose|i: int| 0 <= i < cs.len() && cs[i].handle == h && forall|j: int| 0 <= j < i ==> cs[j].handle != h
}

/// Whether some connection has handle `h`.
pub open spec fn has_conn_handle(cs: Seq<Connection>, h: u16) -> bool {
    exists|i: int| 0 <= i < cs.len() && cs[i].handle == h
}

/// Index of the first connection to address `a`.
pub open spec fn first_conn_addr(cs: Seq<Connection>, a: BdAddr) -> int {
    choose|i: int| 0 <= i < cs.len() && same_addr(cs[i].bdaddr, a)
        && forall|j: int| 0 <= j < i ==> !same_addr(cs[j].bdaddr, a)
}

/// Whether some connection goes to address `a`.
pub open spec fn has_conn_addr(cs: Seq<Connection>, a: BdAddr) -> bool {
    exists|i: int| 0 <= i < cs.len() && same_addr(cs[i].bdaddr, a)
}

/// `c` with its state set to `st`.
pub open spec fn with_state(c: Connection, st: ConnState) -> Connection {
    Connection { state: st, ..c }
}

/// `c` with its encryption flag set to `e`.
pub open spec fn with_encryption(c: Connection, e: bool) -> Connection {
    Connection { encrypted: e, ..c }
}

impl ConnectionManager {
    /// The known devices, in table order.
    pub closed spec fn devices(&self) -> Seq<RemoteDevice> {
        self.devices@
    }

    /// The connections, in creation order.
    pub closed spec fn connections(&self) -> Seq<Connection> {
        self.connections@
    }

    /// The local name.
    pub closed spec fn local_name(&self) -> Seq<u8> {
        self.local_name@.take(self.local_name_len as int)
    }

    /// Whether inquiry scan is on.
    pub closed spec fn discoverable_flag(&self) -> bool {
        self.discoverable
    }

    /// Whether page scan is on.
    pub closed spec fn connectable_flag(&self) -> bool {
        self.connectable
    }

    /// At most 32 devices and 16 connections; names fit 247 bytes.
    pub closed spec fn wf(&self) -> bool {
        &&& self.devices@.len() <= 32
        &&& self.connections@.len() <= 16
        &&& self.local_name_len <= 247
    }

    /// No devices or connections, the name "GergiOS", not discoverable,
    /// connectable.
    pub fn new() -> (r: Self)
        ensures
            r.wf(),
            r.devices().len() == 0,
            r.connections().len() == 0,
            r.local_name() == DEFAULT_DEVICE_NAME.spec_bytes(),
            !r.discoverable_flag(),
            r.connectable_flag(),
    {
        let mut local_name = [0u8; 248];
        let name = DEFAULT_DEVICE_NAME.as_bytes();
        let len = if name.len() < 247 { name.len() } else { 247 };
        let mut i: usize = 0;
        while i < len
            invariant
                i <= len,
                len <= 247,
                len <= name@.len(),
                local_name@.len() == 248,
                forall|k: int| 0 <= k < i ==> local_name@[k] == name@[k],
            decreases len - i,
        {
            local_name[i] = name[i];
            i = i + 1;
        }
        proof {
            reveal_strlit("GergiOS");
            vstd::string::is_ascii_spec_bytes("GergiOS");
        }
        assert(local_name@.take(len as int) =~= name@);
        ConnectionManager {
            devices: Vec::new(),
            connections: Vec::new(),
            local_name,
            local_name_len: len,
            local_class: ClassOfDevice::new([0x00, 0x1E, 0x00]),
            discoverable: false,
            connectable: true,
        }
    }

    /// Whether `other` has the connections and local settings of `self`.
    pub open spec fn same_settings(&self, other: &Self) -> bool {
        &&& other.connections() == self.connections()
        &&& other.local_name() == self.local_name()
        &&& other.discoverable_flag() == self.discoverable_flag()
        &&& other.connectable_flag() == self.connectable_flag()
    }

    /// Whether `other` has the devices and local settings of `self`.
    pub open spec fn same_devices_and_settings(&self, other: &Self) -> bool {
        &&& other.devices() == self.devices()
        &&& other.local_name() == self.local_name()
        &&& other.discoverable_flag() == self.discoverable_flag()
        &&& other.connectable_flag() == self.connectable_flag()
    }

    /// Records an inquiry result: the entry for `bdaddr` (see
    /// `find_or_create_device`) gets the class, is marked found and seen at
    /// `current_ticks`, and takes the RSSI unless it is 127 (unknown) or
    /// below -127.
    pub fn record_inquiry_result(
        &mut self,
        bdaddr: BdAddr,
        class: ClassOfDevice,
        rssi: i8,
        _clock_offset: u16,
        _page_scan_repetition_mode: u8,
        current_ticks: u64,
    )
        requires
            old(self).wf(),
        ensures
            final(self).wf(),
            exists|base: RemoteDevice|
                #[trigger] slot_written(
                    old(self).devices(),
                    final(self).devices(),
                    bdaddr,
                    base,
                    after_inquiry(base, class, rssi, current_ticks),
                ),
            old(self).same_settings(&*final(self)),
    {
        let device = self.find_or_create_device(bdaddr);
        let ghost base = *device;
        device.class = class;
        device.found = true;
        device.last_seen = current_ticks;
        if rssi != 127 && rssi >= MIN_RSSI {
            device.rssi = rssi;
        }
        assert(*device == after_inquiry(base, class, rssi, current_ticks));
    }

    /// Records an LE advertising report: the entry for `bdaddr` (see
    /// `find_or_create_device`) becomes an LE device, is marked found and
    /// seen at `current_ticks`, takes the RSSI unless it is 127 or below
    /// -127, and takes its name from the advertising data.
    pub fn record_le_advertising_report(
        &mut self,
        bdaddr: BdAddr,
        _addr_type: u8,
        rssi: i8,
        data: &[u8],
        current_ticks: u64,
    )
        requires
            old(self).wf(),
        ensures
            final(self).wf(),
            exists|base: RemoteDevice, d: RemoteDevice|
                #[trigger] slot_written(old(self).devices(), final(self).devices(), bdaddr, base, d)
                && named_from_ad(after_le_report(base, rssi, current_ticks), d, data@),
            old(self).same_settings(&*final(self)),
    {
        let device = self.find_or_create_device(bdaddr);
        let ghost base = *device;
        device.dev_type = DeviceType::Le;
        device.found = true;
        device.last_seen = current_ticks;
        if rssi != 127 && rssi >= MIN_RSSI {
            device.rssi = rssi;
        }
        assert(*device == after_le_report(base, rssi, current_ticks));
        parse_advertising_name(data, device);
    }

    /// Clears the found flag of every device, before a new inquiry.
    pub fn clear_found_flags(&mut self)
        requires
            old(self).wf(),
        ensures
            final(self).wf(),
            final(self).devices() == old(self).devices().map_values(|d: RemoteDevice| unfound(d)),
            old(self).same_settings(&*final(self)),
    {
        let mut i: usize = 0;
        while i < self.devices.len()
            invariant
                i <= self.devices@.len(),
                self.devices@.len() == old(self).devices@.len(),
                forall|k: int| 0 <= k < i ==> self.devices@[k] == unfound(old(self).devices@[k]),
                forall|k: int| i <= k < self.devices@.len() ==> self.devices@[k] == old(self).devices@[k],
                self.connections@ == old(self).connections@,
                self.local_name == old(self).local_name,
                self.local_name_len == old(self).local_name_len,
                self.discoverable == old(self).discoverable,
                self.connectable == old(self).connectable,
                old(self).wf(),
            decreases self.devices@.len() - i,
        {
            let d = &mut self.devices[i];
            d.found = false;
            i = i + 1;
        }
        assert(self.devices@ =~= old(self).devices@.map_values(|d: RemoteDevice| unfound(d)));
    }

    /// The devices found in the latest inquiry, in table order.
    pub fn found_devices(&self) -> (r: Vec<&RemoteDevice>)
        ensures
            r@.len() == found_of(self.devices()).len(),
            forall|i: int| 0 <= i < r@.len() ==> *r@[i] == found_of(self.devices())[i],
    {
        let mut out: Vec<&RemoteDevice> = Vec::new();
        let mut i: usize = 0;
        while i < self.devices.len()
            invariant
                i <= self.devices@.len(),
                out@.len() == found_of(self.devices@.take(i as int)).len(),
                forall|k: int| 0 <= k < out@.len() ==> *out@[k] == found_of(self.devices@.take(i as int))[k],
            decreases self.devices@.len() - i,
        {
            proof {
                let t = self.devices@.take(i + 1);
                assert(t.drop_last() =~= self.devices@.take(i as int));
                reveal_with_fuel(Seq::filter, 1);
            }
            if self.devices[i].found {
                out.push(&self.devices[i]);
            }
            i = i + 1;
        }
        assert(self.devices@.take(i as int) =~= self.devices@);
        out
    }

    /// All known devices, in table order.
    pub fn all_devices(&self) -> (r: &[RemoteDevice])
        ensures
            r@ == self.devices(),
    {
        self.devices.as_slice()
    }

    /// The first device with address `bdaddr`.
    pub fn find_device(&self, bdaddr: &BdAddr) -> (r: Option<&RemoteDevice>)
        ensures
            r is Some <==> has_device(self.devices(), *bdaddr),
            r matches Some(d) ==> 0 <= first_device(self.devices(), *bdaddr) < self.devices().len()
                && *d == self.devices()[first_device(self.devices(), *bdaddr)],
    {
        let mut i: usize = 0;
        while i < self.devices.len()
            invariant
                i <= self.devices@.len(),
                forall|j: int| 0 <= j < i ==> !same_addr(self.devices@[j].bdaddr, *bdaddr),
            decreases self.devices@.len() - i,
        {
            if self.devices[i].bdaddr.same(bdaddr) {
                assert(same_addr(self.devices@[i as int].bdaddr, *bdaddr));
                assert(first_device(self.devices@, *bdaddr) == i);
                return Some(&self.devices[i]);
            }
            i = i + 1;
        }
        None
    }

    /// The first device with address `bdaddr`, for the caller to update.
    pub fn find_device_mut(&mut self, bdaddr: &BdAddr) -> (r: Option<&mut RemoteDevice>)
        requires
            old(self).wf(),
        ensures
            final(self).wf(),
            r is Some <==> has_device(old(self).devices(), *bdaddr),
            r is None ==> final(self).devices() == old(self).devices(),
            r matches Some(d) ==> {
                let i = first_device(old(self).devices(), *bdaddr);
                &&& 0 <= i < old(self).devices().len()
                &&& *d == old(self).devices()[i]
                &&& final(self).devices() == old(self).devices().update(i, *final(d))
            },
            old(self).same_settings(&*final(self)),
    {
        let mut i: usize = 0;
        while i < self.devices.len()
            invariant
                i <= self.devices@.len(),
                *self == *old(self),
                self.wf(),
                forall|j: int| 0 <= j < i ==> !same_addr(self.devices@[j].bdaddr, *bdaddr),
            decreases self.devices@.len() - i,
        {
            if self.devices[i].bdaddr.same(bdaddr) {
                assert(same_addr(self.devices@[i as int].bdaddr, *bdaddr));
                assert(first_device(old(self).devices@, *bdaddr) == i);
                return Some(&mut self.devices[i]);
            }
            i = i + 1;
        }
        None
    }

    /// Records a new connection, unless 16 are already recorded: it is
    /// appended as connecting and returned for the caller to fill in.
    pub fn add_connection(
        &mut self,
        handle: u16,
        bdaddr: BdAddr,
        direction: ConnDirection,
        link_type: u8,
    ) -> (r: Option<&mut Connection>)
        requires
            old(self).wf(),
        ensures
            final(self).wf(),
            r is Some <==> old(self).connections().len() < 16,
            r is None ==> final(self).connections() == old(self).connections(),
            r matches Some(c) ==> {
                &&& is_new_connection(*c, handle, bdaddr, direction, link_type)
                &&& final(self).connections() == old(self).connections().push(*final(c))
            },
            old(self).same_devices_and_settings(&*final(self)),
    {
        if self.connections.len() >= MAX_CONNECTIONS {
            return None;
        }
        let mut conn = Connection::new(handle, bdaddr, direction);
        conn.link_type = link_type;
        let ghost fresh = conn;
        proof {
            lemma_push_then_update(self.connections@, fresh);
        }
        self.connections.push(conn);
        let n = self.connections.len() - 1;
        Some(&mut self.connections[n])
    }

    /// The first connection with handle `handle`.
    pub fn find_connection_by_handle(&self, handle: u16) -> (r: Option<&Connection>)
        ensures
            r is Some <==> has_conn_handle(self.connections(), handle),
            r matches Some(c) ==> 0 <= first_conn_handle(self.connections(), handle) < self.connections().len()
                && *c == self.connections()[first_conn_handle(self.connections(), handle)],
    {
        let mut i: usize = 0;
        while i < self.connections.len()
            invariant
                i <= self.connections@.len(),
                forall|j: int| 0 <= j < i ==> self.connections@[j].handle != handle,
            decreases self.connections@.len() - i,
        {
            if self.connections[i].handle == handle {
                assert(first_conn_handle(self.connections@, handle) == i);
                return Some(&self.connections[i]);
            }
            i = i + 1;
        }
        None
    }

    /// The first connection with handle `handle`, for the caller to update.
    pub fn find_connection_by_handle_mut(&mut self, handle: u16) -> (r: Option<&mut Connection>)
        requires
            old(self).wf(),
        ensures
            final(self).wf(),
            r is Some <==> has_conn_handle(old(self).connections(), handle),
            r is None ==> final(self).connections() == old(self).connections(),
            r matches Some(c) ==> {
                let i = first_conn_handle(old(self).connections(), handle);
                &&& 0 <= i < old(self).connections().len()
                &&& *c == old(self).connections()[i]
                &&& final(self).connections() == old(self).connections().update(i, *final(c))
            },
            old(self).same_devices_and_settings(&*final(self)),
    {
        let mut i: usize = 0;
        while i < self.connections.len()
            invariant
                i <= self.connections@.len(),
                *self == *old(self),
                self.wf(),
                forall|j: int| 0 <= j < i ==> self.connections@[j].handle != handle,
            decreases self.connections@.len() - i,
        {
            if self.connections[i].handle == handle {
                assert(first_conn_handle(old(self).connections@, handle) == i);
                return Some(&mut self.connections[i]);
            }
            i = i + 1;
        }
        None
    }

    /// The first connection to address `bdaddr`.
    pub fn find_connection_by_bdaddr(&self, bdaddr: &BdAddr) -> (r: Option<&Connection>)
        ensures
            r is Some <==> has_conn_addr(self.connections(), *bdaddr),
            r matches Some(c) ==> 0 <= first_conn_addr(self.connections(), *bdaddr) < self.connections().len()
                && *c == self.connections()[first_conn_addr(self.connections(), *bdaddr)],
    {
        let mut i: usize = 0;
        while i < self.connections.len()
            invariant
                i <= self.connections@.len(),
                forall|j: int| 0 <= j < i ==> !same_addr(self.connections@[j].bdaddr, *bdaddr),
            decreases self.connections@.len() - i,
        {
            if self.connections[i].bdaddr.same(bdaddr) {
                assert(same_addr(self.connections@[i as int].bdaddr, *bdaddr));
                assert(first_conn_addr(self.connections@, *bdaddr) == i);
                return Some(&self.connections[i]);
            }
            i = i + 1;
        }
        None
    }

    /// The first connection to address `bdaddr`, for the caller to update.
    pub fn find_connection_by_bdaddr_mut(&mut self, bdaddr: &BdAddr) -> (r: Option<&mut Connection>)
        requires
            old(self).wf(),
        ensures
            final(self).wf(),
            r is Some <==> has_conn_addr(old(self).connections(), *bdaddr),
            r is None ==> final(self).connections() == old(self).connections(),
            r matches Some(c) ==> {
                let i = first_conn_addr(old(self).connections(), *bdaddr);
                &&& 0 <= i < old(self).connections().len()
                &&& *c == old(self).connections()[i]
                &&& final(self).connections() == old(self).connections().update(i, *final(c))
            },
            old(self).same_devices_and_settings(&*final(self)),
    {
        let mut i: usize = 0;
        while i < self.connections.len()
            invariant
                i <= self.connections@.len(),
                *self == *old(self),
                self.wf(),
                forall|j: int| 0 <= j < i ==> !same_addr(self.connections@[j].bdaddr, *bdaddr),
            decreases self.connections@.len() - i,
        {
            if self.connections[i].bdaddr.same(bdaddr) {
                assert(same_addr(self.connections@[i as int].bdaddr, *bdaddr));
                assert(first_conn_addr(old(self).connections@, *bdaddr) == i);
                return Some(&mut self.connections[i]);
            }
            i = i + 1;
        }
        None
    }

    /// Marks the first connection with handle `handle` connected; false
    /// when there is none.
    pub fn mark_connected(&mut self, handle: u16) -> (r: bool)
        requires
            old(self).wf(),
        ensures
            final(self).wf(),
            r == has_conn_handle(old(self).connections(), handle),
            r ==> {
                let i = first_conn_handle(old(self).connections(), handle);
                final(self).connections() == old(self).connections().update(
                    i,
                    with_state(old(self).connections()[i], ConnState::Connected),
                )
            },
            !r ==> final(self).connections() == old(self).connections(),
            old(self).same_devices_and_settings(&*final(self)),
    {
        match self.find_connection_by_handle_mut(handle) {
            Some(conn) => {
                conn.state = ConnState::Connected;
                true
            },
            None => false,
        }
    }

    /// Marks the first connection with handle `handle` disconnecting; false
    /// when there is none.
    pub fn mark_disconnecting(&mut self, handle: u16) -> (r: bool)
        requires
            old(self).wf(),
        ensures
            final(self).wf(),
            r == has_conn_handle(old(self).connections(), handle),
            r ==> {
                let i = first_conn_handle(old(self).connections(), handle);
                final(self).connections() == old(self).connections().update(
                    i,
                    with_state(old(self).connections()[i], ConnState::Disconnecting),
                )
            },
            !r ==> final(self).connections() == old(self).connections(),
            old(self).same_devices_and_settings(&*final(self)),
    {
        match self.find_connection_by_handle_mut(handle) {
            Some(conn) => {
                conn.state = ConnState::Disconnecting;
                true
            },
            None => false,
        }
    }

    /// Removes every connection with handle `handle`; true when one was
    /// removed.
    pub fn remove_connection(&mut self, handle: u16) -> (r: bool)
        requires
            old(self).wf(),
        ensures
            final(self).wf(),
            r == has_conn_handle(old(self).connections(), handle),
            final(self).connections() == conns_without(old(self).connections(), handle),
            old(self).same_devices_and_settings(&*final(self)),
    {
        let len = self.connections.len();
        let mut rest: Vec<Connection> = Vec::new();
        core::mem::swap(&mut rest, &mut self.connections);
        let ghost orig = rest@;
        let mut removed = false;
        while rest.len() > 0
            invariant
                orig == old(self).connections@,
                orig.len() == len,
                len <= 16,
                rest@.len() <= len,
                rest@ == orig.skip(len - rest@.len()),
                self.connections@ == conns_without(orig.take(len - rest@.len()), handle),
                self.connections@.len() <= len - rest@.len(),
                removed == has_conn_handle(orig.take(len - rest@.len()), handle),
                !removed ==> self.connections@.len() == len - rest@.len(),
                self.devices@ == old(self).devices@,
                self.local_name == old(self).local_name,
                self.local_name_len == old(self).local_name_len,
                self.discoverable == old(self).discoverable,
                self.connectable == old(self).connectable,
                old(self).wf(),
            decreases rest@.len(),
        {
            let ghost k = len - rest@.len();
            let ghost before = self.connections@;
            let c = rest.remove(0);
            proof {
                let t = orig.take(k + 1);
                assert(c == orig[k]);
                assert(t.drop_last() =~= orig.take(k));
                assert(rest@ =~= orig.skip(k + 1));
                reveal_with_fuel(Seq::filter, 1);
                if has_conn_handle(orig.take(k), handle) {
                    let w = choose|j: int| 0 <= j < orig.take(k).len() && orig.take(k)[j].handle == handle;
                    assert(t[w].handle == handle);
                }
                if has_conn_handle(t, handle) && c.handle != handle {
                    let w = choose|j: int| 0 <= j < t.len() && t[j].handle == handle;
                    assert(orig.take(k)[w].handle == handle);
                }
                if c.handle == handle {
                    assert(t[k].handle == handle);
                }
            }
            if c.handle != handle {
                self.connections.push(c);
            } else {
                removed = true;
            }
        }
        assert(orig.take(len as int) =~= orig);
        proof {
            if !removed {
                assert(self.connections@.len() == len);
            }
        }
        removed
    }

    /// Sets the encryption flag of the first connection with handle
    /// `handle`; false when there is none.
    pub fn set_encryption(&mut self, handle: u16, encrypted: bool) -> (r: bool)
        requires
            old(self).wf(),
        ensures
            final(self).wf(),
            r == has_conn_handle(old(self).connections(), handle),
            r ==> {
                let i = first_conn_handle(old(self).connections(), handle);
                final(self).connections() == old(self).connections().update(
                    i,
                    with_encryption(old(self).connections()[i], encrypted),
                )
            },
            !r ==> final(self).connections() == old(self).connections(),
            old(self).same_devices_and_settings(&*final(self)),
    {
        match self.find_connection_by_handle_mut(handle) {
            Some(conn) => {
                conn.encrypted = encrypted;
                true
            },
            None => false,
        }
    }

    /// All recorded connections, in order.
    pub fn active_connections(&self) -> (r: &[Connection])
        ensures
            r@ == self.connections(),
    {
        self.connections.as_slice()
    }

    /// Whether any connection is recorded.
    pub fn has_connections(&self) -> (r: bool)
        ensures
            r == (self.connections().len() > 0),
    {
        self.connections.len() > 0
    }

    /// Sets the local name to the first (at most 247) bytes of `name`.
    pub fn set_local_name(&mut self, name: &str)
        requires
            old(self).wf(),
        ensures
            final(self).wf(),
            ({
                let b = name.spec_bytes();
                let n = if b.len() < 247 { b.len() as int } else { 247 };
                final(self).local_name() == b.take(n)
            }),
            final(self).devices() == old(self).devices(),
            final(self).connections() == old(self).connections(),
            final(self).discoverable_flag() == old(self).discoverable_flag(),
            final(self).connectable_flag() == old(self).connectable_flag(),
    {
        let bytes = name.as_bytes();
        let len = if bytes.len() < 247 { bytes.len() } else { 247 };
        let mut i: usize = 0;
        while i < len
            invariant
                i <= len,
                len <= 247,
                len <= bytes@.len(),
                self.local_name@.len() == 248,
                forall|k: int| 0 <= k < i ==> self.local_name@[k] == bytes@[k],
                self.devices@ == old(self).devices@,
                self.connections@ == old(self).connections@,
                self.discoverable == old(self).discoverable,
                self.connectable == old(self).connectable,
                old(self).wf(),
            decreases len - i,
        {
            self.local_name[i] = bytes[i];
            i = i + 1;
        }
        self.local_name_len = len;
        assert(self.local_name@.take(len as int) =~= bytes@.take(len as int));
    }

    /// The local name as text, or "GergiOS" when its bytes are not valid
    /// UTF-8.
    pub fn local_name_str(&self) -> (r: &str)
        requires
            self.wf(),
        ensures
            valid_utf8(self.local_name()) ==> r.spec_bytes() == self.local_name(),
            !valid_utf8(self.local_name()) ==> r@ == DEFAULT_DEVICE_NAME@,
    {
        match utf8_text(&self.local_name[0..self.local_name_len]) {
            Some(s) => s,
            None => DEFAULT_DEVICE_NAME,
        }
    }

    /// The local name's bytes.
    pub fn local_name_bytes(&self) -> (r: &[u8])
        requires
            self.wf(),
        ensures
            r@ == self.local_name(),
    {
        &self.local_name[0..self.local_name_len]
    }

    /// Turns inquiry scan on or off.
    pub fn set_discoverable(&mut self, discoverable: bool)
        ensures
            final(self).discoverable_flag() == discoverable,
            final(self).devices() == old(self).devices(),
            final(self).connections() == old(self).connections(),
            final(self).local_name() == old(self).local_name(),
            final(self).connectable_flag() == old(self).connectable_flag(),
            final(self).wf() == old(self).wf(),
    {
        self.discoverable = discoverable;
    }

    /// Whether inquiry scan is on.
    pub fn is_discoverable(&self) -> (r: bool)
        ensures
            r == self.discoverable_flag(),
    {
        self.discoverable
    }

    /// Turns page scan on or off.
    pub fn set_connectable(&mut self, connectable: bool)
        ensures
            final(self).connectable_flag() == connectable,
            final(self).devices() == old(self).devices(),
            final(self).connections() == old(self).connections(),
            final(self).local_name() == old(self).local_name(),
            final(self).discoverable_flag() == old(self).discoverable_flag(),
            final(self).wf() == old(self).wf(),
    {
        self.connectable = connectable;
    }

    /// Whether page scan is on.
    pub fn is_connectable(&self) -> (r: bool)
        ensures
            r == self.connectable_flag(),
    {
        self.connectable
    }

    /// The entry for `bdaddr`: the existing one, else a fresh one appended,
    /// or (with 32 devices) replacing the first not found in the latest
    /// inquiry, or the first.
    fn find_or_create_device(&mut self, bdaddr: BdAddr) -> (r: &mut RemoteDevice)
        requires
            old(self).wf(),
        ensures
            final(self).wf(),
            slot_written(old(self).devices(), final(self).devices(), bdaddr, *r, *final(r)),
            final(self).connections() == old(self).connections(),
            final(self).local_name() == old(self).local_name(),
            final(self).discoverable_flag() == old(self).discoverable_flag(),
            final(self).connectable_flag() == old(self).connectable_flag(),
    {
        let mut i: usize = 0;
        while i < self.devices.len()
            invariant
                i <= self.devices@.len(),
                self.devices@ == old(self).devices@,
                *self == *old(self),
                self.wf(),
                forall|j: int| 0 <= j < i ==> !same_addr(self.devices@[j].bdaddr, bdaddr),
            decreases self.devices@.len() - i,
        {
            if self.devices[i].bdaddr.same(&bdaddr) {
                assert(self.devices@[i as int].bdaddr.0@ == bdaddr.0@);
                assert(first_device(old(self).devices@, bdaddr) == i);
                return &mut self.devices[i];
            }
            i = i + 1;
        }
        assert(!has_device(old(self).devices@, bdaddr));
        if self.devices.len() < MAX_DEVICES {
            let fresh = RemoteDevice::new(bdaddr);
            proof {
                lemma_push_then_update(self.devices@, fresh);
            }
            self.devices.push(fresh);
            let n = self.devices.len() - 1;
            &mut self.devices[n]
        } else {
            let mut j: usize = 0;
            let mut idx: usize = 0;
            let mut done = false;
            while j < self.devices.len() && !done
                invariant
                    j <= self.devices@.len(),
                    self.devices@.len() == 32,
                    self.devices@ == old(self).devices@,
                    !done ==> idx == 0,
                    !done ==> forall|k: int| 0 <= k < j ==> self.devices@[k].found,
                    done ==> idx < 32 && evict_index(old(self).devices@) == idx,
                decreases self.devices@.len() - j + (if done { 0int } else { 1int }),
            {
                if !self.devices[j].found {
                    idx = j;
                    assert(evict_index(old(self).devices@) == j);
                    done = true;
                } else {
                    j = j + 1;
                }
            }
            if !done {
                assert(evict_index(old(self).devices@) == 0);
            }
            let fresh = RemoteDevice::new(bdaddr);
            proof {
                lemma_update_twice(self.devices@, idx as int, fresh);
            }
            self.devices.set(idx, fresh);
            &mut self.devices[idx]
        }
    }
}

// ============================================================================
// Protocol multiplexer
// ============================================================================

/// A signaling command: code, identifier and data.
pub type SigCmd = (L2CapSigCode, u8, Seq<u8>);

/// Whether the daemon accepts BR/EDR connections on PSM `raw`: SDP,
/// RFCOMM, HID control and HID interrupt.
pub open spec fn classic_psm_supported(raw: u16) -> bool {
    raw == 0x0001 || raw == 0x0003 || raw == 0x0011 || raw == 0x0013
}

/// Whether the daemon accepts LE credit-based connections on PSM `raw`.
pub open spec fn le_psm_supported(raw: u16) -> bool {
    raw == 0x0025 || raw == 0x0027
}

/// A signaling command in a B-frame on the BR/EDR signaling channel.
pub open spec fn sig_frame(code: L2CapSigCode, id: u8, data: Seq<u8>) -> Seq<u8> {
    b_frame_bytes(0x0001, sig_command_bytes(code, id, data))
}

/// Whether some channel has local CID `cid`.
pub open spec fn has_local_cid(s: Seq<L2CapChannel>, cid: u16) -> bool {
    exists|i: int| 0 <= i < s.len() && s[i].local_cid == cid
}

/// Whether some channel has remote CID `cid`.
pub open spec fn has_remote_cid(s: Seq<L2CapChannel>, cid: u16) -> bool {
    exists|i: int| 0 <= i < s.len() && s[i].remote_cid == cid
}

/// `s` with the first channel of local CID `cid`, if any, replaced by
/// `f` of it.
pub open spec fn update_local(s: Seq<L2CapChannel>, cid: u16, f: spec_fn(L2CapChannel) -> L2CapChannel) -> Seq<L2CapChannel> {
    if has_local_cid(s, cid) {
        let i = first_with_local_cid(s, cid);
        s.update(i, f(s[i]))
    } else {
        s
    }
}

/// The channel opened for a request from remote CID `remote`: on local
/// CID `local`, waiting for configuration.
pub open spec fn accepted_channel(h: ConnHandle, local: u16, psm: L2CapPsm, remote: u16) -> L2CapChannel {
    L2CapChannel { state: L2CapChannelState::WaitConnect, remote_cid: remote, ..L2CapChannel::spec_new(h, local, psm) }
}

/// Answer to a Connection Request.
pub open spec fn conn_rsp_frame(id: u8, dest: u16, src: u16, result: L2CapConnResult) -> Seq<u8> {
    sig_frame(
        L2CapSigCode::ConnectionResponse,
        id,
        (L2CapConnRsp { destination_cid: dest, source_cid: src, result, status: 0 }).spec_build(),
    )
}

/// Connection Request `d` with identifier `id`: on a supported PSM a
/// channel on the next CID is opened and accepted, else the PSM is
/// refused; requests shorter than 4 bytes are dropped.
pub open spec fn conn_req_step(h: ConnHandle, chans: Seq<L2CapChannel>, next: u16, id: u8, d: Seq<u8>)
    -> (Seq<L2CapChannel>, u16, Option<Seq<u8>>)
{
    if d.len() < 4 {
        (chans, next, None)
    } else {
        let psm = spec_psm_of(field16(d, 0));
        let src = field16(d, 2);
        if classic_psm_supported(field16(d, 0)) {
            (chans.push(accepted_channel(h, next, psm, src)), next_dynamic_cid(next),
                Some(conn_rsp_frame(id, next, src, L2CapConnResult::Success)))
        } else {
            (chans, next, Some(conn_rsp_frame(id, 0, src, L2CapConnResult::PsmNotSupported)))
        }
    }
}

/// Connection Response `d`: the channel of its source CID takes the
/// remote CID and moves to configuration on success, else closes.
pub open spec fn conn_rsp_step(chans: Seq<L2CapChannel>, d: Seq<u8>) -> Seq<L2CapChannel> {
    if d.len() < 8 {
        chans
    } else {
        let ok = L2CapConnResult::of_raw(field16(d, 4)) == L2CapConnResult::Success;
        update_local(chans, field16(d, 2), |c: L2CapChannel| L2CapChannel {
            state: if ok { L2CapChannelState::Config } else { L2CapChannelState::Closed },
            remote_cid: field16(d, 0),
            ..c
        })
    }
}

/// Answer to a Disconnection Request with CIDs `dest` and `src`.
pub open spec fn discon_rsp_frame(id: u8, dest: u16, src: u16) -> Seq<u8> {
    sig_frame(L2CapSigCode::DisconnectionResponse, id, le16(src) + le16(dest))
}

/// Answer to a Configure Request for `dest` with options `opts`: success,
/// echoing the options.
pub open spec fn config_rsp_frame(id: u8, dest: u16, opts: Seq<u8>) -> Seq<u8> {
    sig_frame(L2CapSigCode::ConfigureResponse, id, le16(dest) + le16(0) + le16(0) + opts)
}

/// Data of an Information Response to a request of type `t`.
pub open spec fn info_data(t: u16) -> Seq<u8> {
    if t == 0x0002 {
        seq![0x01u8, 0x00, 0x00, 0x00]
    } else if t == 0x0003 {
        seq![0x06u8, 0x00, 0x00, 0x00, 0x00, 0x00, 0x00, 0x00]
    } else {
        seq![0x00u8, 0x00]
    }
}

/// Type of an Information Request: its first two bytes, little endian,
/// with missing bytes read as 0.
pub open spec fn info_type(d: Seq<u8>) -> u16 {
    crate::bytes::u16_le(if d.len() > 0 { d[0] } else { 0 }, if d.len() > 1 { d[1] } else { 0 })
}

/// Answer to an LE Credit Based Connection Request, on the LE signaling
/// channel.
pub open spec fn le_conn_rsp_frame(id: u8, dest: u16, mtu: u16, mps: u16, result: L2CapConnResult) -> Seq<u8> {
    b_frame_bytes(
        0x0005,
        sig_command_bytes(
            L2CapSigCode::LeCreditBasedConnRsp,
            id,
            le16(dest) + le16(mtu) + le16(mps) + le16(10) + le16(result.code()),
        ),
    )
}

/// LE Credit Based Connection Request `d`: on a supported LE PSM a channel
/// on the next CID is opened with the requested MTU and accepted with 10
/// credits, else the PSM is refused; requests shorter than 8 bytes are
/// dropped.
pub open spec fn le_conn_step(h: ConnHandle, chans: Seq<L2CapChannel>, next: u16, id: u8, d: Seq<u8>)
    -> (Seq<L2CapChannel>, u16, Option<Seq<u8>>)
{
    if d.len() < 8 {
        (chans, next, None)
    } else {
        let psm = spec_psm_of(field16(d, 0));
        let src = field16(d, 2);
        let mtu = field16(d, 4);
        let mps = field16(d, 6);
        if le_psm_supported(field16(d, 0)) {
            (chans.push(L2CapChannel { local_mtu: mtu, ..accepted_channel(h, next, psm, src) }),
                next_dynamic_cid(next),
                Some(le_conn_rsp_frame(id, next, mtu, mps, L2CapConnResult::Success)))
        } else {
            (chans, next, Some(le_conn_rsp_frame(id, 0, mtu, mps, L2CapConnResult::PsmNotSupported)))
        }
    }
}

/// Disconnection Request `d`: every channel whose local CID is the
/// request's source CID is removed, and the CIDs are sent back swapped.
pub open spec fn discon_req_step(chans: Seq<L2CapChannel>, id: u8, d: Seq<u8>) -> (Seq<L2CapChannel>, Option<Seq<u8>>) {
    if d.len() < 4 {
        (chans, None)
    } else {
        (channels_without(chans, field16(d, 2)), Some(discon_rsp_frame(id, field16(d, 0), field16(d, 2))))
    }
}

/// Disconnection Response `d`: every channel whose local CID is its source
/// CID is removed.
pub open spec fn discon_rsp_step(chans: Seq<L2CapChannel>, d: Seq<u8>) -> Seq<L2CapChannel> {
    if d.len() < 4 { chans } else { channels_without(chans, field16(d, 2)) }
}

/// `c`, open for data.
pub open spec fn opened(c: L2CapChannel) -> L2CapChannel {
    L2CapChannel { state: L2CapChannelState::Open, ..c }
}

/// Configure Request `d`: the channel of its destination CID opens, and the
/// options are echoed in a successful response.
pub open spec fn config_req_step(chans: Seq<L2CapChannel>, id: u8, d: Seq<u8>) -> (Seq<L2CapChannel>, Option<Seq<u8>>) {
    if d.len() < 4 {
        (chans, None)
    } else {
        (update_local(chans, field16(d, 0), |c: L2CapChannel| opened(c)),
            Some(config_rsp_frame(id, field16(d, 0), config_opts_bytes(config_opts_from(d, 4)))))
    }
}

/// Configure Response `d`: on success the channel of its source CID opens.
pub open spec fn config_rsp_step(chans: Seq<L2CapChannel>, d: Seq<u8>) -> Seq<L2CapChannel> {
    if d.len() >= 6 && L2CapConfigResult::of_raw(field16(d, 4)) == L2CapConfigResult::Success {
        update_local(chans, field16(d, 0), |c: L2CapChannel| opened(c))
    } else {
        chans
    }
}

/// Answer to a command the daemon does not handle: Command Reject, not
/// understood.
pub open spec fn reject_frame(id: u8) -> Seq<u8> {
    sig_frame(L2CapSigCode::CommandReject, id, reject_data(L2CapRejectReason::NotUnderstood, 0))
}

/// What one signaling command received on connection `h` does: the new
/// channel table, the next CID, and the answer to send, if any.
pub open spec fn sig_step(h: ConnHandle, chans: Seq<L2CapChannel>, next: u16, cmd: SigCmd)
    -> (Seq<L2CapChannel>, u16, Option<Seq<u8>>)
{
    let (code, id, d) = cmd;
    match code {
        L2CapSigCode::ConnectionRequest => conn_req_step(h, chans, next, id, d),
        L2CapSigCode::ConnectionResponse => (conn_rsp_step(chans, d), next, None),
        L2CapSigCode::DisconnectionRequest => {
            let (c, o) = discon_req_step(chans, id, d);
            (c, next, o)
        },
        L2CapSigCode::DisconnectionResponse => (discon_rsp_step(chans, d), next, None),
        L2CapSigCode::CommandReject => (chans, next, None),
        L2CapSigCode::ConfigureRequest => {
            let (c, o) = config_req_step(chans, id, d);
            (c, next, o)
        },
        L2CapSigCode::ConfigureResponse => (config_rsp_step(chans, d), next, None),
        L2CapSigCode::EchoRequest => (chans, next, Some(sig_frame(L2CapSigCode::EchoResponse, id, d))),
        L2CapSigCode::InformationRequest =>
            (chans, next, Some(sig_frame(L2CapSigCode::InformationResponse, id, info_data(info_type(d))))),
        L2CapSigCode::LeCreditBasedConnReq => le_conn_step(h, chans, next, id, d),
        _ => (chans, next, Some(reject_frame(id))),
    }
}

/// The commands `cmds` received in turn on connection `h`: the channel
/// table, the next CID, and the answers, in order.
pub open spec fn sig_run(h: ConnHandle, chans: Seq<L2CapChannel>, next: u16, cmds: Seq<SigCmd>)
    -> (Seq<L2CapChannel>, u16, Seq<Seq<u8>>)
    decreases cmds.len(),
{
    if cmds.len() == 0 {
        (chans, next, seq![])
    } else {
        let (c, n, rs) = sig_run(h, chans, next, cmds.drop_last());
        let (c2, n2, o) = sig_step(h, c, n, cmds.last());
        (c2, n2, match o {
            Some(x) => rs.push(x),
            None => rs,
        })
    }
}

/// A Connection Request for a supported PSM, framed as
/// `ProtocolMultiplexer::build_connection_request` frames it, is carried
/// out on the signaling channel, opens exactly one channel on the
/// receiving side (on its next CID, pointed at the requester's CID), and
/// is answered by a single successful Connection Response.
pub proof fn lemma_connection_request_accepted(
    h: ConnHandle,
    chans: Seq<L2CapChannel>,
    next: u16,
    local_cid: u16,
    psm: L2CapPsm,
    id: u8,
)
    requires
        classic_psm_supported(psm.raw()),
    ensures
        ({
            let f = sig_frame(L2CapSigCode::ConnectionRequest, id, (L2CapConnReq { psm, source_cid: local_cid }).spec_build());
            &&& f.len() >= 4
            &&& spec_cid_of(field16(f, 2)) == L2CapCid::Signaling
            &&& sig_run(h, chans, next, sig_commands_from(f.skip(4), 0)) == (
                chans.push(accepted_channel(h, next, spec_psm_of(psm.raw()), local_cid)),
                next_dynamic_cid(next),
                seq![conn_rsp_frame(id, next, local_cid, L2CapConnResult::Success)],
            )
        }),
{
    let data = (L2CapConnReq { psm, source_cid: local_cid }).spec_build();
    let cmd = sig_command_bytes(L2CapSigCode::ConnectionRequest, id, data);
    let f = b_frame_bytes(0x0001, cmd);
    crate::bytes::lemma_le16_roundtrip(psm.raw());
    crate::bytes::lemma_le16_roundtrip(local_cid);
    crate::bytes::lemma_le16_roundtrip(0x0001);
    assert(data.len() == 4);
    assert(f.skip(4) =~= cmd);
    crate::l2cap::lemma_sig_command_roundtrip(L2CapSigCode::ConnectionRequest, id, data);
    let cmds = sig_commands_from(f.skip(4), 0);
    assert(cmds == seq![(L2CapSigCode::ConnectionRequest, id, data)]);
    assert(cmds.drop_last() =~= Seq::<SigCmd>::empty());
    assert(field16(data, 0) == psm.raw());
    assert(field16(data, 2) == local_cid);
    assert(field16(f, 2) == 0x0001);
    assert(seq![conn_rsp_frame(id, next, local_cid, L2CapConnResult::Success)]
        =~= Seq::<Seq<u8>>::empty().push(conn_rsp_frame(id, next, local_cid, L2CapConnResult::Success)));
    assert(sig_run(h, chans, next, cmds.drop_last()) == (chans, next, Seq::<Seq<u8>>::empty()));
    assert(cmds.last() == (L2CapSigCode::ConnectionRequest, id, data));
    assert(classic_psm_supported(field16(data, 0)));
    assert(sig_step(h, chans, next, cmds.last()) == (
        chans.push(accepted_channel(h, next, spec_psm_of(psm.raw()), local_cid)),
        next_dynamic_cid(next),
        Some(conn_rsp_frame(id, next, local_cid, L2CapConnResult::Success))));
}

/// The bytes of an optional buffer.
pub open spec fn opt_bytes(o: Option<Vec<u8>>) -> Option<Seq<u8>> {
    match o {
        Some(v) => Some(v@),
        None => None,
    }
}

/// The (handle, bytes) pairs of a list of outgoing packets.
pub open spec fn packets_view(v: Seq<(u16, Vec<u8>)>) -> Seq<(u16, Seq<u8>)> {
    v.map_values(|p: (u16, Vec<u8>)| (p.0, p.1@))
}

/// Every answer in `rs`, addressed to connection `handle`.
pub open spec fn addressed(handle: u16, rs: Seq<Seq<u8>>) -> Seq<(u16, Seq<u8>)> {
    rs.map_values(|x: Seq<u8>| (handle, x))
}

/// Whether handler `h` may be called with any arguments.
pub open spec fn accepts_all<H: Fn(u16, u16, &[u8]) -> Option<Vec<u8>>>(h: H) -> bool {
    forall|a: u16, b: u16, d: &[u8]| call_requires(h, (a, b, d))
}

/// Whether handler `i` of `hs` is the first one registered for `psm`.
pub open spec fn is_first_handler<H>(hs: Seq<(L2CapPsm, H)>, psm: L2CapPsm, i: int) -> bool {
    &&& 0 <= i < hs.len()
    &&& hs[i].0 == psm
    &&& forall|j: int| 0 <= j < i ==> hs[j].0 != psm
}

/// Whether `o` is what the handlers `hs` answer to data `d` for `psm`:
/// nothing when no handler is registered for it, else a reply of the first
/// handler registered for it, called with `handle`, `cid` and `d`.
pub open spec fn handler_answer<H: Fn(u16, u16, &[u8]) -> Option<Vec<u8>>>(
    hs: Seq<(L2CapPsm, H)>,
    psm: L2CapPsm,
    handle: u16,
    cid: u16,
    d: Seq<u8>,
    o: Option<Seq<u8>>,
) -> bool {
    if exists|i: int| 0 <= i < hs.len() && hs[i].0 == psm {
        exists|i: int, s: &[u8], v: Option<Vec<u8>>|
            #![trigger is_first_handler(hs, psm, i), call_ensures(hs[i].1, (handle, cid, s), v)]
            is_first_handler(hs, psm, i) && call_ensures(hs[i].1, (handle, cid, s), v) && s@ == d && o == opt_bytes(v)
    } else {
        o is None
    }
}

/// The PSM a raw value names has that raw value.
proof fn lemma_psm_raw(raw: u16)
    ensures
        spec_psm_of(raw).raw() == raw,
{
}

/// Information Response to request data `d`.
fn build_info_rsp(id: u8, d: &[u8]) -> (r: Vec<u8>)
    ensures
        r@ == sig_frame(L2CapSigCode::InformationResponse, id, info_data(info_type(d@))),
{
    let b0: u8 = if d.len() > 0 { d[0] } else { 0 };
    let b1: u8 = if d.len() > 1 { d[1] } else { 0 };
    let it = read_u16_le(b0, b1);
    let data: Vec<u8> = if it == 0x0002 {
        vec![0x01u8, 0x00, 0x00, 0x00]
    } else if it == 0x0003 {
        vec![0x06u8, 0x00, 0x00, 0x00, 0x00, 0x00, 0x00, 0x00]
    } else {
        vec![0x00u8, 0x00]
    };
    assert(data@ =~= info_data(info_type(d@)));
    let info_rsp = build_sig_command(L2CapSigCode::InformationResponse, id, data.as_slice());
    build_l2cap_b_frame(0x0001, info_rsp.as_slice())
}

/// Disconnection Response to request `req`: its CIDs, swapped.
fn build_discon_rsp_bytes(sig_id: u8, req: &L2CapDisconReq) -> (r: Vec<u8>)
    ensures
        r@ == discon_rsp_frame(sig_id, req.destination_cid, req.source_cid),
{
    let mut data: Vec<u8> = Vec::new();
    push_u16_le(&mut data, req.source_cid);
    push_u16_le(&mut data, req.destination_cid);
    let sig = build_sig_command(L2CapSigCode::DisconnectionResponse, sig_id, data.as_slice());
    build_l2cap_b_frame(0x0001, sig.as_slice())
}

/// Configure Response to request `req`: success, with its options echoed.
fn build_config_rsp_bytes(sig_id: u8, req: &L2CapConfigReq) -> (r: Vec<u8>)
    ensures
        r@ == config_rsp_frame(sig_id, req.destination_cid, config_opts_bytes(config_opt_views(req.options@))),
{
    let mut data: Vec<u8> = Vec::new();
    push_u16_le(&mut data, req.destination_cid);
    push_u16_le(&mut data, 0);
    push_u16_le(&mut data, L2CapConfigResult::Success.to_raw());
    push_config_options(&mut data, &req.options);
    let sig = build_sig_command(L2CapSigCode::ConfigureResponse, sig_id, data.as_slice());
    build_l2cap_b_frame(0x0001, sig.as_slice())
}

/// Whether `r` answers data `d` received on the attribute channel `cid`:
/// the reply of the handler for LE credit-based PSMs, if any, addressed to
/// connection `handle`.
pub open spec fn attribute_reply<H: Fn(u16, u16, &[u8]) -> Option<Vec<u8>>>(
    hs: Seq<(L2CapPsm, H)>,
    handle: u16,
    cid: u16,
    d: Seq<u8>,
    r: Seq<(u16, Seq<u8>)>,
) -> bool {
    exists|o: Option<Seq<u8>>|
        #[trigger] handler_answer(hs, L2CapPsm::LeCoC, handle, cid, d, o)
        && r == match o {
            Some(x) => seq![(handle, x)],
            None => Seq::<(u16, Seq<u8>)>::empty(),
        }
}

/// Whether `r` answers data `d` received for remote CID `cid`: nothing when
/// no channel has that remote CID or the data is a continuation fragment
/// (`pb_flag` 1), else the reply of the handler for the channel's PSM,
/// called with its local CID and framed for its remote CID.
pub open spec fn channel_data_reply<H: Fn(u16, u16, &[u8]) -> Option<Vec<u8>>>(
    chans: Seq<L2CapChannel>,
    hs: Seq<(L2CapPsm, H)>,
    handle: u16,
    pb_flag: u8,
    cid: u16,
    d: Seq<u8>,
    r: Seq<(u16, Seq<u8>)>,
) -> bool {
    if !has_remote_cid(chans, cid) || pb_flag == 0x01 {
        r.len() == 0
    } else {
        let ch = chans[first_with_remote_cid(chans, cid)];
        exists|o: Option<Seq<u8>>|
            #[trigger] handler_answer(hs, ch.psm, handle, ch.local_cid, d, o)
            && r == match o {
                Some(x) => seq![(handle, b_frame_bytes(ch.remote_cid, x))],
                None => Seq::<(u16, Seq<u8>)>::empty(),
            }
    }
}

/// Routes ACL data between the HCI layer and the protocols above L2CAP:
/// answers L2CAP signaling and hands channel data to the handler
/// registered for the channel's PSM.
pub struct ProtocolMultiplexer<H> {
    pub l2cap: L2CapChannelManager,
    /// Registered handlers, in registration order.
    pub handlers: Vec<(L2CapPsm, H)>,
}

impl<H: Fn(u16, u16, &[u8]) -> Option<Vec<u8>>> ProtocolMultiplexer<H> {
    /// The registered handlers, in registration order.
    pub open spec fn handlers(&self) -> Seq<(L2CapPsm, H)> {
        self.handlers@
    }

    /// The channel allocator is in range and every handler accepts any
    /// arguments.
    pub open spec fn wf(&self) -> bool {
        &&& self.l2cap.wf()
        &&& forall|i: int| 0 <= i < self.handlers().len() ==> accepts_all(#[trigger] self.handlers()[i].1)
    }

    /// With the same handlers and an allocator in range, a multiplexer is
    /// well formed when the other one was.
    proof fn lemma_keeps_handlers(&self, other: &Self)
        requires
            other.wf(),
            self.l2cap.wf(),
            self.handlers@ == other.handlers@,
        ensures
            self.wf(),
    {
        assert forall|i: int| 0 <= i < self.handlers().len() implies accepts_all(#[trigger] self.handlers()[i].1) by {
            assert(self.handlers()[i] == other.handlers()[i]);
        }
    }

    /// No channels and no handlers.
    pub fn new() -> (r: Self)
        ensures
            r.wf(),
            r.l2cap.channels() == Seq::<L2CapChannel>::empty(),
            r.l2cap.next_cid() == 0x0040,
            r.l2cap.next_id() == 1,
            r.l2cap.mtu() == 672,
            r.handlers().len() == 0,
    {
        ProtocolMultiplexer { l2cap: L2CapChannelManager::new(), handlers: Vec::new() }
    }

    /// Registers `handler` for `psm`; it is called with the connection
    /// handle, the local CID and the data, and may return a reply.
    pub fn register_protocol(&mut self, psm: L2CapPsm, handler: H)
        requires
            old(self).wf(),
            accepts_all(handler),
        ensures
            final(self).wf(),
            final(self).handlers() == old(self).handlers().push((psm, handler)),
            final(self).l2cap == old(self).l2cap,
    {
        self.handlers.push((psm, handler));
        assert forall|i: int| 0 <= i < self.handlers().len() implies accepts_all(#[trigger] self.handlers()[i].1) by {
            if i < old(self).handlers().len() {
                assert(self.handlers()[i] == old(self).handlers()[i]);
            }
        }
    }

    /// Answers a Connection Request: on SDP, RFCOMM or HID a channel on the
    /// next CID is opened, waiting for configuration, and accepted; on any
    /// other PSM the request is refused.
    fn handle_connection_request(&mut self, conn_handle: ConnHandle, req: &L2CapConnReq, sig_id: u8) -> (r: Vec<u8>)
        requires
            old(self).wf(),
        ensures
            final(self).wf(),
            final(self).handlers() == old(self).handlers(),
            final(self).l2cap.next_id() == old(self).l2cap.next_id(),
            final(self).l2cap.mtu() == old(self).l2cap.mtu(),
            ({
                let chans = old(self).l2cap.channels();
                let next = old(self).l2cap.next_cid();
                if classic_psm_supported(req.psm.raw()) {
                    &&& final(self).l2cap.channels() == chans.push(accepted_channel(conn_handle, next, req.psm, req.source_cid))
                    &&& final(self).l2cap.next_cid() == next_dynamic_cid(next)
                    &&& r@ == conn_rsp_frame(sig_id, next, req.source_cid, L2CapConnResult::Success)
                } else {
                    &&& final(self).l2cap.channels() == chans
                    &&& final(self).l2cap.next_cid() == next
                    &&& r@ == conn_rsp_frame(sig_id, 0, req.source_cid, L2CapConnResult::PsmNotSupported)
                }
            }),
    {
        let raw = req.psm.to_raw();
        let (result, dest_cid) = if raw == 0x0001 || raw == 0x0003 || raw == 0x0011 || raw == 0x0013 {
            let ch = self.l2cap.create_channel(conn_handle, req.psm);
            ch.state = L2CapChannelState::WaitConnect;
            ch.remote_cid = req.source_cid;
            (L2CapConnResult::Success, ch.local_cid)
        } else {
            (L2CapConnResult::PsmNotSupported, 0u16)
        };
        let rsp = L2CapConnRsp { destination_cid: dest_cid, source_cid: req.source_cid, result, status: 0 };
        let rsp_data = rsp.build();
        let sig = build_sig_command(L2CapSigCode::ConnectionResponse, sig_id, rsp_data.as_slice());
        proof {
            self.lemma_keeps_handlers(old(self));
        }
        build_l2cap_b_frame(0x0001, sig.as_slice())
    }

    /// Answers an LE Credit Based Connection Request: on LE PSM 0x25 or
    /// 0x27 a channel on the next CID is opened with the requested MTU and
    /// accepted with 10 credits; on any other PSM the request is refused.
    fn handle_le_credit_conn_req(&mut self, conn_handle: ConnHandle, req: &L2CapLeCreditConnReq, sig_id: u8) -> (r: Vec<u8>)
        requires
            old(self).wf(),
        ensures
            final(self).wf(),
            final(self).handlers() == old(self).handlers(),
            final(self).l2cap.next_id() == old(self).l2cap.next_id(),
            final(self).l2cap.mtu() == old(self).l2cap.mtu(),
            ({
                let chans = old(self).l2cap.channels();
                let next = old(self).l2cap.next_cid();
                if le_psm_supported(req.psm.raw()) {
                    &&& final(self).l2cap.channels() == chans.push(
                        L2CapChannel { local_mtu: req.mtu, ..accepted_channel(conn_handle, next, req.psm, req.source_cid) })
                    &&& final(self).l2cap.next_cid() == next_dynamic_cid(next)
                    &&& r@ == le_conn_rsp_frame(sig_id, next, req.mtu, req.mps, L2CapConnResult::Success)
                } else {
                    &&& final(self).l2cap.channels() == chans
                    &&& final(self).l2cap.next_cid() == next
                    &&& r@ == le_conn_rsp_frame(sig_id, 0, req.mtu, req.mps, L2CapConnResult::PsmNotSupported)
                }
            }),
    {
        let raw = req.psm.to_raw();
        let (result, dest_cid) = if raw == 0x0025 || raw == 0x0027 {
            let ch = self.l2cap.create_channel(conn_handle, req.psm);
            ch.state = L2CapChannelState::WaitConnect;
            ch.remote_cid = req.source_cid;
            ch.local_mtu = req.mtu;
            (L2CapConnResult::Success, ch.local_cid)
        } else {
            (L2CapConnResult::PsmNotSupported, 0u16)
        };
        let mut rsp_data: Vec<u8> = Vec::new();
        push_u16_le(&mut rsp_data, dest_cid);
        push_u16_le(&mut rsp_data, req.mtu);
        push_u16_le(&mut rsp_data, req.mps);
        push_u16_le(&mut rsp_data, 10);
        push_u16_le(&mut rsp_data, result.to_raw());
        assert(rsp_data@ =~= le16(dest_cid) + le16(req.mtu) + le16(req.mps) + le16(10) + le16(result.code()));
        let sig = build_sig_command(L2CapSigCode::LeCreditBasedConnRsp, sig_id, rsp_data.as_slice());
        proof {
            self.lemma_keeps_handlers(old(self));
        }
        build_l2cap_b_frame(0x0005, sig.as_slice())
    }

    /// Connection Request `d`, see `conn_req_step`.
    fn on_conn_req(&mut self, conn_handle: ConnHandle, id: u8, d: &[u8]) -> (r: Option<Vec<u8>>)
        requires
            old(self).wf(),
        ensures
            final(self).wf(),
            final(self).handlers() == old(self).handlers(),
            final(self).l2cap.next_id() == old(self).l2cap.next_id(),
            final(self).l2cap.mtu() == old(self).l2cap.mtu(),
            (final(self).l2cap.channels(), final(self).l2cap.next_cid(), opt_bytes(r))
                == conn_req_step(conn_handle, old(self).l2cap.channels(), old(self).l2cap.next_cid(), id, d@),
    {
        match L2CapConnReq::parse(d) {
            Some(req) => {
                proof {
                    lemma_psm_raw(field16(d@, 0));
                }
                Some(self.handle_connection_request(conn_handle, &req, id))
            },
            None => None,
        }
    }

    /// LE Credit Based Connection Request `d`, see `le_conn_step`.
    fn on_le_conn_req(&mut self, conn_handle: ConnHandle, id: u8, d: &[u8]) -> (r: Option<Vec<u8>>)
        requires
            old(self).wf(),
        ensures
            final(self).wf(),
            final(self).handlers() == old(self).handlers(),
            final(self).l2cap.next_id() == old(self).l2cap.next_id(),
            final(self).l2cap.mtu() == old(self).l2cap.mtu(),
            (final(self).l2cap.channels(), final(self).l2cap.next_cid(), opt_bytes(r))
                == le_conn_step(conn_handle, old(self).l2cap.channels(), old(self).l2cap.next_cid(), id, d@),
    {
        match L2CapLeCreditConnReq::parse(d) {
            Some(req) => {
                proof {
                    lemma_psm_raw(field16(d@, 0));
                }
                Some(self.handle_le_credit_conn_req(conn_handle, &req, id))
            },
            None => None,
        }
    }

    /// Connection Response `d`, see `conn_rsp_step`.
    fn on_conn_rsp(&mut self, d: &[u8])
        requires
            old(self).wf(),
        ensures
            final(self).wf(),
            final(self).handlers() == old(self).handlers(),
            final(self).l2cap.next_id() == old(self).l2cap.next_id(),
            final(self).l2cap.mtu() == old(self).l2cap.mtu(),
            final(self).l2cap.next_cid() == old(self).l2cap.next_cid(),
            final(self).l2cap.channels() == conn_rsp_step(old(self).l2cap.channels(), d@),
    {
        match L2CapConnRsp::parse(d) {
            Some(rsp) => {
                let ok = rsp.result == L2CapConnResult::Success;
                match self.l2cap.find_by_local_cid(rsp.source_cid) {
                    Some(ch) => {
                        ch.state = if ok { L2CapChannelState::Config } else { L2CapChannelState::Closed };
                        ch.remote_cid = rsp.destination_cid;
                    },
                    None => {},
                }
                proof {
                    self.lemma_keeps_handlers(old(self));
                }
            },
            None => {},
        }
    }

    /// Disconnection Request `d`, see `discon_req_step`.
    fn on_discon_req(&mut self, id: u8, d: &[u8]) -> (r: Option<Vec<u8>>)
        requires
            old(self).wf(),
        ensures
            final(self).wf(),
            final(self).handlers() == old(self).handlers(),
            final(self).l2cap.next_id() == old(self).l2cap.next_id(),
            final(self).l2cap.mtu() == old(self).l2cap.mtu(),
            final(self).l2cap.next_cid() == old(self).l2cap.next_cid(),
            (final(self).l2cap.channels(), opt_bytes(r)) == discon_req_step(old(self).l2cap.channels(), id, d@),
    {
        match L2CapDisconReq::parse(d) {
            Some(discon) => {
                let rsp = build_discon_rsp_bytes(id, &discon);
                self.l2cap.remove_channel(discon.source_cid);
                proof {
                    self.lemma_keeps_handlers(old(self));
                }
                Some(rsp)
            },
            None => None,
        }
    }

    /// Disconnection Response `d`, see `discon_rsp_step`.
    fn on_discon_rsp(&mut self, d: &[u8])
        requires
            old(self).wf(),
        ensures
            final(self).wf(),
            final(self).handlers() == old(self).handlers(),
            final(self).l2cap.next_id() == old(self).l2cap.next_id(),
            final(self).l2cap.mtu() == old(self).l2cap.mtu(),
            final(self).l2cap.next_cid() == old(self).l2cap.next_cid(),
            final(self).l2cap.channels() == discon_rsp_step(old(self).l2cap.channels(), d@),
    {
        match L2CapDisconRsp::parse(d) {
            Some(rsp) => {
                self.l2cap.remove_channel(rsp.source_cid);
                proof {
                    self.lemma_keeps_handlers(old(self));
                }
            },
            None => {},
        }
    }

    /// Configure Request `d`, see `config_req_step`.
    fn on_config_req(&mut self, id: u8, d: &[u8]) -> (r: Option<Vec<u8>>)
        requires
            old(self).wf(),
        ensures
            final(self).wf(),
            final(self).handlers() == old(self).handlers(),
            final(self).l2cap.next_id() == old(self).l2cap.next_id(),
            final(self).l2cap.mtu() == old(self).l2cap.mtu(),
            final(self).l2cap.next_cid() == old(self).l2cap.next_cid(),
            (final(self).l2cap.channels(), opt_bytes(r)) == config_req_step(old(self).l2cap.channels(), id, d@),
    {
        match L2CapConfigReq::parse(d) {
            Some(req) => {
                let rsp = build_config_rsp_bytes(id, &req);
                match self.l2cap.find_by_local_cid(req.destination_cid) {
                    Some(ch) => {
                        ch.state = L2CapChannelState::Open;
                    },
                    None => {},
                }
                proof {
                    self.lemma_keeps_handlers(old(self));
                }
                Some(rsp)
            },
            None => None,
        }
    }

    /// Configure Response `d`, see `config_rsp_step`.
    fn on_config_rsp(&mut self, d: &[u8])
        requires
            old(self).wf(),
        ensures
            final(self).wf(),
            final(self).handlers() == old(self).handlers(),
            final(self).l2cap.next_id() == old(self).l2cap.next_id(),
            final(self).l2cap.mtu() == old(self).l2cap.mtu(),
            final(self).l2cap.next_cid() == old(self).l2cap.next_cid(),
            final(self).l2cap.channels() == config_rsp_step(old(self).l2cap.channels(), d@),
    {
        match L2CapConfigRsp::parse(d) {
            Some(rsp) => {
                if rsp.result == L2CapConfigResult::Success {
                    match self.l2cap.find_by_local_cid(rsp.source_cid) {
                        Some(ch) => {
                            ch.state = L2CapChannelState::Open;
                        },
                        None => {},
                    }
                }
                proof {
                    self.lemma_keeps_handlers(old(self));
                }
            },
            None => {},
        }
    }

    /// Carries out one signaling command received on `conn_handle` (see
    /// `sig_step`) and returns the answer to send, if any.
    fn sig_command_step(&mut self, conn_handle: ConnHandle, cmd: &L2CapSigCommand) -> (r: Option<Vec<u8>>)
        requires
            old(self).wf(),
        ensures
            final(self).wf(),
            final(self).handlers() == old(self).handlers(),
            final(self).l2cap.next_id() == old(self).l2cap.next_id(),
            final(self).l2cap.mtu() == old(self).l2cap.mtu(),
            (final(self).l2cap.channels(), final(self).l2cap.next_cid(), opt_bytes(r))
                == sig_step(conn_handle, old(self).l2cap.channels(), old(self).l2cap.next_cid(), cmd@),
    {
        let d = cmd.data.as_slice();
        let id = cmd.id;
        match cmd.code {
            L2CapSigCode::ConnectionRequest => self.on_conn_req(conn_handle, id, d),
            L2CapSigCode::ConnectionResponse => {
                self.on_conn_rsp(d);
                None
            },
            L2CapSigCode::DisconnectionRequest => self.on_discon_req(id, d),
            L2CapSigCode::DisconnectionResponse => {
                self.on_discon_rsp(d);
                None
            },
            L2CapSigCode::CommandReject => None,
            L2CapSigCode::ConfigureRequest => self.on_config_req(id, d),
            L2CapSigCode::ConfigureResponse => {
                self.on_config_rsp(d);
                None
            },
            L2CapSigCode::EchoRequest => {
                let rsp = build_sig_command(L2CapSigCode::EchoResponse, id, d);
                Some(build_l2cap_b_frame(0x0001, rsp.as_slice()))
            },
            L2CapSigCode::InformationRequest => Some(build_info_rsp(id, d)),
            L2CapSigCode::LeCreditBasedConnReq => self.on_le_conn_req(conn_handle, id, d),
            _ => {
                let reject = L2CapCommandReject::build(L2CapRejectReason::NotUnderstood, id, 0);
                Some(build_l2cap_b_frame(0x0001, reject.as_slice()))
            },
        }
    }

    /// Carries out the signaling commands in `payload`, received on
    /// `conn_handle`, in order (see `sig_run`), and returns the answers,
    /// addressed to that connection.
    fn process_l2cap_signaling(&mut self, conn_handle: ConnHandle, _cid: u16, payload: &[u8]) -> (r: Vec<(u16, Vec<u8>)>)
        requires
            old(self).wf(),
        ensures
            final(self).wf(),
            final(self).handlers() == old(self).handlers(),
            final(self).l2cap.next_id() == old(self).l2cap.next_id(),
            final(self).l2cap.mtu() == old(self).l2cap.mtu(),
            ({
                let (c, n, rs) = sig_run(conn_handle, old(self).l2cap.channels(), old(self).l2cap.next_cid(),
                    sig_commands_from(payload@, 0));
                &&& final(self).l2cap.channels() == c
                &&& final(self).l2cap.next_cid() == n
                &&& packets_view(r@) == addressed(conn_handle.raw, rs)
            }),
    {
        let mut responses: Vec<(u16, Vec<u8>)> = Vec::new();
        let handle = conn_handle.to_raw();
        let commands = parse_sig_commands(payload);
        let ghost cmds = sig_command_views(commands@);
        let ghost c0 = self.l2cap.channels();
        let ghost n0 = self.l2cap.next_cid();
        let mut i: usize = 0;
        while i < commands.len()
            invariant
                i <= commands@.len(),
                cmds == sig_command_views(commands@),
                handle == conn_handle.raw,
                self.wf(),
                self.handlers() == old(self).handlers(),
                self.l2cap.next_id() == old(self).l2cap.next_id(),
                self.l2cap.mtu() == old(self).l2cap.mtu(),
                ({
                    let (c, n, rs) = sig_run(conn_handle, c0, n0, cmds.take(i as int));
                    &&& self.l2cap.channels() == c
                    &&& self.l2cap.next_cid() == n
                    &&& packets_view(responses@) == addressed(handle, rs)
                }),
            decreases commands@.len() - i,
        {
            let ghost before = responses@;
            let o = self.sig_command_step(conn_handle, &commands[i]);
            proof {
                assert(cmds.take(i + 1).drop_last() =~= cmds.take(i as int));
                assert(cmds.take(i + 1).last() == commands@[i as int]@);
            }
            match o {
                Some(f) => {
                    let ghost fv = f@;
                    responses.push((handle, f));
                    proof {
                        let (c, n, rs) = sig_run(conn_handle, c0, n0, cmds.take(i as int));
                        assert(packets_view(responses@) =~= packets_view(before).push((handle, fv)));
                        assert(addressed(handle, rs.push(fv)) =~= addressed(handle, rs).push((handle, fv)));
                    }
                },
                None => {},
            }
            i = i + 1;
        }
        assert(cmds.take(i as int) =~= cmds);
        responses
    }

    /// Data `payload` for remote CID `cid` (see `channel_data_reply`).
    fn route_channel_data(&mut self, handle: u16, pb_flag: u8, cid: u16, payload: &[u8]) -> (r: Vec<(u16, Vec<u8>)>)
        requires
            old(self).wf(),
        ensures
            final(self).wf(),
            final(self).handlers() == old(self).handlers(),
            final(self).l2cap.channels() == old(self).l2cap.channels(),
            final(self).l2cap.next_cid() == old(self).l2cap.next_cid(),
            final(self).l2cap.next_id() == old(self).l2cap.next_id(),
            final(self).l2cap.mtu() == old(self).l2cap.mtu(),
            channel_data_reply(old(self).l2cap.channels(), old(self).handlers(), handle, pb_flag, cid, payload@, packets_view(r@)),
    {
        let mut responses: Vec<(u16, Vec<u8>)> = Vec::new();
        let found = match self.l2cap.find_by_remote_cid(cid) {
            Some(channel) => {
                let t = (channel.psm, channel.remote_cid, channel.local_cid);
                proof {
                    assert(has_resolved(channel));
                    assert(*final(channel) == *channel);
                }
                Some(t)
            },
            None => None,
        };
        proof {
            if has_remote_cid(old(self).l2cap.channels(), cid) {
                let i = first_with_remote_cid(old(self).l2cap.channels(), cid);
                assert(self.l2cap.channels() == old(self).l2cap.channels().update(i, old(self).l2cap.channels()[i]));
                assert(self.l2cap.channels() =~= old(self).l2cap.channels());
            }
        }
        proof {
            self.lemma_keeps_handlers(old(self));
        }
        match found {
            Some((psm, remote_cid, local_cid)) => {
                if pb_flag == 0x01 {
                    return responses;
                }
                let o = self.dispatch_to_handler(handle, local_cid, psm, payload);
                match o {
                    Some(rsp_data) => {
                        let bframe = build_l2cap_b_frame(remote_cid, rsp_data.as_slice());
                        let ghost bv = bframe@;
                        responses.push((handle, bframe));
                        assert(packets_view(responses@) =~= seq![(handle, bv)]);
                    },
                    None => {
                        assert(packets_view(responses@) =~= Seq::<(u16, Seq<u8>)>::empty());
                    },
                }
                responses
            },
            None => responses,
        }
    }

    /// Data `payload` on the attribute channel (see `attribute_reply`).
    fn route_attribute_data(&self, handle: u16, cid: u16, payload: &[u8]) -> (r: Vec<(u16, Vec<u8>)>)
        requires
            self.wf(),
        ensures
            attribute_reply(self.handlers(), handle, cid, payload@, packets_view(r@)),
    {
        let mut responses: Vec<(u16, Vec<u8>)> = Vec::new();
        let o = self.dispatch_to_handler(handle, cid, L2CapPsm::LeCoC, payload);
        match o {
            Some(rsp) => {
                let ghost rv = rsp@;
                responses.push((handle, rsp));
                assert(packets_view(responses@) =~= seq![(handle, rv)]);
            },
            None => {
                assert(packets_view(responses@) =~= Seq::<(u16, Seq<u8>)>::empty());
            },
        }
        responses
    }

    /// Processes ACL data received on connection `handle` (`data` starts
    /// with the L2CAP basic header) and returns the packets to send back:
    /// signaling is answered, data on the attribute channel goes to the
    /// handler for LE credit-based PSMs, connectionless data is dropped, and
    /// data on a dynamic channel goes, unless it is a continuation fragment,
    /// to the handler for the channel's PSM, whose reply is framed for the
    /// remote CID.
    pub fn process_acl_data(&mut self, handle: u16, pb_flag: u8, _bc_flag: u8, data: &[u8]) -> (r: Vec<(u16, Vec<u8>)>)
        requires
            old(self).wf(),
        ensures
            final(self).wf(),
            final(self).handlers() == old(self).handlers(),
            final(self).l2cap.next_id() == old(self).l2cap.next_id(),
            final(self).l2cap.mtu() == old(self).l2cap.mtu(),
            ({
                let chans = old(self).l2cap.channels();
                let next = old(self).l2cap.next_cid();
                let hs = old(self).handlers();
                let cid = field16(data@, 2);
                let payload = data@.skip(4);
                let unchanged = final(self).l2cap.channels() == chans && final(self).l2cap.next_cid() == next;
                if data@.len() < 4 {
                    unchanged && r@.len() == 0
                } else {
                    match spec_cid_of(cid) {
                        L2CapCid::Signaling | L2CapCid::LeSignaling => {
                            let (c, n, rs) = sig_run(ConnHandle { raw: handle }, chans, next, sig_commands_from(payload, 0));
                            &&& final(self).l2cap.channels() == c
                            &&& final(self).l2cap.next_cid() == n
                            &&& packets_view(r@) == addressed(handle, rs)
                        },
                        L2CapCid::Attribute => unchanged && attribute_reply(hs, handle, cid, payload, packets_view(r@)),
                        L2CapCid::Connectionless => unchanged && r@.len() == 0,
                        _ => unchanged && channel_data_reply(chans, hs, handle, pb_flag, cid, payload, packets_view(r@)),
                    }
                }
            }),
    {
        let conn_handle = ConnHandle::new(handle);
        if data.len() < 4 {
            return Vec::new();
        }
        let cid = read_u16_le(data[2], data[3]);
        let payload = &data[4..data.len()];
        assert(payload@ =~= data@.skip(4));
        match L2CapCid::from_raw(cid) {
            L2CapCid::Signaling | L2CapCid::LeSignaling => self.process_l2cap_signaling(conn_handle, cid, payload),
            L2CapCid::Attribute => self.route_attribute_data(handle, cid, payload),
            L2CapCid::Connectionless => Vec::new(),
            _ => self.route_channel_data(handle, pb_flag, cid, payload),
        }
    }

    /// A B-frame carrying `data` to remote CID `remote_cid`.
    pub fn build_data_frame(&self, remote_cid: u16, data: &[u8]) -> (r: Vec<u8>)
        ensures
            r@ == b_frame_bytes(remote_cid, data@),
    {
        build_l2cap_b_frame(remote_cid, data)
    }

    /// Opens an outgoing channel for `psm` on the next CID, waiting for the
    /// remote's answer, and returns its local CID.
    pub fn create_outgoing_channel(&mut self, conn_handle: ConnHandle, psm: L2CapPsm) -> (r: Option<u16>)
        requires
            old(self).wf(),
        ensures
            final(self).wf(),
            r == Some(old(self).l2cap.next_cid()),
            final(self).l2cap.channels() == old(self).l2cap.channels().push(
                L2CapChannel { state: L2CapChannelState::WaitConnect, ..L2CapChannel::spec_new(conn_handle, old(self).l2cap.next_cid(), psm) }),
            final(self).l2cap.next_cid() == next_dynamic_cid(old(self).l2cap.next_cid()),
            final(self).l2cap.next_id() == old(self).l2cap.next_id(),
            final(self).l2cap.mtu() == old(self).l2cap.mtu(),
            final(self).handlers() == old(self).handlers(),
    {
        let ch = self.l2cap.create_channel(conn_handle, psm);
        ch.state = L2CapChannelState::WaitConnect;
        let cid = ch.local_cid;
        proof {
            self.lemma_keeps_handlers(old(self));
        }
        Some(cid)
    }

    /// A Connection Request for `psm` from local CID `local_cid`, framed for
    /// the signaling channel.
    pub fn build_connection_request(&self, local_cid: u16, psm: L2CapPsm, sig_id: u8) -> (r: Vec<u8>)
        ensures
            r@ == sig_frame(L2CapSigCode::ConnectionRequest, sig_id, (L2CapConnReq { psm, source_cid: local_cid }).spec_build()),
    {
        let req = L2CapConnReq { psm, source_cid: local_cid };
        let req_data = req.build();
        let sig = build_sig_command(L2CapSigCode::ConnectionRequest, sig_id, req_data.as_slice());
        build_l2cap_b_frame(0x0001, sig.as_slice())
    }

    /// Hands `data` to the first handler registered for `psm`; nothing
    /// when there is none.
    fn dispatch_to_handler(&self, handle: u16, local_cid: u16, psm: L2CapPsm, data: &[u8]) -> (r: Option<Vec<u8>>)
        requires
            self.wf(),
        ensures
            handler_answer(self.handlers(), psm, handle, local_cid, data@, opt_bytes(r)),
    {
        let mut i: usize = 0;
        while i < self.handlers.len()
            invariant
                i <= self.handlers@.len(),
                self.wf(),
                forall|j: int| 0 <= j < i ==> self.handlers@[j].0 != psm,
            decreases self.handlers@.len() - i,
        {
            if self.handlers[i].0 == psm {
                let h = &self.handlers[i].1;
                assert(accepts_all(self.handlers()[i as int].1));
                let r = h(handle, local_cid, data);
                assert(is_first_handler(self.handlers(), psm, i as int));
                assert(call_ensures(self.handlers()[i as int].1, (handle, local_cid, data), r));
                return r;
            }
            i = i + 1;
        }
        None
    }
}

// ============================================================================
// Configuration and application commands
// ============================================================================

/// Daemon settings.
#[derive(Clone, Debug)]
pub struct DaemonConfig {
    /// Local device name.
    pub name: String,
    /// Class of device.
    pub class_of_device: [u8; 3],
    /// Inquiry scan on at start.
    pub discoverable: bool,
    /// Page scan on at start.
    pub connectable: bool,
    /// Whether LE is used.
    pub le_enabled: bool,
    /// Inquiry length in seconds.
    pub inquiry_duration: u8,
    /// Event poll interval in milliseconds.
    pub poll_interval_ms: u64,
}

impl DaemonConfig {
    /// Whether `c` holds the default settings: name "GergiOS", computer
    /// class, not discoverable, connectable, LE on, 10 s inquiries, 50 ms
    /// polling.
    pub open spec fn is_default(c: DaemonConfig) -> bool {
        &&& c.name@ == DEFAULT_DEVICE_NAME@
        &&& c.class_of_device@ == default_class()
        &&& !c.discoverable
        &&& c.connectable
        &&& c.le_enabled
        &&& c.inquiry_duration == 10
        &&& c.poll_interval_ms == 50
    }

    /// The default settings (see `is_default`).
    pub fn default() -> (r: Self)
        ensures
            Self::is_default(r),
    {
        let class_of_device: [u8; 3] = [0x00, 0x1E, 0x00];
        assert(class_of_device@ =~= default_class());
        DaemonConfig {
            name: DEFAULT_DEVICE_NAME.to_owned(),
            class_of_device,
            discoverable: false,
            connectable: true,
            le_enabled: true,
            inquiry_duration: DEFAULT_INQUIRY_SECS,
            poll_interval_ms: HCI_POLL_MS,
        }
    }

    /// The settings the daemon starts with: the defaults.
    pub fn load() -> (r: Self)
        ensures
            Self::is_default(r),
    {
        Self::default()
    }
}

/// Requests applications send to the daemon.
#[derive(Clone, Copy, PartialEq, Eq, Debug, Structural)]
pub enum BtDaemonCmd {
    StartDiscovery,
    StopDiscovery,
    GetDevices,
    Connect,
    Disconnect,
    GetConnections,
    SetName,
    SetDiscoverable,
    SetConnectable,
    GetStatus,
    ReadChannel,
    WriteChannel,
    Pair,
    Unpair,
    RegisterService,
}

impl BtDaemonCmd {
    /// Request code of each command, 1 to 15 in declaration order.
    pub open spec fn spec_code(self) -> i32 {
        match self {
            BtDaemonCmd::StartDiscovery => 0x01,
            BtDaemonCmd::StopDiscovery => 0x02,
            BtDaemonCmd::GetDevices => 0x03,
            BtDaemonCmd::Connect => 0x04,
            BtDaemonCmd::Disconnect => 0x05,
            BtDaemonCmd::GetConnections => 0x06,
            BtDaemonCmd::SetName => 0x07,
            BtDaemonCmd::SetDiscoverable => 0x08,
            BtDaemonCmd::SetConnectable => 0x09,
            BtDaemonCmd::GetStatus => 0x0A,
            BtDaemonCmd::ReadChannel => 0x0B,
            BtDaemonCmd::WriteChannel => 0x0C,
            BtDaemonCmd::Pair => 0x0D,
            BtDaemonCmd::Unpair => 0x0E,
            BtDaemonCmd::RegisterService => 0x0F,
        }
    }

    /// Request code of this command.
    pub fn code(&self) -> (r: i32)
        ensures
            r == self.spec_code(),
    {
        match self {
            BtDaemonCmd::StartDiscovery => 0x01,
            BtDaemonCmd::StopDiscovery => 0x02,
            BtDaemonCmd::GetDevices => 0x03,
            BtDaemonCmd::Connect => 0x04,
            BtDaemonCmd::Disconnect => 0x05,
            BtDaemonCmd::GetConnections => 0x06,
            BtDaemonCmd::SetName => 0x07,
            BtDaemonCmd::SetDiscoverable => 0x08,
            BtDaemonCmd::SetConnectable => 0x09,
            BtDaemonCmd::GetStatus => 0x0A,
            BtDaemonCmd::ReadChannel => 0x0B,
            BtDaemonCmd::WriteChannel => 0x0C,
            BtDaemonCmd::Pair => 0x0D,
            BtDaemonCmd::Unpair => 0x0E,
            BtDaemonCmd::RegisterService => 0x0F,
        }
    }
}

} // verus!
