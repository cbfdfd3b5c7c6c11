//! Pairing bookkeeping and scan-mode decisions of the daemon: link key
//! types, bonds of known devices, authentication of connections, and the
//! scan mode each setting change calls for.

use vstd::prelude::*;
use crate::types::{BdAddr, ClassOfDevice};
use crate::bt_daemon::{
    slot_written, slot_index, evict_index, after_inquiry, rssi_taken,
    BondFlags, ConnState, Connection, ConnectionManager, RemoteDevice, first_conn_addr, first_conn_handle,
    first_device, has_conn_addr, has_conn_handle, has_device, same_addr, with_state,
};

verus! {

/// Whether a link key of type `key_type` is authenticated: the legacy
/// types 0 to 2 and the authenticated SSP combination key (5); not the
/// debug key (3), the unauthenticated SSP key (4) or a changed key (6).
pub open spec fn key_authenticated(key_type: u8) -> bool {
    key_type == 5 || (key_type < 4 && key_type != 3)
}

/// Whether the first device with address `a` is bonded.
pub open spec fn paired(devs: Seq<RemoteDevice>, a: BdAddr) -> bool {
    has_device(devs, a) && devs[first_device(devs, a)].bond.bonded
}

/// `devs` with the bond of the first device with address `a`, if any, set
/// to `b`.
pub open spec fn with_bond(devs: Seq<RemoteDevice>, a: BdAddr, b: BondFlags) -> Seq<RemoteDevice> {
    if has_device(devs, a) {
        let i = first_device(devs, a);
        devs.update(i, RemoteDevice { bond: b, ..devs[i] })
    } else {
        devs
    }
}

/// Whether a link key of type `key_type` is authenticated.
pub fn link_key_authenticated(key_type: u8) -> (r: bool)
    ensures
        r == key_authenticated(key_type),
{
    key_type == 0x05 || (key_type < 0x04 && key_type != 0x03)
}

/// Whether the first device with address `bdaddr` is bonded.
pub fn is_paired(connections: &ConnectionManager, bdaddr: &BdAddr) -> (r: bool)
    ensures
        r == paired(connections.devices(), *bdaddr),
{
    match connections.find_device(bdaddr) {
        Some(d) => d.bond.bonded,
        None => false,
    }
}

/// Records a new link key for `bdaddr`: the device becomes bonded and
/// encrypted, authenticated as the key type says, and so does its first
/// connection.
pub fn handle_link_key_notification(connections: &mut ConnectionManager, bdaddr: &BdAddr, _link_key: &[u8; 16], key_type: u8)
    requires
        old(connections).wf(),
    ensures
        final(connections).wf(),
        ({
            let auth = key_authenticated(key_type);
            let cs = old(connections).connections();
            &&& final(connections).devices() == with_bond(old(connections).devices(), *bdaddr,
                BondFlags { bonded: true, authenticated: auth, encrypted: true })
            &&& final(connections).connections() == if has_conn_addr(cs, *bdaddr) {
                let i = first_conn_addr(cs, *bdaddr);
                cs.update(i, Connection { authenticated: auth, encrypted: true, ..cs[i] })
            } else {
                cs
            }
        }),
        final(connections).local_name() == old(connections).local_name(),
        final(connections).discoverable_flag() == old(connections).discoverable_flag(),
        final(connections).connectable_flag() == old(connections).connectable_flag(),
{
    let authenticated = link_key_authenticated(key_type);
    match connections.find_device_mut(bdaddr) {
        Some(dev) => {
            dev.bond = BondFlags { bonded: true, authenticated, encrypted: true };
        },
        None => {},
    }
    match connections.find_connection_by_bdaddr_mut(bdaddr) {
        Some(conn) => {
            conn.authenticated = authenticated;
            conn.encrypted = true;
        },
        None => {},
    }
}

/// On a successful Authentication Complete (status 0) the first
/// connection with handle `handle` becomes authenticated; otherwise
/// nothing changes.
pub fn handle_authentication_complete(connections: &mut ConnectionManager, handle: u16, status: u8)
    requires
        old(connections).wf(),
    ensures
        final(connections).wf(),
        ({
            let cs = old(connections).connections();
            final(connections).connections() == if status == 0 && has_conn_handle(cs, handle) {
                let i = first_conn_handle(cs, handle);
                cs.update(i, Connection { authenticated: true, ..cs[i] })
            } else {
                cs
            }
        }),
        old(connections).same_devices_and_settings(&*final(connections)),
{
    if status == 0x00 {
        match connections.find_connection_by_handle_mut(handle) {
            Some(conn) => {
                conn.authenticated = true;
            },
            None => {},
        }
    }
}

/// Clears the bond of the first device with address `bdaddr`.
fn clear_bond(connections: &mut ConnectionManager, bdaddr: &BdAddr)
    requires
        old(connections).wf(),
    ensures
        final(connections).wf(),
        final(connections).devices() == with_bond(old(connections).devices(), *bdaddr,
            BondFlags { bonded: false, authenticated: false, encrypted: false }),
        old(connections).same_settings(&*final(connections)),
{
    match connections.find_device_mut(bdaddr) {
        Some(dev) => {
            dev.bond = BondFlags { bonded: false, authenticated: false, encrypted: false };
        },
        None => {},
    }
}

/// Marks the first connection to `bdaddr`, if any, disconnecting, by its
/// handle, and returns that handle.
fn disconnect_address(connections: &mut ConnectionManager, bdaddr: &BdAddr) -> (r: Option<u16>)
    requires
        old(connections).wf(),
    ensures
        final(connections).wf(),
        ({
            let cs = old(connections).connections();
            if has_conn_addr(cs, *bdaddr) {
                let h = cs[first_conn_addr(cs, *bdaddr)].handle;
                let j = first_conn_handle(cs, h);
                &&& r == Some(h)
                &&& final(connections).connections() == cs.update(j, with_state(cs[j], ConnState::Disconnecting))
            } else {
                &&& r is None
                &&& final(connections).connections() == cs
            }
        }),
        old(connections).same_devices_and_settings(&*final(connections)),
{
    let handle = match connections.find_connection_by_bdaddr(bdaddr) {
        Some(conn) => Some(conn.handle),
        None => None,
    };
    match handle {
        Some(h) => {
            assert(has_conn_handle(connections.connections(), h));
            connections.mark_disconnecting(h);
            Some(h)
        },
        None => None,
    }
}

/// The bookkeeping of unpairing `bdaddr`: the first device with that
/// address loses its bond, and the first connection to it, if any, is
/// marked disconnecting; its handle is returned so that the link can be
/// closed.
pub fn forget_bond(connections: &mut ConnectionManager, bdaddr: &BdAddr) -> (r: Option<u16>)
    requires
        old(connections).wf(),
    ensures
        final(connections).wf(),
        final(connections).devices() == with_bond(old(connections).devices(), *bdaddr,
            BondFlags { bonded: false, authenticated: false, encrypted: false }),
        ({
            let cs = old(connections).connections();
            if has_conn_addr(cs, *bdaddr) {
                let h = cs[first_conn_addr(cs, *bdaddr)].handle;
                let j = first_conn_handle(cs, h);
                &&& r == Some(h)
                &&& final(connections).connections() == cs.update(j, with_state(cs[j], ConnState::Disconnecting))
            } else {
                &&& r is None
                &&& final(connections).connections() == cs
            }
        }),
        final(connections).local_name() == old(connections).local_name(),
        final(connections).discoverable_flag() == old(connections).discoverable_flag(),
        final(connections).connectable_flag() == old(connections).connectable_flag(),
{
    clear_bond(connections, bdaddr);
    disconnect_address(connections, bdaddr)
}

/// A link key notification for a known device leaves it paired, and
/// forgetting its bond leaves it unpaired.
pub proof fn lemma_pairing_state(devs: Seq<RemoteDevice>, a: BdAddr, auth: bool)
    requires
        has_device(devs, a),
    ensures
        paired(with_bond(devs, a, BondFlags { bonded: true, authenticated: auth, encrypted: true }), a),
        !paired(with_bond(devs, a, BondFlags { bonded: false, authenticated: false, encrypted: false }), a),
{
    lemma_first_device_exists(devs, a);
    let i = first_device(devs, a);
    let on = with_bond(devs, a, BondFlags { bonded: true, authenticated: auth, encrypted: true });
    let off = with_bond(devs, a, BondFlags { bonded: false, authenticated: false, encrypted: false });
    assert forall|j: int| 0 <= j < devs.len() implies (#[trigger] on[j]).bdaddr == devs[j].bdaddr by {}
    assert forall|j: int| 0 <= j < devs.len() implies (#[trigger] off[j]).bdaddr == devs[j].bdaddr by {}
    lemma_first_device_after_update(devs, a, on);
    lemma_first_device_after_update(devs, a, off);
}

/// When some device has address `a`, a first one does.
proof fn lemma_first_device_exists(devs: Seq<RemoteDevice>, a: BdAddr)
    requires
        has_device(devs, a),
    ensures
        0 <= first_device(devs, a) < devs.len(),
        same_addr(devs[first_device(devs, a)].bdaddr, a),
        forall|j: int| 0 <= j < first_device(devs, a) ==> !same_addr(devs[j].bdaddr, a),
    decreases devs.len(),
{
    let init = devs.drop_last();
    if has_device(init, a) {
        lemma_first_device_exists(init, a);
        let i = first_device(init, a);
        assert(devs[i] == init[i]);
        assert(forall|j: int| 0 <= j < i ==> devs[j] == init[j]);
    } else {
        let i = devs.len() - 1;
        assert forall|j: int| 0 <= j < i implies !same_addr(devs[j].bdaddr, a) by {
            assert(devs[j] == init[j]);
        }
        let w = choose|k: int| 0 <= k < devs.len() && same_addr(devs[k].bdaddr, a);
        if w < i {
            assert(init[w] == devs[w]);
        }
        assert(same_addr(devs[i].bdaddr, a));
    }
}

/// Changing the bond of the first device with an address keeps it the
/// first device with that address.
proof fn lemma_first_device_after_update(devs: Seq<RemoteDevice>, a: BdAddr, after: Seq<RemoteDevice>)
    requires
        has_device(devs, a),
        after.len() == devs.len(),
        forall|j: int| 0 <= j < devs.len() ==> (#[trigger] after[j]).bdaddr == devs[j].bdaddr,
    ensures
        has_device(after, a),
        first_device(after, a) == first_device(devs, a),
{
    lemma_first_device_exists(devs, a);
    let i = first_device(devs, a);
    assert(same_addr(after[i].bdaddr, a));
    assert forall|j: int| 0 <= j < i implies !same_addr(after[j].bdaddr, a) by {
        assert(after[j].bdaddr == devs[j].bdaddr);
    }
    lemma_first_device_exists(after, a);
}

/// Scan mode set at start: both scans (3) when discoverable and
/// connectable, page scan (2) when only connectable, none (0) otherwise.
pub fn init_scan_mode(discoverable: bool, connectable: bool) -> (r: u8)
    ensures
        r == if discoverable && connectable { 3u8 } else if connectable { 2u8 } else { 0u8 },
{
    if discoverable && connectable {
        0x03
    } else if connectable {
        0x02
    } else {
        0x00
    }
}

/// Scan mode set when discoverability is turned to `enable`: both scans
/// (3) when also connectable, else 2 when either is on, else none (0).
pub fn discoverable_scan_mode(enable: bool, connectable: bool) -> (r: u8)
    ensures
        r == if enable && connectable { 3u8 } else if enable || connectable { 2u8 } else { 0u8 },
{
    if enable && connectable {
        0x03
    } else if enable {
        0x02
    } else if connectable {
        0x02
    } else {
        0x00
    }
}

/// Scan mode set when connectability is turned to `enable`: both scans
/// (3) when also discoverable, page scan (2) when only connectable, else
/// none (0).
pub fn connectable_scan_mode(enable: bool, discoverable: bool) -> (r: u8)
    ensures
        r == if enable && discoverable { 3u8 } else if enable { 2u8 } else { 0u8 },
{
    if enable && discoverable {
        0x03
    } else if enable {
        0x02
    } else {
        0x00
    }
}

/// Whether no two devices of `devs` share an address.
pub open spec fn distinct_addrs(devs: Seq<RemoteDevice>) -> bool {
    forall|i: int, j: int| 0 <= i < j < devs.len() ==> !same_addr(#[trigger] devs[i].bdaddr, #[trigger] devs[j].bdaddr)
}

/// When some device was not seen in the latest inquiry, a first one is.
proof fn lemma_evict_in_range(devs: Seq<RemoteDevice>)
    requires
        devs.len() > 0,
    ensures
        0 <= evict_index(devs) < devs.len(),
    decreases devs.len(),
{
    if exists|i: int| 0 <= i < devs.len() && !devs[i].found {
        let w = choose|i: int| 0 <= i < devs.len() && !devs[i].found;
        lemma_first_unfound(devs, w);
    }
}

proof fn lemma_first_unfound(devs: Seq<RemoteDevice>, w: int)
    requires
        0 <= w < devs.len(),
        !devs[w].found,
    ensures
        exists|i: int| 0 <= i < devs.len() && !devs[i].found && forall|j: int| 0 <= j < i ==> devs[j].found,
    decreases w,
{
    if exists|k: int| 0 <= k < w && !devs[k].found {
        let k = choose|k: int| 0 <= k < w && !devs[k].found;
        lemma_first_unfound(devs, k);
    } else {
        assert(forall|j: int| 0 <= j < w ==> devs[j].found);
    }
}

/// An inquiry result keeps the device table a table: addresses stay
/// distinct and there are at most 32 devices; exactly one device has the
/// reported address, and it is the reported device (found, with the
/// reported class, seen at `ticks`, with the RSSI when it is taken).
pub proof fn lemma_inquiry_table(
    old_devs: Seq<RemoteDevice>,
    new_devs: Seq<RemoteDevice>,
    a: BdAddr,
    base: RemoteDevice,
    class: ClassOfDevice,
    rssi: i8,
    ticks: u64,
)
    requires
        distinct_addrs(old_devs),
        old_devs.len() <= 32,
        slot_written(old_devs, new_devs, a, base, after_inquiry(base, class, rssi, ticks)),
    ensures
        distinct_addrs(new_devs),
        new_devs.len() <= 32,
        exists|i: int| 0 <= i < new_devs.len() && new_devs[i] == after_inquiry(base, class, rssi, ticks)
            && same_addr(new_devs[i].bdaddr, a)
            && forall|j: int| 0 <= j < new_devs.len() && j != i ==> !same_addr(#[trigger] new_devs[j].bdaddr, a),
        after_inquiry(base, class, rssi, ticks).found,
        after_inquiry(base, class, rssi, ticks).class == class,
        after_inquiry(base, class, rssi, ticks).last_seen == ticks,
        rssi_taken(rssi) ==> after_inquiry(base, class, rssi, ticks).rssi == rssi,
{
    let d = after_inquiry(base, class, rssi, ticks);
    let i = slot_index(old_devs, a);
    if has_device(old_devs, a) {
        lemma_first_device_exists(old_devs, a);
        assert(same_addr(d.bdaddr, a));
        assert(new_devs == old_devs.update(i, d));
        assert forall|j: int| 0 <= j < new_devs.len() && j != i implies !same_addr(#[trigger] new_devs[j].bdaddr, a) by {
            assert(new_devs[j] == old_devs[j]);
            if j < i {
            } else {
                assert(!same_addr(old_devs[i].bdaddr, old_devs[j].bdaddr));
            }
        }
        assert forall|x: int, y: int| 0 <= x < y < new_devs.len() implies !same_addr(
            #[trigger] new_devs[x].bdaddr, #[trigger] new_devs[y].bdaddr) by {
            if x != i && y != i {
                assert(new_devs[x] == old_devs[x] && new_devs[y] == old_devs[y]);
            } else if x == i {
                assert(new_devs[y] == old_devs[y]);
                assert(!same_addr(old_devs[x].bdaddr, old_devs[y].bdaddr));
            } else {
                assert(new_devs[x] == old_devs[x]);
                assert(!same_addr(old_devs[x].bdaddr, old_devs[y].bdaddr));
            }
        }
        assert(new_devs[i] == d);
    } else {
        assert(same_addr(d.bdaddr, a));
        let k = if old_devs.len() < 32 { old_devs.len() as int } else { i };
        if old_devs.len() < 32 {
            assert(new_devs == old_devs.push(d));
        } else {
            lemma_evict_in_range(old_devs);
            assert(new_devs == old_devs.update(i, d));
        }
        assert(0 <= k < new_devs.len() && new_devs[k] == d);
        assert forall|j: int| 0 <= j < new_devs.len() && j != k implies !same_addr(#[trigger] new_devs[j].bdaddr, a) by {
            assert(new_devs[j] == old_devs[j]);
        }
        assert forall|x: int, y: int| 0 <= x < y < new_devs.len() implies !same_addr(
            #[trigger] new_devs[x].bdaddr, #[trigger] new_devs[y].bdaddr) by {
            if x != k && y != k {
                assert(new_devs[x] == old_devs[x] && new_devs[y] == old_devs[y]);
            } else if x == k {
                assert(new_devs[y] == old_devs[y]);
            } else {
                assert(new_devs[x] == old_devs[x]);
            }
        }
    }
}

} // verus!
