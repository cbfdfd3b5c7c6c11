//! The `/dev/hci0` character device: packets from the controller wait in
//! two FIFO rings (events, ACL data) until `read` hands them out as
//! `[type | data]` records; `write` passes one packet to the USB transport;
//! `ioctl` brings the device up or down and reports its information.

use vstd::prelude::*;
use crate::errno::{OK, EBUSY, EAGAIN, EIO, EPROTO, ENOTTY};
use crate::hci::{HciPacketType, HciState};
use crate::usb_transport::{HciUsbTransport, EndpointState};
use crate::bytes::copy_range;

verus! {

/// Bring the device up.
pub const HCIDEVUP: u64 = 0x400448C9;
/// Bring the device down.
pub const HCIDEVDOWN: u64 = 0x400448CA;
/// List the devices.
pub const HCIGETDEVLIST: u64 = 0x800448D2;
/// Report device information.
pub const HCIGETDEVINFO: u64 = 0x800448D3;
/// Report connection information.
pub const HCIGETCONNINFO: u64 = 0x800448D4;
/// Start an inquiry.
pub const HCIINQUIRY: u64 = 0x400448DC;

/// Device flags.
pub const HCI_UP: u16 = 0x0001;
pub const HCI_INIT: u16 = 0x0002;
pub const HCI_RUNNING: u16 = 0x0004;
pub const HCI_PSCAN: u16 = 0x0008;
pub const HCI_ISCAN: u16 = 0x0010;
pub const HCI_AUTH: u16 = 0x0020;
pub const HCI_ENCRYPT: u16 = 0x0040;
pub const HCI_INQUIRY_FLAG: u16 = 0x0080;

/// Device types.
pub const HCI_BREDR: u16 = 0;
pub const HCI_AMP: u16 = 1;
pub const HCI_BREDR_LE: u16 = 2;

/// Device counters.
#[derive(Clone, Copy, Debug)]
pub struct HciDevStats {
    pub err_rx: u32,
    pub err_tx: u32,
    pub cmd_tx: u32,
    pub evt_rx: u32,
    pub acl_tx: u32,
    pub acl_rx: u32,
    pub sco_tx: u32,
    pub sco_rx: u32,
    pub byte_tx: u32,
    pub byte_rx: u32,
}

/// Device information as reported to user space.
pub struct HciDevInfo {
    pub dev_id: u16,
    pub name: [u8; 8],
    pub bdaddr: [u8; 6],
    pub flags: u16,
    pub dev_type: u8,
    pub features: [u8; 8],
    pub pkt_type: u32,
    pub link_policy: u32,
    pub link_mode: u32,
    pub acl_mtu: u16,
    pub sco_mtu: u16,
    pub acl_pkts: u16,
    pub sco_pkts: u16,
    pub dev_stats: HciDevStats,
}

/// A device list with one entry.
pub struct HciDevListReq {
    pub num_devices: u16,
    pub devices: [HciDevInfo; 1],
}

/// Packets held by a ring.
pub const HCI_EVT_RING_SIZE: usize = 32;
/// Packet count of a data ring.
pub const HCI_DATA_RING_SIZE: usize = 16;

/// One slot of a ring: packet type and the first `data_len` bytes of
/// `data`.
pub struct HciPacketBuf {
    pub pkt_type: u8,
    pub data_len: u16,
    pub data: Box<[u8; 65538]>,
}

impl HciPacketBuf {
    /// An empty slot.
    pub fn new() -> (r: Self)
        ensures
            r.pkt_type == 0,
            r.data_len == 0,
    {
        HciPacketBuf { pkt_type: 0, data_len: 0, data: Box::new([0u8; 65538]) }
    }

    /// The packet held: its type and data.
    pub open spec fn packet(&self) -> (u8, Seq<u8>) {
        (self.pkt_type, self.data@.take(self.data_len as int))
    }
}

/// Whether `r` returns packet `p`.
pub open spec fn popped_is(r: Option<(u8, Vec<u8>)>, p: (u8, Seq<u8>)) -> bool {
    match r {
        Some(x) => x.0 == p.0 && x.1@ == p.1,
        None => false,
    }
}

/// A FIFO ring of up to 32 packets.
pub struct HciRingBuf {
    bufs: Vec<HciPacketBuf>,
    head: usize,
    tail: usize,
    count: usize,
}

/// The packet a ring keeps for `(t, data)`: at most 65537 data bytes, with
/// the count held in 16 bits (so 65536 and 65537 bytes wrap to 0 and 1).
pub open spec fn pushed_packet(t: u8, data: Seq<u8>) -> (u8, Seq<u8>) {
    let n = if data.len() < 65537 { data.len() as int } else { 65537 };
    (t, data.take(n % 65536))
}

impl HciRingBuf {
    /// Slots, indices and count are consistent.
    pub closed spec fn wf(&self) -> bool {
        &&& self.bufs@.len() == 32
        &&& self.head < 32 && self.tail < 32 && self.count <= 32
        &&& self.head == (self.tail + self.count) % 32
        &&& forall|i: int| 0 <= i < 32 ==> (#[trigger] self.bufs@[i]).data_len <= 65537
    }

    /// The queued packets, oldest first.
    pub closed spec fn spec_packets(&self) -> Seq<(u8, Seq<u8>)> {
        Seq::new(self.count as nat, |i: int| self.bufs@[(self.tail + i) % 32].packet())
    }

    /// An empty ring.
    pub fn new() -> (r: Self)
        ensures
            r.wf(),
            r.spec_packets().len() == 0,
    {
        let mut bufs: Vec<HciPacketBuf> = Vec::new();
        let mut i: usize = 0;
        while i < HCI_EVT_RING_SIZE
            invariant
                i <= 32,
                bufs@.len() == i,
                forall|k: int| 0 <= k < i ==> (#[trigger] bufs@[k]).data_len == 0,
            decreases 32 - i,
        {
            bufs.push(HciPacketBuf::new());
            i = i + 1;
        }
        HciRingBuf { bufs, head: 0, tail: 0, count: 0 }
    }

    /// Appends packet `(pkt_type, data)` (see `pushed_packet`); false,
    /// changing nothing, when the ring is full.
    pub fn push(&mut self, pkt_type: u8, data: &[u8]) -> (r: bool)
        requires
            old(self).wf(),
        ensures
            final(self).wf(),
            r == (old(self).spec_packets().len() < 32),
            r ==> final(self).spec_packets() == old(self).spec_packets().push(pushed_packet(pkt_type, data@)),
            !r ==> final(self).spec_packets() == old(self).spec_packets(),
    {
        if self.count == HCI_EVT_RING_SIZE {
            return false;
        }
        let max_data: usize = 65537;
        let n: usize = if data.len() < max_data { data.len() } else { max_data };
        let len16: u16 = (n % 65536) as u16;
        let len: usize = len16 as usize;
        let mut arr = [0u8; 65538];
        let mut k: usize = 0;
        while k < len
            invariant
                k <= len,
                len <= 65537,
                len <= data@.len(),
                arr@.len() == 65538,
                forall|j: int| 0 <= j < k ==> arr@[j] == data@[j],
            decreases len - k,
        {
            arr[k] = data[k];
            k = k + 1;
        }
        assert(arr@.take(len as int) =~= data@.take(len as int));
        let ghost old_packets = self.spec_packets();
        let slot = HciPacketBuf { pkt_type, data_len: len16, data: Box::new(arr) };
        assert(slot.packet() == pushed_packet(pkt_type, data@));
        let h = self.head;
        self.bufs.set(h, slot);
        self.head = (self.head + 1) % HCI_EVT_RING_SIZE;
        self.count = self.count + 1;
        proof {
            assert forall|i: int| 0 <= i < old_packets.len() implies #[trigger] self.bufs@[(self.tail + i) % 32]
                == old(self).bufs@[(self.tail + i) % 32] by {
                assert((self.tail + i) % 32 != h as int);
            }
            assert(self.spec_packets() =~= old_packets.push(pushed_packet(pkt_type, data@)));
        }
        true
    }

    /// Removes and returns the oldest packet, `None` when empty.
    pub fn pop(&mut self) -> (r: Option<(u8, Vec<u8>)>)
        requires
            old(self).wf(),
        ensures
            final(self).wf(),
            old(self).spec_packets().len() == 0 ==> r is None && final(self).spec_packets() == old(self).spec_packets(),
            old(self).spec_packets().len() > 0 ==> popped_is(r, old(self).spec_packets()[0])
                && final(self).spec_packets() == old(self).spec_packets().drop_first(),
            r matches Some(x) ==> x.1@.len() <= 65537,
    {
        if self.count == 0 {
            return None;
        }
        let ghost old_packets = self.spec_packets();
        let t = self.tail;
        let pkt_type = self.bufs[t].pkt_type;
        let data_len = self.bufs[t].data_len as usize;
        let mut data: Vec<u8> = Vec::new();
        let mut k: usize = 0;
        while k < data_len
            invariant
                k <= data_len,
                t < 32,
                self.bufs@.len() == 32,
                data_len == self.bufs@[t as int].data_len,
                data_len <= 65537,
                self.bufs@[t as int].data@.len() == 65538,
                data@ == self.bufs@[t as int].data@.take(k as int),
            decreases data_len - k,
        {
            data.push(self.bufs[t].data[k]);
            k = k + 1;
            assert(data@ =~= self.bufs@[t as int].data@.take(k as int));
        }
        self.tail = (self.tail + 1) % HCI_EVT_RING_SIZE;
        self.count = self.count - 1;
        assert(self.spec_packets() =~= old_packets.drop_first());
        Some((pkt_type, data))
    }

    /// Whether no packet is queued.
    pub fn is_empty(&self) -> (r: bool)
        requires
            self.wf(),
        ensures
            r == (self.spec_packets().len() == 0),
    {
        self.count == 0
    }

    /// Whether 32 packets are queued.
    pub fn is_full(&self) -> (r: bool)
        requires
            self.wf(),
        ensures
            r == (self.spec_packets().len() == 32),
    {
        self.count == HCI_EVT_RING_SIZE
    }

    /// The number of queued packets.
    pub fn len(&self) -> (r: usize)
        requires
            self.wf(),
        ensures
            r == self.spec_packets().len(),
    {
        self.count
    }
}

/// The bytes `read` hands out for queued packets `q` into `rem` bytes of
/// room: each packet as its type byte then its data, in order, cut off
/// where the room ends.
pub open spec fn drained_bytes(q: Seq<(u8, Seq<u8>)>, rem: int) -> Seq<u8>
    decreases q.len(),
{
    if q.len() == 0 || rem <= 0 {
        Seq::empty()
    } else if 1 + q[0].1.len() >= rem {
        (seq![q[0].0] + q[0].1).take(rem)
    } else {
        seq![q[0].0] + q[0].1 + drained_bytes(q.drop_first(), rem - 1 - q[0].1.len())
    }
}

/// How many packets of `q` `read` takes with `rem` bytes of room: up to and
/// including the one that reaches the end of the room.
pub open spec fn drained_count(q: Seq<(u8, Seq<u8>)>, rem: int) -> nat
    decreases q.len(),
{
    if q.len() == 0 || rem <= 0 {
        0
    } else if 1 + q[0].1.len() >= rem {
        1
    } else {
        1 + drained_count(q.drop_first(), rem - 1 - q[0].1.len())
    }
}

/// What is left over of the packet `read` cuts off at the end of `rem`
/// bytes of room when handing out `q` (empty when none is cut).
pub open spec fn cut_rest(q: Seq<(u8, Seq<u8>)>, rem: int) -> Seq<u8>
    decreases q.len(),
{
    if q.len() == 0 || rem <= 0 {
        Seq::empty()
    } else if 1 + q[0].1.len() >= rem {
        (seq![q[0].0] + q[0].1).skip(rem)
    } else {
        cut_rest(q.drop_first(), rem - 1 - q[0].1.len())
    }
}

/// The bytes of a partly read packet still to be handed out.
pub open spec fn pending_bytes(p: Option<(Box<[u8; 65539]>, usize)>) -> Seq<u8> {
    match p {
        Some((b, n)) => b@.take(n as int),
        None => Seq::empty(),
    }
}

/// How many packets of `q` fit whole into `rem` bytes of room, in order.
pub open spec fn whole_count(q: Seq<(u8, Seq<u8>)>, rem: int) -> nat
    decreases q.len(),
{
    if q.len() == 0 || rem <= 0 {
        0
    } else if 1 + q[0].1.len() <= rem {
        1 + whole_count(q.drop_first(), rem - 1 - q[0].1.len())
    } else {
        0
    }
}

/// What an ioctl answers: a status, or the device information to copy to
/// the caller.
pub enum IoctlReply {
    Status(i32),
    DevInfo(HciDevInfo),
}

/// The character device.
pub struct HciChardev {
    pub minor: i32,
    pub open: bool,
    /// Events from the controller, waiting to be read.
    pub evt_ring: HciRingBuf,
    /// ACL data from the controller, waiting to be read.
    pub acl_ring: HciRingBuf,
    /// The rest of a packet cut off at the end of a read (its bytes and
    /// their count), handed out first by the next read.
    pub read_pending: Option<(Box<[u8; 65539]>, usize)>,
    pub stats: HciDevStats,
    /// Whether the device is up.
    pub device_up: bool,
}

/// All counters zero.
pub open spec fn zero_stats(s: HciDevStats) -> bool {
    s.err_rx == 0 && s.err_tx == 0 && s.cmd_tx == 0 && s.evt_rx == 0 && s.acl_tx == 0 && s.acl_rx == 0
        && s.sco_tx == 0 && s.sco_rx == 0 && s.byte_tx == 0 && s.byte_rx == 0
}

impl HciChardev {
    /// Both rings are well formed and the partly read packet fits its
    /// buffer.
    pub open spec fn wf(&self) -> bool {
        &&& self.evt_ring.wf()
        &&& self.acl_ring.wf()
        &&& match self.read_pending {
            Some((_, n)) => n <= 65539,
            None => true,
        }
    }

    /// A closed, down device with empty rings and zero counters.
    pub fn new(minor: i32) -> (r: Self)
        ensures
            r.wf(),
            r.minor == minor,
            !r.open,
            !r.device_up,
            r.evt_ring.spec_packets().len() == 0,
            r.acl_ring.spec_packets().len() == 0,
            r.read_pending is None,
            zero_stats(r.stats),
    {
        HciChardev {
            minor,
            open: false,
            evt_ring: HciRingBuf::new(),
            acl_ring: HciRingBuf::new(),
            read_pending: None,
            stats: HciDevStats {
                err_rx: 0, err_tx: 0, cmd_tx: 0, evt_rx: 0, acl_tx: 0,
                acl_rx: 0, sco_tx: 0, sco_rx: 0, byte_tx: 0, byte_rx: 0,
            },
            device_up: false,
        }
    }

    /// Opens the device: `EBUSY` when it is already open.
    pub fn open(&mut self) -> (r: i32)
        ensures
            r == if old(self).open { EBUSY } else { OK },
            *final(self) == (HciChardev { open: true, ..*old(self) }),
    {
        if self.open {
            return EBUSY;
        }
        self.open = true;
        OK
    }

    /// Closes the device, dropping every queued packet.
    pub fn close(&mut self) -> (r: i32)
        ensures
            r == OK,
            final(self).wf(),
            !final(self).open,
            final(self).evt_ring.spec_packets().len() == 0,
            final(self).acl_ring.spec_packets().len() == 0,
            final(self).read_pending is None,
            final(self).minor == old(self).minor,
            final(self).stats == old(self).stats,
            final(self).device_up == old(self).device_up,
    {
        self.open = false;
        self.evt_ring = HciRingBuf::new();
        self.acl_ring = HciRingBuf::new();
        self.read_pending = None;
        OK
    }

    /// Hands queued packets to user space as `[type | data]` records in
    /// `buf`. The rest of a packet cut off by an earlier read comes first,
    /// alone. Otherwise events, as many as there is room for (the last one
    /// cut off at the end of `buf`, its rest kept for the next read); only
    /// when no event is queued, ACL data in the same way. Returns the byte
    /// count, or `EAGAIN` when the device is closed, `buf` is empty or
    /// nothing is waiting. Events read are counted in `evt_rx`, ACL packets
    /// in `acl_rx` only when they fit whole.
    #[verifier::rlimit(40)]
    pub fn read(&mut self, buf: &mut [u8]) -> (r: isize)
        requires
            old(self).wf(),
            old(buf)@.len() <= isize::MAX,
            old(self).open && old(buf)@.len() > 0 && pending_bytes(old(self).read_pending).len() == 0
                && old(self).evt_ring.spec_packets().len() > 0
                ==> old(self).stats.evt_rx + drained_count(old(self).evt_ring.spec_packets(), old(buf)@.len() as int)
                <= u32::MAX,
            old(self).open && old(buf)@.len() > 0 && pending_bytes(old(self).read_pending).len() == 0
                && old(self).evt_ring.spec_packets().len() == 0
                ==> old(self).stats.acl_rx + whole_count(old(self).acl_ring.spec_packets(), old(buf)@.len() as int)
                <= u32::MAX,
        ensures
            final(self).wf(),
            final(buf)@.len() == old(buf)@.len(),
            ({
                let qe = old(self).evt_ring.spec_packets();
                let qa = old(self).acl_ring.spec_packets();
                let cap = old(buf)@.len() as int;
                let p = pending_bytes(old(self).read_pending);
                if !old(self).open || cap == 0 {
                    &&& r == EAGAIN as isize
                    &&& *final(self) == *old(self)
                    &&& final(buf)@ == old(buf)@
                } else if p.len() > 0 {
                    let k = if p.len() < cap { p.len() as int } else { cap };
                    &&& r == k
                    &&& final(buf)@ == p.take(k) + old(buf)@.skip(k)
                    &&& pending_bytes(final(self).read_pending) == p.skip(k)
                    &&& final(self).evt_ring == old(self).evt_ring
                    &&& final(self).acl_ring == old(self).acl_ring
                    &&& final(self).stats == old(self).stats
                } else if qe.len() == 0 && qa.len() == 0 {
                    &&& r == EAGAIN as isize
                    &&& *final(self) == *old(self)
                    &&& final(buf)@ == old(buf)@
                } else if qe.len() > 0 {
                    let out = drained_bytes(qe, cap);
                    &&& r == out.len()
                    &&& final(buf)@ == out + old(buf)@.skip(out.len() as int)
                    &&& final(self).evt_ring.spec_packets() == qe.skip(drained_count(qe, cap) as int)
                    &&& final(self).acl_ring.spec_packets() == qa
                    &&& final(self).stats == (HciDevStats { evt_rx: (old(self).stats.evt_rx + drained_count(qe, cap)) as u32,
                        ..old(self).stats })
                    &&& pending_bytes(final(self).read_pending) == cut_rest(qe, cap)
                } else {
                    let out = drained_bytes(qa, cap);
                    &&& r == out.len()
                    &&& final(buf)@ == out + old(buf)@.skip(out.len() as int)
                    &&& final(self).evt_ring.spec_packets() == qe
                    &&& final(self).acl_ring.spec_packets() == qa.skip(drained_count(qa, cap) as int)
                    &&& final(self).stats == (HciDevStats { acl_rx: (old(self).stats.acl_rx + whole_count(qa, cap)) as u32,
                        ..old(self).stats })
                    &&& pending_bytes(final(self).read_pending) == cut_rest(qa, cap)
                }
            }),
            final(self).open == old(self).open,
            final(self).minor == old(self).minor,
            final(self).device_up == old(self).device_up,
    {
        if !self.open || buf.len() == 0 {
            return EAGAIN as isize;
        }
        let has_pending = match &self.read_pending {
            Some((_, n)) => *n > 0,
            None => false,
        };
        if has_pending {
            let k = self.read_from_pending(buf);
            return k as isize;
        }
        if self.evt_ring.is_empty() && self.acl_ring.is_empty() {
            return EAGAIN as isize;
        }
        let ghost qe = self.evt_ring.spec_packets();
        let ghost qa = self.acl_ring.spec_packets();
        let cap = buf.len();
        let mut written: usize = 0;
        let mut popped: usize = 0;
        let mut done = false;
        let mut rest: Vec<u8> = Vec::new();
        while written < cap && !done
            invariant
                cap == buf@.len(),
                buf@.len() == old(buf)@.len(),
                written <= cap,
                self.evt_ring.wf(),
                self.acl_ring == old(self).acl_ring,
                qe == old(self).evt_ring.spec_packets(),
                self.evt_ring.spec_packets() == qe.skip(popped as int),
                popped <= qe.len(),
                done ==> self.evt_ring.spec_packets().len() == 0,
                buf@.take(written as int) + drained_bytes(self.evt_ring.spec_packets(), cap - written)
                    == drained_bytes(qe, cap as int),
                popped + drained_count(self.evt_ring.spec_packets(), cap - written) == drained_count(qe, cap as int),
                rest@ + cut_rest(self.evt_ring.spec_packets(), cap - written) == cut_rest(qe, cap as int),
                rest@.len() <= 65537,
                rest@.len() > 0 ==> written == cap,
                buf@.skip(written as int) == old(buf)@.skip(written as int),
                self.stats == (HciDevStats { evt_rx: (old(self).stats.evt_rx + popped) as u32, ..old(self).stats }),
                qe.len() > 0 ==> old(self).stats.evt_rx + drained_count(qe, cap as int) <= u32::MAX,
                qe.len() <= 32,
                cap <= isize::MAX,
                self.open == old(self).open,
                self.minor == old(self).minor,
                self.device_up == old(self).device_up,
                self.read_pending == old(self).read_pending,
            decreases cap - written + (if done { 0int } else { 1int }),
        {
            let ghost cur = self.evt_ring.spec_packets();
            let ghost before = buf@;
            match self.evt_ring.pop() {
                Some((pkt_type, data)) => {
                    let total_len = 1 + data.len();
                    let remaining = cap - written;
                    let copy_len = if remaining < total_len { remaining } else { total_len };
                    buf[written] = pkt_type;
                    let data_copy = if copy_len - 1 < data.len() { copy_len - 1 } else { data.len() };
                    let mut k: usize = 0;
                    while k < data_copy
                        invariant
                            k <= data_copy,
                            data_copy <= data@.len(),
                            written + 1 + data_copy <= buf@.len(),
                            cap == buf@.len(),
                            buf@.len() == before.len(),
                            buf@ == before.take(written as int).push(pkt_type) + data@.take(k as int)
                                + before.skip(written + 1 + k),
                        decreases data_copy - k,
                    {
                        buf[written + 1 + k] = data[k];
                        k = k + 1;
                        assert(buf@ =~= before.take(written as int).push(pkt_type) + data@.take(k as int)
                            + before.skip(written + 1 + k));
                    }
                    proof {
                        let rest = cur.drop_first();
                        assert(cur[0] == (pkt_type, data@));
                        assert(self.evt_ring.spec_packets() == rest);
                        let w2 = written + 1 + data_copy;
                        assert(buf@.take(w2) =~= before.take(written as int) + (seq![pkt_type] + data@).take(1 + data_copy));
                        if total_len >= remaining {
                            assert((seq![pkt_type] + data@).take(remaining as int) =~= (seq![pkt_type] + data@).take(1 + data_copy));
                        } else {
                            assert((seq![pkt_type] + data@).take(1 + data_copy) =~= seq![pkt_type] + data@);
                        }
                        assert(buf@.skip(w2) =~= before.skip(w2));
                        assert forall|i: int| 0 <= i < before.skip(w2).len() implies
                            #[trigger] before.skip(w2)[i] == old(buf)@.skip(w2)[i] by {
                            assert(before.skip(written as int)[w2 - written + i] == old(buf)@.skip(written as int)[w2 - written + i]);
                        }
                        assert(before.skip(w2) =~= old(buf)@.skip(w2));
                        assert(qe.skip(popped + 1) =~= qe.skip(popped as int).drop_first());
                        if total_len >= remaining {
                            assert((seq![pkt_type] + data@).skip(remaining as int) =~= data@.skip(data_copy as int));
                            assert(cut_rest(cur, remaining as int) == data@.skip(data_copy as int));
                        } else {
                            assert(cut_rest(cur, remaining as int) == cut_rest(rest, remaining - total_len));
                        }
                    }
                    if data_copy < data.len() {
                        rest = copy_range(data.as_slice(), data_copy, data.len());
                    }
                    written = written + 1 + data_copy;
                    popped = popped + 1;
                    self.stats.evt_rx = self.stats.evt_rx + 1;
                },
                None => {
                    done = true;
                },
            }
        }
        proof {
            if !done {
                assert(written == cap);
            }
            assert(buf@.take(written as int) + buf@.skip(written as int) =~= buf@);
        }
        if written == 0 {
            proof {
                assert(qe.len() == 0);
            }
            let mut acl_done = false;
            let mut acl_popped: usize = 0;
            let mut whole: usize = 0;
            while written < cap && !acl_done
                invariant
                    cap == buf@.len(),
                    buf@.len() == old(buf)@.len(),
                    written <= cap,
                    self.acl_ring.wf(),
                    self.evt_ring.wf(),
                    self.evt_ring.spec_packets().len() == 0,
                    qe.len() == 0,
                    qa == old(self).acl_ring.spec_packets(),
                    self.acl_ring.spec_packets() == qa.skip(acl_popped as int),
                    acl_popped <= qa.len(),
                    qa.len() <= 32,
                    cap <= isize::MAX,
                    whole <= acl_popped,
                    acl_done ==> self.acl_ring.spec_packets().len() == 0,
                    buf@.take(written as int) + drained_bytes(self.acl_ring.spec_packets(), cap - written)
                        == drained_bytes(qa, cap as int),
                    acl_popped + drained_count(self.acl_ring.spec_packets(), cap - written) == drained_count(qa, cap as int),
                    whole + whole_count(self.acl_ring.spec_packets(), cap - written) == whole_count(qa, cap as int),
                    rest@ + cut_rest(self.acl_ring.spec_packets(), cap - written) == cut_rest(qa, cap as int),
                    rest@.len() <= 65537,
                    rest@.len() > 0 ==> written == cap,
                    buf@.skip(written as int) == old(buf)@.skip(written as int),
                    self.stats == (HciDevStats { acl_rx: (old(self).stats.acl_rx + whole) as u32, ..old(self).stats }),
                    old(self).stats.acl_rx + whole_count(qa, cap as int) <= u32::MAX,
                    self.open == old(self).open,
                    self.minor == old(self).minor,
                    self.device_up == old(self).device_up,
                    self.read_pending == old(self).read_pending,
                decreases cap - written + (if acl_done { 0int } else { 1int }),
            {
                let ghost cur = self.acl_ring.spec_packets();
                let ghost before = buf@;
                match self.acl_ring.pop() {
                    Some((pkt_type, data)) => {
                        let total_len = 1 + data.len();
                        let remaining = cap - written;
                        let full = remaining >= total_len;
                        let data_copy = if full { data.len() } else { remaining - 1 };
                        buf[written] = pkt_type;
                        let mut k: usize = 0;
                        while k < data_copy
                            invariant
                                k <= data_copy,
                                data_copy <= data@.len(),
                                written + 1 + data_copy <= buf@.len(),
                                cap == buf@.len(),
                                buf@.len() == before.len(),
                                buf@ == before.take(written as int).push(pkt_type) + data@.take(k as int)
                                    + before.skip(written + 1 + k),
                            decreases data_copy - k,
                        {
                            buf[written + 1 + k] = data[k];
                            k = k + 1;
                            assert(buf@ =~= before.take(written as int).push(pkt_type) + data@.take(k as int)
                                + before.skip(written + 1 + k));
                        }
                        proof {
                            let rest = cur.drop_first();
                            assert(cur[0] == (pkt_type, data@));
                            assert(self.acl_ring.spec_packets() == rest);
                            let w2 = written + 1 + data_copy;
                            assert(buf@.take(w2) =~= before.take(written as int) + (seq![pkt_type] + data@).take(1 + data_copy));
                            if total_len >= remaining {
                                assert((seq![pkt_type] + data@).take(remaining as int) =~= (seq![pkt_type] + data@).take(1 + data_copy));
                            } else {
                                assert((seq![pkt_type] + data@).take(1 + data_copy) =~= seq![pkt_type] + data@);
                            }
                            assert(buf@.skip(w2) =~= before.skip(w2));
                        assert forall|i: int| 0 <= i < before.skip(w2).len() implies
                            #[trigger] before.skip(w2)[i] == old(buf)@.skip(w2)[i] by {
                            assert(before.skip(written as int)[w2 - written + i] == old(buf)@.skip(written as int)[w2 - written + i]);
                        }
                        assert(before.skip(w2) =~= old(buf)@.skip(w2));
                            assert(qa.skip(acl_popped + 1) =~= qa.skip(acl_popped as int).drop_first());
                            if total_len >= remaining {
                                assert((seq![pkt_type] + data@).skip(remaining as int) =~= data@.skip(data_copy as int));
                                assert(cut_rest(cur, remaining as int) == data@.skip(data_copy as int));
                            } else {
                                assert(cut_rest(cur, remaining as int) == cut_rest(rest, remaining - total_len));
                            }
                        }
                        if data_copy < data.len() {
                            rest = copy_range(data.as_slice(), data_copy, data.len());
                        }
                        written = written + 1 + data_copy;
                        acl_popped = acl_popped + 1;
                        if full {
                            whole = whole + 1;
                            self.stats.acl_rx = self.stats.acl_rx + 1;
                        }
                    },
                    None => {
                        acl_done = true;
                    },
                }
            }
            proof {
                if !acl_done {
                    assert(written == cap);
                }
                assert(buf@.take(written as int) + buf@.skip(written as int) =~= buf@);
            }
        }
        self.keep_pending(&rest);
        written as isize
    }

    /// Keeps `rest` as the partly read packet (none when it is empty).
    fn keep_pending(&mut self, rest: &Vec<u8>)
        requires
            rest@.len() <= 65539,
        ensures
            pending_bytes(final(self).read_pending) == rest@,
            match final(self).read_pending {
                Some((_, n)) => n <= 65539,
                None => true,
            },
            *final(self) == (HciChardev { read_pending: final(self).read_pending, ..*old(self) }),
    {
        if rest.len() == 0 {
            self.read_pending = None;
            return;
        }
        let mut arr = [0u8; 65539];
        let mut i: usize = 0;
        while i < rest.len()
            invariant
                i <= rest@.len(),
                rest@.len() <= 65539,
                arr@.len() == 65539,
                forall|j: int| 0 <= j < i ==> arr@[j] == rest@[j],
            decreases rest@.len() - i,
        {
            arr[i] = rest[i];
            i = i + 1;
        }
        assert(arr@.take(rest@.len() as int) =~= rest@);
        self.read_pending = Some((Box::new(arr), rest.len()));
    }

    /// Hands out the partly read packet's bytes, as many as fit in `buf`,
    /// and keeps the rest.
    fn read_from_pending(&mut self, buf: &mut [u8]) -> (r: usize)
        requires
            old(self).wf(),
            old(buf)@.len() > 0,
        ensures
            ({
                let p = pending_bytes(old(self).read_pending);
                let cap = old(buf)@.len() as int;
                let k = if p.len() < cap { p.len() as int } else { cap };
                &&& r == k
                &&& final(buf)@ == p.take(k) + old(buf)@.skip(k)
                &&& pending_bytes(final(self).read_pending) == p.skip(k)
            }),
            final(self).wf(),
            *final(self) == (HciChardev { read_pending: final(self).read_pending, ..*old(self) }),
    {
        let ghost p = pending_bytes(self.read_pending);
        let ghost orig = buf@;
        let cap = buf.len();
        let mut rest: Vec<u8> = Vec::new();
        let mut k: usize = 0;
        match &self.read_pending {
            Some((b, n)) => {
                let n = *n;
                k = if n < cap { n } else { cap };
                let mut i: usize = 0;
                while i < k
                    invariant
                        i <= k,
                        k <= n,
                        n <= 65539,
                        k <= buf@.len(),
                        buf@.len() == orig.len(),
                        p == b@.take(n as int),
                        b@.len() == 65539,
                        forall|j: int| 0 <= j < i ==> buf@[j] == b@[j],
                        forall|j: int| i <= j < buf@.len() ==> buf@[j] == orig[j],
                    decreases k - i,
                {
                    buf[i] = b[i];
                    i = i + 1;
                }
                let mut j: usize = k;
                while j < n
                    invariant
                        k <= j <= n,
                        n <= 65539,
                        b@.len() == 65539,
                        rest@ == b@.subrange(k as int, j as int),
                        rest@.len() == j - k,
                    decreases n - j,
                {
                    rest.push(b[j]);
                    j = j + 1;
                    assert(rest@ =~= b@.subrange(k as int, j as int));
                }
                assert(buf@ =~= p.take(k as int) + orig.skip(k as int));
                assert(rest@ =~= p.skip(k as int));
            },
            None => {
                assert(buf@ =~= p.take(0) + orig.skip(0));
                assert(rest@ =~= p.skip(0));
            },
        }
        self.keep_pending(&rest);
        k
    }
}

/// A queue served first in, first out: after pushing `p` onto `q`, the
/// front is `q`'s front (or `p` when `q` was empty), and removing it
/// leaves the rest of `q` followed by `p`.
pub proof fn lemma_ring_fifo(q: Seq<(u8, Seq<u8>)>, p: (u8, Seq<u8>))
    ensures
        q.len() == 0 ==> q.push(p)[0] == p && q.push(p).drop_first() == q,
        q.len() > 0 ==> q.push(p)[0] == q[0] && q.push(p).drop_first() == q.drop_first().push(p),
{
    if q.len() == 0 {
        assert(q.push(p).drop_first() =~= q);
    } else {
        assert(q.push(p).drop_first() =~= q.drop_first().push(p));
    }
}

/// Whether `i` is the information reported for device `d` over transport
/// `t`: "hci0", the controller's address, the Up flag, BR/EDR+LE, a fixed
/// feature mask and buffer sizes, and `d`'s counters.
pub open spec fn is_dev_info(i: HciDevInfo, d: HciChardev, t: HciUsbTransport) -> bool {
    &&& i.dev_id == 0
    &&& i.name@ == seq![0x68u8, 0x63u8, 0x69u8, 0x30u8, 0u8, 0u8, 0u8, 0u8]
    &&& i.bdaddr@ == t.bd_addr.0@
    &&& i.flags == if d.device_up { HCI_UP } else { 0 }
    &&& i.dev_type == 2
    &&& i.features@ == seq![0xFFu8, 0xFFu8, 0xFFu8, 0xFEu8, 0u8, 0u8, 0u8, 0u8]
    &&& i.pkt_type == 0 && i.link_policy == 0 && i.link_mode == 0
    &&& i.acl_mtu == 1024 && i.sco_mtu == 64 && i.acl_pkts == 16 && i.sco_pkts == 8
    &&& i.dev_stats == d.stats
}

/// Whether `r` is the status `code`.
pub open spec fn is_status(r: IoctlReply, code: i32) -> bool {
    match r {
        IoctlReply::Status(c) => c == code,
        _ => false,
    }
}

impl HciChardev {
    /// The counters after a write of `n` bytes of packet type `ty` that
    /// returned `r`: on success (`r` is the byte count) the type's counter
    /// and the byte counter grow; on `EIO` the send-error counter does.
    pub open spec fn sent_counted(s: HciDevStats, s2: HciDevStats, r: isize, n: nat, ty: u8) -> bool {
        if r >= 0 {
            &&& r == n
            &&& s2.byte_tx == s.byte_tx + n
            &&& ty == 0x01 ==> s2 == (HciDevStats { cmd_tx: (s.cmd_tx + 1) as u32, byte_tx: s2.byte_tx, ..s })
            &&& ty == 0x02 ==> s2 == (HciDevStats { acl_tx: (s.acl_tx + 1) as u32, byte_tx: s2.byte_tx, ..s })
            &&& ty == 0x03 ==> s2 == (HciDevStats { sco_tx: (s.sco_tx + 1) as u32, byte_tx: s2.byte_tx, ..s })
        } else {
            r == EIO as isize && s2 == (HciDevStats { err_tx: (s.err_tx + 1) as u32, ..s })
        }
    }

    /// Passes one packet from user space (`[type | data]`) to the
    /// transport: commands and ACL data on bulk OUT, SCO on isochronous
    /// OUT. Returns the byte count and counts it, `EIO` (counted as a send
    /// error) when the transport refuses it, `EPROTO` for another type,
    /// `EAGAIN` when closed or empty.
    pub fn write(&mut self, transport: &mut HciUsbTransport, data: &[u8]) -> (r: isize)
        requires
            old(transport).wf(),
            data@.len() <= isize::MAX,
            old(self).open && data@.len() > 0 && 1 <= data@[0] <= 3 ==> old(self).stats.err_tx < u32::MAX
                && old(self).stats.byte_tx + data@.len() <= u32::MAX,
            old(self).open && data@.len() > 0 && data@[0] == 0x01 ==> old(self).stats.cmd_tx < u32::MAX,
            old(self).open && data@.len() > 0 && data@[0] == 0x02 ==> old(self).stats.acl_tx < u32::MAX,
            old(self).open && data@.len() > 0 && data@[0] == 0x03 ==> old(self).stats.sco_tx < u32::MAX,
        ensures
            final(transport).wf(),
            final(self).evt_ring == old(self).evt_ring,
            final(self).acl_ring == old(self).acl_ring,
            final(self).open == old(self).open,
            final(self).device_up == old(self).device_up,
            !old(self).open || data@.len() == 0 ==> r == EAGAIN as isize && final(self).stats == old(self).stats
                && *final(transport) == *old(transport),
            old(self).open && data@.len() > 0 && data@[0] == 0x01 ==> {
                &&& EndpointState::send_result(old(transport).bulk_out, final(transport).bulk_out, data@, r >= 0, 0x01, 4)
                &&& *final(transport) == (HciUsbTransport { bulk_out: final(transport).bulk_out, ..*old(transport) })
                &&& Self::sent_counted(old(self).stats, final(self).stats, r, data@.len(), 0x01)
            },
            old(self).open && data@.len() > 0 && data@[0] == 0x02 ==> {
                &&& EndpointState::send_result(old(transport).bulk_out, final(transport).bulk_out, data@, r >= 0, 0x02, 5)
                &&& *final(transport) == (HciUsbTransport { bulk_out: final(transport).bulk_out, ..*old(transport) })
                &&& Self::sent_counted(old(self).stats, final(self).stats, r, data@.len(), 0x02)
            },
            old(self).open && data@.len() > 0 && data@[0] == 0x03 ==> {
                &&& EndpointState::send_result(old(transport).isoc_out, final(transport).isoc_out, data@, r >= 0, 0x03, 4)
                &&& *final(transport) == (HciUsbTransport { isoc_out: final(transport).isoc_out, ..*old(transport) })
                &&& Self::sent_counted(old(self).stats, final(self).stats, r, data@.len(), 0x03)
            },
            old(self).open && data@.len() > 0 && !(1 <= data@[0] <= 3) ==> r == EPROTO as isize
                && final(self).stats == old(self).stats && *final(transport) == *old(transport),
    {
        if !self.open || data.len() == 0 {
            return EAGAIN as isize;
        }
        match HciPacketType::from_byte(data[0]) {
            Some(HciPacketType::HciCommand) => {
                if transport.send_command(data) {
                    self.stats.cmd_tx = self.stats.cmd_tx + 1;
                    self.stats.byte_tx = self.stats.byte_tx + data.len() as u32;
                    data.len() as isize
                } else {
                    self.stats.err_tx = self.stats.err_tx + 1;
                    EIO as isize
                }
            },
            Some(HciPacketType::HciAclData) => {
                if transport.send_acl(data) {
                    self.stats.acl_tx = self.stats.acl_tx + 1;
                    self.stats.byte_tx = self.stats.byte_tx + data.len() as u32;
                    data.len() as isize
                } else {
                    self.stats.err_tx = self.stats.err_tx + 1;
                    EIO as isize
                }
            },
            Some(HciPacketType::HciScoData) => {
                if transport.send_sco(data) {
                    self.stats.sco_tx = self.stats.sco_tx + 1;
                    self.stats.byte_tx = self.stats.byte_tx + data.len() as u32;
                    data.len() as isize
                } else {
                    self.stats.err_tx = self.stats.err_tx + 1;
                    EIO as isize
                }
            },
            _ => {
                assert(HciPacketType::HciCommand.code() == 0x01 && HciPacketType::HciAclData.code() == 0x02
                    && HciPacketType::HciScoData.code() == 0x03);
                EPROTO as isize
            },
        }
    }

    /// The device information reported for this device over `transport`
    /// (see `is_dev_info`).
    pub fn dev_info(&self, transport: &HciUsbTransport) -> (r: HciDevInfo)
        ensures
            is_dev_info(r, *self, *transport),
    {
        let name: [u8; 8] = [0x68, 0x63, 0x69, 0x30, 0, 0, 0, 0];
        let features: [u8; 8] = [0xFF, 0xFF, 0xFF, 0xFE, 0, 0, 0, 0];
        let r = HciDevInfo {
            dev_id: 0,
            name,
            bdaddr: transport.bd_addr.0,
            flags: if self.device_up { HCI_UP } else { 0 },
            dev_type: 2,
            features,
            pkt_type: 0,
            link_policy: 0,
            link_mode: 0,
            acl_mtu: 1024,
            sco_mtu: 64,
            acl_pkts: 16,
            sco_pkts: 8,
            dev_stats: self.stats,
        };
        assert(r.name@ =~= seq![0x68u8, 0x63u8, 0x69u8, 0x30u8, 0u8, 0u8, 0u8, 0u8]);
        assert(r.features@ =~= seq![0xFFu8, 0xFFu8, 0xFFu8, 0xFEu8, 0u8, 0u8, 0u8, 0u8]);
        r
    }

    /// Handles a device request. Up runs the transport's initialisation
    /// (unless already up), which fails here without a controller reply
    /// (`EIO`); Down marks the transport down; device information is
    /// answered with `dev_info`; the device list and inquiry are accepted;
    /// anything else is `ENOTTY`.
    pub fn ioctl(&mut self, transport: &mut HciUsbTransport, request: u64) -> (r: IoctlReply)
        requires
            old(transport).wf(),
        ensures
            final(transport).wf(),
            final(self).stats == old(self).stats,
            final(self).open == old(self).open,
            final(self).evt_ring == old(self).evt_ring,
            final(self).acl_ring == old(self).acl_ring,
            request == HCIDEVUP && old(self).device_up ==> is_status(r, OK)
                && final(self).device_up && *final(transport) == *old(transport),
            request == HCIDEVUP && !old(self).device_up ==> {
                &&& is_status(r, EIO)
                &&& !final(self).device_up
                &&& final(transport).state == HciState::Error
                &&& HciUsbTransport::cmd_exchanged(HciUsbTransport { state: HciState::Reset, ..*old(transport) },
                    HciUsbTransport { state: HciState::Reset, ..*final(transport) }, crate::usb_transport::usb_empty_cmd(0x0C03))
            },
            request == HCIDEVDOWN ==> is_status(r, OK) && !final(self).device_up
                && *final(transport) == (HciUsbTransport { state: HciState::Down, ..*old(transport) }),
            request == HCIGETDEVINFO ==> (match r {
                IoctlReply::DevInfo(i) => is_dev_info(i, *old(self), *old(transport)),
                _ => false,
            }) && final(self).device_up == old(self).device_up && *final(transport) == *old(transport),
            request == HCIGETDEVLIST || request == HCIINQUIRY ==> is_status(r, OK)
                && final(self).device_up == old(self).device_up && *final(transport) == *old(transport),
            request != HCIDEVUP && request != HCIDEVDOWN && request != HCIGETDEVINFO && request != HCIGETDEVLIST
                && request != HCIINQUIRY ==> is_status(r, ENOTTY)
                && final(self).device_up == old(self).device_up && *final(transport) == *old(transport),
    {
        if request == HCIDEVUP {
            if self.device_up {
                return IoctlReply::Status(OK);
            }
            if transport.init_sequence() {
                self.device_up = true;
                IoctlReply::Status(OK)
            } else {
                IoctlReply::Status(EIO)
            }
        } else if request == HCIDEVDOWN {
            transport.state = HciState::Down;
            self.device_up = false;
            IoctlReply::Status(OK)
        } else if request == HCIGETDEVINFO {
            IoctlReply::DevInfo(self.dev_info(transport))
        } else if request == HCIGETDEVLIST {
            IoctlReply::Status(OK)
        } else if request == HCIINQUIRY {
            IoctlReply::Status(OK)
        } else {
            IoctlReply::Status(ENOTTY)
        }
    }
}

} // verus!
