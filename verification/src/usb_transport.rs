//! HCI over USB: commands and ACL data go out on the bulk OUT endpoint,
//! events and ACL data come in on bulk IN (or interrupt IN), SCO on the
//! isochronous endpoints. Each endpoint cycles through four transfer
//! buffers whose physical memory the platform provides.

use vstd::prelude::*;
use crate::bytes::{copy_range, read_u16_le};
use crate::hci::{BdAddr, HciState, build_hci_cmd, spec_cmd_frame, check_cmd_success, parse_cmd_complete};

pub mod usb_desc;

verus! {

/// Transfer buffers per endpoint.
const NUM_XFER_BUFS: usize = 4;

/// `size` rounded up to a multiple of 64.
pub open spec fn aligned64(size: int) -> int {
    (size + 63) / 64 * 64
}

/// Whether slot `b` holds a buffer of `n` bytes.
pub open spec fn buf_sized(b: Option<HciUsbBuf>, n: int) -> bool {
    match b {
        Some(x) => x.size == n,
        None => false,
    }
}

/// A transfer buffer: the physical address of its region, its size, and
/// the bytes last staged in it for a transfer.
pub struct HciUsbBuf {
    pub phys: u64,
    pub size: usize,
    pub data: Vec<u8>,
}

impl HciUsbBuf {
    /// Allocates a buffer of `size` rounded up to 64 bytes; its region
    /// comes from `platform_alloc`, which returns the physical address of a
    /// fresh contiguous region of the given size, or `None`.
    pub fn allocate<A: Fn(usize) -> Option<u64>>(size: usize, platform_alloc: &A) -> (r: Option<Self>)
        requires
            size <= usize::MAX - 63,
            forall|n: usize| platform_alloc.requires((n,)),
        ensures
            r matches Some(b) ==> b.size == aligned64(size as int) && b.data@.len() == 0
                && platform_alloc.ensures((b.size,), Some(b.phys)),
            r is None ==> platform_alloc.ensures((aligned64(size as int) as usize,), None),
    {
        let aligned = (size + 63) / 64 * 64;
        match platform_alloc(aligned) {
            Some(phys) => Some(HciUsbBuf { phys, size: aligned, data: Vec::new() }),
            None => None,
        }
    }

    /// Releases the buffer's region through `platform_free` (given its
    /// physical address and size) and empties it; nothing happens to an
    /// empty buffer.
    pub fn free<F: Fn(u64, usize)>(&mut self, platform_free: &F)
        requires
            forall|p: u64, n: usize| platform_free.requires((p, n)),
        ensures
            old(self).size > 0 ==> final(self).size == 0 && final(self).phys == 0 && final(self).data@.len() == 0,
            old(self).size == 0 ==> *final(self) == *old(self),
    {
        if self.size > 0 {
            platform_free(self.phys, self.size);
            self.phys = 0;
            self.size = 0;
            self.data = Vec::new();
        }
    }
}

/// Transfer state of one endpoint.
pub struct EndpointState {
    /// USB endpoint address.
    pub address: u8,
    /// The four transfer buffers, used round-robin.
    pub bufs: Vec<Option<HciUsbBuf>>,
    /// Index of the next buffer.
    pub buf_idx: usize,
    /// Maximum packet size.
    pub max_packet: u16,
    /// Whether the endpoint is configured.
    pub active: bool,
}

/// The buffer slot after `old_b` held staged bytes `data`.
pub open spec fn staged(old_b: Option<HciUsbBuf>, new_b: Option<HciUsbBuf>, data: Seq<u8>) -> bool {
    match (old_b, new_b) {
        (Some(a), Some(b)) => b.phys == a.phys && b.size == a.size && b.data@ == data,
        _ => false,
    }
}

/// After a failed allocation at slot `f`: the slots up to and including
/// `f` are empty and those after it are as they were.
pub open spec fn released_through(old_b: Seq<Option<HciUsbBuf>>, new_b: Seq<Option<HciUsbBuf>>, f: int) -> bool {
    &&& 0 <= f < 4
    &&& forall|k: int| 0 <= k <= f ==> (#[trigger] new_b[k]) is None
    &&& forall|k: int| f < k < 4 ==> #[trigger] new_b[k] == old_b[k]
}

impl EndpointState {
    /// Four buffer slots and a valid next index.
    pub open spec fn wf(&self) -> bool {
        self.bufs@.len() == 4 && self.buf_idx < 4
    }

    /// `new_ep` is `old_ep` after trying to stage `data` for a transfer:
    /// the endpoint must be active and `data` at least `min_len` bytes with
    /// first byte `ty`; then the next buffer is taken (the index advances)
    /// and, when it exists and is large enough, holds `data`.
    pub open spec fn send_result(old_ep: EndpointState, new_ep: EndpointState, data: Seq<u8>, r: bool, ty: u8, min_len: int) -> bool {
        if !old_ep.active || data.len() < min_len || data[0] != ty {
            !r && new_ep == old_ep
        } else {
            let idx = old_ep.buf_idx as int;
            let advanced = EndpointState { buf_idx: ((idx + 1) % 4) as usize, ..old_ep };
            match old_ep.bufs@[idx] {
                Some(b) => if data.len() > b.size {
                    !r && new_ep == advanced
                } else {
                    &&& r
                    &&& new_ep.bufs@.len() == 4
                    &&& staged(old_ep.bufs@[idx], new_ep.bufs@[idx], data)
                    &&& forall|k: int| 0 <= k < 4 && k != idx ==> new_ep.bufs@[k] == old_ep.bufs@[k]
                    &&& new_ep.buf_idx == advanced.buf_idx
                    &&& new_ep.address == old_ep.address
                    &&& new_ep.max_packet == old_ep.max_packet
                    &&& new_ep.active == old_ep.active
                },
                None => !r && new_ep == advanced,
            }
        }
    }

    /// `new_ep` is `old_ep` after a receive: the next buffer is taken when
    /// the endpoint is active.
    pub open spec fn recv_result(old_ep: EndpointState, new_ep: EndpointState) -> bool {
        if old_ep.active {
            new_ep == EndpointState { buf_idx: ((old_ep.buf_idx + 1) % 4) as usize, ..old_ep }
        } else {
            new_ep == old_ep
        }
    }

    /// An inactive endpoint without buffers.
    pub fn new() -> (r: Self)
        ensures
            r.wf(),
            r.address == 0,
            forall|k: int| 0 <= k < 4 ==> r.bufs@[k] is None,
            r.buf_idx == 0,
            r.max_packet == 64,
            !r.active,
    {
        let mut bufs: Vec<Option<HciUsbBuf>> = Vec::new();
        bufs.push(None);
        bufs.push(None);
        bufs.push(None);
        bufs.push(None);
        EndpointState { address: 0, bufs, buf_idx: 0, max_packet: 64, active: false }
    }

    /// Allocates the four buffers of `buf_size` bytes (rounded up to 64);
    /// when one fails, those allocated before it are released and false
    /// is returned.
    pub fn alloc_bufs<A: Fn(usize) -> Option<u64>, F: Fn(u64, usize)>(&mut self, buf_size: usize, platform_alloc: &A,
        platform_free: &F) -> (r: bool)
        requires
            old(self).wf(),
            buf_size <= usize::MAX - 63,
            forall|n: usize| platform_alloc.requires((n,)),
            forall|p: u64, n: usize| platform_free.requires((p, n)),
        ensures
            final(self).wf(),
            final(self).address == old(self).address,
            final(self).buf_idx == old(self).buf_idx,
            final(self).max_packet == old(self).max_packet,
            final(self).active == old(self).active,
            r ==> forall|k: int| 0 <= k < 4 ==> buf_sized(#[trigger] final(self).bufs@[k], aligned64(buf_size as int)),
            !r ==> exists|f: int| #[trigger] released_through(old(self).bufs@, final(self).bufs@, f),
    {
        let mut i: usize = 0;
        while i < NUM_XFER_BUFS
            invariant
                i <= 4,
                self.wf(),
                self.address == old(self).address,
                self.buf_idx == old(self).buf_idx,
                self.max_packet == old(self).max_packet,
                self.active == old(self).active,
                buf_size <= usize::MAX - 63,
                forall|n: usize| platform_alloc.requires((n,)),
                forall|p: u64, n: usize| platform_free.requires((p, n)),
                forall|k: int| 0 <= k < i ==> buf_sized(#[trigger] self.bufs@[k], aligned64(buf_size as int)),
                forall|k: int| i <= k < 4 ==> #[trigger] self.bufs@[k] == old(self).bufs@[k],
            decreases 4 - i,
        {
            let b = HciUsbBuf::allocate(buf_size, platform_alloc);
            let failed = b.is_none();
            self.bufs.set(i, b);
            if failed {
                let mut j: usize = 0;
                while j < i
                    invariant
                        j <= i < 4,
                        self.wf(),
                        self.address == old(self).address,
                        self.buf_idx == old(self).buf_idx,
                        self.max_packet == old(self).max_packet,
                        self.active == old(self).active,
                        forall|p: u64, n: usize| platform_free.requires((p, n)),
                        self.bufs@[i as int] is None,
                        forall|k: int| 0 <= k < j ==> (#[trigger] self.bufs@[k]) is None,
                        forall|k: int| i < k < 4 ==> #[trigger] self.bufs@[k] == old(self).bufs@[k],
                    decreases i - j,
                {
                    match &self.bufs[j] {
                        Some(b) => {
                            if b.size > 0 {
                                platform_free(b.phys, b.size);
                            }
                        },
                        None => {},
                    }
                    self.bufs.set(j, None);
                    j = j + 1;
                }
                assert(released_through(old(self).bufs@, self.bufs@, i as int));
                return false;
            }
            i = i + 1;
        }
        true
    }

    /// Index of the next buffer; advances round-robin.
    fn next_buf_index(&mut self) -> (r: usize)
        requires
            old(self).wf(),
        ensures
            final(self).wf(),
            r == old(self).buf_idx,
            *final(self) == (EndpointState { buf_idx: ((old(self).buf_idx + 1) % 4) as usize, ..*old(self) }),
    {
        let idx = self.buf_idx % NUM_XFER_BUFS;
        self.buf_idx = (self.buf_idx + 1) % NUM_XFER_BUFS;
        idx
    }

    /// Stages `data` for a transfer (see `send_result`).
    fn stage(&mut self, data: &[u8], ty: u8, min_len: usize) -> (r: bool)
        requires
            old(self).wf(),
            min_len >= 1,
        ensures
            final(self).wf(),
            Self::send_result(*old(self), *final(self), data@, r, ty, min_len as int),
    {
        if !self.active {
            return false;
        }
        if data.len() < min_len {
            return false;
        }
        if data[0] != ty {
            return false;
        }
        let idx = self.next_buf_index();
        let (phys, size) = match &self.bufs[idx] {
            Some(b) => (b.phys, b.size),
            None => { return false; },
        };
        if data.len() > size {
            return false;
        }
        let staged_bytes = copy_range(data, 0, data.len());
        assert(data@.subrange(0, data@.len() as int) =~= data@);
        self.bufs.set(idx, Some(HciUsbBuf { phys, size, data: staged_bytes }));
        true
    }

    /// Releases every buffer and deactivates the endpoint.
    pub fn free_all<F: Fn(u64, usize)>(&mut self, platform_free: &F)
        requires
            old(self).wf(),
            forall|p: u64, n: usize| platform_free.requires((p, n)),
        ensures
            final(self).wf(),
            forall|k: int| 0 <= k < 4 ==> (#[trigger] final(self).bufs@[k]) is None,
            !final(self).active,
            final(self).address == old(self).address,
            final(self).buf_idx == old(self).buf_idx,
            final(self).max_packet == old(self).max_packet,
    {
        let mut i: usize = 0;
        while i < NUM_XFER_BUFS
            invariant
                i <= 4,
                self.wf(),
                self.address == old(self).address,
                self.buf_idx == old(self).buf_idx,
                self.max_packet == old(self).max_packet,
                forall|p: u64, n: usize| platform_free.requires((p, n)),
                forall|k: int| 0 <= k < i ==> (#[trigger] self.bufs@[k]) is None,
            decreases 4 - i,
        {
            match &self.bufs[i] {
                Some(b) => {
                    if b.size > 0 {
                        platform_free(b.phys, b.size);
                    }
                },
                None => {},
            }
            self.bufs.set(i, None);
            i = i + 1;
        }
        self.active = false;
    }
}

/// The HCI USB transport: device identity, endpoint transfer state and
/// what the controller reported about itself.
pub struct HciUsbTransport {
    pub vendor_id: u16,
    pub product_id: u16,
    pub vendor_str: [u8; 16],
    pub product_str: [u8; 32],
    /// Commands and ACL data to the controller.
    pub bulk_out: EndpointState,
    /// Events and ACL data from the controller.
    pub bulk_in: EndpointState,
    /// Events from the controller (alternative to bulk IN).
    pub intr_in: EndpointState,
    /// SCO audio to the controller.
    pub isoc_out: EndpointState,
    /// SCO audio from the controller.
    pub isoc_in: EndpointState,
    pub state: HciState,
    pub bd_addr: BdAddr,
    pub hci_version: u8,
    pub hci_revision: u16,
    pub lmp_version: u8,
    pub lmp_subversion: u16,
    pub manufacturer: u16,
    pub ready: bool,
}

/// The frame of an HCI command `opcode` without parameters.
pub open spec fn usb_empty_cmd(opcode: u16) -> Seq<u8> {
    spec_cmd_frame(opcode, Seq::empty(), 8)
}

impl HciUsbTransport {
    /// Every endpoint is well formed.
    pub open spec fn wf(&self) -> bool {
        &&& self.bulk_out.wf()
        &&& self.bulk_in.wf()
        &&& self.intr_in.wf()
        &&& self.isoc_out.wf()
        &&& self.isoc_in.wf()
    }

    /// `new_t` is `old_t` after sending command frame `cmd` and, when it
    /// could be staged, waiting for the reply (which never comes here).
    pub open spec fn cmd_exchanged(old_t: HciUsbTransport, new_t: HciUsbTransport, cmd: Seq<u8>) -> bool {
        exists|r: bool| {
            &&& EndpointState::send_result(old_t.bulk_out, new_t.bulk_out, cmd, r, 0x01, 4)
            &&& if r { EndpointState::recv_result(old_t.bulk_in, new_t.bulk_in) } else { new_t.bulk_in == old_t.bulk_in }
            &&& new_t == HciUsbTransport { bulk_out: new_t.bulk_out, bulk_in: new_t.bulk_in, ..old_t }
        }
    }

    /// `new_t` is `old_t` after staging `cmd` on bulk OUT and then taking
    /// the next bulk IN buffer, whether or not the command was staged.
    pub open spec fn cmd_drained(old_t: HciUsbTransport, new_t: HciUsbTransport, cmd: Seq<u8>) -> bool {
        exists|r: bool| {
            &&& #[trigger] EndpointState::send_result(old_t.bulk_out, new_t.bulk_out, cmd, r, 0x01, 4)
            &&& EndpointState::recv_result(old_t.bulk_in, new_t.bulk_in)
            &&& new_t == HciUsbTransport { bulk_out: new_t.bulk_out, bulk_in: new_t.bulk_in, ..old_t }
        }
    }

    /// An unconfigured transport in the Reset state.
    pub fn new() -> (r: Self)
        ensures
            r.wf(),
            r.vendor_id == 0 && r.product_id == 0,
            !r.bulk_out.active && !r.bulk_in.active && !r.intr_in.active && !r.isoc_out.active && !r.isoc_in.active,
            r.state == HciState::Reset,
            r.bd_addr.0@ == seq![0u8, 0u8, 0u8, 0u8, 0u8, 0u8],
            r.hci_version == 0 && r.hci_revision == 0 && r.lmp_version == 0,
            r.lmp_subversion == 0 && r.manufacturer == 0,
            !r.ready,
    {
        let t = HciUsbTransport {
            vendor_id: 0,
            product_id: 0,
            vendor_str: [0u8; 16],
            product_str: [0u8; 32],
            bulk_out: EndpointState::new(),
            bulk_in: EndpointState::new(),
            intr_in: EndpointState::new(),
            isoc_out: EndpointState::new(),
            isoc_in: EndpointState::new(),
            state: HciState::Reset,
            bd_addr: BdAddr([0u8; 6]),
            hci_version: 0,
            hci_revision: 0,
            lmp_version: 0,
            lmp_subversion: 0,
            manufacturer: 0,
            ready: false,
        };
        assert(t.bd_addr.0@ =~= seq![0u8, 0u8, 0u8, 0u8, 0u8, 0u8]);
        t
    }

    /// A transport with the usual endpoint layout: bulk OUT 0x02, bulk IN
    /// 0x81, interrupt IN 0x83, no isochronous endpoints. It is returned
    /// even when buffers could not be allocated (see
    /// `configure_endpoints`).
    pub fn probe<A: Fn(usize) -> Option<u64>, F: Fn(u64, usize)>(platform_alloc: &A, platform_free: &F) -> (r: Result<Self, i32>)
        requires
            forall|n: usize| platform_alloc.requires((n,)),
            forall|p: u64, n: usize| platform_free.requires((p, n)),
        ensures
            r matches Ok(t) && t.wf() && t.bulk_out.address == 0x02 && !t.isoc_out.active && !t.isoc_in.active
                && t.state == HciState::Reset && !t.ready,
    {
        let mut t = Self::new();
        t.configure_endpoints(0x02, 0x81, 0x83, None, None, 64, 64, 48, platform_alloc, platform_free);
        Ok(t)
    }

    /// Sets up the endpoints: bulk OUT and bulk IN with buffers for ACL
    /// packets, interrupt IN with buffers for events, and the isochronous
    /// endpoints when given (with SCO buffers, active even when their
    /// buffers cannot be had). False, stopping there, when a bulk or
    /// interrupt endpoint's buffers cannot be allocated.
    pub fn configure_endpoints<A: Fn(usize) -> Option<u64>, F: Fn(u64, usize)>(&mut self,
        bulk_out_addr: u8, bulk_in_addr: u8, intr_in_addr: u8,
        isoc_out_addr: Option<u8>, isoc_in_addr: Option<u8>,
        bulk_mps: u16, intr_mps: u16, isoc_mps: u16,
        platform_alloc: &A, platform_free: &F) -> (r: bool)
        requires
            old(self).wf(),
            forall|n: usize| platform_alloc.requires((n,)),
            forall|p: u64, n: usize| platform_free.requires((p, n)),
        ensures
            final(self).wf(),
            final(self).state == old(self).state,
            final(self).ready == old(self).ready,
            isoc_out_addr is None ==> final(self).isoc_out == old(self).isoc_out,
            isoc_in_addr is None ==> final(self).isoc_in == old(self).isoc_in,
            final(self).bulk_out.address == bulk_out_addr && final(self).bulk_out.max_packet == bulk_mps,
            r ==> {
                &&& final(self).bulk_out.active
                &&& forall|k: int| 0 <= k < 4 ==> buf_sized(#[trigger] final(self).bulk_out.bufs@[k], 65600)
                &&& final(self).bulk_in.address == bulk_in_addr && final(self).bulk_in.max_packet == bulk_mps
                &&& final(self).bulk_in.active
                &&& forall|k: int| 0 <= k < 4 ==> buf_sized(#[trigger] final(self).bulk_in.bufs@[k], 65600)
                &&& final(self).intr_in.address == intr_in_addr && final(self).intr_in.max_packet == intr_mps
                &&& final(self).intr_in.active
                &&& forall|k: int| 0 <= k < 4 ==> buf_sized(#[trigger] final(self).intr_in.bufs@[k], 320)
                &&& isoc_out_addr matches Some(a) ==> final(self).isoc_out.address == a
                    && final(self).isoc_out.max_packet == isoc_mps && final(self).isoc_out.active
                &&& isoc_in_addr matches Some(a) ==> final(self).isoc_in.address == a
                    && final(self).isoc_in.max_packet == isoc_mps && final(self).isoc_in.active
            },
    {
        self.bulk_out.address = bulk_out_addr;
        self.bulk_out.max_packet = bulk_mps;
        if !self.bulk_out.alloc_bufs(65539, platform_alloc, platform_free) {
            return false;
        }
        self.bulk_out.active = true;
        self.bulk_in.address = bulk_in_addr;
        self.bulk_in.max_packet = bulk_mps;
        if !self.bulk_in.alloc_bufs(65539, platform_alloc, platform_free) {
            return false;
        }
        self.bulk_in.active = true;
        self.intr_in.address = intr_in_addr;
        self.intr_in.max_packet = intr_mps;
        if !self.intr_in.alloc_bufs(257, platform_alloc, platform_free) {
            return false;
        }
        self.intr_in.active = true;
        match isoc_out_addr {
            Some(addr) => {
                self.isoc_out.address = addr;
                self.isoc_out.max_packet = isoc_mps;
                let _ = self.isoc_out.alloc_bufs(258, platform_alloc, platform_free);
                self.isoc_out.active = true;
            },
            None => {},
        }
        match isoc_in_addr {
            Some(addr) => {
                self.isoc_in.address = addr;
                self.isoc_in.max_packet = isoc_mps;
                let _ = self.isoc_in.alloc_bufs(258, platform_alloc, platform_free);
                self.isoc_in.active = true;
            },
            None => {},
        }
        true
    }

    /// Stages an HCI command (type byte 0x01, at least 4 bytes) in the
    /// next bulk OUT buffer.
    pub fn send_command(&mut self, data: &[u8]) -> (r: bool)
        requires
            old(self).wf(),
        ensures
            final(self).wf(),
            EndpointState::send_result(old(self).bulk_out, final(self).bulk_out, data@, r, 0x01, 4),
            *final(self) == (HciUsbTransport { bulk_out: final(self).bulk_out, ..*old(self) }),
    {
        self.bulk_out.stage(data, 0x01, 4)
    }

    /// Stages ACL data (type byte 0x02, at least 5 bytes) in the next bulk
    /// OUT buffer.
    pub fn send_acl(&mut self, data: &[u8]) -> (r: bool)
        requires
            old(self).wf(),
        ensures
            final(self).wf(),
            EndpointState::send_result(old(self).bulk_out, final(self).bulk_out, data@, r, 0x02, 5),
            *final(self) == (HciUsbTransport { bulk_out: final(self).bulk_out, ..*old(self) }),
    {
        self.bulk_out.stage(data, 0x02, 5)
    }

    /// Stages SCO data (type byte 0x03, at least 4 bytes) in the next
    /// isochronous OUT buffer.
    pub fn send_sco(&mut self, data: &[u8]) -> (r: bool)
        requires
            old(self).wf(),
        ensures
            final(self).wf(),
            EndpointState::send_result(old(self).isoc_out, final(self).isoc_out, data@, r, 0x03, 4),
            *final(self) == (HciUsbTransport { isoc_out: final(self).isoc_out, ..*old(self) }),
    {
        self.isoc_out.stage(data, 0x03, 4)
    }

    /// Receives an HCI event from bulk IN; nothing arrives from the device
    /// here, so this returns 0 (taking the next buffer when active).
    pub fn recv_event(&mut self, out_buf: &mut [u8]) -> (r: usize)
        requires
            old(self).wf(),
        ensures
            final(self).wf(),
            r == 0,
            EndpointState::recv_result(old(self).bulk_in, final(self).bulk_in),
            *final(self) == (HciUsbTransport { bulk_in: final(self).bulk_in, ..*old(self) }),
            final(out_buf)@ == old(out_buf)@,
    {
        if !self.bulk_in.active {
            return 0;
        }
        let idx = self.bulk_in.next_buf_index();
        if self.bulk_in.bufs[idx].is_none() {
            return 0;
        }
        0
    }

    /// Receives ACL data from bulk IN; 0 here, as for `recv_event`.
    pub fn recv_acl(&mut self, out_buf: &mut [u8]) -> (r: usize)
        requires
            old(self).wf(),
        ensures
            final(self).wf(),
            r == 0,
            EndpointState::recv_result(old(self).bulk_in, final(self).bulk_in),
            *final(self) == (HciUsbTransport { bulk_in: final(self).bulk_in, ..*old(self) }),
            final(out_buf)@ == old(out_buf)@,
    {
        if !self.bulk_in.active {
            return 0;
        }
        let idx = self.bulk_in.next_buf_index();
        if self.bulk_in.bufs[idx].is_none() {
            return 0;
        }
        0
    }

    /// Sends `cmd` and, when it could be staged, takes the reply.
    fn exchange(&mut self, cmd: &[u8], evt: &mut [u8]) -> (r: usize)
        requires
            old(self).wf(),
        ensures
            final(self).wf(),
            r == 0,
            Self::cmd_exchanged(*old(self), *final(self), cmd@),
            final(evt)@ == old(evt)@,
    {
        if !self.send_command(cmd) {
            return 0;
        }
        self.recv_event(evt)
    }

    /// Sends HCI Reset and checks its completion; no reply arrives here, so
    /// this fails.
    pub fn hci_reset(&mut self) -> (r: bool)
        requires
            old(self).wf(),
        ensures
            final(self).wf(),
            !r,
            Self::cmd_exchanged(*old(self), *final(self), usb_empty_cmd(0x0C03)),
    {
        let mut buf = [0u8; 8];
        let len = build_hci_cmd(&mut buf, 0x0C03, &[]);
        if len == 0 {
            return false;
        }
        assert(buf@.subrange(0, len as int) =~= usb_empty_cmd(0x0C03));
        let mut evt = [0u8; 257];
        let recv = self.exchange(&buf[0..len], &mut evt);
        if recv == 0 {
            return false;
        }
        check_cmd_success(&evt[0..recv], 0x0C03)
    }

    /// Reads the controller's version information; no reply arrives here,
    /// so this fails after the exchange.
    pub fn read_local_version(&mut self) -> (r: bool)
        requires
            old(self).wf(),
        ensures
            final(self).wf(),
            !r,
            Self::cmd_exchanged(*old(self), *final(self), usb_empty_cmd(0x1001)),
    {
        let mut buf = [0u8; 8];
        let len = build_hci_cmd(&mut buf, 0x1001, &[]);
        if len == 0 {
            return false;
        }
        assert(buf@.subrange(0, len as int) =~= usb_empty_cmd(0x1001));
        let mut evt = [0u8; 257];
        let recv = self.exchange(&buf[0..len], &mut evt);
        if recv == 0 {
            return false;
        }
        match parse_cmd_complete(&evt[0..recv]) {
            Some((opcode, status, poff)) => {
                if opcode != 0x1001 || status != 0 {
                    return false;
                }
                if poff + 8 > recv {
                    return false;
                }
                self.hci_version = evt[poff];
                self.hci_revision = read_u16_le(evt[poff + 1], evt[poff + 2]);
                self.lmp_version = evt[poff + 3];
                self.manufacturer = read_u16_le(evt[poff + 4], evt[poff + 5]);
                self.lmp_subversion = read_u16_le(evt[poff + 6], evt[poff + 7]);
                true
            },
            None => false,
        }
    }

    /// Reads the controller's address; no reply arrives here, so this
    /// fails after the exchange.
    pub fn read_bd_addr(&mut self) -> (r: bool)
        requires
            old(self).wf(),
        ensures
            final(self).wf(),
            !r,
            Self::cmd_exchanged(*old(self), *final(self), usb_empty_cmd(0x1009)),
    {
        let mut buf = [0u8; 8];
        let len = build_hci_cmd(&mut buf, 0x1009, &[]);
        if len == 0 {
            return false;
        }
        assert(buf@.subrange(0, len as int) =~= usb_empty_cmd(0x1009));
        let mut evt = [0u8; 257];
        let recv = self.exchange(&buf[0..len], &mut evt);
        if recv == 0 {
            return false;
        }
        match parse_cmd_complete(&evt[0..recv]) {
            Some((opcode, status, poff)) => {
                if opcode != 0x1009 || status != 0 {
                    return false;
                }
                if poff + 6 > recv {
                    return false;
                }
                let mut addr = [0u8; 6];
                let mut i: usize = 0;
                while i < 6
                    invariant
                        i <= 6,
                        poff + 6 <= evt@.len(),
                    decreases 6 - i,
                {
                    addr[i] = evt[poff + i];
                    i = i + 1;
                }
                self.bd_addr = BdAddr(addr);
                true
            },
            None => false,
        }
    }

    /// Reads the controller's buffer sizes (ACL packet length, SCO packet
    /// length, number of ACL packets); no reply arrives here, so this
    /// fails after the exchange.
    pub fn read_buffer_size(&mut self) -> (r: Option<(u16, u8, u16)>)
        requires
            old(self).wf(),
        ensures
            final(self).wf(),
            r is None,
            Self::cmd_exchanged(*old(self), *final(self), usb_empty_cmd(0x1005)),
    {
        let mut buf = [0u8; 8];
        let len = build_hci_cmd(&mut buf, 0x1005, &[]);
        if len == 0 {
            return None;
        }
        assert(buf@.subrange(0, len as int) =~= usb_empty_cmd(0x1005));
        let mut evt = [0u8; 257];
        let recv = self.exchange(&buf[0..len], &mut evt);
        if recv == 0 {
            return None;
        }
        match parse_cmd_complete(&evt[0..recv]) {
            Some((opcode, status, poff)) => {
                if opcode != 0x1005 || status != 0 {
                    return None;
                }
                if poff + 7 > recv {
                    return None;
                }
                let acl_len = read_u16_le(evt[poff], evt[poff + 1]);
                let sco_len = evt[poff + 2];
                let total_acl = read_u16_le(evt[poff + 3], evt[poff + 4]);
                Some((acl_len, sco_len, total_acl))
            },
            None => None,
        }
    }

    /// Sends `cmd` and takes whatever reply is there.
    fn send_and_drain(&mut self, cmd: &[u8])
        requires
            old(self).wf(),
        ensures
            final(self).wf(),
            Self::cmd_drained(*old(self), *final(self), cmd@),
    {
        let sent = self.send_command(cmd);
        let mut evt = [0u8; 257];
        let _ = self.recv_event(&mut evt);
        assert(EndpointState::send_result(old(self).bulk_out, self.bulk_out, cmd@, sent, 0x01, 4));
    }

    /// Controller initialisation: Reset, read the version and address, set
    /// the event mask, enable LE, write the local name, then Up and ready.
    /// No reply arrives here, so this stops at the Reset in the Error
    /// state.
    pub fn init_sequence(&mut self) -> (r: bool)
        requires
            old(self).wf(),
        ensures
            final(self).wf(),
            !r,
            final(self).state == HciState::Error,
            Self::cmd_exchanged(HciUsbTransport { state: HciState::Reset, ..*old(self) },
                HciUsbTransport { state: HciState::Reset, ..*final(self) }, usb_empty_cmd(0x0C03)),
    {
        self.state = HciState::Reset;
        if !self.hci_reset() {
            self.state = HciState::Error;
            return false;
        }
        if !self.read_local_version() {
            self.state = HciState::Error;
            return false;
        }
        if !self.read_bd_addr() {
            self.state = HciState::Error;
            return false;
        }
        let evt_mask = [0xFFu8; 8];
        let mut cmd_buf = [0u8; 16];
        let len = build_hci_cmd(&mut cmd_buf, 0x0C01, &evt_mask);
        if len > 0 {
            self.send_and_drain(&cmd_buf[0..len]);
        }
        let le_params: [u8; 1] = [0x01];
        let mut le_buf = [0u8; 16];
        let le_len = build_hci_cmd(&mut le_buf, 0x0C6D, &le_params);
        if le_len > 0 {
            self.send_and_drain(&le_buf[0..le_len]);
        }
        let name: [u8; 19] = [0x47, 0x65, 0x72, 0x67, 0x69, 0x4f, 0x53, 0x20, 0x42, 0x54, 0x20, 0x41, 0x64, 0x61,
            0x70, 0x74, 0x65, 0x72, 0x00];
        let mut pad = [0u8; 248];
        let mut i: usize = 0;
        while i < 19
            invariant
                i <= 19,
            decreases 19 - i,
        {
            pad[i] = name[i];
            i = i + 1;
        }
        let mut name_buf = [0u8; 256];
        let name_len = build_hci_cmd(&mut name_buf, 0x0C13, &pad);
        if name_len > 0 {
            self.send_and_drain(&name_buf[0..name_len]);
        }
        self.state = HciState::Up;
        self.ready = true;
        true
    }

    /// Releases every transfer buffer (through `platform_free`) and
    /// deactivates all endpoints.
    pub fn free_all<F: Fn(u64, usize)>(&mut self, platform_free: &F)
        requires
            old(self).wf(),
            forall|p: u64, n: usize| platform_free.requires((p, n)),
        ensures
            final(self).wf(),
            !final(self).bulk_out.active && !final(self).bulk_in.active && !final(self).intr_in.active
                && !final(self).isoc_out.active && !final(self).isoc_in.active,
            forall|k: int| 0 <= k < 4 ==> {
                &&& (#[trigger] final(self).bulk_out.bufs@[k]) is None
                &&& final(self).bulk_in.bufs@[k] is None
                &&& final(self).intr_in.bufs@[k] is None
                &&& final(self).isoc_out.bufs@[k] is None
                &&& final(self).isoc_in.bufs@[k] is None
            },
            final(self).state == old(self).state,
            final(self).ready == old(self).ready,
    {
        self.bulk_out.free_all(platform_free);
        self.bulk_in.free_all(platform_free);
        self.intr_in.free_all(platform_free);
        self.isoc_out.free_all(platform_free);
        self.isoc_in.free_all(platform_free);
    }

    /// Releases all buffers and returns to the Reset state, not ready.
    pub fn reset<F: Fn(u64, usize)>(&mut self, platform_free: &F)
        requires
            old(self).wf(),
            forall|p: u64, n: usize| platform_free.requires((p, n)),
        ensures
            final(self).wf(),
            !final(self).bulk_out.active && !final(self).bulk_in.active && !final(self).intr_in.active
                && !final(self).isoc_out.active && !final(self).isoc_in.active,
            final(self).state == HciState::Reset,
            !final(self).ready,
    {
        self.free_all(platform_free);
        self.state = HciState::Reset;
        self.ready = false;
    }
}

} // verus!
