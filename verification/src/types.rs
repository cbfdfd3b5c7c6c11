//! Identifier types shared by the host stack: 128-bit UUIDs with their
//! 16-bit short forms, connection handles, PSMs, fixed channel IDs and the
//! class-of-device triple.

use vstd::prelude::*;

pub use crate::hci::BdAddr;

verus! {

// ============================================================================
// UUIDs
// ============================================================================

/// The Bluetooth base UUID 00000000-0000-1000-8000-00805F9B34FB, most
/// significant byte first.
pub open spec fn base_uuid_bytes() -> Seq<u8> {
    seq![0x00u8, 0x00, 0x00, 0x00, 0x00, 0x00, 0x10, 0x00, 0x80, 0x00, 0x00, 0x80, 0x5F, 0x9B, 0x34, 0xFB]
}

/// The Bluetooth base UUID as an array.
pub fn bluetooth_base_uuid() -> (r: [u8; 16])
    ensures
        r@ == base_uuid_bytes(),
{
    let r: [u8; 16] = [0x00, 0x00, 0x00, 0x00, 0x00, 0x00, 0x10, 0x00, 0x80, 0x00, 0x00, 0x80, 0x5F, 0x9B, 0x34, 0xFB];
    assert(r@ =~= base_uuid_bytes());
    r
}

/// Width of the short form a UUID has.
#[derive(Clone, Copy, PartialEq, Eq, Debug, Structural)]
pub enum BtUuidType {
    Uuid16,
    Uuid32,
    Uuid128,
}

/// A Bluetooth UUID, stored as 16 bytes, most significant byte first.
#[derive(Clone, Copy, Debug)]
pub struct BtUuid {
    pub bytes: [u8; 16],
}

impl PartialEq for BtUuid {
    fn eq(&self, other: &Self) -> (r: bool) {
        self.equals(other)
    }
}

impl Eq for BtUuid {}

impl vstd::std_specs::cmp::PartialEqSpecImpl for BtUuid {
    open spec fn obeys_eq_spec() -> bool {
        true
    }

    open spec fn eq_spec(&self, other: &Self) -> bool {
        self.bytes@ == other.bytes@
    }
}

/// Whether the bytes after the first four match the base UUID.
pub open spec fn has_base_tail(b: Seq<u8>) -> bool {
    forall|i: int| 4 <= i < 16 ==> b[i] == #[trigger] base_uuid_bytes()[i]
}

/// The short-form width of a 16-byte UUID.
pub open spec fn spec_uuid_type(b: Seq<u8>) -> BtUuidType {
    if has_base_tail(b) {
        if b[0] == 0 && b[1] == 0 { BtUuidType::Uuid16 } else { BtUuidType::Uuid32 }
    } else {
        BtUuidType::Uuid128
    }
}

/// The bytes of the UUID with 16-bit short form `v`.
pub open spec fn uuid16_bytes(v: u16) -> Seq<u8> {
    base_uuid_bytes().update(2, (v as int / 256) as u8).update(3, (v as int % 256) as u8)
}

/// The 16-bit short form of a 16-bit UUID.
pub open spec fn spec_as_uuid16(b: Seq<u8>) -> Option<u16> {
    if spec_uuid_type(b) == BtUuidType::Uuid16 {
        Some((b[2] as int * 256 + b[3] as int) as u16)
    } else {
        None
    }
}

impl BtUuid {
    pub open spec fn view(&self) -> Seq<u8> {
        self.bytes@
    }

    /// The UUID with 16-bit short form `v`.
    pub fn from_uuid16(v: u16) -> (r: Self)
        ensures
            r.bytes@ == uuid16_bytes(v),
    {
        let mut b = bluetooth_base_uuid();
        b[2] = (v / 256) as u8;
        b[3] = (v % 256) as u8;
        BtUuid { bytes: b }
    }

    /// The UUID with the given 16 bytes.
    pub fn from_bytes(bytes: [u8; 16]) -> (r: Self)
        ensures
            r.bytes@ == bytes@,
    {
        BtUuid { bytes }
    }

    /// Which short form the UUID has.
    pub fn uuid_type(&self) -> (r: BtUuidType)
        ensures
            r == spec_uuid_type(self.bytes@),
    {
        let base = bluetooth_base_uuid();
        let mut i: usize = 4;
        while i < 16
            invariant
                4 <= i <= 16,
                base@ == base_uuid_bytes(),
                forall|j: int| 4 <= j < i ==> self.bytes@[j] == #[trigger] base_uuid_bytes()[j],
            decreases 16 - i,
        {
            if self.bytes[i] != base[i] {
                return BtUuidType::Uuid128;
            }
            i = i + 1;
        }
        if self.bytes[0] == 0 && self.bytes[1] == 0 {
            BtUuidType::Uuid16
        } else {
            BtUuidType::Uuid32
        }
    }

    /// The 16-bit short form, if the UUID has one.
    pub fn as_uuid16(&self) -> (r: Option<u16>)
        ensures
            r == spec_as_uuid16(self.bytes@),
    {
        match self.uuid_type() {
            BtUuidType::Uuid16 => Some((self.bytes[2] as u16) * 256 + self.bytes[3] as u16),
            _ => None,
        }
    }

    /// Byte-wise equality of two UUIDs.
    pub fn equals(&self, other: &BtUuid) -> (r: bool)
        ensures
            r == (self.bytes@ == other.bytes@),
    {
        let mut i: usize = 0;
        while i < 16
            invariant
                0 <= i <= 16,
                forall|j: int| 0 <= j < i ==> self.bytes@[j] == other.bytes@[j],
            decreases 16 - i,
        {
            if self.bytes[i] != other.bytes[i] {
                return false;
            }
            i = i + 1;
        }
        assert(self.bytes@ =~= other.bytes@);
        true
    }
}

/// A UUID built from a 16-bit value has that value as its short form.
pub proof fn lemma_uuid16_roundtrip(v: u16)
    ensures
        spec_uuid_type(uuid16_bytes(v)) == BtUuidType::Uuid16,
        spec_as_uuid16(uuid16_bytes(v)) == Some(v),
{
    let b = uuid16_bytes(v);
    assert(has_base_tail(b));
}

// ============================================================================
// Connection handles, PSMs, channel IDs, class of device
// ============================================================================

/// An HCI connection handle.
#[derive(Clone, Copy, PartialEq, Eq, Debug, Structural)]
pub struct ConnHandle {
    pub raw: u16,
}

impl ConnHandle {
    pub fn new(raw: u16) -> (r: Self)
        ensures
            r.raw == raw,
    {
        ConnHandle { raw }
    }

    pub fn to_raw(&self) -> (r: u16)
        ensures
            r == self.raw,
    {
        self.raw
    }
}

/// Protocol/Service Multiplexer values.
#[derive(Clone, Copy, PartialEq, Eq, Debug, Structural)]
pub enum L2CapPsm {
    Sdp,
    Rfcomm,
    HidControl,
    HidInterrupt,
    Att,
    LeCoC,
    Other(u16),
}

/// The PSM value a raw number stands for.
pub open spec fn spec_psm_of(raw: u16) -> L2CapPsm {
    if raw == 0x0001 { L2CapPsm::Sdp }
    else if raw == 0x0003 { L2CapPsm::Rfcomm }
    else if raw == 0x0011 { L2CapPsm::HidControl }
    else if raw == 0x0013 { L2CapPsm::HidInterrupt }
    else if raw == 0x001F { L2CapPsm::Att }
    else if raw == 0x0080 { L2CapPsm::LeCoC }
    else { L2CapPsm::Other(raw) }
}

impl L2CapPsm {
    /// Raw 16-bit value of the PSM.
    pub open spec fn raw(self) -> u16 {
        match self {
            L2CapPsm::Sdp => 0x0001,
            L2CapPsm::Rfcomm => 0x0003,
            L2CapPsm::HidControl => 0x0011,
            L2CapPsm::HidInterrupt => 0x0013,
            L2CapPsm::Att => 0x001F,
            L2CapPsm::LeCoC => 0x0080,
            L2CapPsm::Other(v) => v,
        }
    }

    pub fn from_raw(raw: u16) -> (r: Self)
        ensures
            r == spec_psm_of(raw),
            r.raw() == raw,
    {
        match raw {
            0x0001 => L2CapPsm::Sdp,
            0x0003 => L2CapPsm::Rfcomm,
            0x0011 => L2CapPsm::HidControl,
            0x0013 => L2CapPsm::HidInterrupt,
            0x001F => L2CapPsm::Att,
            0x0080 => L2CapPsm::LeCoC,
            _ => L2CapPsm::Other(raw),
        }
    }

    pub fn to_raw(&self) -> (r: u16)
        ensures
            r == self.raw(),
    {
        match self {
            L2CapPsm::Sdp => 0x0001,
            L2CapPsm::Rfcomm => 0x0003,
            L2CapPsm::HidControl => 0x0011,
            L2CapPsm::HidInterrupt => 0x0013,
            L2CapPsm::Att => 0x001F,
            L2CapPsm::LeCoC => 0x0080,
            L2CapPsm::Other(v) => *v,
        }
    }
}

/// Fixed L2CAP channel identifiers.
#[derive(Clone, Copy, PartialEq, Eq, Debug, Structural)]
pub enum L2CapCid {
    Signaling,
    Connectionless,
    Attribute,
    LeSignaling,
    SecurityManager,
    Dynamic(u16),
}

/// The channel a raw CID stands for.
pub open spec fn spec_cid_of(raw: u16) -> L2CapCid {
    if raw == 0x0001 { L2CapCid::Signaling }
    else if raw == 0x0002 { L2CapCid::Connectionless }
    else if raw == 0x0004 { L2CapCid::Attribute }
    else if raw == 0x0005 { L2CapCid::LeSignaling }
    else if raw == 0x0006 { L2CapCid::SecurityManager }
    else { L2CapCid::Dynamic(raw) }
}

impl L2CapCid {
    pub open spec fn raw(self) -> u16 {
        match self {
            L2CapCid::Signaling => 0x0001,
            L2CapCid::Connectionless => 0x0002,
            L2CapCid::Attribute => 0x0004,
            L2CapCid::LeSignaling => 0x0005,
            L2CapCid::SecurityManager => 0x0006,
            L2CapCid::Dynamic(v) => v,
        }
    }

    pub fn from_raw(raw: u16) -> (r: Self)
        ensures
            r == spec_cid_of(raw),
            r.raw() == raw,
    {
        match raw {
            0x0001 => L2CapCid::Signaling,
            0x0002 => L2CapCid::Connectionless,
            0x0004 => L2CapCid::Attribute,
            0x0005 => L2CapCid::LeSignaling,
            0x0006 => L2CapCid::SecurityManager,
            _ => L2CapCid::Dynamic(raw),
        }
    }

    pub fn to_raw(&self) -> (r: u16)
        ensures
            r == self.raw(),
    {
        match self {
            L2CapCid::Signaling => 0x0001,
            L2CapCid::Connectionless => 0x0002,
            L2CapCid::Attribute => 0x0004,
            L2CapCid::LeSignaling => 0x0005,
            L2CapCid::SecurityManager => 0x0006,
            L2CapCid::Dynamic(v) => *v,
        }
    }
}

/// The three class-of-device bytes.
#[derive(Clone, Copy, Debug)]
pub struct ClassOfDevice {
    pub bytes: [u8; 3],
}

impl ClassOfDevice {
    pub fn new(bytes: [u8; 3]) -> (r: Self)
        ensures
            r.bytes@ == bytes@,
    {
        ClassOfDevice { bytes }
    }
}

} // verus!
