//! GATT: the attribute database of a GATT server (services,
//! characteristics, descriptors), the server that answers ATT requests
//! against it, and the client-side decoding of discovery responses.
//!
//! Handles are handed out in order from 1, so the attribute with handle
//! `h` is always the `h`-th one added.

use vstd::prelude::*;
use crate::bytes::{le16, lo8, hi8, u16_le, has_bit, read_u16_le, push_u16_le, push_slice, copy_range,
    bytes_equal};
use vstd::string::StringSliceAdditionalSpecFns;
use crate::att::{AttErrorCode, AttErrorRsp, AttExchangeMtuReq, AttExchangeMtuRsp, AttFindInfoReq,
    AttFindInfoRsp, AttHandleUuidPair, AttFindByTypeValueReq, AttFindByTypeValueRsp, AttHandleRange,
    AttReadByTypeReq, AttReadByTypeRsp, AttReadByGroupTypeReq, AttReadByGroupTypeRsp, AttGroupAttrEntry,
    AttReadReq, AttReadRsp, AttReadBlobReq, AttReadBlobRsp, AttWriteReq, AttPrepareWriteReq,
    AttExecuteWriteReq, AttExecWriteFlag, AttHandleValueNtf, AttHandleValueInd, AttOpcode, AttPdu,
    parse_att_pdu, spec_pdu_accepts, spec_pdu_decodes, clamp_mtu, range_entries, hv_pair_views,
    group_views, hv_bytes, build_write_rsp, build_execute_write_rsp, field16, find_info_entry_size,
    uuid_from_wire};
use crate::types::{BtUuid, BtUuidType, spec_uuid_type, uuid16_bytes, base_uuid_bytes, bluetooth_base_uuid};

pub mod gatt_uuids;

verus! {

// ============================================================================
// Characteristic properties
// ============================================================================

/// Characteristic properties bitmask.
#[derive(Clone, Copy, PartialEq, Eq, Debug, Structural)]
pub struct CharProperties(pub u8);

impl CharProperties {
    pub const BROADCAST: u8 = 0x01;
    pub const READ: u8 = 0x02;
    pub const WRITE_WITHOUT_RSP: u8 = 0x04;
    pub const WRITE: u8 = 0x08;
    pub const NOTIFY: u8 = 0x10;
    pub const INDICATE: u8 = 0x20;
    pub const AUTH_SIGNED_WRITE: u8 = 0x40;
    pub const EXTENDED_PROPS: u8 = 0x80;

    /// No properties.
    pub fn new() -> (r: Self)
        ensures
            r.0 == 0,
    {
        CharProperties(0)
    }

    pub fn from_bits(bits: u8) -> (r: Self)
        ensures
            r.0 == bits,
    {
        CharProperties(bits)
    }

    pub fn can_read(&self) -> (r: bool)
        ensures
            r == has_bit(self.0, 0x02),
    {
        (self.0 / 0x02) % 2 == 1
    }

    pub fn can_write(&self) -> (r: bool)
        ensures
            r == has_bit(self.0, 0x08),
    {
        (self.0 / 0x08) % 2 == 1
    }

    pub fn can_write_without_rsp(&self) -> (r: bool)
        ensures
            r == has_bit(self.0, 0x04),
    {
        (self.0 / 0x04) % 2 == 1
    }

    pub fn can_notify(&self) -> (r: bool)
        ensures
            r == has_bit(self.0, 0x10),
    {
        (self.0 / 0x10) % 2 == 1
    }

    pub fn can_indicate(&self) -> (r: bool)
        ensures
            r == has_bit(self.0, 0x20),
    {
        (self.0 / 0x20) % 2 == 1
    }

    pub fn can_broadcast(&self) -> (r: bool)
        ensures
            r == has_bit(self.0, 0x01),
    {
        self.0 % 2 == 1
    }

    pub fn can_auth_signed_write(&self) -> (r: bool)
        ensures
            r == has_bit(self.0, 0x40),
    {
        (self.0 / 0x40) % 2 == 1
    }

    pub fn has_extended_props(&self) -> (r: bool)
        ensures
            r == has_bit(self.0, 0x80),
    {
        (self.0 / 0x80) % 2 == 1
    }
}

// ============================================================================
// Services, characteristics, descriptors
// ============================================================================

/// A service found by discovery.
#[derive(Clone, Copy, Debug)]
pub struct GattService {
    pub uuid: BtUuid,
    /// Primary or secondary.
    pub primary: bool,
    /// Handle of the service declaration.
    pub start_handle: u16,
    /// Last handle of the service.
    pub end_handle: u16,
}

/// A characteristic found by discovery.
#[derive(Clone, Copy, Debug)]
pub struct GattCharacteristic {
    pub uuid: BtUuid,
    pub properties: CharProperties,
    /// Handle of the characteristic declaration.
    pub declaration_handle: u16,
    /// Handle of the characteristic value.
    pub value_handle: u16,
    /// Handle of its Client Characteristic Configuration descriptor.
    pub cccd_handle: Option<u16>,
}

/// A descriptor (or any attribute) found by Find Information.
#[derive(Clone, Copy, Debug)]
pub struct GattDescriptor {
    pub uuid: BtUuid,
    pub handle: u16,
}

// ============================================================================
// Attributes
// ============================================================================

/// Access permissions of an attribute.
#[derive(Clone, Copy, PartialEq, Eq, Debug, Structural)]
pub struct AttPermissions(u8);

impl AttPermissions {
    pub const NONE: u8 = 0x00;
    pub const READ: u8 = 0x01;
    pub const WRITE: u8 = 0x02;
    pub const READ_WRITE: u8 = 0x03;
    pub const ENCRYPT_READ: u8 = 0x04;
    pub const ENCRYPT_WRITE: u8 = 0x08;
    pub const AUTH_READ: u8 = 0x10;
    pub const AUTH_WRITE: u8 = 0x20;

    /// The permission bits.
    pub closed spec fn bits(self) -> u8 {
        self.0
    }

    /// The permissions with the given bits.
    pub closed spec fn spec_from_bits(bits: u8) -> AttPermissions {
        AttPermissions(bits)
    }

    pub open spec fn readable(self) -> bool {
        has_bit(self.bits(), 0x01)
    }

    pub open spec fn writable(self) -> bool {
        has_bit(self.bits(), 0x02)
    }

    pub fn from_bits(bits: u8) -> (r: Self)
        ensures
            r == Self::spec_from_bits(bits),
            r.bits() == bits,
    {
        AttPermissions(bits)
    }

    pub fn can_read(&self) -> (r: bool)
        ensures
            r == self.readable(),
    {
        self.0 % 2 == 1
    }

    pub fn can_write(&self) -> (r: bool)
        ensures
            r == self.writable(),
    {
        (self.0 / 2) % 2 == 1
    }
}

/// The permissions made from some bits have exactly those bits.
pub proof fn lemma_permission_bits(bits: u8)
    ensures
        AttPermissions::spec_from_bits(bits).bits() == bits,
{
}

/// One attribute of the database.
#[derive(Clone, Debug)]
pub struct GattAttribute {
    pub handle: u16,
    /// Attribute type.
    pub uuid: BtUuid,
    pub value: Vec<u8>,
    pub permissions: AttPermissions,
}

impl GattAttribute {
    /// An attribute readable and writable by anyone.
    pub fn new(handle: u16, uuid: BtUuid, value: Vec<u8>) -> (r: Self)
        ensures
            r.handle == handle,
            r.uuid == uuid,
            r.value == value,
            r.permissions.bits() == 0x03,
    {
        GattAttribute { handle, uuid, value, permissions: AttPermissions::from_bits(AttPermissions::READ_WRITE) }
    }

    pub fn with_permissions(handle: u16, uuid: BtUuid, value: Vec<u8>, permissions: AttPermissions) -> (r: Self)
        ensures
            r == (GattAttribute { handle, uuid, value, permissions }),
    {
        GattAttribute { handle, uuid, value, permissions }
    }
}

/// Whether `a` has the given type, value and permission bits.
pub open spec fn attr_is(a: GattAttribute, uuid: Seq<u8>, value: Seq<u8>, perms: u8) -> bool {
    a.uuid.bytes@ == uuid && a.value@ == value && a.permissions.bits() == perms
}

/// The value stored for a service or characteristic UUID: a 16-bit UUID
/// as two little-endian bytes, any other as its 16 bytes.
pub open spec fn uuid_le_value(u: Seq<u8>) -> Seq<u8> {
    if spec_uuid_type(u) == BtUuidType::Uuid16 { seq![u[3], u[2]] } else { u }
}

/// Value of a characteristic declaration: properties, value handle, UUID.
pub open spec fn char_decl_value(props: u8, value_handle: u16, u: Seq<u8>) -> Seq<u8> {
    seq![props] + le16(value_handle) + uuid_le_value(u)
}

/// Permissions given to a characteristic value: readable when the
/// properties allow reads, writable when they allow writes with or
/// without response.
pub open spec fn char_value_perms(props: u8) -> u8 {
    ((if has_bit(props, 0x02) { 1int } else { 0 }) + (if has_bit(props, 0x08) || has_bit(props, 0x04) { 2int } else { 0 })) as u8
}

/// Whether `attrs[i]` declares a characteristic of type `u` whose value is
/// `attrs[i + 1]`, holding `value`.
pub open spec fn char_pair_at(attrs: Seq<GattAttribute>, i: int, u: Seq<u8>, props: u8, value: Seq<u8>) -> bool {
    &&& attr_is(attrs[i], uuid16_bytes(0x2803), char_decl_value(props, (i + 2) as u16, u), 0x03)
    &&& attr_is(attrs[i + 1], u, value, char_value_perms(props))
}

proof fn lemma_property_bits(props: u8)
    by (bit_vector)
    ensures
        ((props / 2) % 2 == 1) == (props & 0x02u8 != 0),
        ((props / 4) % 2 == 1) == (props & 0x04u8 != 0),
        ((props / 8) % 2 == 1) == (props & 0x08u8 != 0),
{
}

/// A characteristic value added with properties `props` is readable
/// exactly when the properties allow reads (0x02), and writable exactly
/// when they allow writes (0x08) or writes without response (0x04); no
/// other permission is given.
pub proof fn lemma_char_value_permissions(attrs: Seq<GattAttribute>, i: int, u: Seq<u8>, props: u8, value: Seq<u8>)
    requires
        char_pair_at(attrs, i, u, props, value),
    ensures
        attrs[i + 1].permissions.readable() == (props & 0x02u8 != 0),
        attrs[i + 1].permissions.writable() == (props & 0x08u8 != 0 || props & 0x04u8 != 0),
        attrs[i + 1].permissions.bits() < 4,
{
    lemma_property_bits(props);
}

/// Whether `attrs[i]` declares a primary service of type `u`.
pub open spec fn service_at(attrs: Seq<GattAttribute>, i: int, u: Seq<u8>) -> bool {
    attr_is(attrs[i], uuid16_bytes(0x2800), uuid_le_value(u), 0x03)
}

/// Whether `a` is within the handle range `[s, e]`.
pub open spec fn in_range(a: GattAttribute, s: u16, e: u16) -> bool {
    s <= a.handle && a.handle <= e
}

/// The attributes of `db` within `[s, e]`, in handle order.
pub open spec fn attrs_in_range(db: Seq<GattAttribute>, s: u16, e: u16) -> Seq<GattAttribute> {
    db.filter(|a: GattAttribute| in_range(a, s, e))
}

/// The attributes of `db` of type `u` within `[s, e]`, in handle order.
pub open spec fn attrs_of_type(db: Seq<GattAttribute>, u: Seq<u8>, s: u16, e: u16) -> Seq<GattAttribute> {
    db.filter(|a: GattAttribute| in_range(a, s, e) && a.uuid.bytes@ == u)
}

/// Whether `a` declares a primary or secondary service.
pub open spec fn is_service_decl(a: GattAttribute) -> bool {
    a.uuid.bytes@ == uuid16_bytes(0x2800) || a.uuid.bytes@ == uuid16_bytes(0x2801)
}

/// Whether `h` is the smallest handle above `after` of a service declaration.
pub open spec fn is_next_service(db: Seq<GattAttribute>, after: u16, h: u16) -> bool {
    &&& exists|i: int| 0 <= i < db.len() && db[i].handle == h && h > after && is_service_decl(db[i])
    &&& forall|j: int| 0 <= j < db.len() && db[j].handle > after && is_service_decl(db[j]) ==> h <= db[j].handle
}

/// The first service declaration after `after`, if any.
pub open spec fn next_service_start(db: Seq<GattAttribute>, after: u16) -> Option<u16> {
    if exists|h: u16| is_next_service(db, after, h) {
        Some(choose|h: u16| is_next_service(db, after, h))
    } else {
        None
    }
}

/// Handle of the last attribute, 0 when there is none.
pub open spec fn spec_max_handle(db: Seq<GattAttribute>) -> u16 {
    if db.len() == 0 { 0 } else { db.last().handle }
}

/// Last handle of the group starting at `h`: just before the next service
/// declaration, or the last handle of the database; never below `h`.
pub open spec fn group_end(db: Seq<GattAttribute>, h: u16) -> u16 {
    let end: u16 = match next_service_start(db, h) {
        Some(n) => (n - 1) as u16,
        None => spec_max_handle(db),
    };
    if end < h { h } else { end }
}

/// The attribute with handle `h` in a well-formed database.
pub open spec fn spec_lookup(db: Seq<GattAttribute>, h: u16) -> Option<GattAttribute> {
    if 1 <= h <= db.len() { Some(db[h - 1]) } else { None }
}

/// The references of a list, dereferenced.
pub open spec fn deref_all<'a>(s: Seq<&'a GattAttribute>) -> Seq<GattAttribute> {
    s.map_values(|a: &'a GattAttribute| *a)
}

// ============================================================================
// Database
// ============================================================================

/// The attribute database.
#[derive(Clone)]
pub struct GattDatabase {
    attributes: Vec<GattAttribute>,
    next_handle: u16,
}

fn copy_value(v: &Vec<u8>) -> (r: Vec<u8>)
    ensures
        r@ == v@,
{
    copy_range(v.as_slice(), 0, v.len())
}

impl GattDatabase {
    /// The attributes, in handle order.
    pub closed spec fn attrs(&self) -> Seq<GattAttribute> {
        self.attributes@
    }

    /// Handle the next attribute gets.
    pub closed spec fn next(&self) -> u16 {
        self.next_handle
    }

    /// Handles are 1, 2, 3, ... in order, the next one follows the last,
    /// and there is room for at most 65534 attributes.
    pub open spec fn wf(&self) -> bool {
        &&& forall|i: int| 0 <= i < self.attrs().len() ==> (#[trigger] self.attrs()[i]).handle == i + 1
        &&& self.next() == self.attrs().len() + 1
        &&& self.attrs().len() <= 65534
    }

    pub fn new() -> (r: Self)
        ensures
            r.wf(),
            r.attrs() == Seq::<GattAttribute>::empty(),
    {
        GattDatabase { attributes: Vec::new(), next_handle: 1 }
    }

    /// The attribute with handle `handle`.
    pub fn find_by_handle(&self, handle: u16) -> (r: Option<&GattAttribute>)
        requires
            self.wf(),
        ensures
            r is Some <==> spec_lookup(self.attrs(), handle) is Some,
            r matches Some(a) ==> *a == self.attrs()[handle - 1],
    {
        if handle == 0 || handle as usize > self.attributes.len() {
            return None;
        }
        Some(&self.attributes[handle as usize - 1])
    }

    /// The attributes of type `uuid` within `[start_handle, end_handle]`.
    pub fn find_by_uuid(&self, uuid: &BtUuid, start_handle: u16, end_handle: u16) -> (r: Vec<&GattAttribute>)
        ensures
            deref_all(r@) == attrs_of_type(self.attrs(), uuid.bytes@, start_handle, end_handle),
    {
        let mut out: Vec<&GattAttribute> = Vec::new();
        let mut i: usize = 0;
        while i < self.attributes.len()
            invariant
                0 <= i <= self.attributes@.len(),
                deref_all(out@) == attrs_of_type(self.attributes@.take(i as int), uuid.bytes@, start_handle, end_handle),
            decreases self.attributes@.len() - i,
        {
            let a = &self.attributes[i];
            proof {
                let t = self.attributes@.take(i + 1);
                assert(t.drop_last() =~= self.attributes@.take(i as int));
                reveal_with_fuel(Seq::filter, 1);
            }
            if a.handle >= start_handle && a.handle <= end_handle && a.uuid.equals(uuid) {
                out.push(a);
                assert(deref_all(out@) =~= attrs_of_type(self.attributes@.take(i as int), uuid.bytes@, start_handle, end_handle).push(*a));
            }
            i = i + 1;
        }
        assert(self.attributes@.take(i as int) =~= self.attributes@);
        out
    }

    /// The attributes within `[start_handle, end_handle]`.
    pub fn find_in_range(&self, start_handle: u16, end_handle: u16) -> (r: Vec<&GattAttribute>)
        ensures
            deref_all(r@) == attrs_in_range(self.attrs(), start_handle, end_handle),
    {
        let mut out: Vec<&GattAttribute> = Vec::new();
        let mut i: usize = 0;
        while i < self.attributes.len()
            invariant
                0 <= i <= self.attributes@.len(),
                deref_all(out@) == attrs_in_range(self.attributes@.take(i as int), start_handle, end_handle),
            decreases self.attributes@.len() - i,
        {
            let a = &self.attributes[i];
            proof {
                let t = self.attributes@.take(i + 1);
                assert(t.drop_last() =~= self.attributes@.take(i as int));
                reveal_with_fuel(Seq::filter, 1);
            }
            if a.handle >= start_handle && a.handle <= end_handle {
                out.push(a);
                assert(deref_all(out@) =~= attrs_in_range(self.attributes@.take(i as int), start_handle, end_handle).push(*a));
            }
            i = i + 1;
        }
        assert(self.attributes@.take(i as int) =~= self.attributes@);
        out
    }

    /// The attributes of group type `group_type` within the range.
    pub fn find_groups_by_type(&self, group_type: &BtUuid, start_handle: u16, end_handle: u16) -> (r: Vec<&GattAttribute>)
        ensures
            deref_all(r@) == attrs_of_type(self.attrs(), group_type.bytes@, start_handle, end_handle),
    {
        self.find_by_uuid(group_type, start_handle, end_handle)
    }

    /// The smallest handle above `after_handle` of a service declaration.
    pub fn find_next_service_start(&self, after_handle: u16) -> (r: Option<u16>)
        ensures
            r == next_service_start(self.attrs(), after_handle),
    {
        let primary = gatt_uuids::primary_service();
        let secondary = gatt_uuids::secondary_service();
        let mut best: Option<u16> = None;
        let mut i: usize = 0;
        let ghost db = self.attributes@;
        while i < self.attributes.len()
            invariant
                0 <= i <= db.len(),
                db == self.attributes@,
                primary.bytes@ == uuid16_bytes(0x2800),
                secondary.bytes@ == uuid16_bytes(0x2801),
                best is None ==> forall|j: int| 0 <= j < i && db[j].handle > after_handle ==> !is_service_decl(db[j]),
                best matches Some(h) ==> {
                    &&& exists|k: int| 0 <= k < i && db[k].handle == h && h > after_handle && is_service_decl(db[k])
                    &&& forall|j: int| 0 <= j < i && db[j].handle > after_handle && is_service_decl(db[j]) ==> h <= db[j].handle
                },
            decreases db.len() - i,
        {
            let a = &self.attributes[i];
            if a.handle > after_handle && (a.uuid.equals(&primary) || a.uuid.equals(&secondary)) {
                match best {
                    None => {
                        best = Some(a.handle);
                    },
                    Some(b) => {
                        if a.handle < b {
                            best = Some(a.handle);
                        }
                    },
                }
            }
            i = i + 1;
        }
        proof {
            match best {
                Some(h) => {
                    assert(is_next_service(db, after_handle, h));
                    let c = choose|x: u16| is_next_service(db, after_handle, x);
                    assert(is_next_service(db, after_handle, c));
                    let k1 = choose|k: int| 0 <= k < db.len() && db[k].handle == c && c > after_handle && is_service_decl(db[k]);
                    let k2 = choose|k: int| 0 <= k < db.len() && db[k].handle == h && h > after_handle && is_service_decl(db[k]);
                    assert(h <= db[k1].handle);
                    assert(c <= db[k2].handle);
                },
                None => {
                    if exists|x: u16| is_next_service(db, after_handle, x) {
                        let c = choose|x: u16| is_next_service(db, after_handle, x);
                        let k1 = choose|k: int| 0 <= k < db.len() && db[k].handle == c && c > after_handle && is_service_decl(db[k]);
                        assert(!is_service_decl(db[k1]));
                    }
                },
            }
        }
        best
    }

    /// Handle of the last attribute, 0 when the database is empty.
    pub fn max_handle(&self) -> (r: u16)
        ensures
            r == spec_max_handle(self.attrs()),
    {
        let n = self.attributes.len();
        if n == 0 { 0 } else { self.attributes[n - 1].handle }
    }

    /// Adds an attribute readable and writable by anyone; returns its handle.
    pub fn add_attr(&mut self, uuid: BtUuid, value: Vec<u8>) -> (r: u16)
        requires
            old(self).wf(),
            old(self).attrs().len() < 65534,
        ensures
            final(self).wf(),
            r == old(self).attrs().len() + 1,
            final(self).attrs() == old(self).attrs().push(
                GattAttribute { handle: r, uuid, value, permissions: AttPermissions::spec_from_bits(0x03) }),
    {
        self.add_attr_with_permissions(uuid, value, AttPermissions::from_bits(AttPermissions::READ_WRITE))
    }

    /// Adds an attribute with the given permissions; returns its handle.
    pub fn add_attr_with_permissions(&mut self, uuid: BtUuid, value: Vec<u8>, permissions: AttPermissions) -> (r: u16)
        requires
            old(self).wf(),
            old(self).attrs().len() < 65534,
        ensures
            final(self).wf(),
            r == old(self).attrs().len() + 1,
            final(self).attrs() == old(self).attrs().push(GattAttribute { handle: r, uuid, value, permissions }),
    {
        let handle = self.next_handle;
        let attr = GattAttribute::with_permissions(handle, uuid, value, permissions);
        self.attributes.push(attr);
        self.next_handle = self.next_handle + 1;
        handle
    }

    /// Adds a primary service declaration for `service_uuid`; returns its
    /// handle.
    pub fn add_primary_service(&mut self, service_uuid: BtUuid) -> (r: u16)
        requires
            old(self).wf(),
            old(self).attrs().len() < 65534,
        ensures
            final(self).wf(),
            r == old(self).attrs().len() + 1,
            final(self).attrs().len() == old(self).attrs().len() + 1,
            final(self).attrs().take(old(self).attrs().len() as int) == old(self).attrs(),
            service_at(final(self).attrs(), old(self).attrs().len() as int, service_uuid.bytes@),
    {
        let uuid_bytes = uuid_value(&service_uuid);
        let h = self.add_attr(gatt_uuids::primary_service(), uuid_bytes);
        proof { lemma_permission_bits(0x03); }
        assert(final(self).attrs().take(old(self).attrs().len() as int) =~= old(self).attrs());
        h
    }

    /// Adds a characteristic declaration followed by its value attribute;
    /// returns (declaration handle, value handle).
    pub fn add_characteristic(&mut self, char_uuid: BtUuid, properties: CharProperties, value: Vec<u8>) -> (r: (u16, u16))
        requires
            old(self).wf(),
            old(self).attrs().len() < 65533,
        ensures
            final(self).wf(),
            r.0 == old(self).attrs().len() + 1,
            r.1 == old(self).attrs().len() + 2,
            final(self).attrs().len() == old(self).attrs().len() + 2,
            final(self).attrs().take(old(self).attrs().len() as int) == old(self).attrs(),
            char_pair_at(final(self).attrs(), old(self).attrs().len() as int, char_uuid.bytes@, properties.0, value@),
            final(self).attrs()[old(self).attrs().len() + 1int].value == value,
    {
        let value_handle = self.next_handle + 1;
        let uuid_bytes = uuid_value(&char_uuid);
        let mut decl_value: Vec<u8> = Vec::new();
        decl_value.push(properties.0);
        push_u16_le(&mut decl_value, value_handle);
        push_slice(&mut decl_value, uuid_bytes.as_slice());
        assert(decl_value@ =~= char_decl_value(properties.0, value_handle, char_uuid.bytes@));
        let decl_handle = self.add_attr(gatt_uuids::characteristic(), decl_value);
        let mut perms: u8 = 0;
        if properties.can_read() {
            perms = perms + AttPermissions::READ;
        }
        if properties.can_write() || properties.can_write_without_rsp() {
            perms = perms + AttPermissions::WRITE;
        }
        let ghost mid = self.attributes@;
        self.add_attr_with_permissions(char_uuid, value, AttPermissions::from_bits(perms));
        proof {
            lemma_permission_bits(0x03);
            lemma_permission_bits(perms);
            let n = old(self).attrs().len() as int;
            assert(final(self).attrs()[n] == mid[n]);
        }
        assert(final(self).attrs().take(old(self).attrs().len() as int) =~= old(self).attrs());
        (decl_handle, value_handle)
    }

    /// Adds a Client Characteristic Configuration descriptor, initially
    /// 0x0000 (notifications and indications off); returns its handle.
    pub fn add_cccd(&mut self) -> (r: u16)
        requires
            old(self).wf(),
            old(self).attrs().len() < 65534,
        ensures
            final(self).wf(),
            r == old(self).attrs().len() + 1,
            final(self).attrs().len() == old(self).attrs().len() + 1,
            final(self).attrs().take(old(self).attrs().len() as int) == old(self).attrs(),
            attr_is(final(self).attrs()[old(self).attrs().len() as int], uuid16_bytes(0x2902), seq![0u8, 0u8], 0x03),
    {
        let mut v: Vec<u8> = Vec::new();
        v.push(0x00);
        v.push(0x00);
        assert(v@ =~= seq![0u8, 0u8]);
        assert(0x01u8 | 0x02u8 == 0x03u8) by (bit_vector);
        let h = self.add_attr_with_permissions(gatt_uuids::client_char_config(), v,
            AttPermissions::from_bits(AttPermissions::READ | AttPermissions::WRITE));
        proof { lemma_permission_bits(0x03); }
        assert(final(self).attrs().take(old(self).attrs().len() as int) =~= old(self).attrs());
        h
    }

    /// Adds a Characteristic User Description holding the text's bytes.
    pub fn add_user_desc(&mut self, description: &str) -> (r: u16)
        requires
            old(self).wf(),
            old(self).attrs().len() < 65534,
        ensures
            final(self).wf(),
            r == old(self).attrs().len() + 1,
            final(self).attrs().len() == old(self).attrs().len() + 1,
            final(self).attrs().take(old(self).attrs().len() as int) == old(self).attrs(),
            attr_is(final(self).attrs()[old(self).attrs().len() as int], uuid16_bytes(0x2901), description.spec_bytes(), 0x03),
    {
        let bytes = description.as_bytes();
        let v = copy_range(bytes, 0, bytes.len());
        assert(bytes@.subrange(0, bytes@.len() as int) =~= bytes@);
        let h = self.add_attr(gatt_uuids::char_user_desc(), v);
        proof { lemma_permission_bits(0x03); }
        assert(final(self).attrs().take(old(self).attrs().len() as int) =~= old(self).attrs());
        h
    }

    /// Adds a Characteristic Presentation Format descriptor:
    /// `| format | exponent | unit(2) | namespace | description(2) |`.
    pub fn add_char_format(&mut self, format: u8, exponent: i8, unit: u16, namespace: u8, description: u16) -> (r: u16)
        requires
            old(self).wf(),
            old(self).attrs().len() < 65534,
        ensures
            final(self).wf(),
            r == old(self).attrs().len() + 1,
            final(self).attrs().len() == old(self).attrs().len() + 1,
            final(self).attrs().take(old(self).attrs().len() as int) == old(self).attrs(),
            attr_is(final(self).attrs()[old(self).attrs().len() as int], uuid16_bytes(0x2904),
                seq![format, exponent as u8] + le16(unit) + seq![namespace] + le16(description), 0x03),
    {
        let mut value: Vec<u8> = Vec::new();
        value.push(format);
        value.push(exponent as u8);
        push_u16_le(&mut value, unit);
        value.push(namespace);
        push_u16_le(&mut value, description);
        assert(value@ =~= seq![format, exponent as u8] + le16(unit) + seq![namespace] + le16(description));
        let h = self.add_attr(gatt_uuids::char_format(), value);
        proof { lemma_permission_bits(0x03); }
        assert(final(self).attrs().take(old(self).attrs().len() as int) =~= old(self).attrs());
        h
    }

    /// Adds the GAP service: its declaration, then Device Name and
    /// Appearance, both readable.
    pub fn add_gap_service(&mut self, device_name: &str, appearance: u16)
        requires
            old(self).wf(),
            old(self).attrs().len() < 65529,
        ensures
            final(self).wf(),
            final(self).attrs().len() == old(self).attrs().len() + 5,
            final(self).attrs().take(old(self).attrs().len() as int) == old(self).attrs(),
            service_at(final(self).attrs(), old(self).attrs().len() as int, uuid16_bytes(0x1800)),
            char_pair_at(final(self).attrs(), old(self).attrs().len() + 1int, uuid16_bytes(0x2A00), 0x02, device_name.spec_bytes()),
            char_pair_at(final(self).attrs(), old(self).attrs().len() + 3int, uuid16_bytes(0x2A01), 0x02, le16(appearance)),
    {
        let ghost n = old(self).attrs().len() as int;
        self.add_primary_service(gatt_uuids::gap_service());
        let ghost s1 = self.attributes@;
        let name = device_name.as_bytes();
        let name_bytes = copy_range(name, 0, name.len());
        assert(name@.subrange(0, name@.len() as int) =~= name@);
        self.add_characteristic(gatt_uuids::device_name(), CharProperties::from_bits(CharProperties::READ), name_bytes);
        let ghost s2 = self.attributes@;
        let mut ap: Vec<u8> = Vec::new();
        push_u16_le(&mut ap, appearance);
        self.add_characteristic(gatt_uuids::appearance(), CharProperties::from_bits(CharProperties::READ), ap);
        proof {
            let f = self.attributes@;
            assert(f.take(n + 3) == s2);
            assert(s2.take(n + 1) == s1);
            assert(f[n] == s1[n]);
            assert(f[n + 1] == s2[n + 1]);
            assert(f[n + 2] == s2[n + 2]);
            assert(f.take(n) =~= old(self).attrs()) by {
                assert(s1.take(n) == old(self).attrs());
            }
        }
    }

    /// Adds the GATT service with an indicatable Service Changed
    /// characteristic and its configuration descriptor.
    pub fn add_gatt_service(&mut self)
        requires
            old(self).wf(),
            old(self).attrs().len() < 65530,
        ensures
            final(self).wf(),
            final(self).attrs().len() == old(self).attrs().len() + 4,
            final(self).attrs().take(old(self).attrs().len() as int) == old(self).attrs(),
            service_at(final(self).attrs(), old(self).attrs().len() as int, uuid16_bytes(0x1801)),
            char_pair_at(final(self).attrs(), old(self).attrs().len() + 1int, uuid16_bytes(0x2A05), 0x20, seq![0u8, 0u8, 0u8, 0u8]),
            attr_is(final(self).attrs()[old(self).attrs().len() + 3int], uuid16_bytes(0x2902), seq![0u8, 0u8], 0x03),
    {
        let ghost n = old(self).attrs().len() as int;
        self.add_primary_service(gatt_uuids::gatt_service());
        let ghost s1 = self.attributes@;
        let mut v: Vec<u8> = Vec::new();
        v.push(0);
        v.push(0);
        v.push(0);
        v.push(0);
        assert(v@ =~= seq![0u8, 0u8, 0u8, 0u8]);
        self.add_characteristic(BtUuid::from_uuid16(0x2A05), CharProperties::from_bits(CharProperties::INDICATE), v);
        let ghost s2 = self.attributes@;
        let _svc_changed_cccd = self.add_cccd();
        proof {
            let f = self.attributes@;
            assert(f.take(n + 3) == s2);
            assert(s2.take(n + 1) == s1);
            assert(f[n] == s1[n]);
            assert(f[n + 1] == s2[n + 1]);
            assert(f[n + 2] == s2[n + 2]);
            assert(f.take(n) =~= old(self).attrs()) by {
                assert(s1.take(n) == old(self).attrs());
            }
        }
    }

    /// Adds the Battery service: a readable, notifiable Battery Level and
    /// its configuration descriptor.
    pub fn add_battery_service(&mut self, level: u8)
        requires
            old(self).wf(),
            old(self).attrs().len() < 65530,
        ensures
            final(self).wf(),
            final(self).attrs().len() == old(self).attrs().len() + 4,
            final(self).attrs().take(old(self).attrs().len() as int) == old(self).attrs(),
            service_at(final(self).attrs(), old(self).attrs().len() as int, uuid16_bytes(0x180F)),
            char_pair_at(final(self).attrs(), old(self).attrs().len() + 1int, uuid16_bytes(0x2A19), 0x12, seq![level]),
            attr_is(final(self).attrs()[old(self).attrs().len() + 3int], uuid16_bytes(0x2902), seq![0u8, 0u8], 0x03),
    {
        let ghost n = old(self).attrs().len() as int;
        self.add_primary_service(gatt_uuids::battery_service());
        let ghost s1 = self.attributes@;
        let mut v: Vec<u8> = Vec::new();
        v.push(level);
        assert(v@ =~= seq![level]);
        assert(0x02u8 | 0x10u8 == 0x12u8) by (bit_vector);
        self.add_characteristic(gatt_uuids::battery_level(),
            CharProperties::from_bits(CharProperties::READ | CharProperties::NOTIFY), v);
        let ghost s2 = self.attributes@;
        self.add_cccd();
        proof {
            let f = self.attributes@;
            assert(f.take(n + 3) == s2);
            assert(s2.take(n + 1) == s1);
            assert(f[n] == s1[n]);
            assert(f[n + 1] == s2[n + 1]);
            assert(f[n + 2] == s2[n + 2]);
            assert(f.take(n) =~= old(self).attrs()) by {
                assert(s1.take(n) == old(self).attrs());
            }
        }
    }

    /// Adds a readable characteristic holding the bytes of `text`.
    fn add_text_characteristic(&mut self, char_uuid: BtUuid, text: &str)
        requires
            old(self).wf(),
            old(self).attrs().len() < 65533,
        ensures
            final(self).wf(),
            final(self).attrs().len() == old(self).attrs().len() + 2,
            final(self).attrs().take(old(self).attrs().len() as int) == old(self).attrs(),
            char_pair_at(final(self).attrs(), old(self).attrs().len() as int, char_uuid.bytes@, 0x02, text.spec_bytes()),
    {
        let bytes = text.as_bytes();
        let v = copy_range(bytes, 0, bytes.len());
        assert(bytes@.subrange(0, bytes@.len() as int) =~= bytes@);
        self.add_characteristic(char_uuid, CharProperties::from_bits(CharProperties::READ), v);
    }

    /// Adds the Device Information service: manufacturer, model, serial
    /// number, firmware, hardware and software revisions as text, and the
    /// PnP ID (vendor ID source 1, vendor, product, version), all readable.
    pub fn add_device_info_service(
        &mut self,
        manufacturer: &str,
        model: &str,
        serial: &str,
        firmware: &str,
        hardware: &str,
        software: &str,
        pnp_vid: u16,
        pnp_pid: u16,
        pnp_version: u16,
    )
        requires
            old(self).wf(),
            old(self).attrs().len() < 65519,
        ensures
            final(self).wf(),
            final(self).attrs().len() == old(self).attrs().len() + 15,
            final(self).attrs().take(old(self).attrs().len() as int) == old(self).attrs(),
            ({
                let f = final(self).attrs();
                let n = old(self).attrs().len() as int;
                &&& service_at(f, n, uuid16_bytes(0x180A))
                &&& char_pair_at(f, n + 1, uuid16_bytes(0x2A29), 0x02, manufacturer.spec_bytes())
                &&& char_pair_at(f, n + 3, uuid16_bytes(0x2A24), 0x02, model.spec_bytes())
                &&& char_pair_at(f, n + 5, uuid16_bytes(0x2A25), 0x02, serial.spec_bytes())
                &&& char_pair_at(f, n + 7, uuid16_bytes(0x2A26), 0x02, firmware.spec_bytes())
                &&& char_pair_at(f, n + 9, uuid16_bytes(0x2A27), 0x02, hardware.spec_bytes())
                &&& char_pair_at(f, n + 11, uuid16_bytes(0x2A28), 0x02, software.spec_bytes())
                &&& char_pair_at(f, n + 13, uuid16_bytes(0x2A50), 0x02,
                    seq![0x01u8] + le16(pnp_vid) + le16(pnp_pid) + le16(pnp_version))
            }),
    {
        let ghost n = old(self).attrs().len() as int;
        self.add_primary_service(gatt_uuids::device_info());
        let ghost s0 = self.attributes@;
        self.add_text_characteristic(gatt_uuids::manufacturer_name(), manufacturer);
        let ghost s1 = self.attributes@;
        self.add_text_characteristic(gatt_uuids::model_number(), model);
        let ghost s2 = self.attributes@;
        self.add_text_characteristic(gatt_uuids::serial_number(), serial);
        let ghost s3 = self.attributes@;
        self.add_text_characteristic(gatt_uuids::firmware_revision(), firmware);
        let ghost s4 = self.attributes@;
        self.add_text_characteristic(gatt_uuids::hardware_revision(), hardware);
        let ghost s5 = self.attributes@;
        self.add_text_characteristic(gatt_uuids::software_revision(), software);
        let ghost s6 = self.attributes@;
        let mut pnp_value: Vec<u8> = Vec::new();
        pnp_value.push(0x01);
        push_u16_le(&mut pnp_value, pnp_vid);
        push_u16_le(&mut pnp_value, pnp_pid);
        push_u16_le(&mut pnp_value, pnp_version);
        assert(pnp_value@ =~= seq![0x01u8] + le16(pnp_vid) + le16(pnp_pid) + le16(pnp_version));
        self.add_characteristic(gatt_uuids::pnp_id(), CharProperties::from_bits(CharProperties::READ), pnp_value);
        proof {
            let f = self.attributes@;
            assert(f.take(n + 13) == s6);
            assert(s6.take(n + 11) == s5);
            assert(s5.take(n + 9) == s4);
            assert(s4.take(n + 7) == s3);
            assert(s3.take(n + 5) == s2);
            assert(s2.take(n + 3) == s1);
            assert(s1.take(n + 1) == s0);
            assert forall|k: int| 0 <= k < n + 13 implies f[k] == #[trigger] s6[k] by {
                assert(f.take(n + 13)[k] == f[k]);
            }
            assert forall|k: int| 0 <= k < n + 11 implies s6[k] == #[trigger] s5[k] by {
                assert(s6.take(n + 11)[k] == s6[k]);
            }
            assert forall|k: int| 0 <= k < n + 9 implies s5[k] == #[trigger] s4[k] by {
                assert(s5.take(n + 9)[k] == s5[k]);
            }
            assert forall|k: int| 0 <= k < n + 7 implies s4[k] == #[trigger] s3[k] by {
                assert(s4.take(n + 7)[k] == s4[k]);
            }
            assert forall|k: int| 0 <= k < n + 5 implies s3[k] == #[trigger] s2[k] by {
                assert(s3.take(n + 5)[k] == s3[k]);
            }
            assert forall|k: int| 0 <= k < n + 3 implies s2[k] == #[trigger] s1[k] by {
                assert(s2.take(n + 3)[k] == s2[k]);
            }
            assert forall|k: int| 0 <= k < n + 1 implies s1[k] == #[trigger] s0[k] by {
                assert(s1.take(n + 1)[k] == s1[k]);
            }
            assert(f.take(n) =~= old(self).attrs()) by {
                assert(s0.take(n) == old(self).attrs());
            }
        }
    }

    /// Replaces the value of the attribute with handle `handle`; false
    /// when there is none.
    pub fn update_value(&mut self, handle: u16, value: Vec<u8>) -> (r: bool)
        requires
            old(self).wf(),
        ensures
            final(self).wf(),
            r == spec_lookup(old(self).attrs(), handle) is Some,
            r ==> final(self).attrs() == old(self).attrs().update(handle - 1,
                GattAttribute { value, ..old(self).attrs()[handle - 1] }),
            !r ==> final(self).attrs() == old(self).attrs(),
    {
        if handle == 0 || handle as usize > self.attributes.len() {
            return false;
        }
        let idx = handle as usize - 1;
        let old_attr = &self.attributes[idx];
        let attr = GattAttribute { handle: old_attr.handle, uuid: old_attr.uuid, value, permissions: old_attr.permissions };
        self.attributes.set(idx, attr);
        true
    }

    /// The value of the attribute with handle `handle`.
    pub fn get_value(&self, handle: u16) -> (r: Option<&[u8]>)
        requires
            self.wf(),
        ensures
            r is Some <==> spec_lookup(self.attrs(), handle) is Some,
            r matches Some(v) ==> v@ == self.attrs()[handle - 1].value@,
    {
        match self.find_by_handle(handle) {
            Some(a) => Some(a.value.as_slice()),
            None => None,
        }
    }

    /// Number of attributes.
    pub fn len(&self) -> (r: usize)
        ensures
            r == self.attrs().len(),
    {
        self.attributes.len()
    }

    pub fn is_empty(&self) -> (r: bool)
        ensures
            r == (self.attrs().len() == 0),
    {
        self.attributes.len() == 0
    }
}


// ============================================================================
// Server responses
// ============================================================================

/// An Error Response to the request with opcode `op`.
pub open spec fn error_rsp(op: u8, h: u16, e: AttErrorCode) -> Seq<u8> {
    AttErrorRsp::spec_build(op, h, e)
}

/// `v` cut to at most `n` bytes.
pub open spec fn truncate(v: Seq<u8>, n: int) -> Seq<u8> {
    if v.len() > n { v.take(n) } else { v }
}

/// `mtu - k`, or 0 when that would be negative.
pub open spec fn mtu_room(mtu: u16, k: int) -> int {
    if mtu >= k { mtu - k } else { 0 }
}

/// Pairs listed by Find Information: the attributes whose UUID is 16-bit
/// exactly when the first one's is.
pub open spec fn info_pairs(found: Seq<GattAttribute>, use16: bool) -> Seq<AttHandleUuidPair> {
    found.filter(|a: GattAttribute| (spec_uuid_type(a.uuid.bytes@) == BtUuidType::Uuid16) == use16)
        .map_values(|a: GattAttribute| AttHandleUuidPair { handle: a.handle, uuid: a.uuid })
}

/// Answer to Find Information over `[s, e]`.
pub open spec fn find_info_response(db: Seq<GattAttribute>, s: u16, e: u16) -> Seq<u8> {
    let found = attrs_in_range(db, s, e);
    if found.len() == 0 {
        error_rsp(0x04, s, AttErrorCode::AttributeNotFound)
    } else {
        AttFindInfoRsp::spec_build(info_pairs(found, spec_uuid_type(found[0].uuid.bytes@) == BtUuidType::Uuid16))
    }
}

/// Attributes of type `t` in `[s, e]` holding exactly `value`.
pub open spec fn type_value_matches(db: Seq<GattAttribute>, t: Seq<u8>, s: u16, e: u16, value: Seq<u8>) -> Seq<GattAttribute> {
    attrs_of_type(db, t, s, e).filter(|a: GattAttribute| a.value@ == value)
}

/// Answer to Find By Type Value: the group range of each match.
pub open spec fn find_by_type_value_response(db: Seq<GattAttribute>, t: Seq<u8>, s: u16, e: u16, value: Seq<u8>) -> Seq<u8> {
    let found = type_value_matches(db, t, s, e, value);
    if found.len() == 0 {
        error_rsp(0x06, s, AttErrorCode::AttributeNotFound)
    } else {
        seq![0x07u8] + range_entries(found.map_values(|a: GattAttribute|
            AttHandleRange { start_handle: a.handle, end_handle: group_end(db, a.handle) }))
    }
}

/// Readable attributes of a list.
pub open spec fn readable_attrs(found: Seq<GattAttribute>) -> Seq<GattAttribute> {
    found.filter(|a: GattAttribute| a.permissions.readable())
}

/// Handle-value pairs of Read By Type, values cut to `mtu - 5` bytes.
pub open spec fn read_by_type_pairs(found: Seq<GattAttribute>, mtu: u16) -> Seq<(u16, Seq<u8>)> {
    readable_attrs(found).map_values(|a: GattAttribute| (a.handle, truncate(a.value@, mtu_room(mtu, 5))))
}

/// Answer to Read By Type.
pub open spec fn read_by_type_response(db: Seq<GattAttribute>, mtu: u16, t: Seq<u8>, s: u16, e: u16) -> Seq<u8> {
    let found = attrs_of_type(db, t, s, e);
    if found.len() == 0 {
        error_rsp(0x08, s, AttErrorCode::AttributeNotFound)
    } else if readable_attrs(found).len() == 0 {
        error_rsp(0x08, s, AttErrorCode::ReadNotPermitted)
    } else {
        AttReadByTypeRsp::spec_build(read_by_type_pairs(found, mtu))
    }
}

/// Groups listed by Read By Group Type.
pub open spec fn group_list(db: Seq<GattAttribute>, found: Seq<GattAttribute>) -> Seq<(u16, u16, Seq<u8>)> {
    found.map_values(|a: GattAttribute| (a.handle, group_end(db, a.handle), a.value@))
}

/// Answer to Read By Group Type; only service declarations are groups.
pub open spec fn read_by_group_type_response(db: Seq<GattAttribute>, t: Seq<u8>, s: u16, e: u16) -> Seq<u8> {
    if !(t == uuid16_bytes(0x2800) || t == uuid16_bytes(0x2801)) {
        error_rsp(0x10, 0, AttErrorCode::UnsupportedGroupType)
    } else if attrs_of_type(db, t, s, e).len() == 0 {
        error_rsp(0x10, s, AttErrorCode::AttributeNotFound)
    } else {
        AttReadByGroupTypeRsp::spec_build(group_list(db, attrs_of_type(db, t, s, e)))
    }
}

/// Answer to Read: the value, cut to `mtu - 1` bytes.
pub open spec fn read_response(db: Seq<GattAttribute>, mtu: u16, h: u16) -> Seq<u8> {
    match spec_lookup(db, h) {
        None => error_rsp(0x0A, h, AttErrorCode::InvalidHandle),
        Some(a) => if !a.permissions.readable() {
            error_rsp(0x0A, h, AttErrorCode::ReadNotPermitted)
        } else {
            seq![0x0Bu8] + truncate(a.value@, mtu_room(mtu, 1))
        },
    }
}

/// Answer to Read Blob: up to `mtu - 1` bytes from `off`.
pub open spec fn read_blob_response(db: Seq<GattAttribute>, mtu: u16, h: u16, off: u16) -> Seq<u8> {
    match spec_lookup(db, h) {
        None => error_rsp(0x0C, h, AttErrorCode::InvalidHandle),
        Some(a) => if !a.permissions.readable() {
            error_rsp(0x0C, h, AttErrorCode::ReadNotPermitted)
        } else if off >= a.value@.len() {
            error_rsp(0x0C, h, AttErrorCode::InvalidOffset)
        } else {
            let end = if off + mtu_room(mtu, 1) < a.value@.len() { off + mtu_room(mtu, 1) } else { a.value@.len() as int };
            seq![0x0Du8] + a.value@.subrange(off as int, end)
        },
    }
}

/// Answer to Write Request.
pub open spec fn write_response(db: Seq<GattAttribute>, h: u16) -> Seq<u8> {
    match spec_lookup(db, h) {
        None => error_rsp(0x12, h, AttErrorCode::InvalidHandle),
        Some(a) => if !a.permissions.writable() {
            error_rsp(0x12, h, AttErrorCode::WriteNotPermitted)
        } else {
            seq![0x13u8]
        },
    }
}

/// The database with the value of handle `h` replaced, when it exists.
pub open spec fn with_value(db: Seq<GattAttribute>, h: u16, value: Vec<u8>) -> Seq<GattAttribute> {
    match spec_lookup(db, h) {
        None => db,
        Some(a) => db.update(h - 1, GattAttribute { value, ..a }),
    }
}

/// The answer of the server, with MTU `mtu`, to a decoded request whose
/// first byte is `opcode`; `None` when nothing is sent back.
pub open spec fn gatt_response(db: Seq<GattAttribute>, mtu: u16, pdu: AttPdu, opcode: u8) -> Option<Seq<u8>> {
    match pdu {
        AttPdu::ExchangeMtuReq(m) => Some(seq![0x03u8] + le16(clamp_mtu(m.client_rx_mtu))),
        AttPdu::FindInfoReq(m) => Some(find_info_response(db, m.start_handle, m.end_handle)),
        AttPdu::FindByTypeValueReq(m) => Some(find_by_type_value_response(db, m.attr_type.bytes@, m.start_handle, m.end_handle, m.value@)),
        AttPdu::ReadByTypeReq(m) => Some(read_by_type_response(db, mtu, m.attr_type.bytes@, m.start_handle, m.end_handle)),
        AttPdu::ReadByGroupTypeReq(m) => Some(read_by_group_type_response(db, m.group_type.bytes@, m.start_handle, m.end_handle)),
        AttPdu::ReadReq(m) => Some(read_response(db, mtu, m.handle)),
        AttPdu::ReadBlobReq(m) => Some(read_blob_response(db, mtu, m.handle, m.offset)),
        AttPdu::WriteReq(m) => Some(write_response(db, m.handle)),
        AttPdu::WriteCmd(_) => None,
        AttPdu::PrepareWriteReq(_) => Some(error_rsp(0x16, 0, AttErrorCode::RequestNotSupported)),
        AttPdu::ExecuteWriteReq(_) => Some(seq![0x19u8]),
        AttPdu::Unsupported(op) => Some(error_rsp(op, 0, AttErrorCode::RequestNotSupported)),
        _ => Some(error_rsp(opcode, 0, AttErrorCode::RequestNotSupported)),
    }
}

/// The database after the server handled `pdu`: a permitted Write Request
/// or any Write Command to an existing handle replaces its value.
pub open spec fn gatt_after(db: Seq<GattAttribute>, pdu: AttPdu) -> Seq<GattAttribute> {
    match pdu {
        AttPdu::WriteReq(m) => if spec_lookup(db, m.handle) matches Some(a) && a.permissions.writable() {
            with_value(db, m.handle, m.value)
        } else {
            db
        },
        AttPdu::WriteCmd(m) => with_value(db, m.handle, m.value),
        _ => db,
    }
}

/// A permitted write followed by a read of the same handle returns the
/// written value, when it fits the read response (`mtu - 1` bytes).
pub proof fn lemma_write_then_read(db: Seq<GattAttribute>, mtu: u16, handle: u16, value: Vec<u8>)
    requires
        spec_lookup(db, handle) matches Some(a) && a.permissions.writable() && a.permissions.readable(),
        value@.len() <= mtu_room(mtu, 1),
    ensures
        write_response(db, handle) == seq![0x13u8],
        read_response(with_value(db, handle, value), mtu, handle) == seq![0x0Bu8] + value@,
{
}

/// A write to a handle leaves every other attribute as it was.
pub proof fn lemma_write_leaves_others(db: Seq<GattAttribute>, handle: u16, value: Vec<u8>, other: u16)
    requires
        other != handle,
    ensures
        spec_lookup(with_value(db, handle, value), other) == spec_lookup(db, other),
{
}


/// The byte view of an optional response.
pub open spec fn opt_bytes(r: Option<Vec<u8>>) -> Option<Seq<u8>> {
    match r {
        Some(v) => Some(v@),
        None => None,
    }
}

// ============================================================================
// Server
// ============================================================================

/// The server's ATT MTU after handling `p`: an MTU exchange sets the
/// negotiated MTU (the client's, kept within 23..=512).
pub open spec fn mtu_after(mtu: u16, p: AttPdu) -> u16 {
    match p {
        AttPdu::ExchangeMtuReq(req) => clamp_mtu(req.client_rx_mtu),
        _ => mtu,
    }
}

/// Answers ATT requests from the database.
pub struct GattServer {
    pub database: GattDatabase,
    /// ATT MTU used to cut long values.
    pub att_mtu: u16,
}

impl GattServer {
    pub fn new(database: GattDatabase) -> (r: Self)
        ensures
            r.database == database,
            r.att_mtu == 23,
    {
        GattServer { database, att_mtu: crate::att::ATT_DEFAULT_MTU }
    }

    /// Handles one incoming ATT PDU and returns the bytes to send back:
    /// `None` for undecodable input and for Write Commands. An MTU exchange
    /// sets the negotiated MTU.
    pub fn process_att_pdu(&mut self, data: &[u8]) -> (r: Option<Vec<u8>>)
        requires
            old(self).database.wf(),
        ensures
            final(self).database.wf(),
            !spec_pdu_accepts(data@) ==> r is None && final(self).database.attrs() == old(self).database.attrs()
                && final(self).att_mtu == old(self).att_mtu,
            spec_pdu_accepts(data@) ==> exists|p: AttPdu| #[trigger] spec_pdu_decodes(p, data@)
                && opt_bytes(r) == gatt_response(old(self).database.attrs(), old(self).att_mtu, p, data@[0])
                && final(self).database.attrs() == gatt_after(old(self).database.attrs(), p)
                && final(self).att_mtu == mtu_after(old(self).att_mtu, p),
    {
        let pdu = match parse_att_pdu(data) {
            Some(p) => p,
            None => { return None; },
        };
        let ghost p0 = pdu;
        let opcode = data[0];
        let r = self.handle_pdu(pdu, opcode);
        assert(spec_pdu_decodes(p0, data@));
        r
    }

    fn handle_pdu(&mut self, pdu: AttPdu, opcode: u8) -> (r: Option<Vec<u8>>)
        requires
            old(self).database.wf(),
        ensures
            final(self).database.wf(),
            final(self).att_mtu == mtu_after(old(self).att_mtu, pdu),
            opt_bytes(r) == gatt_response(old(self).database.attrs(), old(self).att_mtu, pdu, opcode),
            final(self).database.attrs() == gatt_after(old(self).database.attrs(), pdu),
    {
        match pdu {
            AttPdu::ExchangeMtuReq(req) => Some(self.handle_exchange_mtu(req)),
            AttPdu::FindInfoReq(req) => Some(self.handle_find_info(req)),
            AttPdu::FindByTypeValueReq(req) => Some(self.handle_find_by_type_value(req)),
            AttPdu::ReadByTypeReq(req) => Some(self.handle_read_by_type(req)),
            AttPdu::ReadByGroupTypeReq(req) => Some(self.handle_read_by_group_type(req)),
            AttPdu::ReadReq(req) => Some(self.handle_read(req)),
            AttPdu::ReadBlobReq(req) => Some(self.handle_read_blob(req)),
            AttPdu::WriteReq(req) => Some(self.handle_write(req)),
            AttPdu::WriteCmd(cmd) => {
                self.handle_write_internal(cmd.handle, cmd.value);
                None
            },
            AttPdu::PrepareWriteReq(req) => Some(self.handle_prepare_write_error(req)),
            AttPdu::ExecuteWriteReq(req) => Some(self.handle_execute_write(req)),
            AttPdu::Unsupported(op) => Some(AttErrorRsp::build(op, 0, AttErrorCode::RequestNotSupported)),
            _ => Some(AttErrorRsp::build(opcode, 0, AttErrorCode::RequestNotSupported)),
        }
    }

    fn handle_exchange_mtu(&mut self, req: AttExchangeMtuReq) -> (r: Vec<u8>)
        ensures
            r@ == seq![0x03u8] + le16(clamp_mtu(req.client_rx_mtu)),
            final(self).att_mtu == clamp_mtu(req.client_rx_mtu),
            final(self).database == old(self).database,
    {
        let mtu = req.client_rx_mtu;
        let negotiated = if mtu < crate::att::ATT_MIN_MTU {
            crate::att::ATT_MIN_MTU
        } else if mtu > crate::att::ATT_MAX_MTU {
            crate::att::ATT_MAX_MTU
        } else {
            mtu
        };
        self.att_mtu = negotiated;
        AttExchangeMtuRsp::build(negotiated)
    }

    fn handle_find_info(&self, req: AttFindInfoReq) -> (r: Vec<u8>)
        ensures
            r@ == find_info_response(self.database.attrs(), req.start_handle, req.end_handle),
    {
        let attrs = self.database.find_in_range(req.start_handle, req.end_handle);
        if attrs.len() == 0 {
            return AttErrorRsp::build(AttOpcode::FindInformationRequest.to_byte(), req.start_handle,
                AttErrorCode::AttributeNotFound);
        }
        let ghost found = deref_all(attrs@);
        let use_uuid16 = attrs[0].uuid.uuid_type() == BtUuidType::Uuid16;
        let mut pairs: Vec<AttHandleUuidPair> = Vec::new();
        let mut i: usize = 0;
        while i < attrs.len()
            invariant
                0 <= i <= attrs@.len(),
                found == deref_all(attrs@),
                pairs@ == info_pairs(found.take(i as int), use_uuid16),
            decreases attrs@.len() - i,
        {
            let a = attrs[i];
            proof {
                let t = found.take(i + 1);
                assert(t.drop_last() =~= found.take(i as int));
                reveal_with_fuel(Seq::filter, 1);
            }
            let is16 = a.uuid.uuid_type() == BtUuidType::Uuid16;
            if (use_uuid16 && is16) || (!use_uuid16 && !is16) {
                pairs.push(AttHandleUuidPair { handle: a.handle, uuid: a.uuid });
            }
            assert(pairs@ =~= info_pairs(found.take(i + 1), use_uuid16));
            i = i + 1;
        }
        assert(found.take(i as int) =~= found);
        AttFindInfoRsp::build(pairs)
    }

    /// The end of the group starting at `handle`.
    fn group_end_of(&self, handle: u16) -> (r: u16)
        ensures
            r == group_end(self.database.attrs(), handle),
    {
        let end = match self.database.find_next_service_start(handle) {
            Some(h) => {
                proof {
                    let db = self.database.attrs();
                    assert(exists|x: u16| is_next_service(db, handle, x));
                    let c = choose|x: u16| is_next_service(db, handle, x);
                    assert(is_next_service(db, handle, c));
                }
                h - 1
            },
            None => self.database.max_handle(),
        };
        if end < handle { handle } else { end }
    }

    fn handle_find_by_type_value(&self, req: AttFindByTypeValueReq) -> (r: Vec<u8>)
        ensures
            r@ == find_by_type_value_response(self.database.attrs(), req.attr_type.bytes@, req.start_handle,
                req.end_handle, req.value@),
    {
        let attrs = self.database.find_by_uuid(&req.attr_type, req.start_handle, req.end_handle);
        let ghost found = deref_all(attrs@);
        let ghost db = self.database.attrs();
        let mut ranges: Vec<AttHandleRange> = Vec::new();
        let mut i: usize = 0;
        while i < attrs.len()
            invariant
                0 <= i <= attrs@.len(),
                found == deref_all(attrs@),
                db == self.database.attrs(),
                ranges@ == found.take(i as int).filter(|a: GattAttribute| a.value@ == req.value@).map_values(
                    |a: GattAttribute| AttHandleRange { start_handle: a.handle, end_handle: group_end(db, a.handle) }),
            decreases attrs@.len() - i,
        {
            let a = attrs[i];
            proof {
                let t = found.take(i + 1);
                assert(t.drop_last() =~= found.take(i as int));
                reveal_with_fuel(Seq::filter, 1);
            }
            if bytes_equal(a.value.as_slice(), req.value.as_slice()) {
                let end = self.group_end_of(a.handle);
                ranges.push(AttHandleRange { start_handle: a.handle, end_handle: end });
            }
            assert(ranges@ =~= found.take(i + 1).filter(|a: GattAttribute| a.value@ == req.value@).map_values(
                |a: GattAttribute| AttHandleRange { start_handle: a.handle, end_handle: group_end(db, a.handle) }));
            i = i + 1;
        }
        assert(found.take(i as int) =~= found);
        if ranges.len() == 0 {
            return AttErrorRsp::build(AttOpcode::FindByTypeValueRequest.to_byte(), req.start_handle,
                AttErrorCode::AttributeNotFound);
        }
        AttFindByTypeValueRsp::build(ranges)
    }

    fn handle_read_by_type(&self, req: AttReadByTypeReq) -> (r: Vec<u8>)
        ensures
            r@ == read_by_type_response(self.database.attrs(), self.att_mtu, req.attr_type.bytes@,
                req.start_handle, req.end_handle),
    {
        let attrs = self.database.find_by_uuid(&req.attr_type, req.start_handle, req.end_handle);
        if attrs.len() == 0 {
            return AttErrorRsp::build(AttOpcode::ReadByTypeRequest.to_byte(), req.start_handle,
                AttErrorCode::AttributeNotFound);
        }
        let ghost found = deref_all(attrs@);
        let max_val_len: usize = if self.att_mtu >= 5 { (self.att_mtu - 5) as usize } else { 0 };
        let mut pairs: Vec<(u16, Vec<u8>)> = Vec::new();
        let mut i: usize = 0;
        while i < attrs.len()
            invariant
                0 <= i <= attrs@.len(),
                found == deref_all(attrs@),
                max_val_len == mtu_room(self.att_mtu, 5),
                hv_pair_views(pairs@) == read_by_type_pairs(found.take(i as int), self.att_mtu),
            decreases attrs@.len() - i,
        {
            let a = attrs[i];
            proof {
                let t = found.take(i + 1);
                assert(t.drop_last() =~= found.take(i as int));
                reveal_with_fuel(Seq::filter, 1);
            }
            let ghost before = hv_pair_views(pairs@);
            if a.permissions.can_read() {
                let n = if a.value.len() > max_val_len { max_val_len } else { a.value.len() };
                let value = copy_range(a.value.as_slice(), 0, n);
                assert(value@ =~= truncate(a.value@, mtu_room(self.att_mtu, 5)));
                pairs.push((a.handle, value));
                assert(hv_pair_views(pairs@) =~= before.push((a.handle, value@)));
            }
            assert(hv_pair_views(pairs@) =~= read_by_type_pairs(found.take(i + 1), self.att_mtu));
            i = i + 1;
        }
        assert(found.take(i as int) =~= found);
        if pairs.len() == 0 {
            return AttErrorRsp::build(AttOpcode::ReadByTypeRequest.to_byte(), req.start_handle,
                AttErrorCode::ReadNotPermitted);
        }
        AttReadByTypeRsp::build(pairs)
    }

    fn handle_read_by_group_type(&self, req: AttReadByGroupTypeReq) -> (r: Vec<u8>)
        ensures
            r@ == read_by_group_type_response(self.database.attrs(), req.group_type.bytes@, req.start_handle,
                req.end_handle),
    {
        let is_primary = req.group_type.equals(&gatt_uuids::primary_service());
        let is_secondary = req.group_type.equals(&gatt_uuids::secondary_service());
        if !is_primary && !is_secondary {
            return AttErrorRsp::build(AttOpcode::ReadByGroupTypeRequest.to_byte(), 0x0000,
                AttErrorCode::UnsupportedGroupType);
        }
        let attrs = self.database.find_groups_by_type(&req.group_type, req.start_handle, req.end_handle);
        if attrs.len() == 0 {
            return AttErrorRsp::build(AttOpcode::ReadByGroupTypeRequest.to_byte(), req.start_handle,
                AttErrorCode::AttributeNotFound);
        }
        let ghost found = deref_all(attrs@);
        let ghost db = self.database.attrs();
        let mut entries: Vec<AttGroupAttrEntry> = Vec::new();
        let mut i: usize = 0;
        while i < attrs.len()
            invariant
                0 <= i <= attrs@.len(),
                found == deref_all(attrs@),
                db == self.database.attrs(),
                group_views(entries@) == group_list(db, found.take(i as int)),
            decreases attrs@.len() - i,
        {
            let a = attrs[i];
            let end = self.group_end_of(a.handle);
            let value = copy_value(&a.value);
            let ghost before = group_views(entries@);
            entries.push(AttGroupAttrEntry { start_handle: a.handle, group_end_handle: end, value });
            assert(found[i as int] == *a);
            assert(found.take(i + 1) =~= found.take(i as int).push(*a));
            assert(group_views(entries@) =~= before.push((a.handle, end, a.value@)));
            assert(group_views(entries@) =~= group_list(db, found.take(i + 1)));
            i = i + 1;
        }
        assert(found.take(i as int) =~= found);
        AttReadByGroupTypeRsp::build(entries)
    }

    fn handle_read(&self, req: AttReadReq) -> (r: Vec<u8>)
        requires
            self.database.wf(),
        ensures
            r@ == read_response(self.database.attrs(), self.att_mtu, req.handle),
    {
        let attr = match self.database.find_by_handle(req.handle) {
            Some(a) => a,
            None => {
                return AttErrorRsp::build(AttOpcode::ReadRequest.to_byte(), req.handle, AttErrorCode::InvalidHandle);
            },
        };
        if !attr.permissions.can_read() {
            return AttErrorRsp::build(AttOpcode::ReadRequest.to_byte(), req.handle, AttErrorCode::ReadNotPermitted);
        }
        let max_len: usize = if self.att_mtu >= 1 { (self.att_mtu - 1) as usize } else { 0 };
        let n = if attr.value.len() > max_len { max_len } else { attr.value.len() };
        let value = copy_range(attr.value.as_slice(), 0, n);
        assert(value@ =~= truncate(attr.value@, mtu_room(self.att_mtu, 1)));
        AttReadRsp::build(value)
    }

    fn handle_read_blob(&self, req: AttReadBlobReq) -> (r: Vec<u8>)
        requires
            self.database.wf(),
        ensures
            r@ == read_blob_response(self.database.attrs(), self.att_mtu, req.handle, req.offset),
    {
        let attr = match self.database.find_by_handle(req.handle) {
            Some(a) => a,
            None => {
                return AttErrorRsp::build(AttOpcode::ReadBlobRequest.to_byte(), req.handle, AttErrorCode::InvalidHandle);
            },
        };
        if !attr.permissions.can_read() {
            return AttErrorRsp::build(AttOpcode::ReadBlobRequest.to_byte(), req.handle, AttErrorCode::ReadNotPermitted);
        }
        let offset = req.offset as usize;
        if offset >= attr.value.len() {
            return AttErrorRsp::build(AttOpcode::ReadBlobRequest.to_byte(), req.handle, AttErrorCode::InvalidOffset);
        }
        let max_len: usize = if self.att_mtu >= 1 { (self.att_mtu - 1) as usize } else { 0 };
        let end = if max_len < attr.value.len() - offset { offset + max_len } else { attr.value.len() };
        let value = copy_range(attr.value.as_slice(), offset, end);
        AttReadBlobRsp::build(value)
    }

    fn handle_write(&mut self, req: AttWriteReq) -> (r: Vec<u8>)
        requires
            old(self).database.wf(),
        ensures
            final(self).database.wf(),
            final(self).att_mtu == old(self).att_mtu,
            r@ == write_response(old(self).database.attrs(), req.handle),
            final(self).database.attrs() == gatt_after(old(self).database.attrs(), AttPdu::WriteReq(req)),
    {
        let writable = match self.database.find_by_handle(req.handle) {
            Some(a) => a.permissions.can_write(),
            None => {
                return AttErrorRsp::build(AttOpcode::WriteRequest.to_byte(), req.handle, AttErrorCode::InvalidHandle);
            },
        };
        if !writable {
            return AttErrorRsp::build(AttOpcode::WriteRequest.to_byte(), req.handle, AttErrorCode::WriteNotPermitted);
        }
        let ghost req0 = req;
        self.database.update_value(req.handle, req.value);
        assert(final(self).database.attrs() == with_value(old(self).database.attrs(), req0.handle, req0.value));
        build_write_rsp()
    }

    fn handle_write_internal(&mut self, handle: u16, value: Vec<u8>)
        requires
            old(self).database.wf(),
        ensures
            final(self).database.wf(),
            final(self).att_mtu == old(self).att_mtu,
            final(self).database.attrs() == with_value(old(self).database.attrs(), handle, value),
    {
        self.database.update_value(handle, value);
    }

    fn handle_prepare_write_error(&self, _req: AttPrepareWriteReq) -> (r: Vec<u8>)
        ensures
            r@ == error_rsp(0x16, 0, AttErrorCode::RequestNotSupported),
    {
        AttErrorRsp::build(AttOpcode::PrepareWriteRequest.to_byte(), 0, AttErrorCode::RequestNotSupported)
    }

    /// Queued writes are not kept, so both flags are simply acknowledged.
    fn handle_execute_write(&self, req: AttExecuteWriteReq) -> (r: Vec<u8>)
        ensures
            r@ == seq![0x19u8],
    {
        match req.flag {
            AttExecWriteFlag::Cancel => build_execute_write_rsp(),
            AttExecWriteFlag::Write => build_execute_write_rsp(),
        }
    }

    /// A Handle Value Notification for `value_handle`.
    pub fn build_notification(&self, value_handle: u16, value: Vec<u8>) -> (r: Vec<u8>)
        ensures
            r@ == hv_bytes(0x1B, value_handle, value@),
    {
        AttHandleValueNtf::build(value_handle, value)
    }

    /// A Handle Value Indication for `value_handle`.
    pub fn build_indication(&self, value_handle: u16, value: Vec<u8>) -> (r: Vec<u8>)
        ensures
            r@ == hv_bytes(0x1D, value_handle, value@),
    {
        AttHandleValueInd::build(value_handle, value)
    }
}



// ============================================================================
// Client
// ============================================================================

impl GattService {
    pub open spec fn view(&self) -> (Seq<u8>, bool, u16, u16) {
        (self.uuid.bytes@, self.primary, self.start_handle, self.end_handle)
    }
}

impl GattCharacteristic {
    pub open spec fn view(&self) -> (Seq<u8>, u8, u16, u16, Option<u16>) {
        (self.uuid.bytes@, self.properties.0, self.declaration_handle, self.value_handle, self.cccd_handle)
    }
}

/// The `i`-th group of a Read By Group Type Response.
pub open spec fn group_entry_at(data: Seq<u8>, i: int) -> (u16, u16, Seq<u8>) {
    let es = data[1] as int;
    (field16(data, 2 + i * es), field16(data, 2 + i * es + 2), data.subrange(2 + i * es + 4, 2 + i * es + es))
}

/// All groups of a Read By Group Type Response.
pub open spec fn group_entries_in(data: Seq<u8>) -> Seq<(u16, u16, Seq<u8>)> {
    Seq::new(((data.len() - 2) / (data[1] as int)) as nat, |i: int| group_entry_at(data, i))
}

/// The service a discovered group stands for: a 2-byte value is a 16-bit
/// UUID sent little-endian, a 16-byte value a full UUID; other sizes are
/// skipped.
pub open spec fn service_from_entry(e: (u16, u16, Seq<u8>)) -> Option<(Seq<u8>, bool, u16, u16)> {
    if e.2.len() == 2 {
        Some((base_uuid_bytes().update(2, e.2[1]).update(3, e.2[0]), true, e.0, e.1))
    } else if e.2.len() == 16 {
        Some((e.2, true, e.0, e.1))
    } else {
        None
    }
}

/// The services of a list of groups, in order.
pub open spec fn services_from(entries: Seq<(u16, u16, Seq<u8>)>) -> Seq<(Seq<u8>, bool, u16, u16)>
    decreases entries.len(),
{
    if entries.len() == 0 {
        seq![]
    } else {
        let rest = services_from(entries.drop_last());
        match service_from_entry(entries.last()) {
            Some(s) => rest.push(s),
            None => rest,
        }
    }
}

/// The `i`-th handle-value pair of a Read By Type Response.
pub open spec fn type_pair_at(data: Seq<u8>, i: int) -> (u16, Seq<u8>) {
    let es = data[1] as int;
    (field16(data, 2 + i * es), data.subrange(2 + i * es + 2, 2 + i * es + es))
}

/// All pairs of a Read By Type Response.
pub open spec fn type_pairs_in(data: Seq<u8>) -> Seq<(u16, Seq<u8>)> {
    Seq::new(((data.len() - 2) / (data[1] as int)) as nat, |i: int| type_pair_at(data, i))
}

/// The characteristic a declaration `(handle, value)` describes: value
/// `| properties | value handle(2) | UUID |` with a 16-bit UUID (5 or 6
/// bytes) or a 128-bit one (at least 19 bytes); other sizes are skipped.
pub open spec fn char_from_pair(p: (u16, Seq<u8>)) -> Option<(Seq<u8>, u8, u16, u16, Option<u16>)> {
    let v = p.1;
    if v.len() < 5 {
        None
    } else if v.len() < 7 {
        Some((uuid16_bytes(u16_le(v[3], v[4])), v[0], p.0, u16_le(v[1], v[2]), None))
    } else if v.len() >= 19 {
        Some((v.subrange(3, 19), v[0], p.0, u16_le(v[1], v[2]), None))
    } else {
        None
    }
}

/// The characteristics of a list of declarations, in order.
pub open spec fn chars_from(pairs: Seq<(u16, Seq<u8>)>) -> Seq<(Seq<u8>, u8, u16, u16, Option<u16>)>
    decreases pairs.len(),
{
    if pairs.len() == 0 {
        seq![]
    } else {
        let rest = chars_from(pairs.drop_last());
        match char_from_pair(pairs.last()) {
            Some(c) => rest.push(c),
            None => rest,
        }
    }
}

/// Decodes discovery responses received from a remote server.
pub struct GattClient {
    /// ATT MTU of the connection.
    pub att_mtu: u16,
}

impl GattClient {
    pub fn new() -> (r: Self)
        ensures
            r.att_mtu == 23,
    {
        GattClient { att_mtu: crate::att::ATT_DEFAULT_MTU }
    }

    /// Decodes the services listed in a Read By Group Type Response.
    pub fn parse_primary_services(&self, data: &[u8]) -> (r: Option<Vec<GattService>>)
        ensures
            r is Some <==> AttReadByGroupTypeRsp::accepts(data@),
            r matches Some(v) ==> v@.map_values(|s: GattService| s@) == services_from(group_entries_in(data@)),
    {
        let rsp = match AttReadByGroupTypeRsp::parse(data) {
            Some(x) => x,
            None => { return None; },
        };
        let ghost entries = group_views(rsp.entries@);
        assert(entries =~= group_entries_in(data@));
        let mut services: Vec<GattService> = Vec::new();
        let mut i: usize = 0;
        while i < rsp.entries.len()
            invariant
                0 <= i <= rsp.entries@.len(),
                entries == group_views(rsp.entries@),
                services@.map_values(|s: GattService| s@) == services_from(entries.take(i as int)),
            decreases rsp.entries@.len() - i,
        {
            let entry = &rsp.entries[i];
            proof {
                let t = entries.take(i + 1);
                assert(t.drop_last() =~= entries.take(i as int));
                assert(t.last() == entry@);
            }
            let ghost before = services@.map_values(|s: GattService| s@);
            if entry.value.len() == 2 {
                let mut uuid_bytes = bluetooth_base_uuid();
                uuid_bytes[2] = entry.value[1];
                uuid_bytes[3] = entry.value[0];
                let uuid = BtUuid::from_bytes(uuid_bytes);
                assert(uuid.bytes@ =~= base_uuid_bytes().update(2, entry.value@[1]).update(3, entry.value@[0]));
                services.push(GattService { uuid, primary: true, start_handle: entry.start_handle, end_handle: entry.group_end_handle });
                assert(services@.map_values(|s: GattService| s@) =~= before.push(service_from_entry(entry@).unwrap()));
            } else if entry.value.len() == 16 {
                let mut uuid_bytes: [u8; 16] = [0u8; 16];
                let mut k: usize = 0;
                while k < 16
                    invariant
                        k <= 16,
                        entry.value@.len() == 16,
                        forall|j: int| 0 <= j < k ==> uuid_bytes@[j] == entry.value@[j],
                    decreases 16 - k,
                {
                    uuid_bytes[k] = entry.value[k];
                    k = k + 1;
                }
                let uuid = BtUuid::from_bytes(uuid_bytes);
                assert(uuid.bytes@ =~= entry.value@);
                services.push(GattService { uuid, primary: true, start_handle: entry.start_handle, end_handle: entry.group_end_handle });
                assert(services@.map_values(|s: GattService| s@) =~= before.push(service_from_entry(entry@).unwrap()));
            }
            i = i + 1;
        }
        assert(entries.take(i as int) =~= entries);
        Some(services)
    }

    /// Decodes the characteristics listed in a Read By Type Response to a
    /// characteristic discovery.
    pub fn parse_characteristics(&self, data: &[u8]) -> (r: Option<Vec<GattCharacteristic>>)
        ensures
            r is Some <==> AttReadByTypeRsp::accepts(data@),
            r matches Some(v) ==> v@.map_values(|c: GattCharacteristic| c@) == chars_from(type_pairs_in(data@)),
    {
        let rsp = match AttReadByTypeRsp::parse(data) {
            Some(x) => x,
            None => { return None; },
        };
        let ghost pairs = hv_pair_views(rsp.handle_value_pairs@);
        assert(pairs =~= type_pairs_in(data@));
        let mut chars: Vec<GattCharacteristic> = Vec::new();
        let mut i: usize = 0;
        while i < rsp.handle_value_pairs.len()
            invariant
                0 <= i <= rsp.handle_value_pairs@.len(),
                pairs == hv_pair_views(rsp.handle_value_pairs@),
                chars@.map_values(|c: GattCharacteristic| c@) == chars_from(pairs.take(i as int)),
            decreases rsp.handle_value_pairs@.len() - i,
        {
            let decl_handle = rsp.handle_value_pairs[i].0;
            let value = &rsp.handle_value_pairs[i].1;
            proof {
                let t = pairs.take(i + 1);
                assert(t.drop_last() =~= pairs.take(i as int));
                assert(t.last() == (decl_handle, value@));
            }
            let ghost before = chars@.map_values(|c: GattCharacteristic| c@);
            if value.len() >= 5 {
                let properties = CharProperties::from_bits(value[0]);
                let value_handle = read_u16_le(value[1], value[2]);
                if value.len() < 7 {
                    let uuid = BtUuid::from_uuid16(read_u16_le(value[3], value[4]));
                    chars.push(GattCharacteristic { uuid, properties, declaration_handle: decl_handle, value_handle, cccd_handle: None });
                    assert(chars@.map_values(|c: GattCharacteristic| c@) =~= before.push(char_from_pair((decl_handle, value@)).unwrap()));
                } else if value.len() >= 19 {
                    let mut uuid_bytes: [u8; 16] = [0u8; 16];
                    let mut k: usize = 0;
                    while k < 16
                        invariant
                            k <= 16,
                            value@.len() >= 19,
                            forall|j: int| 0 <= j < k ==> uuid_bytes@[j] == value@[3 + j],
                        decreases 16 - k,
                    {
                        uuid_bytes[k] = value[3 + k];
                        k = k + 1;
                    }
                    let uuid = BtUuid::from_bytes(uuid_bytes);
                    assert(uuid.bytes@ =~= value@.subrange(3, 19));
                    chars.push(GattCharacteristic { uuid, properties, declaration_handle: decl_handle, value_handle, cccd_handle: None });
                    assert(chars@.map_values(|c: GattCharacteristic| c@) =~= before.push(char_from_pair((decl_handle, value@)).unwrap()));
                }
            }
            i = i + 1;
        }
        assert(pairs.take(i as int) =~= pairs);
        Some(chars)
    }

    /// Decodes the attributes listed in a Find Information Response.
    pub fn parse_descriptors(&self, data: &[u8]) -> (r: Option<Vec<GattDescriptor>>)
        ensures
            r is Some <==> AttFindInfoRsp::accepts(data@),
            r matches Some(v) ==> {
                let es = find_info_entry_size(data@[1]);
                &&& v@.len() == (data@.len() - 2) / es
                &&& forall|i: int| #![trigger v@[i]] 0 <= i < v@.len() ==> {
                    &&& v@[i].handle == field16(data@, 2 + i * es)
                    &&& v@[i].uuid.bytes@ == uuid_from_wire(data@.subrange(2 + i * es + 2, 2 + i * es + es))
                }
            },
    {
        let rsp = match AttFindInfoRsp::parse(data) {
            Some(x) => x,
            None => { return None; },
        };
        let mut descs: Vec<GattDescriptor> = Vec::new();
        let mut i: usize = 0;
        while i < rsp.pairs.len()
            invariant
                0 <= i <= rsp.pairs@.len(),
                descs@.len() == i,
                forall|j: int| #![trigger descs@[j]] 0 <= j < i ==> descs@[j].handle == rsp.pairs@[j].handle
                    && descs@[j].uuid == rsp.pairs@[j].uuid,
            decreases rsp.pairs@.len() - i,
        {
            let pair = rsp.pairs[i];
            descs.push(GattDescriptor { uuid: pair.uuid, handle: pair.handle });
            i = i + 1;
        }
        proof {
            let es = find_info_entry_size(data@[1]);
            assert forall|k: int| #![trigger descs@[k]] 0 <= k < descs@.len() implies {
                &&& descs@[k].handle == field16(data@, 2 + k * es)
                &&& descs@[k].uuid.bytes@ == uuid_from_wire(data@.subrange(2 + k * es + 2, 2 + k * es + es))
            } by {
                assert(rsp.pairs@[k].handle == field16(data@, 2 + k * es));
            }
        }
        Some(descs)
    }
}

/// The stored value of a UUID (see `uuid_le_value`).
fn uuid_value(u: &BtUuid) -> (r: Vec<u8>)
    ensures
        r@ == uuid_le_value(u.bytes@),
{
    let mut v: Vec<u8> = Vec::new();
    match u.uuid_type() {
        BtUuidType::Uuid16 => {
            v.push(u.bytes[3]);
            v.push(u.bytes[2]);
            assert(v@ =~= uuid_le_value(u.bytes@));
        },
        _ => {
            let mut i: usize = 0;
            while i < 16
                invariant
                    i <= 16,
                    v@ == u.bytes@.take(i as int),
                    spec_uuid_type(u.bytes@) != BtUuidType::Uuid16,
                decreases 16 - i,
            {
                v.push(u.bytes[i]);
                i = i + 1;
                assert(v@ =~= u.bytes@.take(i as int));
            }
            assert(u.bytes@.take(16) =~= u.bytes@);
        },
    }
    v
}

} // verus!
