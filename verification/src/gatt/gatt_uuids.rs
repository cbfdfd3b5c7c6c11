//! Standard GATT attribute types, services and characteristics, each as a
//! function returning its UUID.

use vstd::prelude::*;
use crate::types::{BtUuid, uuid16_bytes};

verus! {

/// Primary Service declaration.
pub fn primary_service() -> (r: BtUuid)
    ensures
        r.bytes@ == uuid16_bytes(0x2800),
{
    BtUuid::from_uuid16(0x2800)
}

/// Secondary Service declaration.
pub fn secondary_service() -> (r: BtUuid)
    ensures
        r.bytes@ == uuid16_bytes(0x2801),
{
    BtUuid::from_uuid16(0x2801)
}

/// Include declaration.
pub fn include_decl() -> (r: BtUuid)
    ensures
        r.bytes@ == uuid16_bytes(0x2802),
{
    BtUuid::from_uuid16(0x2802)
}

/// Characteristic declaration.
pub fn characteristic() -> (r: BtUuid)
    ensures
        r.bytes@ == uuid16_bytes(0x2803),
{
    BtUuid::from_uuid16(0x2803)
}

/// Characteristic Extended Properties descriptor.
pub fn char_extended_props() -> (r: BtUuid)
    ensures
        r.bytes@ == uuid16_bytes(0x2900),
{
    BtUuid::from_uuid16(0x2900)
}

/// Characteristic User Description descriptor.
pub fn char_user_desc() -> (r: BtUuid)
    ensures
        r.bytes@ == uuid16_bytes(0x2901),
{
    BtUuid::from_uuid16(0x2901)
}

/// Client Characteristic Configuration descriptor.
pub fn client_char_config() -> (r: BtUuid)
    ensures
        r.bytes@ == uuid16_bytes(0x2902),
{
    BtUuid::from_uuid16(0x2902)
}

/// Server Characteristic Configuration descriptor.
pub fn server_char_config() -> (r: BtUuid)
    ensures
        r.bytes@ == uuid16_bytes(0x2903),
{
    BtUuid::from_uuid16(0x2903)
}

/// Characteristic Presentation Format descriptor.
pub fn char_format() -> (r: BtUuid)
    ensures
        r.bytes@ == uuid16_bytes(0x2904),
{
    BtUuid::from_uuid16(0x2904)
}

/// Characteristic Aggregate Format descriptor.
pub fn char_aggregate() -> (r: BtUuid)
    ensures
        r.bytes@ == uuid16_bytes(0x2905),
{
    BtUuid::from_uuid16(0x2905)
}

/// Generic Access service.
pub fn gap_service() -> (r: BtUuid)
    ensures
        r.bytes@ == uuid16_bytes(0x1800),
{
    BtUuid::from_uuid16(0x1800)
}

/// Generic Attribute service.
pub fn gatt_service() -> (r: BtUuid)
    ensures
        r.bytes@ == uuid16_bytes(0x1801),
{
    BtUuid::from_uuid16(0x1801)
}

/// Battery service.
pub fn battery_service() -> (r: BtUuid)
    ensures
        r.bytes@ == uuid16_bytes(0x180F),
{
    BtUuid::from_uuid16(0x180F)
}

/// Device Information service.
pub fn device_info() -> (r: BtUuid)
    ensures
        r.bytes@ == uuid16_bytes(0x180A),
{
    BtUuid::from_uuid16(0x180A)
}

/// Heart Rate service.
pub fn heart_rate() -> (r: BtUuid)
    ensures
        r.bytes@ == uuid16_bytes(0x180D),
{
    BtUuid::from_uuid16(0x180D)
}

/// Blood Pressure service.
pub fn blood_pressure() -> (r: BtUuid)
    ensures
        r.bytes@ == uuid16_bytes(0x1810),
{
    BtUuid::from_uuid16(0x1810)
}

/// Alert Notification service.
pub fn alert_notification() -> (r: BtUuid)
    ensures
        r.bytes@ == uuid16_bytes(0x1811),
{
    BtUuid::from_uuid16(0x1811)
}

/// Current Time service.
pub fn current_time() -> (r: BtUuid)
    ensures
        r.bytes@ == uuid16_bytes(0x1805),
{
    BtUuid::from_uuid16(0x1805)
}

/// Device Name characteristic.
pub fn device_name() -> (r: BtUuid)
    ensures
        r.bytes@ == uuid16_bytes(0x2A00),
{
    BtUuid::from_uuid16(0x2A00)
}

/// Appearance characteristic.
pub fn appearance() -> (r: BtUuid)
    ensures
        r.bytes@ == uuid16_bytes(0x2A01),
{
    BtUuid::from_uuid16(0x2A01)
}

/// Peripheral Privacy Flag characteristic.
pub fn peripheral_privacy_flag() -> (r: BtUuid)
    ensures
        r.bytes@ == uuid16_bytes(0x2A02),
{
    BtUuid::from_uuid16(0x2A02)
}

/// Reconnection Address characteristic.
pub fn reconnection_addr() -> (r: BtUuid)
    ensures
        r.bytes@ == uuid16_bytes(0x2A03),
{
    BtUuid::from_uuid16(0x2A03)
}

/// Peripheral Preferred Connection Parameters characteristic.
pub fn peripheral_pref_conn() -> (r: BtUuid)
    ensures
        r.bytes@ == uuid16_bytes(0x2A04),
{
    BtUuid::from_uuid16(0x2A04)
}

/// Battery Level characteristic.
pub fn battery_level() -> (r: BtUuid)
    ensures
        r.bytes@ == uuid16_bytes(0x2A19),
{
    BtUuid::from_uuid16(0x2A19)
}

/// Manufacturer Name String characteristic.
pub fn manufacturer_name() -> (r: BtUuid)
    ensures
        r.bytes@ == uuid16_bytes(0x2A29),
{
    BtUuid::from_uuid16(0x2A29)
}

/// Model Number String characteristic.
pub fn model_number() -> (r: BtUuid)
    ensures
        r.bytes@ == uuid16_bytes(0x2A24),
{
    BtUuid::from_uuid16(0x2A24)
}

/// Serial Number String characteristic.
pub fn serial_number() -> (r: BtUuid)
    ensures
        r.bytes@ == uuid16_bytes(0x2A25),
{
    BtUuid::from_uuid16(0x2A25)
}

/// Firmware Revision String characteristic.
pub fn firmware_revision() -> (r: BtUuid)
    ensures
        r.bytes@ == uuid16_bytes(0x2A26),
{
    BtUuid::from_uuid16(0x2A26)
}

/// Hardware Revision String characteristic.
pub fn hardware_revision() -> (r: BtUuid)
    ensures
        r.bytes@ == uuid16_bytes(0x2A27),
{
    BtUuid::from_uuid16(0x2A27)
}

/// Software Revision String characteristic.
pub fn software_revision() -> (r: BtUuid)
    ensures
        r.bytes@ == uuid16_bytes(0x2A28),
{
    BtUuid::from_uuid16(0x2A28)
}

/// PnP ID characteristic.
pub fn pnp_id() -> (r: BtUuid)
    ensures
        r.bytes@ == uuid16_bytes(0x2A50),
{
    BtUuid::from_uuid16(0x2A50)
}

} // verus!
