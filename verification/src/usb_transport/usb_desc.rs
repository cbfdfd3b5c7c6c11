//! USB descriptor codes and the parsed descriptors of a Bluetooth HCI
//! interface.

use vstd::prelude::*;

verus! {

pub const DT_DEVICE: u8 = 1;
pub const DT_CONFIG: u8 = 2;
pub const DT_STRING: u8 = 3;
pub const DT_INTERFACE: u8 = 4;
pub const DT_ENDPOINT: u8 = 5;

/// Wireless Controller class.
pub const CLASS_WIRELESS: u8 = 0xE0;
/// RF Controller subclass.
pub const SUBCLASS_RF: u8 = 0x01;
/// Bluetooth primary controller protocol.
pub const PROTOCOL_BLUETOOTH: u8 = 0x01;
/// Bluetooth AMP controller protocol.
pub const PROTOCOL_BT_ALT: u8 = 0x02;

pub const EP_ATTR_CONTROL: u8 = 0x00;
pub const EP_ATTR_ISOCHRONOUS: u8 = 0x01;
pub const EP_ATTR_BULK: u8 = 0x02;
pub const EP_ATTR_INTERRUPT: u8 = 0x03;

pub const EP_DIR_OUT: u8 = 0x00;
pub const EP_DIR_IN: u8 = 0x80;

/// An endpoint descriptor.
#[derive(Clone, Copy, Debug)]
pub struct EndpointDesc {
    /// bEndpointAddress (bit 7 is the direction).
    pub address: u8,
    /// bmAttributes (transfer type).
    pub attr: u8,
    /// wMaxPacketSize.
    pub max_packet: u16,
    /// bInterval.
    pub interval: u8,
}

/// The interface descriptor of a Bluetooth HCI interface: bulk OUT, bulk
/// IN, interrupt IN and isochronous OUT endpoints.
#[derive(Clone, Copy, Debug)]
pub struct BtInterfaceDesc {
    pub interface_num: u8,
    pub endpoints: [EndpointDesc; 4],
    pub num_endpoints: u8,
}

} // verus!
