//! Controller and Baseband commands (OGF 0x03). Each opcode is `OGF << 10 | OCF`.

use vstd::prelude::*;

verus! {

pub const SET_EVENT_MASK: u16 = 0x0C01;
pub const RESET: u16 = 0x0C03;
pub const SET_EVENT_FILTER: u16 = 0x0C05;
pub const READ_LOCAL_NAME: u16 = 0x0C14;
pub const WRITE_LOCAL_NAME: u16 = 0x0C13;
pub const READ_CLASS_OF_DEVICE: u16 = 0x0C23;
pub const WRITE_CLASS_OF_DEVICE: u16 = 0x0C24;
pub const READ_VOICE_SETTING: u16 = 0x0C25;
pub const WRITE_VOICE_SETTING: u16 = 0x0C26;
pub const WRITE_AUTOMATIC_FLUSH: u16 = 0x0C28;
pub const READ_NUM_BCAST_RETX: u16 = 0x0C29;
pub const WRITE_NUM_BCAST_RETX: u16 = 0x0C2A;
pub const HOST_BUFFER_SIZE: u16 = 0x0C33;
pub const READ_LE_HOST_SUPPORT: u16 = 0x0C6C;
pub const WRITE_LE_HOST_SUPPORT: u16 = 0x0C6D;
pub const READ_SIMPLE_PAIRING_MODE: u16 = 0x0C55;
pub const WRITE_SIMPLE_PAIRING_MODE: u16 = 0x0C56;

} // verus!
