//! LE Controller commands (OGF 0x08). Each opcode is `OGF << 10 | OCF`.

use vstd::prelude::*;

verus! {

pub const LE_SET_EVENT_MASK: u16 = 0x2001;
pub const LE_READ_BUFFER_SIZE: u16 = 0x2002;
pub const LE_READ_LOCAL_FEATURES: u16 = 0x2003;
pub const LE_SET_ADV_PARAMS: u16 = 0x2006;
pub const LE_SET_ADV_DATA: u16 = 0x2008;
pub const LE_SET_ADV_ENABLE: u16 = 0x200A;
pub const LE_SET_SCAN_PARAMS: u16 = 0x200B;
pub const LE_SET_SCAN_ENABLE: u16 = 0x200C;
pub const LE_CREATE_CONNECTION: u16 = 0x200D;
pub const LE_CONN_UPDATE: u16 = 0x2013;
pub const LE_READ_REMOTE_FEATURES: u16 = 0x2016;
pub const LE_SET_EXT_ADV_PARAMS: u16 = 0x2036;
pub const LE_SET_EXT_ADV_DATA: u16 = 0x2037;
pub const LE_SET_ADV_SET_RAND_ADDR: u16 = 0x2035;
pub const LE_EXT_ADV_SET_PARAMS: u16 = 0x2036;
pub const LE_SETUP_ISO_DATA_PATH: u16 = 0x2062;
pub const LE_REMOVE_ISO_DATA_PATH: u16 = 0x2063;

} // verus!
