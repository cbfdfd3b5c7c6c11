//! Informational commands (OGF 0x04). Each opcode is `OGF << 10 | OCF`.

use vstd::prelude::*;

verus! {

pub const READ_LOCAL_VERSION: u16 = 0x1001;
pub const READ_LOCAL_COMMANDS: u16 = 0x1002;
pub const READ_LOCAL_FEATURES: u16 = 0x1003;
pub const READ_LOCAL_EXT_FEATURES: u16 = 0x1004;
pub const READ_BUFFER_SIZE: u16 = 0x1005;
pub const READ_BD_ADDR: u16 = 0x1009;

} // verus!
