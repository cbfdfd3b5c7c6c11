//! Status Parameters commands (OGF 0x05). Each opcode is `OGF << 10 | OCF`.

use vstd::prelude::*;

verus! {

pub const READ_RSSI: u16 = 0x1405;
pub const READ_LINK_QUALITY: u16 = 0x1402;
pub const READ_AFH_MAP: u16 = 0x1406;

} // verus!
