//! Link Control commands (OGF 0x01). Each opcode is `OGF << 10 | OCF`.

use vstd::prelude::*;

verus! {

pub const INQUIRY: u16 = 0x0401;
pub const INQUIRY_CANCEL: u16 = 0x0402;
pub const CREATE_CONNECTION: u16 = 0x0405;
pub const DISCONNECT: u16 = 0x0406;
pub const ACCEPT_CONN_REQ: u16 = 0x0409;
pub const REJECT_CONN_REQ: u16 = 0x040A;
pub const LINK_KEY_REPLY: u16 = 0x040B;
pub const LINK_KEY_NEG_REPLY: u16 = 0x040C;
pub const PIN_CODE_REPLY: u16 = 0x040D;
pub const PIN_CODE_NEG_REPLY: u16 = 0x040E;
pub const REMOTE_NAME_REQ: u16 = 0x0419;
pub const REMOTE_NAME_REQ_CANCEL: u16 = 0x041A;
pub const READ_REMOTE_FEATURES: u16 = 0x041B;
pub const READ_REMOTE_EXT_FEATURES: u16 = 0x041C;
pub const READ_REMOTE_VERSION: u16 = 0x041D;
pub const SETUP_SCO_CONNECTION: u16 = 0x0428;
pub const ACCEPT_SCO_CONN_REQ: u16 = 0x0429;
pub const REJECT_SCO_CONN_REQ: u16 = 0x042A;
pub const SET_TRANSPORT: u16 = 0x0443;

} // verus!
