//! Status codes returned to the system's device framework (negated errno
//! values).

use vstd::prelude::*;

verus! {

pub const OK: i32 = 0;
pub const EIO: i32 = -5;
pub const ENXIO: i32 = -6;
pub const ENOMEM: i32 = -12;
pub const EACCES: i32 = -13;
pub const EBUSY: i32 = -16;
pub const EINVAL: i32 = -22;
pub const ENOTTY: i32 = -25;
pub const EAGAIN: i32 = -35;
pub const EWOULDBLOCK: i32 = -35;
pub const EPROTO: i32 = -71;

} // verus!
