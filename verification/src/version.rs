//! The version of this library, which a hart reports in its `mimpid` register.

use vstd::prelude::*;

verus! {

pub const PATCH: u8 = 3;

pub const MINOR: u8 = 0;

pub const MAJOR: u8 = 0;

} // verus!
