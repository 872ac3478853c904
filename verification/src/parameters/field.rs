//! Column indices in the numeric sample array.

use vstd::prelude::*;

verus! {

pub const VTRACK: usize = 0;
pub const VCC_EST: usize = 1;
pub const BMP_C: usize = 2;
pub const BMP_PA: usize = 3;
pub const BMP_MSLP_PA: usize = 4;
pub const V0: usize = 5;
pub const R0: usize = 6;
pub const T0_BETA: usize = 7;
pub const T0_SH: usize = 8;
pub const V1: usize = 9;
pub const R1: usize = 10;
pub const T1_BETA: usize = 11;
pub const T1_SH: usize = 12;
pub const V2: usize = 13;
pub const R2: usize = 14;
pub const T2_BETA: usize = 15;
pub const T2_SH: usize = 16;

} // verus!
