//! The numbers that the rules and the drawings use, as bit patterns.
use vstd::prelude::*;

verus! {

/// 0.
pub const ZERO: u64 = 0x0000_0000_0000_0000;

/// -0, which a sum of numbers starts from: added to any number it leaves that number.
pub const MINUS_ZERO: u64 = 0x8000_0000_0000_0000;

/// 1.
pub const ONE: u64 = 0x3FF0_0000_0000_0000;

/// 2.
pub const TWO: u64 = 0x4000_0000_0000_0000;

/// 3.
pub const THREE: u64 = 0x4008_0000_0000_0000;

/// 4.
pub const FOUR: u64 = 0x4010_0000_0000_0000;

/// 5.
pub const FIVE: u64 = 0x4014_0000_0000_0000;

/// 6.
pub const SIX: u64 = 0x4018_0000_0000_0000;

/// 7.
pub const SEVEN: u64 = 0x401C_0000_0000_0000;

/// 8.
pub const EIGHT: u64 = 0x4020_0000_0000_0000;

/// 9.
pub const NINE: u64 = 0x4022_0000_0000_0000;

/// 10.
pub const TEN: u64 = 0x4024_0000_0000_0000;

/// 20.
pub const TWENTY: u64 = 0x4034_0000_0000_0000;

/// 25.
pub const TWENTY_FIVE: u64 = 0x4039_0000_0000_0000;

/// 30.
pub const THIRTY: u64 = 0x403E_0000_0000_0000;

/// 40.
pub const FORTY: u64 = 0x4044_0000_0000_0000;

/// 50.
pub const FIFTY: u64 = 0x4049_0000_0000_0000;

/// 55.
pub const FIFTY_FIVE: u64 = 0x404B_8000_0000_0000;

/// 60.
pub const SIXTY: u64 = 0x404E_0000_0000_0000;

/// 70.
pub const SEVENTY: u64 = 0x4051_8000_0000_0000;

/// 80.
pub const EIGHTY: u64 = 0x4054_0000_0000_0000;

/// 100.
pub const HUNDRED: u64 = 0x4059_0000_0000_0000;

/// 130.
pub const ONE_HUNDRED_THIRTY: u64 = 0x4060_4000_0000_0000;

/// 350.
pub const THREE_HUNDRED_FIFTY: u64 = 0x4075_E000_0000_0000;

/// 800.
pub const EIGHT_HUNDRED: u64 = 0x4089_0000_0000_0000;

/// 0.5.
pub const HALF: u64 = 0x3FE0_0000_0000_0000;

/// 0.25.
pub const QUARTER: u64 = 0x3FD0_0000_0000_0000;

/// 0.75.
pub const THREE_QUARTERS: u64 = 0x3FE8_0000_0000_0000;

/// 0.1.
pub const TENTH: u64 = 0x3FB9_9999_9999_999A;

/// 0.2.
pub const FIFTH: u64 = 0x3FC9_9999_9999_999A;

/// 0.4.
pub const TWO_FIFTHS: u64 = 0x3FD9_9999_9999_999A;

/// 0.3.
pub const THREE_TENTHS: u64 = 0x3FD3_3333_3333_3333;

/// 0.6.
pub const THREE_FIFTHS: u64 = 0x3FE3_3333_3333_3333;

/// 0.05.
pub const TWENTIETH: u64 = 0x3FA9_9999_9999_999A;

/// 1.5.
pub const ONE_AND_A_HALF: u64 = 0x3FF8_0000_0000_0000;

/// 0.005.
pub const HALF_PERCENT: u64 = 0x3F74_7AE1_47AE_147B;

/// 1.005.
pub const UP_HALF_PERCENT: u64 = 0x3FF0_147A_E147_AE14;

/// 0.995.
pub const DOWN_HALF_PERCENT: u64 = 0x3FEF_D70A_3D70_A3D7;

/// 1.015.
pub const UP_ONE_AND_A_HALF_PERCENT: u64 = 0x3FF0_3D70_A3D7_0A3D;

/// 0.985.
pub const DOWN_ONE_AND_A_HALF_PERCENT: u64 = 0x3FEF_851E_B851_EB85;

/// 0.001.
pub const THOUSANDTH: u64 = 0x3F50_624D_D2F1_A9FC;

/// 1e-10.
pub const HAIR: u64 = 0x3DDB_7CDF_D9D7_BDBB;

/// The largest finite number.
pub const LARGEST: u64 = 0x7FEF_FFFF_FFFF_FFFF;

/// The lowest finite number.
pub const LOWEST: u64 = 0xFFEF_FFFF_FFFF_FFFF;

} // verus!
