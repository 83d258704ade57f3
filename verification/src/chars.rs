use vstd::prelude::*;

verus! {

// ASCII codes of the characters the master-file grammar singles out.

/// `a`
pub const LOWER_A: u8 = 97;

/// `z`
pub const LOWER_Z: u8 = 122;

/// `A`
pub const UPPER_A: u8 = 65;

/// `Z`
pub const UPPER_Z: u8 = 90;

/// `B`
pub const UPPER_B: u8 = 66;

/// `C`
pub const UPPER_C: u8 = 67;

/// `D`
pub const UPPER_D: u8 = 68;

/// `E`
pub const UPPER_E: u8 = 69;

/// `F`
pub const UPPER_F: u8 = 70;

/// `G`
pub const UPPER_G: u8 = 71;

/// `H`
pub const UPPER_H: u8 = 72;

/// `I`
pub const UPPER_I: u8 = 73;

/// `K`
pub const UPPER_K: u8 = 75;

/// `L`
pub const UPPER_L: u8 = 76;

/// `M`
pub const UPPER_M: u8 = 77;

/// `N`
pub const UPPER_N: u8 = 78;

/// `O`
pub const UPPER_O: u8 = 79;

/// `P`
pub const UPPER_P: u8 = 80;

/// `R`
pub const UPPER_R: u8 = 82;

/// `S`
pub const UPPER_S: u8 = 83;

/// `T`
pub const UPPER_T: u8 = 84;

/// `U`
pub const UPPER_U: u8 = 85;

/// `W`
pub const UPPER_W: u8 = 87;

/// `X`
pub const UPPER_X: u8 = 88;

/// `0`
pub const DIGIT_0: u8 = 48;

/// `9`
pub const DIGIT_9: u8 = 57;

/// `-`
pub const HYPHEN: u8 = 45;

/// `.`
pub const DOT: u8 = 46;

/// ` `
pub const SPACE: u8 = 32;

/// Horizontal tab
pub const TAB: u8 = 9;

/// `;`
pub const SEMICOLON: u8 = 59;

/// `$`
pub const DOLLAR: u8 = 36;

/// `@`
pub const AT: u8 = 64;

/// `(`
pub const LPAREN: u8 = 40;

/// `)`
pub const RPAREN: u8 = 41;

} // verus!
