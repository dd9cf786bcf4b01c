//! IT8951 register addresses.

use vstd::prelude::*;

verus! {

/// update parameter 1 setting register
pub const UP1SR: u16 = 0x1138;
/// LUT status register: nonzero while any refresh engine is busy
pub const LUTAFSR: u16 = 0x1224;
/// bitmap (1 bpp) image color table
pub const BGVR: u16 = 0x1250;
/// system register: pack-write enable
pub const I80CPCR: u16 = 0x0004;
/// memory converter register: low half of the target frame-buffer address
pub const LISAR: u16 = 0x0208;

} // verus!
