//! IT8951 command opcodes.

use vstd::prelude::*;

verus! {

/// switch to the active power state
pub const IT8951_TCON_SYS_RUN: u16 = 0x0001;
/// enter standby: clocks gated off, ram and panel power kept
pub const IT8951_TCON_STANDBY: u16 = 0x0002;
/// enter sleep: clocks, pll, osc and panel off, ram refreshed
pub const IT8951_TCON_SLEEP: u16 = 0x0003;
/// read a register
pub const IT8951_TCON_REG_RD: u16 = 0x0010;
/// write a register
pub const IT8951_TCON_REG_WR: u16 = 0x0011;
/// trigger the fifo to read from memory
pub const IT8951_TCON_MEM_BST_RD_T: u16 = 0x0012;
/// start reading from the fifo
pub const IT8951_TCON_MEM_BST_RD_S: u16 = 0x0013;
/// burst write to memory
pub const IT8951_TCON_MEM_BST_WR: u16 = 0x0014;
/// end a burst transfer
pub const IT8951_TCON_MEM_BST_END: u16 = 0x0015;
/// load a full frame through the pixel preprocessor
pub const IT8951_TCON_LD_IMG: u16 = 0x0020;
/// load an area through the pixel preprocessor
pub const IT8951_TCON_LD_IMG_AREA: u16 = 0x0021;
/// end an image load
pub const IT8951_TCON_LD_IMG_END: u16 = 0x0022;
/// refresh an area of the display from the frame buffer
pub const USDEF_I80_CMD_DPY_AREA: u16 = 0x0034;
/// query the device information block
pub const USDEF_I80_CMD_GET_DEV_INFO: u16 = 0x0302;
/// refresh an area of the display from a dedicated frame buffer
pub const USDEF_I80_CMD_DPY_BUF_AREA: u16 = 0x0037;
/// read or write the VCOM value
pub const USDEF_I80_CMD_VCOM: u16 = 0x0039;

} // verus!
