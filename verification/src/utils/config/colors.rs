//! The colours of embeds, as 24-bit RGB.
use vstd::prelude::*;

verus! {

pub const PRIMARY: u32 = 0x00bfff;

pub const SUCCESS: u32 = 0x2ecc71;

pub const ERROR: u32 = 0xff0000;

pub const WARNING: u32 = 0xffa500;

pub const INFO: u32 = 0x3498db;

pub const IMMERSION: u32 = 0x00d4aa;

} // verus!
