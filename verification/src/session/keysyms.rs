//! The raw xkb keysyms the overlay recognises.

use vstd::prelude::*;

verus! {

pub const TAB: u32 = 0xff09;

pub const ISO_LEFT_TAB: u32 = 0xfe20;

pub const RETURN: u32 = 0xff0d;

pub const KP_ENTER: u32 = 0xff8d;

pub const ESCAPE: u32 = 0xff1b;

pub const LEFT: u32 = 0xff51;

pub const UP: u32 = 0xff52;

pub const RIGHT: u32 = 0xff53;

pub const DOWN: u32 = 0xff54;

} // verus!
