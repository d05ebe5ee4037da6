//! Offsets within the depth slice of a window, one for each kind of overlay.

use vstd::prelude::*;

verus! {

pub const DIVIDER: u32 = 2;

pub const TAB_SHADOW: u32 = 5;

pub const SELECT_COUNT: u32 = 6;

pub const FONT_ANIM_OFFSET: u32 = 8;

pub const RESIZE_CONTROL: u32 = 10;

} // verus!
