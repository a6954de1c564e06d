use vstd::prelude::*;

verus! {

/// Starting address of user programs.
pub const PROGRAM_LOC: usize = 0x200;

/// Default foreground color as a hex code, and as RGB.
pub const DEF_FG_COL: &'static str = "ABAECB";
pub const DEF_FG: (u8, u8, u8) = (171, 171, 203);
/// Default background color as a hex code, and as RGB.
pub const DEF_BG_COL: &'static str = "101020";
pub const DEF_BG: (u8, u8, u8) = (16, 16, 32);
/// Default number of instructions per second.
pub const DEF_IPS_STR: &'static str = "1000";
/// Default screen scale factor.
pub const DEF_SCALE_STR: &'static str = "10";

/// RAM size in bytes.
pub const RAM_SIZE: usize = 4096;
/// Stack size in number of 16-bit slots.
pub const STACK_SIZE: usize = 64;
/// Number of general-purpose registers.
pub const N_REGISTERS: usize = 16;
/// Display width in pixels.
pub const DISPLAY_WIDTH: usize = 64;
/// Display height in pixels.
pub const DISPLAY_HEIGHT: usize = 32;
/// Total number of pixels in the display.
pub const DISPLAY_LEN: usize = DISPLAY_WIDTH * DISPLAY_HEIGHT;
/// Number of logical keys.
pub const N_KEYS: usize = 16;
/// Length of the font table at the start of memory.
pub const FONT_LEN: usize = 80;
/// Period of the 60 Hz delay and sound timers, in nanoseconds.
pub const TIMER_PERIOD_NS: u128 = 16_666_666;

} // verus!
