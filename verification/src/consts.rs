//! Terminal escape sequences used when rendering labels and progress lines.

use vstd::prelude::*;

verus! {

pub const RESET: &'static str = "\x1B[0m";

pub const BLACK: &'static str = "\x1B[0;30m";

pub const RED: &'static str = "\x1B[0;31m";

pub const GREEN: &'static str = "\x1B[0;32m";

pub const YELLOW: &'static str = "\x1B[0;33m";

pub const BLUE: &'static str = "\x1B[0;34m";

pub const PURPLE: &'static str = "\x1B[0;35m";

pub const CYAN: &'static str = "\x1B[0;36m";

pub const WHITE: &'static str = "\x1B[0;37m";

/// Moves the cursor up one line and clears that line.
pub const ERASE: &'static str = "\x1b[1A\x1b[2K";

} // verus!
