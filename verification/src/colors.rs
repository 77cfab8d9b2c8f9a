//! ANSI escape sequences for coloured output.

use vstd::prelude::*;

verus! {

pub const RESET: &'static str = "\x1b[0m";

pub const BOLD: &'static str = "\x1b[1m";

pub const DIM: &'static str = "\x1b[2m";

pub const RED: &'static str = "\x1b[31m";

pub const GREEN: &'static str = "\x1b[32m";

pub const YELLOW: &'static str = "\x1b[33m";

pub const BLUE: &'static str = "\x1b[34m";

pub const MAGENTA: &'static str = "\x1b[35m";

pub const CYAN: &'static str = "\x1b[36m";

pub const GRAY: &'static str = "\x1b[90m";

pub const BOLD_RED: &'static str = "\x1b[1;31m";

pub const BOLD_GREEN: &'static str = "\x1b[1;32m";

pub const BOLD_YELLOW: &'static str = "\x1b[1;33m";

pub const BOLD_CYAN: &'static str = "\x1b[1;36m";

pub const BOLD_MAGENTA: &'static str = "\x1b[1;35m";

} // verus!
