//! The symbols that mark lines of output.

use vstd::prelude::*;

verus! {

pub const SUCCESS: &'static str = "✓";

pub const ERROR: &'static str = "✗";

pub const WARNING: &'static str = "!";

pub const INFO: &'static str = "•";

pub const ARROW_UP: &'static str = "↑";

pub const ARROW_RIGHT: &'static str = "→";

pub const PLUS: &'static str = "+";

pub const MINUS: &'static str = "-";

pub const TREE_BRANCH: &'static str = "├─";

pub const TREE_END: &'static str = "└─";

pub const SEPARATOR: &'static str = "│";

} // verus!
