//! The fixed texts of the prompts.

use vstd::prelude::*;

verus! {

pub const ERROR_LINE_PREFIX: &'static str = "error: ";

pub const QUESTION_LINE_PREFIX: &'static str = "? ";

pub const CHOSEN_CHOICE_LINE_PREFIX: &'static str = "> ";

pub const UNCHOSEN_CHOICE_LINE_PREFIX: &'static str = "  ";

pub const HELP_LINE_PREFIX: &'static str = "[";

pub const HELP_LINE_POSTFIX: &'static str = "]";

pub const CONTROL_FLOW_HELP: &'static str = "Esc back, ⇑Esc quit";

pub const SELECT_MOVE_HELP: &'static str = "↑↓ move";

pub const CONTINUE_HELP: &'static str = "↵ continue";

pub const SELECT_HELP: &'static str = "↑↓ move, ↵ continue, Esc back, ⇑Esc quit";

pub const MAIN_MENU_SELECT_HELP: &'static str = "↑↓ move, ↵ continue, Esc quit";

pub const UNSIGNED_INT_HELP: &'static str = "0-9, ↵ continue, Esc back, ⇑Esc quit";

pub const INFO_HELP: &'static str = "any button to continue, Esc back, ⇑Esc quit";

} // verus!
