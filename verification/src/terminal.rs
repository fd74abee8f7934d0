//! What a terminal front end needs from the formatter: a sink that keeps
//! track of the cursor's row, key events, and the decisions of the prompts.

pub mod event;
pub mod prompt;
pub mod screen_area;
