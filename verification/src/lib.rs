//! Prompt templates with `[name]` and `[name|default]` placeholders, their
//! variables, and the state of the prompt board that searches, fills and
//! copies them.

pub mod text;
pub mod template;
pub mod template_laws;
pub mod prompt;
pub mod values;
pub mod board;
pub mod board_laws;
