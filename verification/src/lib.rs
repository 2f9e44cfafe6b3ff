use vstd::prelude::*;

pub mod types;
pub mod hangul;
pub mod text;
pub mod seqs;
pub mod charset;
pub mod idlist;
pub mod groups;
pub mod rules;
pub mod order;
pub mod glyph;
pub mod rule_system;
pub mod engine;
pub mod render;
pub mod generator;
pub mod file_format;
pub mod project;
pub mod compact;
pub mod export;
pub mod typing;
pub mod cli;
pub mod analysis;
pub mod archaic;
pub mod history;
pub mod editor_state;
pub mod stability;
pub mod list_edit;
pub mod group_panel;
pub mod template_panel;
pub mod selector_panel;

verus! {

} // verus!
