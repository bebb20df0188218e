//! Verified core logic of the Baldur's Gate 3 debug tool.
use vstd::prelude::*;

pub mod guid;
pub mod text;
pub mod pattern;
pub mod xml;
pub mod symbols;
pub mod mappings;
pub mod mapper;
pub mod collections;
pub mod value_type;
pub mod osiris;
pub mod cpp;
pub mod osiris_call;
pub mod osiris_globals;
pub mod osiris_helpers;
pub mod history;
pub mod console;
pub mod shims;
pub mod input;
pub mod game;
pub mod function_search;
pub mod hex_dump;
pub mod table;
pub mod call_parser;
pub mod menu_console;
pub mod menu;
pub mod gpu_memory;
pub mod search_menu;

verus! {

} // verus!
