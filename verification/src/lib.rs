//! A character-grid rendering core: a cell buffer with dirty-region
//! tracking, coordinate-translating sub-views, a glyph-atlas layout,
//! a compositor that turns dirty regions into minimal draw commands,
//! and the state machines behind a few text-mode widgets.

pub mod buffer;
pub mod character_map;
pub mod characters;
pub mod compositor;
pub mod draw_box;
pub mod draw_interface;
pub mod graphical_menu;
pub mod menu;
pub mod scrollbox;
pub mod structs;
pub mod textbox;
