//! Decisions behind desktop screenshots, window crops and modifier-key hotkeys.

pub mod accessibility;
pub mod appshot;
pub mod backends;
pub mod bare_modifier;
pub mod codec;
pub mod failure;
pub mod hotkey;
pub mod keymap;
pub mod numbers;
pub mod png;
pub mod screenshot;
pub mod text;
pub mod uri;
pub mod windows;
