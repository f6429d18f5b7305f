//! Keyboard shortcuts for a desktop application.
//!
//! A [`KeyBind`] is a chord: the modifiers that must be held, and the one key
//! that is pressed with them. A chord matches an input event only when the
//! event holds exactly the chord's modifiers, no more and no fewer, and
//! presses exactly its key. [`KeyBinds`] is the table that binds chords to
//! [`Action`]s, and [`key_binds`] builds the table that the application
//! starts with.

pub mod action;
pub mod defaults;
pub mod key;
pub mod key_bind;
pub mod laws;
pub mod modifier;
pub mod platform;
pub mod registry;
pub mod text;

pub use action::Action;
pub use defaults::{default_bindings, key_binds};
pub use key::Key;
pub use key_bind::KeyBind;
pub use modifier::{Modifier, ModifierState};
pub use registry::{Binding, KeyBinds};
