//! The modifier state that the toolkit hands over with each key event.

use crate::modifier::{Modifier, ModifierState};
use iced_core::keyboard::Modifiers;
use vstd::prelude::*;

verus! {

/// The toolkit's `iced_core::keyboard::Modifiers`, a set of flags. Nothing is
/// said of what is inside a value; the functions below ask it.
#[verifier::external_type_specification]
#[verifier::external_body]
pub struct ExModifiers(iced_core::keyboard::Modifiers);

/// The modifiers that a toolkit `Modifiers` value holds. The value is a set
/// of flags; this names the four that a chord can ask for.
pub uninterp spec fn held(modifiers: Modifiers) -> Set<Modifier>;

/// Calls `Modifiers::logo`, which tells whether the `LOGO` flag is set: the
/// super key is held.
#[verifier::external_body]
fn logo(modifiers: Modifiers) -> (down: bool)
    ensures
        down == held(modifiers).contains(Modifier::Super),
{
    modifiers.logo()
}

/// Calls `Modifiers::control`, which tells whether the `CTRL` flag is set.
#[verifier::external_body]
fn control(modifiers: Modifiers) -> (down: bool)
    ensures
        down == held(modifiers).contains(Modifier::Ctrl),
{
    modifiers.control()
}

/// Calls `Modifiers::alt`, which tells whether the `ALT` flag is set.
#[verifier::external_body]
fn alt(modifiers: Modifiers) -> (down: bool)
    ensures
        down == held(modifiers).contains(Modifier::Alt),
{
    modifiers.alt()
}

/// Calls `Modifiers::shift`, which tells whether the `SHIFT` flag is set.
#[verifier::external_body]
fn shift(modifiers: Modifiers) -> (down: bool)
    ensures
        down == held(modifiers).contains(Modifier::Shift),
{
    modifiers.shift()
}

impl ModifierState {
    /// Reads the four flags of a toolkit `Modifiers` value.
    pub fn read(modifiers: Modifiers) -> (state: ModifierState)
        ensures
            state == ModifierState::of_set(held(modifiers)),
    {
        ModifierState {
            logo: logo(modifiers),
            control: control(modifiers),
            alt: alt(modifiers),
            shift: shift(modifiers),
        }
    }
}

} // verus!
