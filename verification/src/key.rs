//! The key of a chord or of an input event.

use crate::text::{to_uppercase, uppercase};
use vstd::prelude::*;

verus! {

/// A key, as an input event reports it.
///
/// Two keys are the same only if they are the same variant and carry the same
/// text: `Character("n")` and `Character("N")` are different keys.
#[derive(Debug)]
pub enum Key {
    /// A key with an established name, such as `ArrowDown` or `F2`. It
    /// carries that name.
    Named(String),
    /// A key that types text. It carries the text typed, in the case typed.
    Character(String),
    /// A key that could not be identified.
    Unidentified,
}

/// What a [`Key`] is, with its text as a sequence of characters.
pub enum KeyView {
    Named(Seq<char>),
    Character(Seq<char>),
    Unidentified,
}

impl View for Key {
    type V = KeyView;

    open spec fn view(&self) -> KeyView {
        match self {
            Key::Named(name) => KeyView::Named(name@),
            Key::Character(text) => KeyView::Character(text@),
            Key::Unidentified => KeyView::Unidentified,
        }
    }
}

impl PartialEq for Key {
    fn eq(&self, other: &Key) -> (same: bool) {
        match self {
            Key::Named(a) => match other {
                Key::Named(b) => *a == *b,
                _ => false,
            },
            Key::Character(a) => match other {
                Key::Character(b) => *a == *b,
                _ => false,
            },
            Key::Unidentified => match other {
                Key::Unidentified => true,
                _ => false,
            },
        }
    }
}

impl vstd::std_specs::cmp::PartialEqSpecImpl for Key {
    open spec fn obeys_eq_spec() -> bool {
        true
    }

    open spec fn eq_spec(&self, other: &Key) -> bool {
        self@ == other@
    }
}

impl Eq for Key {}

impl Clone for Key {
    fn clone(&self) -> (copy: Key)
        ensures
            copy@ == self@,
    {
        match self {
            Key::Named(name) => Key::Named(name.clone()),
            Key::Character(text) => Key::Character(text.clone()),
            Key::Unidentified => Key::Unidentified,
        }
    }
}

impl KeyView {
    /// The text that stands for the key when a chord is shown: a character
    /// key's text in upper case, a named key's name, and `Unidentified` for
    /// any other key.
    pub open spec fn label(self) -> Seq<char> {
        match self {
            KeyView::Named(name) => name,
            KeyView::Character(text) => uppercase(text),
            KeyView::Unidentified => seq![
                'U', 'n', 'i', 'd', 'e', 'n', 't', 'i', 'f', 'i', 'e', 'd',
            ],
        }
    }
}

impl Key {
    /// The named key with the name `name`.
    pub fn named(name: &str) -> (key: Key)
        ensures
            key@ == KeyView::Named(name@),
    {
        Key::Named(String::from_str(name))
    }

    /// The character key that types `text`.
    pub fn character(text: &str) -> (key: Key)
        ensures
            key@ == KeyView::Character(text@),
    {
        Key::Character(String::from_str(text))
    }

    /// The text that stands for the key when a chord is shown.
    pub fn label(&self) -> (text: String)
        ensures
            text@ == self@.label(),
    {
        match self {
            Key::Named(name) => name.clone(),
            Key::Character(typed) => to_uppercase(typed.as_str()),
            Key::Unidentified => {
                proof {
                    reveal_strlit("Unidentified");
                }
                String::from_str("Unidentified")
            },
        }
    }
}

} // verus!
