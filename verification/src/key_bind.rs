//! A chord, and the test that holds it against an input event.

use crate::key::{Key, KeyView};
use crate::modifier::{Modifier, ModifierState};
use crate::platform::held;
use iced_core::keyboard::Modifiers;
use vstd::prelude::*;

verus! {

/// A chord: the modifiers to hold and the key to press with them.
///
/// The modifiers are kept as a list, in the order in which they are shown.
/// For matching and for the identity of a chord only membership counts: the
/// order, and a modifier named twice, make no difference.
#[derive(Debug)]
pub struct KeyBind {
    pub modifiers: Vec<Modifier>,
    pub key: Key,
}

/// What a [`KeyBind`] holds: its modifiers in their stored order, and its key.
pub struct Chord {
    pub modifiers: Seq<Modifier>,
    pub key: KeyView,
}

/// A set of held modifiers together with a key. This is what an input event
/// reports, and it is what a chord asks for: two chords that ask for the same
/// stroke are the same chord.
pub struct Stroke {
    pub held: ModifierState,
    pub key: KeyView,
}

impl Chord {
    /// No modifier is named twice.
    pub open spec fn well_formed(self) -> bool {
        self.modifiers.no_duplicates()
    }

    /// The stroke that this chord asks for.
    pub open spec fn stroke(self) -> Stroke {
        Stroke { held: ModifierState::of_seq(self.modifiers), key: self.key }
    }

    /// Whether an event with the modifiers `held` and the key `key` matches
    /// this chord: the key is this chord's key, and each of the four
    /// modifiers is held exactly if the chord names it.
    pub open spec fn matched_by(self, held: ModifierState, key: KeyView) -> bool {
        &&& key == self.key
        &&& held.logo == self.modifiers.contains(Modifier::Super)
        &&& held.control == self.modifiers.contains(Modifier::Ctrl)
        &&& held.alt == self.modifiers.contains(Modifier::Alt)
        &&& held.shift == self.modifiers.contains(Modifier::Shift)
    }
}

/// What stands between the parts of a chord where it is shown: ` + `.
pub open spec fn separator() -> Seq<char> {
    seq![' ', '+', ' ']
}

/// The names of `modifiers` in their order, each followed by the separator.
pub open spec fn prefix(modifiers: Seq<Modifier>) -> Seq<char>
    decreases modifiers.len(),
{
    if modifiers.len() == 0 {
        Seq::empty()
    } else {
        prefix(modifiers.drop_last()) + modifiers.last().spec_name() + separator()
    }
}

impl Chord {
    /// The chord as text, with `key_label` standing for its key: the
    /// modifiers in their stored order, each followed by the separator, and
    /// then the key.
    pub open spec fn rendered_with(self, key_label: Seq<char>) -> Seq<char> {
        prefix(self.modifiers) + key_label
    }

    /// The chord as text: `Ctrl + Shift + N` for Ctrl, Shift and the
    /// character key `n` or `N`.
    pub open spec fn rendered(self) -> Seq<char> {
        self.rendered_with(self.key.label())
    }
}

impl View for KeyBind {
    type V = Chord;

    open spec fn view(&self) -> Chord {
        Chord { modifiers: self.modifiers@, key: self.key@ }
    }
}

impl Clone for KeyBind {
    fn clone(&self) -> (copy: KeyBind)
        ensures
            copy@ == self@,
    {
        KeyBind { modifiers: self.modifiers.clone(), key: self.key.clone() }
    }
}

impl KeyBind {
    /// The chord of `modifiers` and `key`.
    pub fn new(modifiers: Vec<Modifier>, key: Key) -> (chord: KeyBind)
        ensures
            chord@ == (Chord { modifiers: modifiers@, key: key@ }),
    {
        KeyBind { modifiers, key }
    }

    /// Whether the chord names `modifier`.
    pub fn names(&self, modifier: Modifier) -> (found: bool)
        ensures
            found == self@.modifiers.contains(modifier),
    {
        let mut i: usize = 0;
        while i < self.modifiers.len()
            invariant
                i <= self.modifiers.len(),
                forall|j: int| 0 <= j < i ==> self.modifiers@[j] != modifier,
            decreases self.modifiers.len() - i,
        {
            if self.modifiers[i] == modifier {
                return true;
            }
            i += 1;
        }
        false
    }

    /// The modifiers that the chord asks for, one flag for each.
    pub fn required(&self) -> (state: ModifierState)
        ensures
            state == self@.stroke().held,
    {
        ModifierState {
            logo: self.names(Modifier::Super),
            control: self.names(Modifier::Ctrl),
            alt: self.names(Modifier::Alt),
            shift: self.names(Modifier::Shift),
        }
    }

    /// Whether an event with the modifiers `held` and the key `key` matches
    /// this chord. The modifiers must be exactly the chord's: one more held,
    /// or one fewer, is no match. The key must be the same key; for a
    /// character key, the same text in the same case.
    pub fn matches_state(&self, held: ModifierState, key: &Key) -> (hit: bool)
        ensures
            hit == self@.matched_by(held, key@),
    {
        *key == self.key
            && held.logo == self.names(Modifier::Super)
            && held.control == self.names(Modifier::Ctrl)
            && held.alt == self.names(Modifier::Alt)
            && held.shift == self.names(Modifier::Shift)
    }

    /// Whether an event with the toolkit's modifier state `modifiers` and the
    /// key `key` matches this chord.
    pub fn matches(&self, modifiers: Modifiers, key: &Key) -> (hit: bool)
        ensures
            hit == self@.matched_by(ModifierState::of_set(held(modifiers)), key@),
    {
        self.matches_state(ModifierState::read(modifiers), key)
    }

    /// The chord as text, with `key_label` in the place of the key.
    pub fn render_with(&self, key_label: &str) -> (text: String)
        ensures
            text@ == self@.rendered_with(key_label@),
    {
        let mut text = String::new();
        let mut i: usize = 0;
        while i < self.modifiers.len()
            invariant
                i <= self.modifiers.len(),
                text@ == prefix(self@.modifiers.take(i as int)),
            decreases self.modifiers.len() - i,
        {
            proof {
                reveal_strlit(" + ");
                let next = self@.modifiers.take(i + 1);
                assert(next.drop_last() =~= self@.modifiers.take(i as int));
            }
            text.append(self.modifiers[i].name());
            text.append(" + ");
            i += 1;
        }
        assert(self@.modifiers.take(i as int) =~= self@.modifiers);
        text.append(key_label);
        text
    }

    /// The chord as text, for showing it to the user: each modifier's name
    /// in the stored order, then the key; a character key in upper case.
    pub fn render(&self) -> (text: String)
        ensures
            text@ == self@.rendered(),
    {
        let key_label = self.key.label();
        self.render_with(key_label.as_str())
    }

    /// Whether no modifier is named twice.
    pub fn is_well_formed(&self) -> (unique: bool)
        ensures
            unique == self@.well_formed(),
    {
        let mut j: usize = 0;
        while j < self.modifiers.len()
            invariant
                j <= self.modifiers.len(),
                forall|a: int, b: int|
                    0 <= a < b < j ==> self.modifiers@[a] != self.modifiers@[b],
            decreases self.modifiers.len() - j,
        {
            let mut i: usize = 0;
            while i < j
                invariant
                    i <= j < self.modifiers.len(),
                    forall|a: int| 0 <= a < i ==> self.modifiers@[a] != self.modifiers@[j as int],
                decreases j - i,
            {
                if self.modifiers[i] == self.modifiers[j] {
                    return false;
                }
                i += 1;
            }
            j += 1;
        }
        true
    }
}

impl PartialEq for KeyBind {
    /// Two chords are equal if they ask for the same stroke.
    fn eq(&self, other: &KeyBind) -> (same: bool) {
        self.key == other.key && self.required() == other.required()
    }
}

impl vstd::std_specs::cmp::PartialEqSpecImpl for KeyBind {
    open spec fn obeys_eq_spec() -> bool {
        true
    }

    open spec fn eq_spec(&self, other: &KeyBind) -> bool {
        self@.stroke() == other@.stroke()
    }
}

impl Eq for KeyBind {}

/// A chord matches an event exactly if the event's stroke is the one that the
/// chord asks for.
pub proof fn matched_is_same_stroke(chord: Chord, held: ModifierState, key: KeyView)
    ensures
        chord.matched_by(held, key) <==> chord.stroke() == (Stroke { held, key }),
{
}

} // verus!
