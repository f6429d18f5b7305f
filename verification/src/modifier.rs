//! The modifier keys, and which of them are held.

use vstd::prelude::*;

verus! {

/// A modifier key. There are exactly four.
#[derive(Clone, Copy, Debug, PartialEq, Eq, Structural, PartialOrd, Ord, Hash)]
pub enum Modifier {
    Super,
    Ctrl,
    Alt,
    Shift,
}

impl Modifier {
    /// The modifier's name as a sequence of characters.
    pub open spec fn spec_name(self) -> Seq<char> {
        match self {
            Modifier::Super => seq!['S', 'u', 'p', 'e', 'r'],
            Modifier::Ctrl => seq!['C', 't', 'r', 'l'],
            Modifier::Alt => seq!['A', 'l', 't'],
            Modifier::Shift => seq!['S', 'h', 'i', 'f', 't'],
        }
    }

    /// The modifier's name: `Super`, `Ctrl`, `Alt` or `Shift`.
    pub fn name(self) -> (text: &'static str)
        ensures
            text@ == self.spec_name(),
    {
        proof {
            reveal_strlit("Super");
            reveal_strlit("Ctrl");
            reveal_strlit("Alt");
            reveal_strlit("Shift");
        }
        match self {
            Modifier::Super => "Super",
            Modifier::Ctrl => "Ctrl",
            Modifier::Alt => "Alt",
            Modifier::Shift => "Shift",
        }
    }
}

/// Which of the four modifiers are held, one flag for each.
#[derive(Clone, Copy, Debug, PartialEq, Eq, Structural, Hash)]
pub struct ModifierState {
    pub logo: bool,
    pub control: bool,
    pub alt: bool,
    pub shift: bool,
}

impl ModifierState {
    /// Whether `modifier` is held in this state.
    pub open spec fn holds(self, modifier: Modifier) -> bool {
        match modifier {
            Modifier::Super => self.logo,
            Modifier::Ctrl => self.control,
            Modifier::Alt => self.alt,
            Modifier::Shift => self.shift,
        }
    }

    /// The state in which exactly the members of `held` are held.
    pub open spec fn of_set(held: Set<Modifier>) -> ModifierState {
        ModifierState {
            logo: held.contains(Modifier::Super),
            control: held.contains(Modifier::Ctrl),
            alt: held.contains(Modifier::Alt),
            shift: held.contains(Modifier::Shift),
        }
    }

    /// The state in which exactly the modifiers that occur in `list` are held.
    pub open spec fn of_seq(list: Seq<Modifier>) -> ModifierState {
        ModifierState {
            logo: list.contains(Modifier::Super),
            control: list.contains(Modifier::Ctrl),
            alt: list.contains(Modifier::Alt),
            shift: list.contains(Modifier::Shift),
        }
    }
}

} // verus!
