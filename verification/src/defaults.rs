//! The bindings that the application starts with.

use crate::action::Action;
use crate::key::{Key, KeyView};
use crate::key_bind::{Chord, KeyBind};
use crate::modifier::{Modifier, ModifierState};
use crate::registry::{
    distinct, records_of, register_all_of_distinct, stroke_at, table_of, Binding, KeyBinds, Record,
};
use vstd::prelude::*;

verus! {

/// The record that binds the chord of `modifiers` and `key` to `action`.
pub open spec fn record(modifiers: Seq<Modifier>, key: KeyView, action: Action) -> Record {
    Record { chord: Chord { modifiers, key }, action }
}

/// The default bindings, in the order in which they are registered.
///
/// Matching is exact, so an action that is to fire with and without Shift
/// has two chords: the arrow keys are bound once bare and once with Shift.
pub open spec fn default_records() -> Seq<Record> {
    seq![
        record(seq![Modifier::Ctrl], KeyView::Character("c"@), Action::Copy),
        record(seq![Modifier::Ctrl], KeyView::Character("x"@), Action::Cut),
        record(seq![Modifier::Ctrl], KeyView::Character("l"@), Action::EditLocation),
        record(seq![Modifier::Alt], KeyView::Named("ArrowRight"@), Action::HistoryNext),
        record(seq![Modifier::Alt], KeyView::Named("ArrowLeft"@), Action::HistoryPrevious),
        record(Seq::empty(), KeyView::Named("ArrowDown"@), Action::ItemDown),
        record(Seq::empty(), KeyView::Named("ArrowLeft"@), Action::ItemLeft),
        record(Seq::empty(), KeyView::Named("ArrowRight"@), Action::ItemRight),
        record(Seq::empty(), KeyView::Named("ArrowUp"@), Action::ItemUp),
        record(seq![Modifier::Shift], KeyView::Named("ArrowDown"@), Action::ItemDown),
        record(seq![Modifier::Shift], KeyView::Named("ArrowLeft"@), Action::ItemLeft),
        record(seq![Modifier::Shift], KeyView::Named("ArrowRight"@), Action::ItemRight),
        record(seq![Modifier::Shift], KeyView::Named("ArrowUp"@), Action::ItemUp),
        record(seq![Modifier::Alt], KeyView::Named("ArrowUp"@), Action::LocationUp),
        record(Seq::empty(), KeyView::Named("Delete"@), Action::MoveToTrash),
        record(
            seq![Modifier::Ctrl, Modifier::Shift],
            KeyView::Character("N"@),
            Action::NewFolder,
        ),
        record(Seq::empty(), KeyView::Named("Enter"@), Action::Open),
        record(seq![Modifier::Ctrl], KeyView::Character("v"@), Action::Paste),
        record(Seq::empty(), KeyView::Named("F2"@), Action::Rename),
        record(seq![Modifier::Ctrl], KeyView::Character("a"@), Action::SelectAll),
        record(seq![Modifier::Ctrl], KeyView::Character("w"@), Action::TabClose),
        record(seq![Modifier::Ctrl], KeyView::Character("t"@), Action::TabNew),
        record(seq![Modifier::Ctrl], KeyView::Named("Tab"@), Action::TabNext),
        record(seq![Modifier::Ctrl, Modifier::Shift], KeyView::Named("Tab"@), Action::TabPrev),
        record(seq![Modifier::Ctrl], KeyView::Character("h"@), Action::ToggleShowHidden),
        record(seq![Modifier::Ctrl], KeyView::Character("q"@), Action::WindowClose),
        record(seq![Modifier::Ctrl], KeyView::Character("n"@), Action::WindowNew),
    ]
}

/// The empty list of modifiers.
fn bare() -> (modifiers: Vec<Modifier>)
    ensures
        modifiers@ == Seq::<Modifier>::empty(),
{
    Vec::new()
}

/// The list that names one modifier.
fn with(modifier: Modifier) -> (modifiers: Vec<Modifier>)
    ensures
        modifiers@ == seq![modifier],
{
    let mut modifiers = Vec::new();
    modifiers.push(modifier);
    assert(modifiers@ =~= seq![modifier]);
    modifiers
}

/// The list that names two modifiers, in this order.
fn with_both(first: Modifier, second: Modifier) -> (modifiers: Vec<Modifier>)
    ensures
        modifiers@ == seq![first, second],
{
    let mut modifiers = Vec::new();
    modifiers.push(first);
    modifiers.push(second);
    assert(modifiers@ =~= seq![first, second]);
    modifiers
}

/// One binding of the default list.
fn bind(modifiers: Vec<Modifier>, key: Key, action: Action) -> (binding: Binding)
    ensures
        binding@ == record(modifiers@, key@, action),
{
    Binding { chord: KeyBind::new(modifiers, key), action }
}

/// The default bindings as a list, ready to be registered.
pub fn default_bindings() -> (list: Vec<Binding>)
    ensures
        records_of(list@) == default_records(),
{
    let mut list: Vec<Binding> = Vec::new();
    list.push(bind(with(Modifier::Ctrl), Key::character("c"), Action::Copy));
    list.push(bind(with(Modifier::Ctrl), Key::character("x"), Action::Cut));
    list.push(bind(with(Modifier::Ctrl), Key::character("l"), Action::EditLocation));
    list.push(bind(with(Modifier::Alt), Key::named("ArrowRight"), Action::HistoryNext));
    list.push(bind(with(Modifier::Alt), Key::named("ArrowLeft"), Action::HistoryPrevious));
    list.push(bind(bare(), Key::named("ArrowDown"), Action::ItemDown));
    list.push(bind(bare(), Key::named("ArrowLeft"), Action::ItemLeft));
    list.push(bind(bare(), Key::named("ArrowRight"), Action::ItemRight));
    list.push(bind(bare(), Key::named("ArrowUp"), Action::ItemUp));
    list.push(bind(with(Modifier::Shift), Key::named("ArrowDown"), Action::ItemDown));
    list.push(bind(with(Modifier::Shift), Key::named("ArrowLeft"), Action::ItemLeft));
    list.push(bind(with(Modifier::Shift), Key::named("ArrowRight"), Action::ItemRight));
    list.push(bind(with(Modifier::Shift), Key::named("ArrowUp"), Action::ItemUp));
    list.push(bind(with(Modifier::Alt), Key::named("ArrowUp"), Action::LocationUp));
    list.push(bind(bare(), Key::named("Delete"), Action::MoveToTrash));
    list.push(
        bind(with_both(Modifier::Ctrl, Modifier::Shift), Key::character("N"), Action::NewFolder),
    );
    list.push(bind(bare(), Key::named("Enter"), Action::Open));
    list.push(bind(with(Modifier::Ctrl), Key::character("v"), Action::Paste));
    list.push(bind(bare(), Key::named("F2"), Action::Rename));
    list.push(bind(with(Modifier::Ctrl), Key::character("a"), Action::SelectAll));
    list.push(bind(with(Modifier::Ctrl), Key::character("w"), Action::TabClose));
    list.push(bind(with(Modifier::Ctrl), Key::character("t"), Action::TabNew));
    list.push(bind(with(Modifier::Ctrl), Key::named("Tab"), Action::TabNext));
    list.push(bind(with_both(Modifier::Ctrl, Modifier::Shift), Key::named("Tab"), Action::TabPrev));
    list.push(bind(with(Modifier::Ctrl), Key::character("h"), Action::ToggleShowHidden));
    list.push(bind(with(Modifier::Ctrl), Key::character("q"), Action::WindowClose));
    list.push(bind(with(Modifier::Ctrl), Key::character("n"), Action::WindowNew));
    assert(records_of(list@) =~= default_records());
    list
}

/// No two of the default bindings ask for the same stroke.
pub proof fn default_records_distinct()
    ensures
        distinct(default_records()),
{
    reveal_strlit("c");
    reveal_strlit("x");
    reveal_strlit("l");
    reveal_strlit("N");
    reveal_strlit("v");
    reveal_strlit("a");
    reveal_strlit("w");
    reveal_strlit("t");
    reveal_strlit("h");
    reveal_strlit("q");
    reveal_strlit("n");
    reveal_strlit("ArrowRight");
    reveal_strlit("ArrowLeft");
    reveal_strlit("ArrowDown");
    reveal_strlit("ArrowUp");
    reveal_strlit("Delete");
    reveal_strlit("Enter");
    reveal_strlit("F2");
    reveal_strlit("Tab");
    let records = default_records();
    let none = ModifierState { logo: false, control: false, alt: false, shift: false };
    let ctrl = ModifierState { logo: false, control: true, alt: false, shift: false };
    let alt = ModifierState { logo: false, control: false, alt: true, shift: false };
    let shift = ModifierState { logo: false, control: false, alt: false, shift: true };
    let ctrl_shift = ModifierState { logo: false, control: true, alt: false, shift: true };
    assert(ModifierState::of_seq(Seq::empty()) == none);
    assert(ModifierState::of_seq(seq![Modifier::Ctrl]) == ctrl) by {
        assert(seq![Modifier::Ctrl][0] == Modifier::Ctrl);
    }
    assert(ModifierState::of_seq(seq![Modifier::Alt]) == alt) by {
        assert(seq![Modifier::Alt][0] == Modifier::Alt);
    }
    assert(ModifierState::of_seq(seq![Modifier::Shift]) == shift) by {
        assert(seq![Modifier::Shift][0] == Modifier::Shift);
    }
    assert(ModifierState::of_seq(seq![Modifier::Ctrl, Modifier::Shift]) == ctrl_shift) by {
        assert(seq![Modifier::Ctrl, Modifier::Shift][0] == Modifier::Ctrl);
        assert(seq![Modifier::Ctrl, Modifier::Shift][1] == Modifier::Shift);
    }
    assert("c"@[0] == 'c');
    assert("x"@[0] == 'x');
    assert("l"@[0] == 'l');
    assert("N"@[0] == 'N');
    assert("v"@[0] == 'v');
    assert("a"@[0] == 'a');
    assert("w"@[0] == 'w');
    assert("t"@[0] == 't');
    assert("h"@[0] == 'h');
    assert("q"@[0] == 'q');
    assert("n"@[0] == 'n');
    assert("ArrowRight"@.len() == 10);
    assert("ArrowLeft"@.len() == 9);
    assert("ArrowDown"@.len() == 9);
    assert("ArrowUp"@.len() == 7);
    assert("Delete"@.len() == 6);
    assert("Enter"@.len() == 5);
    assert("F2"@.len() == 2);
    assert("Tab"@.len() == 3);
    assert("ArrowLeft"@[5] == 'L');
    assert("ArrowDown"@[5] == 'D');
    assert forall|i: int, j: int| 0 <= i < j < records.len() implies
        #[trigger] stroke_at(records, i) != #[trigger] stroke_at(records, j) by {}
}

/// None of the default chords names a modifier twice.
pub proof fn default_records_well_formed(i: int)
    requires
        0 <= i < default_records().len(),
    ensures
        default_records()[i].chord.well_formed(),
{
}

/// The default table: each of the default bindings, registered in turn.
pub fn key_binds() -> (table: KeyBinds)
    ensures
        table.records() == default_records(),
        table@ == table_of(default_records()),
        distinct(table.records()),
{
    proof {
        default_records_distinct();
        register_all_of_distinct(default_records());
    }
    KeyBinds::from_bindings(default_bindings())
}

} // verus!
