//! What holds of every chord and of every table.

use crate::defaults::{default_records, default_records_distinct};
use crate::key::KeyView;
use crate::key_bind::{matched_is_same_stroke, Chord};
use crate::modifier::{Modifier, ModifierState};
use crate::registry::{
    distinct, first_match, first_match_is_lookup, stroke_at, table_binds, table_of, with_record,
    with_record_inserts, Record,
};
use vstd::prelude::*;

verus! {

/// An event matches a chord exactly if it presses the chord's key and, of
/// the four modifiers, holds those that the chord names and no other.
pub proof fn matched_by_exact_set(chord: Chord, held: ModifierState, key: KeyView)
    ensures
        chord.matched_by(held, key) <==> (key == chord.key && forall|modifier: Modifier|
            held.holds(modifier) == chord.modifiers.contains(modifier)),
{
    if chord.matched_by(held, key) {
        assert forall|modifier: Modifier|
            held.holds(modifier) == chord.modifiers.contains(modifier) by {
            match modifier {
                Modifier::Super => {},
                Modifier::Ctrl => {},
                Modifier::Alt => {},
                Modifier::Shift => {},
            }
        }
    }
    if key == chord.key && forall|modifier: Modifier|
        held.holds(modifier) == chord.modifiers.contains(modifier) {
        assert(held.holds(Modifier::Super) == chord.modifiers.contains(Modifier::Super));
        assert(held.holds(Modifier::Ctrl) == chord.modifiers.contains(Modifier::Ctrl));
        assert(held.holds(Modifier::Alt) == chord.modifiers.contains(Modifier::Alt));
        assert(held.holds(Modifier::Shift) == chord.modifiers.contains(Modifier::Shift));
    }
}

/// Two chords that one event matches ask for the same stroke: they are the
/// same chord.
pub proof fn one_event_one_chord(a: Chord, b: Chord, held: ModifierState, key: KeyView)
    requires
        a.matched_by(held, key),
        b.matched_by(held, key),
    ensures
        a.stroke() == b.stroke(),
{
    matched_is_same_stroke(a, held, key);
    matched_is_same_stroke(b, held, key);
}

/// No event matches two entries of a table.
pub proof fn at_most_one_match(
    records: Seq<Record>,
    i: int,
    j: int,
    held: ModifierState,
    key: KeyView,
)
    requires
        distinct(records),
        0 <= i < records.len(),
        0 <= j < records.len(),
        records[i].chord.matched_by(held, key),
        records[j].chord.matched_by(held, key),
    ensures
        i == j,
{
    one_event_one_chord(records[i].chord, records[j].chord, held, key);
    if i != j {
        assert(stroke_at(records, i) != stroke_at(records, j));
    }
}

/// No event matches two of the default bindings.
pub proof fn default_table_unambiguous(i: int, j: int, held: ModifierState, key: KeyView)
    requires
        0 <= i < default_records().len(),
        0 <= j < default_records().len(),
        default_records()[i].chord.matched_by(held, key),
        default_records()[j].chord.matched_by(held, key),
    ensures
        i == j,
{
    default_records_distinct();
    at_most_one_match(default_records(), i, j, held, key);
}

/// The last write wins. Where two records with the same chord are registered
/// one after the other, the table holds one entry for the chord, the action
/// it gives is the second record's, and an event that matches the chord
/// finds that action and no other.
pub proof fn last_write_wins(
    records: Seq<Record>,
    first: Record,
    second: Record,
    held: ModifierState,
    key: KeyView,
)
    requires
        distinct(records),
        first.chord.stroke() == second.chord.stroke(),
        second.chord.matched_by(held, key),
    ensures
        with_record(with_record(records, first), second).len() == with_record(
            records,
            first,
        ).len(),
        table_of(with_record(with_record(records, first), second)) == table_of(records).insert(
            second.chord.stroke(),
            second.action,
        ),
        first_match(with_record(with_record(records, first), second), held, key) == Some(
            second.action,
        ),
{
    let stroke = second.chord.stroke();
    let once = with_record(records, first);
    let twice = with_record(once, second);
    with_record_inserts(records, first);
    with_record_inserts(once, second);
    table_binds(once, stroke);
    first_match_is_lookup(twice, held, key);
    matched_is_same_stroke(second.chord, held, key);
}

} // verus!
