//! The table that binds chords to actions.

use crate::action::Action;
use crate::key::{Key, KeyView};
use crate::key_bind::{matched_is_same_stroke, Chord, KeyBind, Stroke};
use crate::modifier::ModifierState;
use crate::platform::held;
use iced_core::keyboard::Modifiers;
use vstd::prelude::*;

verus! {

/// One entry of the table: a chord and the action it triggers.
#[derive(Debug)]
pub struct Binding {
    pub chord: KeyBind,
    pub action: Action,
}

/// What a [`Binding`] holds.
pub struct Record {
    pub chord: Chord,
    pub action: Action,
}

impl View for Binding {
    type V = Record;

    open spec fn view(&self) -> Record {
        Record { chord: self.chord@, action: self.action }
    }
}

impl Clone for Binding {
    fn clone(&self) -> (copy: Binding)
        ensures
            copy@ == self@,
    {
        Binding { chord: self.chord.clone(), action: self.action }
    }
}

/// What each binding of a list holds.
pub open spec fn records_of(list: Seq<Binding>) -> Seq<Record> {
    list.map_values(|binding: Binding| binding@)
}

/// The stroke that the chord of entry `i` asks for.
pub open spec fn stroke_at(records: Seq<Record>, i: int) -> Stroke {
    records[i].chord.stroke()
}

/// No two entries ask for the same stroke.
pub open spec fn distinct(records: Seq<Record>) -> bool {
    forall|i: int, j: int|
        0 <= i < j < records.len()
            ==> #[trigger] stroke_at(records, i) != #[trigger] stroke_at(records, j)
}

/// Some entry asks for `stroke`.
pub open spec fn binds(records: Seq<Record>, stroke: Stroke) -> bool {
    exists|i: int| 0 <= i < records.len() && #[trigger] stroke_at(records, i) == stroke
}

/// The place of an entry that asks for `stroke`, where there is one.
pub open spec fn position(records: Seq<Record>, stroke: Stroke) -> int {
    choose|i: int| 0 <= i < records.len() && #[trigger] stroke_at(records, i) == stroke
}

/// The entries after `record` is registered. Where an entry asks for the same
/// stroke already, that entry keeps its chord and takes the new action;
/// otherwise the record is added at the end.
pub open spec fn with_record(records: Seq<Record>, record: Record) -> Seq<Record> {
    if binds(records, record.chord.stroke()) {
        let i = position(records, record.chord.stroke());
        records.update(i, Record { chord: records[i].chord, action: record.action })
    } else {
        records.push(record)
    }
}

/// The entries after each record of `list` is registered in turn, on top of
/// the entries `base`.
pub open spec fn register_all(base: Seq<Record>, list: Seq<Record>) -> Seq<Record>
    decreases list.len(),
{
    if list.len() == 0 {
        base
    } else {
        with_record(register_all(base, list.drop_last()), list.last())
    }
}

/// The first entry that an event with the modifiers `held` and the key `key`
/// matches gives its action; `None` where the event matches no entry.
pub open spec fn first_match(
    records: Seq<Record>,
    held: ModifierState,
    key: KeyView,
) -> Option<Action>
    decreases records.len(),
{
    if records.len() == 0 {
        None
    } else if records.first().chord.matched_by(held, key) {
        Some(records.first().action)
    } else {
        first_match(records.drop_first(), held, key)
    }
}

/// The action that each stroke triggers after the records of `list` took
/// effect in turn: for a stroke asked for more than once, the last one wins.
pub open spec fn table_of(list: Seq<Record>) -> Map<Stroke, Action>
    decreases list.len(),
{
    if list.len() == 0 {
        Map::empty()
    } else {
        table_of(list.drop_last()).insert(list.last().chord.stroke(), list.last().action)
    }
}

/// Without their last, entries of which no two ask for the same stroke are
/// such entries still.
proof fn front_is_distinct(records: Seq<Record>)
    requires
        distinct(records),
        records.len() > 0,
    ensures
        distinct(records.drop_last()),
{
    let front = records.drop_last();
    assert forall|a: int, b: int| 0 <= a < b < front.len() implies
        #[trigger] stroke_at(front, a) != #[trigger] stroke_at(front, b) by {
        assert(stroke_at(records, a) != stroke_at(records, b));
    }
}

/// Without their first, entries of which no two ask for the same stroke are
/// such entries still.
proof fn rest_is_distinct(records: Seq<Record>)
    requires
        distinct(records),
        records.len() > 0,
    ensures
        distinct(records.drop_first()),
{
    let rest = records.drop_first();
    assert forall|a: int, b: int| 0 <= a < b < rest.len() implies
        #[trigger] stroke_at(rest, a) != #[trigger] stroke_at(rest, b) by {
        assert(stroke_at(records, a + 1) != stroke_at(records, b + 1));
    }
}

/// The table binds exactly the strokes that some record asks for.
pub proof fn table_binds(list: Seq<Record>, stroke: Stroke)
    ensures
        table_of(list).contains_key(stroke) <==> binds(list, stroke),
    decreases list.len(),
{
    if list.len() > 0 {
        let front = list.drop_last();
        table_binds(front, stroke);
        if binds(front, stroke) {
            let i = position(front, stroke);
            assert(stroke_at(list, i) == stroke);
        }
        if list.last().chord.stroke() == stroke {
            assert(stroke_at(list, list.len() - 1) == stroke);
        }
        if binds(list, stroke) {
            let i = position(list, stroke);
            if i < list.len() - 1 {
                assert(stroke_at(front, i) == stroke);
            }
        }
    }
}

/// Where no two records ask for the same stroke, the table gives for each
/// record's stroke that record's action.
pub proof fn table_gives(records: Seq<Record>, i: int)
    requires
        distinct(records),
        0 <= i < records.len(),
    ensures
        table_of(records).contains_key(stroke_at(records, i)),
        table_of(records)[stroke_at(records, i)] == records[i].action,
    decreases records.len(),
{
    let front = records.drop_last();
    let n = records.len() - 1;
    if i < n {
        front_is_distinct(records);
        table_gives(front, i);
        assert(stroke_at(records, i) != stroke_at(records, n));
    }
}

/// To register a record is to bind its stroke to its action, and to leave
/// every other stroke as it was. No two entries ask for the same stroke
/// afterwards either.
pub proof fn with_record_inserts(records: Seq<Record>, record: Record)
    requires
        distinct(records),
    ensures
        distinct(with_record(records, record)),
        table_of(with_record(records, record)) == table_of(records).insert(
            record.chord.stroke(),
            record.action,
        ),
    decreases records.len(),
{
    let stroke = record.chord.stroke();
    let after = with_record(records, record);
    if binds(records, stroke) {
        let i = position(records, stroke);
        assert forall|a: int, b: int| 0 <= a < b < after.len() implies
            #[trigger] stroke_at(after, a) != #[trigger] stroke_at(after, b) by {
            assert(stroke_at(after, a) == stroke_at(records, a));
            assert(stroke_at(after, b) == stroke_at(records, b));
        }
        let front = records.drop_last();
        let n = records.len() - 1;
        if i == n {
            assert(after.drop_last() =~= front);
        } else {
            front_is_distinct(records);
            assert forall|j: int| 0 <= j < front.len() && #[trigger] stroke_at(front, j)
                == stroke implies j == i by {
                if j != i {
                    assert(stroke_at(front, i) != stroke_at(front, j));
                }
            }
            with_record_inserts(front, record);
            assert(after.drop_last() =~= with_record(front, record));
            assert(stroke_at(records, i) != stroke_at(records, n));
        }
    } else {
        assert forall|a: int, b: int| 0 <= a < b < after.len() implies
            #[trigger] stroke_at(after, a) != #[trigger] stroke_at(after, b) by {
            if b < records.len() {
                assert(stroke_at(after, b) == stroke_at(records, b));
            } else {
                assert(stroke_at(after, a) == stroke_at(records, a));
            }
        }
        assert(after.drop_last() =~= records);
    }
}

/// Registering the records of a list in turn, on top of entries of which no
/// two ask for the same stroke, leaves no stroke asked for twice, and gives
/// the table in which the list's records took effect after the entries.
pub proof fn register_all_table(base: Seq<Record>, list: Seq<Record>)
    requires
        distinct(base),
    ensures
        distinct(register_all(base, list)),
        table_of(register_all(base, list)) == table_of(base + list),
    decreases list.len(),
{
    if list.len() > 0 {
        register_all_table(base, list.drop_last());
        with_record_inserts(register_all(base, list.drop_last()), list.last());
        assert((base + list).drop_last() =~= base + list.drop_last());
    }
}

/// Records of which no two ask for the same stroke, registered in turn with
/// no entries to start with, are the entries, in their order.
pub proof fn register_all_of_distinct(list: Seq<Record>)
    requires
        distinct(list),
    ensures
        register_all(Seq::empty(), list) == list,
    decreases list.len(),
{
    if list.len() > 0 {
        let front = list.drop_last();
        let n = list.len() - 1;
        front_is_distinct(list);
        register_all_of_distinct(front);
        if binds(front, list.last().chord.stroke()) {
            let i = position(front, list.last().chord.stroke());
            assert(stroke_at(list, i) != stroke_at(list, n));
        }
    }
}

/// Where no two entries ask for the same stroke, the first entry that an
/// event matches is the only one, and its action is the one that the table
/// gives for the event's stroke.
pub proof fn first_match_is_lookup(records: Seq<Record>, held: ModifierState, key: KeyView)
    requires
        distinct(records),
    ensures
        first_match(records, held, key) == table_of(records).get(Stroke { held, key }),
    decreases records.len(),
{
    let stroke = Stroke { held, key };
    table_binds(records, stroke);
    if records.len() > 0 {
        let rest = records.drop_first();
        matched_is_same_stroke(records.first().chord, held, key);
        if records.first().chord.matched_by(held, key) {
            table_gives(records, 0);
        } else {
            rest_is_distinct(records);
            first_match_is_lookup(rest, held, key);
            table_binds(rest, stroke);
            if binds(rest, stroke) {
                let i = position(rest, stroke);
                table_gives(rest, i);
                table_gives(records, i + 1);
            }
            if binds(records, stroke) {
                let i = position(records, stroke);
                assert(stroke_at(rest, i - 1) == stroke);
            }
        }
    }
}

/// The table of chords and their actions.
///
/// No two entries ask for the same stroke: to register a chord that is bound
/// already replaces the action of the entry that is there. Several chords may
/// trigger one action.
#[derive(Debug)]
pub struct KeyBinds {
    entries: Vec<Binding>,
}

impl View for KeyBinds {
    type V = Map<Stroke, Action>;

    /// The action that each bound stroke triggers.
    open spec fn view(&self) -> Map<Stroke, Action> {
        table_of(self.records())
    }
}

impl KeyBinds {
    /// The entries, in the order in which their chords were first registered.
    pub closed spec fn records(&self) -> Seq<Record> {
        records_of(self.entries@)
    }

    /// No two entries ask for the same stroke.
    #[verifier::type_invariant]
    spec fn well_formed(&self) -> bool {
        distinct(self.records())
    }

    /// A table without entries.
    pub fn new() -> (table: KeyBinds)
        ensures
            table.records() == Seq::<Record>::empty(),
            table@ == Map::<Stroke, Action>::empty(),
            distinct(table.records()),
    {
        KeyBinds { entries: Vec::new() }
    }

    /// The number of entries.
    pub fn len(&self) -> (count: usize)
        ensures
            count == self.records().len(),
    {
        self.entries.len()
    }

    /// The entries, in the order in which their chords were first
    /// registered. No two of them ask for the same stroke.
    pub fn bindings(&self) -> (list: &[Binding])
        ensures
            records_of(list@) == self.records(),
            distinct(self.records()),
    {
        proof {
            use_type_invariant(self);
        }
        self.entries.as_slice()
    }

    /// Binds `chord` to `action`. Where the chord was bound already, its
    /// entry takes the new action and the action it had is returned.
    #[verifier::loop_isolation(false)]
    pub fn insert(&mut self, chord: KeyBind, action: Action) -> (previous: Option<Action>)
        ensures
            final(self).records() == with_record(
                old(self).records(),
                Record { chord: chord@, action },
            ),
            final(self)@ == old(self)@.insert(chord@.stroke(), action),
            previous == old(self)@.get(chord@.stroke()),
            distinct(final(self).records()),
    {
        proof {
            use_type_invariant(&*self);
        }
        let ghost before = self.records();
        let ghost stroke = chord@.stroke();
        proof {
            with_record_inserts(before, Record { chord: chord@, action });
            table_binds(before, stroke);
        }
        let ghost after = with_record(before, Record { chord: chord@, action });
        let mut entries: Vec<Binding> = Vec::new();
        std::mem::swap(&mut entries, &mut self.entries);
        let mut i: usize = 0;
        while i < entries.len()
            invariant
                i <= entries.len(),
                records_of(entries@) == before,
                forall|j: int| 0 <= j < i ==> #[trigger] stroke_at(before, j) != stroke,
            decreases entries.len() - i,
        {
            if entries[i].chord == chord {
                proof {
                    table_gives(before, i as int);
                }
                let stale = entries.remove(i);
                entries.insert(i, Binding { chord: stale.chord, action });
                assert(records_of(entries@) =~= after);
                self.entries = entries;
                return Some(stale.action);
            }
            i += 1;
        }
        entries.push(Binding { chord, action });
        assert(records_of(entries@) =~= after);
        self.entries = entries;
        None
    }

    /// The action of the first entry that an event with the modifiers `held`
    /// and the key `key` matches. No second entry can match the same event,
    /// so this is the action that the table gives for the event's stroke.
    pub fn lookup_by_state(&self, held: ModifierState, key: &Key) -> (action: Option<Action>)
        ensures
            action == first_match(self.records(), held, key@),
            action == self@.get(Stroke { held, key: key@ }),
    {
        proof {
            use_type_invariant(self);
            first_match_is_lookup(self.records(), held, key@);
        }
        let ghost records = self.records();
        let mut i: usize = 0;
        assert(records.skip(0) =~= records);
        while i < self.entries.len()
            invariant
                i <= self.entries.len(),
                records == self.records(),
                first_match(records, held, key@) == self@.get(Stroke { held, key: key@ }),
                first_match(records, held, key@) == first_match(records.skip(i as int), held, key@),
            decreases self.entries.len() - i,
        {
            assert(records.skip(i as int).drop_first() =~= records.skip(i + 1));
            if self.entries[i].chord.matches_state(held, key) {
                return Some(self.entries[i].action);
            }
            i += 1;
        }
        None
    }

    /// The action of the entry that an event with the toolkit's modifier
    /// state `modifiers` and the key `key` matches.
    pub fn lookup_by_event(&self, modifiers: Modifiers, key: &Key) -> (action: Option<Action>)
        ensures
            action == first_match(self.records(), ModifierState::of_set(held(modifiers)), key@),
            action == self@.get(
                Stroke { held: ModifierState::of_set(held(modifiers)), key: key@ },
            ),
    {
        self.lookup_by_state(ModifierState::read(modifiers), key)
    }

    /// The action that `chord` is bound to.
    pub fn get(&self, chord: &KeyBind) -> (action: Option<Action>)
        ensures
            action == self@.get(chord@.stroke()),
    {
        self.lookup_by_state(chord.required(), &chord.key)
    }

    /// Registers the bindings of `list` in turn, each as [`KeyBinds::insert`]
    /// does: a binding whose chord is bound already, by an entry of the table
    /// or by an earlier binding of the list, overrides that action.
    pub fn extend(&mut self, list: Vec<Binding>)
        ensures
            final(self).records() == register_all(old(self).records(), records_of(list@)),
            final(self)@ == table_of(old(self).records() + records_of(list@)),
            distinct(final(self).records()),
    {
        proof {
            use_type_invariant(&*self);
            register_all_table(self.records(), records_of(list@));
        }
        let ghost base = self.records();
        let ghost bindings = list@;
        let ghost all = records_of(list@);
        for binding in it: list.into_iter()
            invariant
                it.seq() == bindings,
                all == records_of(bindings),
                self.records() == register_all(base, all.take(it.index() as int)),
        {
            proof {
                let k = it.index() as int;
                assert(all.take(k + 1).drop_last() =~= all.take(k));
            }
            self.insert(binding.chord, binding.action);
        }
        assert(all.take(all.len() as int) =~= all);
    }

    /// The table in which the bindings of `list` were registered in turn.
    pub fn from_bindings(list: Vec<Binding>) -> (table: KeyBinds)
        ensures
            table.records() == register_all(Seq::empty(), records_of(list@)),
            table@ == table_of(records_of(list@)),
            distinct(table.records()),
    {
        let mut table = KeyBinds::new();
        table.extend(list);
        table
    }
}

} // verus!