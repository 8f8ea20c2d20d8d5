//! The telemetry store: the one record that producers write and the radio
//! link and the reporter read.
//!
//! The record is private to the store. A reader gets a copy of the whole
//! record, a writer replaces it in one step, and both need the store
//! exclusively for as long as the call lasts. So every read sees the record
//! as some sequence of complete writes left it, never a write half done.

use crate::state::{overwritten, State, Update};
use vstd::prelude::*;

verus! {

/// Pause of the reporter between two prints of the record.
pub const REPORT_INTERVAL_MS: u64 = 5_000;

/// Holds the latest known value of every telemetry field.
pub struct TelemetryStore {
    record: State,
}

impl View for TelemetryStore {
    type V = State;

    closed spec fn view(&self) -> State {
        self.record
    }
}

impl TelemetryStore {
    /// The store at start-up: every field unknown.
    pub fn new() -> (store: TelemetryStore)
        ensures
            store@ == State::unknown(),
    {
        TelemetryStore { record: State::new() }
    }

    /// A copy of the whole record.
    pub fn read(&self) -> (snapshot: State)
        ensures
            snapshot == self@,
    {
        self.record
    }

    /// Replaces the record by what `change` makes of it.
    pub fn mutate<F: FnOnce(State) -> State>(&mut self, change: F)
        requires
            change.requires((old(self)@,)),
        ensures
            change.ensures((old(self)@,), final(self)@),
    {
        self.record = change(self.record);
    }

    /// Applies the partial write `u`: the fields it names are replaced, the
    /// others keep their values.
    pub fn update(&mut self, u: Update)
        ensures
            final(self)@ == old(self)@.merged(u),
    {
        self.record = self.record.apply(u);
    }

    /// Replaces the whole record by `record`.
    pub fn publish(&mut self, record: State)
        ensures
            final(self)@ == record,
    {
        self.record = record;
    }
}

/// The record after the writes `writes`, applied first to last to `start`.
pub open spec fn replayed(start: State, writes: Seq<Update>) -> State
    decreases writes.len(),
{
    if writes.len() == 0 {
        start
    } else {
        replayed(start, writes.drop_last()).merged(writes.last())
    }
}

/// The value of one field after the writes `writes` to it, applied first to
/// last to `held`.
pub open spec fn settled<T>(held: Option<T>, writes: Seq<Option<T>>) -> Option<T>
    decreases writes.len(),
{
    if writes.len() == 0 {
        held
    } else {
        overwritten(settled(held, writes.drop_last()), writes.last())
    }
}

/// A field that no write names keeps the value it had.
pub proof fn lemma_settled_untouched<T>(held: Option<T>, writes: Seq<Option<T>>)
    requires
        forall|i: int| 0 <= i < writes.len() ==> writes[i] is None,
    ensures
        settled(held, writes) == held,
    decreases writes.len(),
{
    if writes.len() > 0 {
        lemma_settled_untouched(held, writes.drop_last());
    }
}

/// A field holds the value of the last write that names it, whatever was
/// written before.
pub proof fn lemma_settled_last_write<T>(held: Option<T>, writes: Seq<Option<T>>, k: int)
    requires
        0 <= k < writes.len(),
        writes[k] is Some,
        forall|i: int| k < i < writes.len() ==> writes[i] is None,
    ensures
        settled(held, writes) == writes[k],
    decreases writes.len(),
{
    if k < writes.len() - 1 {
        lemma_settled_last_write(held, writes.drop_last(), k);
    }
}

/// Writes act on each field by itself: a field of the record after a run of
/// writes is what the writes to that field alone make of it.
pub proof fn lemma_replayed_by_field(start: State, writes: Seq<Update>)
    ensures
        replayed(start, writes).ln == settled(start.ln, writes.map_values(|u: Update| u.ln)),
        replayed(start, writes).lt == settled(start.lt, writes.map_values(|u: Update| u.lt)),
        replayed(start, writes).ga == settled(start.ga, writes.map_values(|u: Update| u.ga)),
        replayed(start, writes).aaa == settled(start.aaa, writes.map_values(|u: Update| u.aaa)),
        replayed(start, writes).t == settled(start.t, writes.map_values(|u: Update| u.t)),
    decreases writes.len(),
{
    if writes.len() > 0 {
        let before = writes.drop_last();
        lemma_replayed_by_field(start, before);
        assert(writes.map_values(|u: Update| u.ln).drop_last() =~= before.map_values(
            |u: Update| u.ln,
        ));
        assert(writes.map_values(|u: Update| u.lt).drop_last() =~= before.map_values(
            |u: Update| u.lt,
        ));
        assert(writes.map_values(|u: Update| u.ga).drop_last() =~= before.map_values(
            |u: Update| u.ga,
        ));
        assert(writes.map_values(|u: Update| u.aaa).drop_last() =~= before.map_values(
            |u: Update| u.aaa,
        ));
        assert(writes.map_values(|u: Update| u.t).drop_last() =~= before.map_values(
            |u: Update| u.t,
        ));
    }
}

/// The value of one field after a run of writes is the value it started with
/// or a value that one of the writes gave it, whole.
pub proof fn lemma_settled_is_whole<T>(held: Option<T>, writes: Seq<Option<T>>)
    ensures
        settled(held, writes) == held || exists|k: int|
            0 <= k < writes.len() && writes[k] is Some && settled(held, writes) == #[trigger] writes[k],
    decreases writes.len(),
{
    if writes.len() > 0 {
        let before = writes.drop_last();
        lemma_settled_is_whole(held, before);
        if writes.last() is Some {
            assert(settled(held, writes) == writes[writes.len() - 1]);
        } else if settled(held, before) != held {
            let k = choose|k: int|
                0 <= k < before.len() && before[k] is Some && settled(held, before)
                    == #[trigger] before[k];
            assert(settled(held, writes) == writes[k]);
        }
    }
}

/// What a read observes after any run of writes from any producers: in every
/// field, the value the record started with or the value of one complete
/// write to that field.
pub proof fn lemma_read_sees_whole_writes(start: State, writes: Seq<Update>)
    ensures
        ({
            let seen = replayed(start, writes);
            &&& seen.ln == start.ln || exists|k: int|
                0 <= k < writes.len() && seen.ln == (#[trigger] writes[k]).ln && seen.ln is Some
            &&& seen.lt == start.lt || exists|k: int|
                0 <= k < writes.len() && seen.lt == (#[trigger] writes[k]).lt && seen.lt is Some
            &&& seen.ga == start.ga || exists|k: int|
                0 <= k < writes.len() && seen.ga == (#[trigger] writes[k]).ga && seen.ga is Some
            &&& seen.aaa == start.aaa || exists|k: int|
                0 <= k < writes.len() && seen.aaa == (#[trigger] writes[k]).aaa && seen.aaa is Some
            &&& seen.t == start.t || exists|k: int|
                0 <= k < writes.len() && seen.t == (#[trigger] writes[k]).t && seen.t is Some
        }),
{
    lemma_replayed_by_field(start, writes);
    lemma_settled_is_whole(start.ln, writes.map_values(|u: Update| u.ln));
    lemma_settled_is_whole(start.lt, writes.map_values(|u: Update| u.lt));
    lemma_settled_is_whole(start.ga, writes.map_values(|u: Update| u.ga));
    lemma_settled_is_whole(start.aaa, writes.map_values(|u: Update| u.aaa));
    lemma_settled_is_whole(start.t, writes.map_values(|u: Update| u.t));
}

} // verus!
