use crate::model::lists_exactly;
use crate::store::{alarm_rows, Alarm, Database, StorageError};
use vstd::prelude::*;

verus! {

/// The ids of the alarms set at `now`, in the order the alarms come.
pub open spec fn due_ids(alarms: Seq<Alarm>, now: Seq<char>) -> Seq<i32>
    decreases alarms.len(),
{
    if alarms.len() == 0 {
        Seq::empty()
    } else {
        let rest = due_ids(alarms.drop_last(), now);
        if alarms.last().time@ == now {
            rest.push(alarms.last().id)
        } else {
            rest
        }
    }
}

/// Some alarm of `alarms` with id `id` is set at `now`.
spec fn set_at(alarms: Seq<Alarm>, now: Seq<char>, id: i32) -> bool {
    exists|i: int| 0 <= i < alarms.len() && (#[trigger] alarms[i]).time@ == now && alarms[i].id == id
}

proof fn lemma_due_ids_members(alarms: Seq<Alarm>, now: Seq<char>)
    ensures
        forall|k: int| 0 <= k < due_ids(alarms, now).len() ==> set_at(alarms, now, #[trigger] due_ids(alarms, now)[k]),
        forall|i: int| 0 <= i < alarms.len() && #[trigger] alarms[i].time@ == now
            ==> due_ids(alarms, now).contains(alarms[i].id),
        (forall|i: int, j: int| 0 <= i < j < alarms.len() ==> #[trigger] alarms[i].id != #[trigger] alarms[j].id)
            ==> due_ids(alarms, now).no_duplicates(),
    decreases alarms.len(),
{
    if alarms.len() > 0 {
        let init = alarms.drop_last();
        lemma_due_ids_members(init, now);
        let rest = due_ids(init, now);
        let d = due_ids(alarms, now);
        assert forall|k: int| 0 <= k < d.len() implies set_at(alarms, now, #[trigger] d[k]) by {
            if k < rest.len() {
                assert(d[k] == rest[k]);
                let i = choose|i: int| 0 <= i < init.len() && (#[trigger] init[i]).time@ == now && init[i].id == rest[k];
                assert(alarms[i] == init[i]);
            } else {
                assert(alarms[alarms.len() - 1].id == d[k]);
            }
        }
        assert forall|i: int| 0 <= i < alarms.len() && #[trigger] alarms[i].time@ == now
            implies d.contains(alarms[i].id) by {
            if i < init.len() {
                assert(init[i] == alarms[i]);
                let k = choose|k: int| 0 <= k < rest.len() && rest[k] == init[i].id;
                assert(d[k] == alarms[i].id);
            } else {
                assert(d[d.len() - 1] == alarms[i].id);
            }
        }
        if forall|i: int, j: int| 0 <= i < j < alarms.len() ==> #[trigger] alarms[i].id != #[trigger] alarms[j].id {
            assert forall|i: int, j: int| 0 <= i < j < init.len() implies #[trigger] init[i].id != #[trigger] init[j].id by {
                assert(init[i] == alarms[i] && init[j] == alarms[j]);
            }
            if alarms.last().time@ == now {
                assert forall|k: int| 0 <= k < rest.len() implies rest[k] != alarms.last().id by {
                    let i = choose|i: int| 0 <= i < init.len() && (#[trigger] init[i]).time@ == now && init[i].id == rest[k];
                    assert(init[i] == alarms[i]);
                }
                assert forall|a: int, b: int| 0 <= a < b < d.len() implies d[a] != d[b] by {
                    if b == d.len() - 1 {
                        assert(d[a] == rest[a]);
                    }
                }
            }
        }
    }
}

/// The ids of the alarms among `alarms` whose time is exactly `now`, in the
/// order the alarms come. The same alarm is due again on every check whose
/// time matches.
pub fn triggered_alarm_ids(alarms: &Vec<Alarm>, now: &String) -> (r: Vec<i32>)
    ensures
        r@ == due_ids(alarms@, now@),
{
    let mut due: Vec<i32> = Vec::new();
    let mut i: usize = 0;
    while i < alarms.len()
        invariant
            i <= alarms.len(),
            due@ == due_ids(alarms@.take(i as int), now@),
        decreases alarms.len() - i,
    {
        assert(alarms@.take(i as int + 1).drop_last() =~= alarms@.take(i as int));
        if alarms[i].time == *now {
            due.push(alarms[i].id);
        }
        i = i + 1;
    }
    assert(alarms@.take(alarms.len() as int) =~= alarms@);
    due
}

/// The alarms of a listing, or none where the listing failed: a failed
/// listing reads as an empty store.
pub fn alarms_or_empty(listed: Result<Vec<Alarm>, StorageError>) -> (r: Vec<Alarm>)
    ensures
        listed is Ok ==> r@ == listed->Ok_0@,
        listed is Err ==> r@.len() == 0,
{
    match listed {
        Ok(alarms) => alarms,
        Err(_) => Vec::new(),
    }
}

impl Database {
    /// One check of the clock against a ready store: the ids of the stored
    /// alarms set at `now`, each once. Where the listing fails the check finds
    /// none, as it does on a store without the table.
    pub fn due_alarm_ids(&self, now: &String) -> (r: Vec<i32>)
        ensures
            !self.has_table() ==> r@.len() == 0,
            self.is_ready() ==> forall|k: int| 0 <= k < r@.len() ==> self@.contains_key(#[trigger] r@[k] as int)
                && self@[r@[k] as int] == now@,
            self.is_ready() ==> r@.no_duplicates(),
            self.is_ready() ==> (r@.len() == 0 || forall|id: int| #[trigger] self@.contains_key(id) && self@[id] == now@
                ==> r@.contains(id as i32)),
    {
        let listed = self.list_alarms();
        let ghost ok = listed is Ok;
        let ghost rows = if listed is Ok { alarm_rows(listed->Ok_0@) } else { Seq::empty() };
        let alarms = alarms_or_empty(listed);
        let due = triggered_alarm_ids(&alarms, now);
        proof {
            lemma_due_ids_members(alarms@, now@);
            if ok && self.is_ready() {
                assert(lists_exactly(rows, self@));
                assert forall|i: int, j: int| 0 <= i < j < alarms@.len() implies #[trigger] alarms@[i].id
                    != #[trigger] alarms@[j].id by {
                    assert(rows[i].0 != rows[j].0);
                }
                assert forall|k: int| 0 <= k < due@.len() implies self@.contains_key(#[trigger] due@[k] as int)
                    && self@[due@[k] as int] == now@ by {
                    let i = choose|i: int| 0 <= i < alarms@.len() && (#[trigger] alarms@[i]).time@ == now@
                        && alarms@[i].id == due@[k];
                    assert(rows[i].0 == alarms@[i].id as int);
                }
                assert forall|id: int| #[trigger] self@.contains_key(id) && self@[id] == now@
                    implies due@.contains(id as i32) by {
                    let i = choose|i: int| 0 <= i < rows.len() && #[trigger] rows[i].0 == id;
                    assert(rows[i] == alarms@[i]@);
                }
            }
        }
        due
    }
}

} // verus!
