use vstd::prelude::*;

verus! {

/// Lexicographic order on texts, character by character by code point: the
/// order SQLite's default `BINARY` collation gives to UTF-8 text.
pub open spec fn text_le(a: Seq<char>, b: Seq<char>) -> bool
    decreases a.len(),
{
    if a.len() == 0 {
        true
    } else if b.len() == 0 {
        false
    } else if a[0] != b[0] {
        (a[0] as u32) < (b[0] as u32)
    } else {
        text_le(a.drop_first(), b.drop_first())
    }
}

/// Some alarm of the table `m` is set at `t`.
pub open spec fn has_time(m: Map<int, Seq<char>>, t: Seq<char>) -> bool {
    exists|id: int| #[trigger] m.contains_key(id) && m[id] == t
}

/// `rows` lists the table `m`: one row per alarm, each with its id and time.
pub open spec fn lists_exactly(rows: Seq<(int, Seq<char>)>, m: Map<int, Seq<char>>) -> bool {
    &&& rows.len() == m.len()
    &&& forall|i: int| 0 <= i < rows.len() ==> #[trigger] m.contains_key(rows[i].0) && m[rows[i].0] == rows[i].1
    &&& forall|i: int, j: int| 0 <= i < j < rows.len() ==> #[trigger] rows[i].0 != #[trigger] rows[j].0
    &&& forall|id: int| #[trigger] m.contains_key(id) ==> exists|i: int| 0 <= i < rows.len() && #[trigger] rows[i].0 == id
}

/// A table that a sequence of rows lists is finite.
pub proof fn lemma_listed_table_finite(rows: Seq<(int, Seq<char>)>, m: Map<int, Seq<char>>)
    requires
        lists_exactly(rows, m),
    ensures
        m.dom().finite(),
{
    let ids = rows.map_values(|p: (int, Seq<char>)| p.0);
    assert forall|id: int| #[trigger] m.dom().contains(id) implies ids.to_set().contains(id) by {
        let i = choose|i: int| 0 <= i < rows.len() && #[trigger] rows[i].0 == id;
        assert(ids[i] == id);
    }
    vstd::seq_lib::seq_to_set_is_finite(ids);
    vstd::set_lib::lemma_set_subset_finite(ids.to_set(), m.dom());
}

/// The rows come in non-decreasing order of their times.
pub open spec fn sorted_by_time(rows: Seq<(int, Seq<char>)>) -> bool {
    forall|i: int, j: int| 0 <= i < j < rows.len() ==> text_le(#[trigger] rows[i].1, #[trigger] rows[j].1)
}

/// The (id, time) rows of a sequence of pairs read from the database.
pub open spec fn row_view(rows: Seq<(i32, String)>) -> Seq<(int, Seq<char>)> {
    rows.map_values(|p: (i32, String)| (p.0 as int, p.1@))
}

/// The table after storing each (id, time) of `added`, one after another.
pub open spec fn after_additions(m: Map<int, Seq<char>>, added: Seq<(int, Seq<char>)>) -> Map<int, Seq<char>>
    decreases added.len(),
{
    if added.len() == 0 {
        m
    } else {
        after_additions(m, added.drop_last()).insert(added.last().0, added.last().1)
    }
}

/// The table after removing the alarms with ids `ids`, one after another.
pub open spec fn after_removals(m: Map<int, Seq<char>>, ids: Seq<int>) -> Map<int, Seq<char>>
    decreases ids.len(),
{
    if ids.len() == 0 {
        m
    } else {
        after_removals(m, ids.drop_last()).remove(ids.last())
    }
}

/// How many of the removals of `ids`, run one after another from `m`, found
/// their id stored when they ran.
pub open spec fn matched_removals(m: Map<int, Seq<char>>, ids: Seq<int>) -> nat
    decreases ids.len(),
{
    if ids.len() == 0 {
        0
    } else {
        let found: nat = if after_removals(m, ids.drop_last()).contains_key(ids.last()) { 1 } else { 0 };
        matched_removals(m, ids.drop_last()) + found
    }
}

/// Each addition of `added` stores a time that the table does not hold yet,
/// under an id that it does not hold yet: what a successful `add_alarm` does.
pub open spec fn fresh_additions(m: Map<int, Seq<char>>, added: Seq<(int, Seq<char>)>) -> bool {
    forall|k: int| 0 <= k < added.len() ==> {
        let before = #[trigger] after_additions(m, added.take(k));
        &&& !before.contains_key(added[k].0)
        &&& !has_time(before, added[k].1)
    }
}

proof fn lemma_additions_len(m: Map<int, Seq<char>>, added: Seq<(int, Seq<char>)>)
    requires
        m.dom().finite(),
        fresh_additions(m, added),
    ensures
        after_additions(m, added).dom().finite(),
        after_additions(m, added).len() == m.len() + added.len(),
    decreases added.len(),
{
    if added.len() > 0 {
        let init = added.drop_last();
        assert forall|k: int| 0 <= k < init.len() implies {
            let before = #[trigger] after_additions(m, init.take(k));
            &&& !before.contains_key(init[k].0)
            &&& !has_time(before, init[k].1)
        } by {
            assert(init.take(k) =~= added.take(k));
            assert(after_additions(m, added.take(k)) == after_additions(m, init.take(k)));
        }
        lemma_additions_len(m, init);
        let k = added.len() - 1;
        assert(added.take(k) =~= init);
        assert(after_additions(m, added.take(k)) == after_additions(m, init));
    }
}

proof fn lemma_removals_len(m: Map<int, Seq<char>>, ids: Seq<int>)
    requires
        m.dom().finite(),
    ensures
        after_removals(m, ids).dom().finite(),
        after_removals(m, ids).len() + matched_removals(m, ids) == m.len(),
    decreases ids.len(),
{
    if ids.len() > 0 {
        lemma_removals_len(m, ids.drop_last());
    }
}

/// Starting from a table, a run of additions with fresh ids and times
/// followed by any run of removals by id (in any order, of stored ids or not)
/// leaves as many alarms as there were, plus the additions, minus the
/// removals that found their id stored.
pub proof fn lemma_count_after_additions_and_removals(
    m: Map<int, Seq<char>>,
    added: Seq<(int, Seq<char>)>,
    ids: Seq<int>,
)
    requires
        m.dom().finite(),
        fresh_additions(m, added),
    ensures
        after_removals(after_additions(m, added), ids).len() == m.len() + added.len()
            - matched_removals(after_additions(m, added), ids),
{
    lemma_additions_len(m, added);
    lemma_removals_len(after_additions(m, added), ids);
}

/// A listing of an empty table is empty.
pub proof fn lemma_empty_table_lists_nothing(rows: Seq<(int, Seq<char>)>, m: Map<int, Seq<char>>)
    requires
        lists_exactly(rows, m),
        m.dom().finite(),
        m.len() == 0,
    ensures
        rows.len() == 0,
{
}

/// Removing an id that is not stored changes nothing, so the count stays.
pub proof fn lemma_remove_absent_is_no_op(m: Map<int, Seq<char>>, id: int)
    requires
        !m.contains_key(id),
    ensures
        m.remove(id) == m,
{
    assert(m.remove(id) =~= m);
}

/// Removing the only alarm by its id leaves none.
pub proof fn lemma_remove_only_alarm(id: int, t: Seq<char>)
    ensures
        map![id => t].remove(id).dom().finite(),
        map![id => t].remove(id).len() == 0,
{
    assert(map![id => t].remove(id).dom() =~= Set::<int>::empty());
}

/// One removal takes one alarm off the count where its id is stored, and
/// none where it is not.
pub proof fn lemma_remove_count(m: Map<int, Seq<char>>, id: int)
    requires
        m.dom().finite(),
    ensures
        m.remove(id).dom().finite(),
        m.remove(id).len() == m.len() - (if m.contains_key(id) { 1int } else { 0int }),
{
    if !m.contains_key(id) {
        assert(m.remove(id) =~= m);
    }
}

/// Two removals by id leave the same table in either order.
pub proof fn lemma_removals_commute(m: Map<int, Seq<char>>, a: int, b: int)
    ensures
        m.remove(a).remove(b) == m.remove(b).remove(a),
{
    assert(m.remove(a).remove(b) =~= m.remove(b).remove(a));
}

/// The times of a sequence of rows.
pub open spec fn row_times(rows: Seq<(int, Seq<char>)>) -> Seq<Seq<char>> {
    rows.map_values(|p: (int, Seq<char>)| p.1)
}

/// No two alarms of the table share a time.
pub open spec fn times_unique(m: Map<int, Seq<char>>) -> bool {
    forall|a: int, b: int| #[trigger] m.contains_key(a) && #[trigger] m.contains_key(b) && m[a] == m[b] ==> a == b
}

proof fn lemma_text_le_reflexive(a: Seq<char>)
    ensures
        text_le(a, a),
    decreases a.len(),
{
    if a.len() > 0 {
        lemma_text_le_reflexive(a.drop_first());
    }
}

proof fn lemma_text_le_antisymmetric(a: Seq<char>, b: Seq<char>)
    requires
        text_le(a, b),
        text_le(b, a),
    ensures
        a == b,
    decreases a.len(),
{
    if a.len() > 0 && b.len() > 0 && a[0] == b[0] {
        lemma_text_le_antisymmetric(a.drop_first(), b.drop_first());
        assert(a =~= seq![a[0]] + a.drop_first());
        assert(b =~= seq![b[0]] + b.drop_first());
    } else if a.len() > 0 && b.len() > 0 {
        assert((a[0] as u32) != (b[0] as u32));
    }
}

proof fn lemma_sorted_same_elements_equal(s1: Seq<Seq<char>>, s2: Seq<Seq<char>>)
    requires
        s1.no_duplicates(),
        s2.no_duplicates(),
        forall|t: Seq<char>| s1.contains(t) <==> s2.contains(t),
        forall|i: int, j: int| 0 <= i < j < s1.len() ==> text_le(#[trigger] s1[i], #[trigger] s1[j]),
        forall|i: int, j: int| 0 <= i < j < s2.len() ==> text_le(#[trigger] s2[i], #[trigger] s2[j]),
    ensures
        s1 == s2,
    decreases s1.len(),
{
    if s1.len() == 0 {
        if s2.len() > 0 {
            assert(s2.contains(s2[0]));
        }
        assert(s1 =~= s2);
    } else {
        assert(s1.contains(s1[0]));
        assert(s2.len() > 0);
        assert(s2.contains(s2[0]));
        let j2 = choose|j: int| 0 <= j < s2.len() && s2[j] == s1[0];
        let j1 = choose|j: int| 0 <= j < s1.len() && s1[j] == s2[0];
        if j2 > 0 {
            assert(text_le(s2[0], s2[j2]));
        } else {
            lemma_text_le_reflexive(s2[0]);
        }
        if j1 > 0 {
            assert(text_le(s1[0], s1[j1]));
        } else {
            lemma_text_le_reflexive(s1[0]);
        }
        lemma_text_le_antisymmetric(s1[0], s2[0]);
        let t1 = s1.drop_first();
        let t2 = s2.drop_first();
        assert forall|t: Seq<char>| t1.contains(t) <==> t2.contains(t) by {
            if t1.contains(t) {
                let k = choose|k: int| 0 <= k < t1.len() && t1[k] == t;
                assert(s1[k + 1] == t);
                assert(s1.contains(t));
                let m = choose|m: int| 0 <= m < s2.len() && s2[m] == t;
                assert(m != 0);
                assert(t2[m - 1] == t);
            }
            if t2.contains(t) {
                let k = choose|k: int| 0 <= k < t2.len() && t2[k] == t;
                assert(s2[k + 1] == t);
                assert(s2.contains(t));
                let m = choose|m: int| 0 <= m < s1.len() && s1[m] == t;
                assert(m != 0);
                assert(t1[m - 1] == t);
            }
        }
        assert forall|i: int, j: int| 0 <= i < j < t1.len() implies text_le(#[trigger] t1[i], #[trigger] t1[j]) by {
            assert(t1[i] == s1[i + 1] && t1[j] == s1[j + 1]);
        }
        assert forall|i: int, j: int| 0 <= i < j < t2.len() implies text_le(#[trigger] t2[i], #[trigger] t2[j]) by {
            assert(t2[i] == s2[i + 1] && t2[j] == s2[j + 1]);
        }
        lemma_sorted_same_elements_equal(t1, t2);
        assert(s1 =~= seq![s1[0]] + t1);
        assert(s2 =~= seq![s2[0]] + t2);
    }
}

proof fn lemma_listing_times(rows: Seq<(int, Seq<char>)>, m: Map<int, Seq<char>>)
    requires
        lists_exactly(rows, m),
        times_unique(m),
    ensures
        row_times(rows).no_duplicates(),
        forall|t: Seq<char>| row_times(rows).contains(t) <==> has_time(m, t),
{
    let ts = row_times(rows);
    assert forall|i: int, j: int| 0 <= i < ts.len() && 0 <= j < ts.len() && i != j implies ts[i] != ts[j] by {
        if i < j {
            assert(rows[i].0 != rows[j].0);
        } else {
            assert(rows[j].0 != rows[i].0);
        }
        assert(m.contains_key(rows[i].0) && m.contains_key(rows[j].0));
    }
    assert forall|t: Seq<char>| ts.contains(t) <==> has_time(m, t) by {
        if ts.contains(t) {
            let i = choose|i: int| 0 <= i < ts.len() && ts[i] == t;
            assert(m.contains_key(rows[i].0));
        }
        if has_time(m, t) {
            let id = choose|id: int| #[trigger] m.contains_key(id) && m[id] == t;
            let i = choose|i: int| 0 <= i < rows.len() && #[trigger] rows[i].0 == id;
            assert(ts[i] == t);
        }
    }
}

/// Two sorted listings of tables that hold the same times, each time once,
/// give the same sequence of times: the order of a listing does not depend on
/// the order in which the alarms were added.
pub proof fn lemma_listing_order_independent(
    rows1: Seq<(int, Seq<char>)>,
    m1: Map<int, Seq<char>>,
    rows2: Seq<(int, Seq<char>)>,
    m2: Map<int, Seq<char>>,
)
    requires
        lists_exactly(rows1, m1),
        lists_exactly(rows2, m2),
        sorted_by_time(rows1),
        sorted_by_time(rows2),
        times_unique(m1),
        times_unique(m2),
        forall|t: Seq<char>| has_time(m1, t) <==> has_time(m2, t),
    ensures
        row_times(rows1) == row_times(rows2),
{
    lemma_listing_times(rows1, m1);
    lemma_listing_times(rows2, m2);
    let s1 = row_times(rows1);
    let s2 = row_times(rows2);
    assert forall|i: int, j: int| 0 <= i < j < s1.len() implies text_le(#[trigger] s1[i], #[trigger] s1[j]) by {
        assert(text_le(rows1[i].1, rows1[j].1));
    }
    assert forall|i: int, j: int| 0 <= i < j < s2.len() implies text_le(#[trigger] s2[i], #[trigger] s2[j]) by {
        assert(text_le(rows2[i].1, rows2[j].1));
    }
    assert forall|t: Seq<char>| s1.contains(t) <==> s2.contains(t) by {
        assert(s1.contains(t) <==> has_time(m1, t));
        assert(s2.contains(t) <==> has_time(m2, t));
    }
    lemma_sorted_same_elements_equal(s1, s2);
}

} // verus!
