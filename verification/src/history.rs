//! What holds of a collection over any run of creations and updates.
//!
//! A run is a sequence of operations applied one after the other, each as
//! the service applies it: every creation and every update of the service
//! takes the collection from `s` to `after(s, op)`. Lookups and listings
//! change nothing and so have no place in a run.

use crate::model::after;
use crate::model::after_all;
use crate::model::can_create;
use crate::model::created;
use crate::model::creations;
use crate::model::has_id;
use crate::model::ids_distinct;
use crate::model::issued;
use crate::model::lemma_max_id_is_greatest;
use crate::model::lemma_max_id_push;
use crate::model::lemma_record_of_index;
use crate::model::lemma_update_keeps_ids;
use crate::model::max_id;
use crate::model::next_id;
use crate::model::record_of;
use crate::model::revised;
use crate::model::with_update;
use crate::model::Creation;
use crate::model::Operation;
use crate::model::StockView;
use vstd::prelude::*;

verus! {

/// One operation leaves the records that were there in their places, with
/// their ids, and adds at most a record with an id that was not there.
proof fn lemma_step(s: Seq<StockView>, op: Operation)
    ensures
        s.len() <= after(s, op).len() <= s.len() + 1,
        forall|i: int|
            0 <= i < s.len() ==> {
                &&& (#[trigger] after(s, op)[i]).id == s[i].id
                &&& after(s, op)[i].created_at == s[i].created_at
                &&& after(s, op)[i].created_by == s[i].created_by
            },
        after(s, op).len() == s.len() + 1 ==> {
            &&& op is Create
            &&& can_create(s)
            &&& after(s, op).last().id == next_id(s)
            &&& !has_id(s, after(s, op).last().id)
        },
        after(s, op).len() == s.len() ==> !(op is Create && can_create(s)),
        ids_distinct(s) ==> ids_distinct(after(s, op)),
{
    let t = after(s, op);
    match op {
        Operation::Create(c) => {
            if can_create(s) {
                lemma_max_id_is_greatest(s);
                let id = t.last().id;
                if has_id(s, id) {
                    let i = choose|i: int| 0 <= i < s.len() && (#[trigger] s[i]).id == id;
                    assert(s[i].id <= max_id(s));
                }
                if ids_distinct(s) {
                    assert forall|i: int, j: int| 0 <= i < j < t.len() implies (#[trigger] t[i]).id
                        != (#[trigger] t[j]).id by {
                        if j < s.len() {
                            assert(s[i].id != s[j].id);
                        } else {
                            assert(s[i].id <= max_id(s));
                        }
                    }
                }
            }
        },
        Operation::Update(u) => {
            lemma_update_keeps_ids(s, u.id, u.name, u.description);
        },
    }
}

/// Whatever is created or updated, and in whatever order, no two records
/// of the collection come to share an id.
pub proof fn theorem_ids_stay_distinct(s: Seq<StockView>, ops: Seq<Operation>)
    requires
        ids_distinct(s),
    ensures
        ids_distinct(after_all(s, ops)),
    decreases ops.len(),
{
    if ops.len() > 0 {
        theorem_ids_stay_distinct(s, ops.drop_last());
        lemma_step(after_all(s, ops.drop_last()), ops.last());
    }
}

/// Creations alone, run on `s` while ids are left, append one record each,
/// in the order of the calls, with the ids that follow the largest id of
/// `s` one by one and with the fields that the calls gave.
pub proof fn theorem_creations_count_upwards(s: Seq<StockView>, cs: Seq<Creation>)
    requires
        max_id(s) + cs.len() <= u32::MAX,
    ensures
        after_all(s, creations(cs)).len() == s.len() + cs.len(),
        after_all(s, creations(cs)).take(s.len() as int) == s,
        max_id(after_all(s, creations(cs))) == max_id(s) + cs.len(),
        forall|k: int|
            0 <= k < cs.len() ==> #[trigger] after_all(s, creations(cs))[s.len() + k] == (
            StockView {
                id: (max_id(s) + 1 + k) as u32,
                name: cs[k].name,
                description: cs[k].description,
                created_at: cs[k].created_at,
                created_by: cs[k].created_by,
            }),
    decreases cs.len(),
{
    let t = after_all(s, creations(cs));
    if cs.len() == 0 {
        assert(t.take(s.len() as int) =~= s);
    } else {
        let front = cs.drop_last();
        assert(creations(cs).drop_last() =~= creations(front));
        theorem_creations_count_upwards(s, front);
        let before = after_all(s, creations(front));
        let c = cs.last();
        assert(creations(cs).last() == Operation::Create(c));
        let r = created(before, c.name, c.description, c.created_by, c.created_at);
        assert(t == before.push(r));
        lemma_max_id_push(before, r);
        assert(t.take(s.len() as int) =~= before.take(s.len() as int));
        assert forall|k: int| 0 <= k < cs.len() implies #[trigger] t[s.len() + k] == (StockView {
            id: (max_id(s) + 1 + k) as u32,
            name: cs[k].name,
            description: cs[k].description,
            created_at: cs[k].created_at,
            created_by: cs[k].created_by,
        }) by {
            if k < front.len() {
                assert(t[s.len() + k] == before[s.len() + k]);
                assert(front[k] == cs[k]);
            }
        }
    }
}

/// The first `n` creations on the empty collection return the ids 1 to
/// `n`, in the order of the calls.
pub proof fn theorem_first_ids_are_one_to_n(cs: Seq<Creation>)
    requires
        cs.len() <= u32::MAX,
    ensures
        after_all(Seq::empty(), creations(cs)).len() == cs.len(),
        forall|k: int|
            0 <= k < cs.len() ==> (#[trigger] after_all(Seq::empty(), creations(cs))[k]).id == k
                + 1,
{
    let empty = Seq::<StockView>::empty();
    theorem_creations_count_upwards(empty, cs);
    let t = after_all(empty, creations(cs));
    assert forall|k: int| 0 <= k < cs.len() implies (#[trigger] t[k]).id == k + 1 by {
        assert(t[empty.len() + k].id == k + 1);
    }
}

/// A record keeps its place, its id, its creation instant and its creator
/// through every run.
pub proof fn theorem_identity_never_changes(s: Seq<StockView>, ops: Seq<Operation>, i: int)
    requires
        0 <= i < s.len(),
    ensures
        i < after_all(s, ops).len(),
        after_all(s, ops)[i].id == s[i].id,
        after_all(s, ops)[i].created_at == s[i].created_at,
        after_all(s, ops)[i].created_by == s[i].created_by,
    decreases ops.len(),
{
    if ops.len() > 0 {
        theorem_identity_never_changes(s, ops.drop_last(), i);
        let before = after_all(s, ops.drop_last());
        lemma_step(before, ops.last());
        assert(after(before, ops.last())[i].id == before[i].id);
    }
}

/// An update sets name and description of the record to what the call
/// gave, whatever they were before: nothing of an earlier update is left.
pub proof fn theorem_update_replaces_both_texts(
    s: Seq<StockView>,
    id: u32,
    earlier_name: Seq<char>,
    earlier_description: Seq<char>,
    name: Seq<char>,
    description: Seq<char>,
)
    requires
        ids_distinct(s),
        has_id(s, id),
    ensures
        has_id(with_update(s, id, name, description), id),
        record_of(with_update(s, id, name, description), id) == revised(
            record_of(s, id),
            name,
            description,
        ),
        with_update(
            with_update(s, id, earlier_name, earlier_description),
            id,
            name,
            description,
        ) == with_update(s, id, name, description),
{
    let t = with_update(s, id, name, description);
    let i = choose|i: int| 0 <= i < s.len() && (#[trigger] s[i]).id == id;
    lemma_update_keeps_ids(s, id, name, description);
    lemma_record_of_index(s, i);
    lemma_record_of_index(t, i);
    assert(with_update(with_update(s, id, earlier_name, earlier_description), id, name, description)
        =~= t);
}

/// An id that was not in the collection at the start and that no creation
/// of the run returned is not in the collection after the run, so a
/// lookup and an update by it report that it was not found.
pub proof fn theorem_unissued_id_is_absent(s: Seq<StockView>, ops: Seq<Operation>, id: u32)
    requires
        !has_id(s, id),
        !issued(s, ops).contains(id),
    ensures
        !has_id(after_all(s, ops), id),
    decreases ops.len(),
{
    if ops.len() > 0 {
        let before = after_all(s, ops.drop_last());
        let t = after_all(s, ops);
        theorem_unissued_id_is_absent(s, ops.drop_last(), id);
        lemma_step(before, ops.last());
        if has_id(t, id) {
            let i = choose|i: int| 0 <= i < t.len() && (#[trigger] t[i]).id == id;
            if i < before.len() {
                assert(before[i].id == id);
            } else {
                assert(t.last().id == next_id(before));
                assert(issued(s, ops).contains(next_id(before) as u32));
            }
        }
    }
}

/// An id that a creation of the run returned is in the collection after
/// the run: records are never lost.
pub proof fn theorem_issued_id_is_present(s: Seq<StockView>, ops: Seq<Operation>, id: u32)
    requires
        issued(s, ops).contains(id),
    ensures
        has_id(after_all(s, ops), id),
    decreases ops.len(),
{
    if ops.len() > 0 {
        let before = after_all(s, ops.drop_last());
        let t = after_all(s, ops);
        lemma_step(before, ops.last());
        if issued(s, ops.drop_last()).contains(id) {
            theorem_issued_id_is_present(s, ops.drop_last(), id);
            let i = choose|i: int| 0 <= i < before.len() && (#[trigger] before[i]).id == id;
            assert(t[i].id == id);
        } else {
            assert(t[t.len() - 1].id == id);
        }
    }
}

/// A record stays as it was last returned until the next update of its own
/// id: a creation and an update of another id leave it untouched.
pub proof fn theorem_record_stays_until_updated(s: Seq<StockView>, op: Operation, id: u32)
    requires
        ids_distinct(s),
        has_id(s, id),
        op matches Operation::Update(u) ==> u.id != id,
    ensures
        has_id(after(s, op), id),
        record_of(after(s, op), id) == record_of(s, id),
{
    let t = after(s, op);
    let i = choose|i: int| 0 <= i < s.len() && (#[trigger] s[i]).id == id;
    lemma_step(s, op);
    lemma_record_of_index(s, i);
    assert(t[i] == s[i]);
    lemma_record_of_index(t, i);
}

} // verus!
