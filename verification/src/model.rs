//! The mathematical model of the collection: a sequence of record views in
//! insertion order, the functions on it that the contracts speak of, and the
//! operations that change it.

use chrono::NaiveDateTime;
use vstd::prelude::*;

verus! {

/// What a stock record is, with its texts as sequences of characters.
pub struct StockView {
    pub id: u32,
    pub name: Seq<char>,
    pub description: Seq<char>,
    pub created_at: NaiveDateTime,
    pub created_by: u32,
}

/// No two records of `s` share an id.
pub open spec fn ids_distinct(s: Seq<StockView>) -> bool {
    forall|i: int, j: int| 0 <= i < j < s.len() ==> (#[trigger] s[i]).id != (#[trigger] s[j]).id
}

/// Some record of `s` has the id `id`.
pub open spec fn has_id(s: Seq<StockView>, id: u32) -> bool {
    exists|i: int| 0 <= i < s.len() && (#[trigger] s[i]).id == id
}

/// A record of `s` with the id `id`; the only one where the ids of `s` are
/// distinct, and arbitrary where `s` has none.
pub open spec fn record_of(s: Seq<StockView>, id: u32) -> StockView {
    s[choose|i: int| 0 <= i < s.len() && (#[trigger] s[i]).id == id]
}

/// The largest id in `s`, and 0 for the empty collection.
pub open spec fn max_id(s: Seq<StockView>) -> u32
    decreases s.len(),
{
    if s.len() == 0 {
        0
    } else if s.last().id >= max_id(s.drop_last()) {
        s.last().id
    } else {
        max_id(s.drop_last())
    }
}

/// The id that the next creation on `s` assigns. It is out of the range of
/// ids where `s` already holds the largest one.
pub open spec fn next_id(s: Seq<StockView>) -> int {
    max_id(s) + 1
}

/// The id can still be assigned: it fits the range of ids.
pub open spec fn can_create(s: Seq<StockView>) -> bool {
    next_id(s) <= u32::MAX
}

/// The record that a creation on `s` makes, where an id is left.
pub open spec fn created(
    s: Seq<StockView>,
    name: Seq<char>,
    description: Seq<char>,
    created_by: u32,
    created_at: NaiveDateTime,
) -> StockView {
    StockView { id: next_id(s) as u32, name, description, created_at, created_by }
}

/// `r` with its name and description replaced, and nothing else.
pub open spec fn revised(r: StockView, name: Seq<char>, description: Seq<char>) -> StockView {
    StockView { name, description, ..r }
}

/// `s` after an update of the id `id`: every record with that id is
/// revised, every other record and the order are as before.
pub open spec fn with_update(
    s: Seq<StockView>,
    id: u32,
    name: Seq<char>,
    description: Seq<char>,
) -> Seq<StockView> {
    Seq::new(
        s.len(),
        |i: int|
            if s[i].id == id {
                revised(s[i], name, description)
            } else {
                s[i]
            },
    )
}

/// What a creation is called with, and the instant at which it runs.
pub struct Creation {
    pub name: Seq<char>,
    pub description: Seq<char>,
    pub created_by: u32,
    pub created_at: NaiveDateTime,
}

/// What an update is called with.
pub struct Revision {
    pub id: u32,
    pub name: Seq<char>,
    pub description: Seq<char>,
}

/// A call that may change the collection.
pub enum Operation {
    Create(Creation),
    Update(Revision),
}

/// The creation that a call with these arguments at that instant is.
pub open spec fn creation(
    name: Seq<char>,
    description: Seq<char>,
    created_by: u32,
    created_at: NaiveDateTime,
) -> Operation {
    Operation::Create(Creation { name, description, created_by, created_at })
}

/// The update that a call with these arguments is.
pub open spec fn revision(id: u32, name: Seq<char>, description: Seq<char>) -> Operation {
    Operation::Update(Revision { id, name, description })
}

/// The collection after one operation on `s`. A creation for which no id
/// is left and an update of an id that is not there leave `s` as it is.
pub open spec fn after(s: Seq<StockView>, op: Operation) -> Seq<StockView> {
    match op {
        Operation::Create(c) => if can_create(s) {
            s.push(created(s, c.name, c.description, c.created_by, c.created_at))
        } else {
            s
        },
        Operation::Update(u) => with_update(s, u.id, u.name, u.description),
    }
}

/// The collection after the operations `ops` on `s`, first to last.
pub open spec fn after_all(s: Seq<StockView>, ops: Seq<Operation>) -> Seq<StockView>
    decreases ops.len(),
{
    if ops.len() == 0 {
        s
    } else {
        after(after_all(s, ops.drop_last()), ops.last())
    }
}

/// The ids that the creations among `ops`, run on `s`, returned.
pub open spec fn issued(s: Seq<StockView>, ops: Seq<Operation>) -> Set<u32>
    decreases ops.len(),
{
    if ops.len() == 0 {
        Set::empty()
    } else {
        let before = after_all(s, ops.drop_last());
        let earlier = issued(s, ops.drop_last());
        if ops.last() is Create && can_create(before) {
            earlier.insert(next_id(before) as u32)
        } else {
            earlier
        }
    }
}

/// The run that makes one creation of each element of `cs`, in order.
pub open spec fn creations(cs: Seq<Creation>) -> Seq<Operation> {
    cs.map_values(|c: Creation| Operation::Create(c))
}

/// Where the ids of `s` are distinct, the record found under the id of
/// `s[i]` is `s[i]` itself.
pub proof fn lemma_record_of_index(s: Seq<StockView>, i: int)
    requires
        ids_distinct(s),
        0 <= i < s.len(),
    ensures
        has_id(s, s[i].id),
        record_of(s, s[i].id) == s[i],
{
    let id = s[i].id;
    let j = choose|j: int| 0 <= j < s.len() && (#[trigger] s[j]).id == id;
    assert(0 <= j < s.len() && s[j].id == id);
    if j != i {
        if j < i {
            assert(s[j].id != s[i].id);
        } else {
            assert(s[i].id != s[j].id);
        }
    }
}

/// No id in `s` is above `max_id(s)`, and `max_id(s)` is an id in `s`
/// unless `s` is empty.
pub proof fn lemma_max_id_is_greatest(s: Seq<StockView>)
    ensures
        forall|i: int| 0 <= i < s.len() ==> (#[trigger] s[i]).id <= max_id(s),
        s.len() == 0 ==> max_id(s) == 0,
        s.len() > 0 ==> has_id(s, max_id(s)),
    decreases s.len(),
{
    if s.len() > 0 {
        let front = s.drop_last();
        lemma_max_id_is_greatest(front);
        assert forall|i: int| 0 <= i < s.len() implies (#[trigger] s[i]).id <= max_id(s) by {
            if i < front.len() {
                assert(front[i].id <= max_id(front));
            }
        }
        if s.last().id >= max_id(front) {
            assert(s[s.len() - 1].id == max_id(s));
        } else {
            let i = choose|i: int| 0 <= i < front.len() && (#[trigger] front[i]).id == max_id(front);
            assert(s[i].id == max_id(s));
        }
    }
}

/// The largest id after one more record.
pub proof fn lemma_max_id_push(s: Seq<StockView>, r: StockView)
    ensures
        max_id(s.push(r)) == if r.id >= max_id(s) {
            r.id
        } else {
            max_id(s)
        },
{
    assert(s.push(r).drop_last() =~= s);
}

/// An update of an id that is not there changes nothing.
pub proof fn lemma_update_of_absent_id(
    s: Seq<StockView>,
    id: u32,
    name: Seq<char>,
    description: Seq<char>,
)
    requires
        !has_id(s, id),
    ensures
        with_update(s, id, name, description) == s,
{
    assert forall|i: int| 0 <= i < s.len() implies (#[trigger] s[i]).id != id by {}
    assert(with_update(s, id, name, description) =~= s);
}

/// An update changes no id and moves no record.
pub proof fn lemma_update_keeps_ids(
    s: Seq<StockView>,
    id: u32,
    name: Seq<char>,
    description: Seq<char>,
)
    ensures
        with_update(s, id, name, description).len() == s.len(),
        forall|i: int|
            0 <= i < s.len() ==> (#[trigger] with_update(s, id, name, description)[i]).id
                == s[i].id,
        ids_distinct(s) ==> ids_distinct(with_update(s, id, name, description)),
        forall|other: u32|
            has_id(with_update(s, id, name, description), other) <==> has_id(s, other),
{
    let t = with_update(s, id, name, description);
    assert forall|i: int| 0 <= i < s.len() implies (#[trigger] t[i]).id == s[i].id by {}
    if ids_distinct(s) {
        assert forall|i: int, j: int| 0 <= i < j < t.len() implies (#[trigger] t[i]).id != (
        #[trigger] t[j]).id by {
            assert(s[i].id != s[j].id);
        }
    }
    assert forall|other: u32| has_id(t, other) <==> has_id(s, other) by {
        if has_id(t, other) {
            let i = choose|i: int| 0 <= i < t.len() && (#[trigger] t[i]).id == other;
            assert(s[i].id == other);
        }
        if has_id(s, other) {
            let i = choose|i: int| 0 <= i < s.len() && (#[trigger] s[i]).id == other;
            assert(t[i].id == other);
        }
    }
}

} // verus!
