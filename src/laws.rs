//! What holds of the store across several operations, stated over its model.

use vstd::prelude::*;

use crate::store::StoreView;

verus! {

/// One operation on the store, as the model sees it.
pub enum Operation {
    Create(Seq<char>),
    List,
    Get(nat),
    Acknowledge(nat),
    Delete(nat),
}

/// The store after one operation.
pub open spec fn apply(s: StoreView, op: Operation) -> StoreView {
    match op {
        Operation::Create(m) => s.after_create(m),
        Operation::Acknowledge(id) => s.after_acknowledge(id),
        Operation::Delete(id) => s.after_delete(id),
        _ => s,
    }
}

/// The ids that the creations among `ops` hand out, in the order served.
pub open spec fn created_ids(s: StoreView, ops: Seq<Operation>) -> Seq<nat>
    decreases ops.len(),
{
    if ops.len() == 0 {
        Seq::empty()
    } else {
        let head = if ops[0] is Create {
            seq![s.next_id()]
        } else {
            Seq::empty()
        };
        head + created_ids(apply(s, ops[0]), ops.drop_first())
    }
}

/// How many of `ops` are creations.
pub open spec fn creations(ops: Seq<Operation>) -> nat
    decreases ops.len(),
{
    if ops.len() == 0 {
        0
    } else {
        (if ops[0] is Create {
            1nat
        } else {
            0nat
        }) + creations(ops.drop_first())
    }
}

/// However the operations on a store are served one after another (as
/// concurrent requests are, each holding the store alone), the creations
/// among them hand out consecutive ids following the last one handed out:
/// no id twice, none skipped, whatever deletions come between.
pub proof fn lemma_ids_consecutive(s: StoreView, ops: Seq<Operation>)
    ensures
        created_ids(s, ops).len() == creations(ops),
        forall|i: int|
            0 <= i < created_ids(s, ops).len() ==> #[trigger] created_ids(s, ops)[i] == s.last_id
                + 1 + i,
    decreases ops.len(),
{
    if ops.len() > 0 {
        let t = apply(s, ops[0]);
        lemma_ids_consecutive(t, ops.drop_first());
        if ops[0] is Create {
            assert(t.last_id == s.last_id + 1);
        } else {
            assert(t.last_id == s.last_id);
        }
        let c = created_ids(s, ops);
        assert forall|i: int| 0 <= i < c.len() implies #[trigger] c[i] == s.last_id + 1 + i by {
            if ops[0] is Create && i > 0 {
                assert(c[i] == created_ids(t, ops.drop_first())[i - 1]);
            } else if !(ops[0] is Create) {
                assert(c[i] == created_ids(t, ops.drop_first())[i]);
            }
        }
    }
}

/// Creating notifications in a new store hands out the ids 1, 2, 3, ... in
/// order, whatever the messages.
pub proof fn lemma_ids_from_one(messages: Seq<Seq<char>>)
    ensures
        created_ids(StoreView::empty(), messages.map_values(|m: Seq<char>| Operation::Create(m)))
            =~= Seq::new(messages.len(), |i: int| (i + 1) as nat),
    decreases messages.len(),
{
    let ops = messages.map_values(|m: Seq<char>| Operation::Create(m));
    lemma_ids_consecutive(StoreView::empty(), ops);
    lemma_creations_all(messages);
}

/// A sequence of creations only counts each of them.
proof fn lemma_creations_all(messages: Seq<Seq<char>>)
    ensures
        creations(messages.map_values(|m: Seq<char>| Operation::Create(m))) == messages.len(),
    decreases messages.len(),
{
    if messages.len() > 0 {
        let ops = messages.map_values(|m: Seq<char>| Operation::Create(m));
        lemma_creations_all(messages.drop_first());
        assert(ops.drop_first() =~= messages.drop_first().map_values(
            |m: Seq<char>| Operation::Create(m),
        ));
    }
}

/// In a valid store each id stands at one place only.
proof fn lemma_position_unique(s: StoreView, id: nat, i: int)
    requires
        s.valid(),
        0 <= i < s.entries.len(),
        s.entries[i].id == id,
    ensures
        s.contains(id),
        s.position(id) == i,
{
    let j = s.position(id);
    if j < i {
        assert(s.entries[j].id < s.entries[i].id);
    } else if i < j {
        assert(s.entries[i].id < s.entries[j].id);
    }
}

/// Every operation keeps the store valid: ids stay distinct and in creation
/// order, and none exceeds the last id handed out.
pub proof fn lemma_apply_keeps_valid(s: StoreView, op: Operation)
    requires
        s.valid(),
    ensures
        apply(s, op).valid(),
{
    let t = apply(s, op);
    match op {
        Operation::Create(m) => {
            assert forall|i: int| 0 <= i < s.entries.len() implies #[trigger] s.entries[i].id
                < t.entries[s.entries.len() as int].id by {}
            assert forall|a: int, b: int|
                0 <= a < b < t.entries.len() implies #[trigger] t.entries[a].id
                < #[trigger] t.entries[b].id by {
                if b < s.entries.len() {
                    assert(s.entries[a].id < s.entries[b].id);
                } else {
                    assert(s.entries[a].id <= s.last_id);
                }
            }
        },
        Operation::Acknowledge(id) => {
            if s.contains(id) {
                assert forall|a: int, b: int|
                    0 <= a < b < t.entries.len() implies #[trigger] t.entries[a].id
                    < #[trigger] t.entries[b].id by {
                    assert(s.entries[a].id < s.entries[b].id);
                }
            }
        },
        Operation::Delete(id) => {
            if s.contains(id) {
                let p = s.position(id);
                assert forall|a: int, b: int|
                    0 <= a < b < t.entries.len() implies #[trigger] t.entries[a].id
                    < #[trigger] t.entries[b].id by {
                    let a0 = if a < p { a } else { a + 1 };
                    let b0 = if b < p { b } else { b + 1 };
                    assert(t.entries[a] == s.entries[a0]);
                    assert(t.entries[b] == s.entries[b0]);
                    assert(s.entries[a0].id < s.entries[b0].id);
                }
                assert forall|a: int| 0 <= a < t.entries.len() implies 1 <= #[trigger] t.entries[
                    a
                ].id <= t.last_id by {
                    let a0 = if a < p { a } else { a + 1 };
                    assert(t.entries[a] == s.entries[a0]);
                }
            }
        },
        _ => {},
    }
}

/// Deleting a present notification removes exactly that entry and keeps the
/// others in their order; afterwards the id is absent, so getting,
/// acknowledging or deleting it again finds nothing and changes nothing.
pub proof fn lemma_delete_removes_exactly(s: StoreView, id: nat)
    requires
        s.valid(),
        s.contains(id),
    ensures
        s.after_delete(id).entries == s.entries.remove(s.position(id)),
        s.after_delete(id).last_id == s.last_id,
        !s.after_delete(id).contains(id),
        s.after_delete(id).lookup(id) is None,
        s.after_delete(id).after_acknowledge(id) == s.after_delete(id),
        s.after_delete(id).after_delete(id) == s.after_delete(id),
{
    let p = s.position(id);
    let t = s.after_delete(id);
    if t.contains(id) {
        let k = t.position(id);
        let k0 = if k < p { k } else { k + 1 };
        assert(t.entries[k] == s.entries[k0]);
        lemma_position_unique(s, id, k0);
    }
}

/// Acknowledging a present notification twice gives the same record as
/// acknowledging it once, and leaves the store as the first call left it.
pub proof fn lemma_acknowledge_idempotent(s: StoreView, id: nat)
    requires
        s.valid(),
        s.contains(id),
    ensures
        s.after_acknowledge(id).contains(id),
        s.after_acknowledge(id).acked(id) == s.acked(id),
        s.after_acknowledge(id).acked(id).ack,
        s.after_acknowledge(id).after_acknowledge(id) == s.after_acknowledge(id),
{
    let p = s.position(id);
    let t = s.after_acknowledge(id);
    assert(t.entries[p].id == id);
    assert(t.valid()) by {
        assert forall|a: int, b: int|
            0 <= a < b < t.entries.len() implies #[trigger] t.entries[a].id
            < #[trigger] t.entries[b].id by {
            assert(s.entries[a].id < s.entries[b].id);
        }
    }
    lemma_position_unique(t, id, p);
    assert(t.entries.update(p, t.acked(id)) =~= t.entries);
}

/// The id that a creation hands out exceeds every id that the store ever
/// handed out, so no id comes back, not even one just deleted.
pub proof fn lemma_no_id_reissued(s: StoreView, deleted: nat, message: Seq<char>)
    requires
        s.valid(),
    ensures
        s.after_delete(deleted).fresh(message).id == s.last_id + 1,
        s.contains(deleted) ==> s.after_delete(deleted).fresh(message).id > deleted,
        forall|i: int|
            0 <= i < s.entries.len() ==> #[trigger] s.entries[i].id < s.after_delete(
                deleted,
            ).fresh(message).id,
{
    if s.contains(deleted) {
        let p = s.position(deleted);
        assert(s.entries[p].id <= s.last_id);
    }
}

} // verus!
