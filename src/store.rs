//! The notification store: an insertion-ordered map from id to notification,
//! plus a monotonic id allocator.

use vstd::prelude::*;
use indexmap::IndexMap;

use crate::types::{Notification, NotificationView, ResourceError};

verus! {

#[verifier::external_type_specification]
#[verifier::external_body]
#[verifier::reject_recursive_types(K)]
#[verifier::reject_recursive_types(V)]
#[verifier::reject_recursive_types(S)]
pub struct ExIndexMap<K, V, S>(IndexMap<K, V, S>);

/// The key-value pairs of an index map of notifications, in the map's order.
pub uninterp spec fn index_entries(m: IndexMap<usize, Notification>) -> Seq<(usize, NotificationView)>;

/// Whether some pair of `e` has the key `k`.
pub open spec fn has_key(e: Seq<(usize, NotificationView)>, k: usize) -> bool {
    exists|i: int| 0 <= i < e.len() && #[trigger] e[i].0 == k
}

/// Relies on `IndexMap::new`: a new map holds no pair.
#[verifier::external_body]
fn map_new() -> (m: IndexMap<usize, Notification>)
    ensures
        index_entries(m) == Seq::<(usize, NotificationView)>::empty(),
{
    IndexMap::new()
}

/// Relies on `IndexMap::insert`: an existing key keeps its place and gets the
/// new value, and the old value is returned; a new key goes last.
#[verifier::external_body]
fn map_insert(m: &mut IndexMap<usize, Notification>, k: usize, v: Notification) -> (r: Option<
    Notification,
>)
    ensures
        has_key(index_entries(*old(m)), k) ==> exists|i: int|
            0 <= i < index_entries(*old(m)).len() && #[trigger] index_entries(*old(m))[i].0 == k
                && index_entries(*final(m)) == index_entries(*old(m)).update(i, (k, v@))
                && r is Some && r->0@ == index_entries(*old(m))[i].1,
        !has_key(index_entries(*old(m)), k) ==> index_entries(*final(m)) == index_entries(
            *old(m),
        ).push((k, v@)) && r is None,
{
    m.insert(k, v)
}

/// Relies on `IndexMap::get`, the value cloned: the value stored under `k`,
/// if any.
#[verifier::external_body]
fn map_get(m: &IndexMap<usize, Notification>, k: usize) -> (r: Option<Notification>)
    ensures
        match r {
            Some(v) => exists|i: int|
                0 <= i < index_entries(*m).len() && #[trigger] index_entries(*m)[i].0 == k
                    && v@ == index_entries(*m)[i].1,
            None => !has_key(index_entries(*m), k),
        },
{
    m.get(&k).cloned()
}

/// Relies on `IndexMap::shift_remove`: the pair of key `k` is removed and
/// the pairs after it keep their order.
#[verifier::external_body]
fn map_shift_remove(m: &mut IndexMap<usize, Notification>, k: usize) -> (r: Option<Notification>)
    ensures
        match r {
            Some(v) => exists|i: int|
                0 <= i < index_entries(*old(m)).len() && #[trigger] index_entries(*old(m))[i].0
                    == k && v@ == index_entries(*old(m))[i].1 && index_entries(*final(m))
                    == index_entries(*old(m)).remove(i),
            None => !has_key(index_entries(*old(m)), k) && index_entries(*final(m))
                == index_entries(*old(m)),
        },
{
    m.shift_remove(&k)
}

/// Relies on `IndexMap::values`, each value cloned: the values in the map's
/// order.
#[verifier::external_body]
fn map_values(m: &IndexMap<usize, Notification>) -> (r: Vec<Notification>)
    ensures
        r@.len() == index_entries(*m).len(),
        forall|i: int| 0 <= i < r@.len() ==> #[trigger] r@[i]@ == index_entries(*m)[i].1,
{
    m.values().cloned().collect()
}

/// What the store holds, as a mathematical value: the notifications present,
/// in creation order, and the id of the most recently created notification
/// (0 before the first one).
pub struct StoreView {
    pub entries: Seq<NotificationView>,
    pub last_id: nat,
}

impl StoreView {
    /// The store as it is created: empty, no id handed out yet.
    pub open spec fn empty() -> StoreView {
        StoreView { entries: Seq::empty(), last_id: 0 }
    }

    /// Ids strictly increase along the order, and each lies between 1 and
    /// the last id handed out. So the ids are distinct, and none of them is
    /// ever handed out again.
    pub open spec fn valid(self) -> bool {
        &&& forall|i: int, j: int|
            0 <= i < j < self.entries.len() ==> #[trigger] self.entries[i].id
                < #[trigger] self.entries[j].id
        &&& forall|i: int|
            0 <= i < self.entries.len() ==> 1 <= #[trigger] self.entries[i].id <= self.last_id
    }

    /// Whether a notification of this id is present.
    pub open spec fn contains(self, id: nat) -> bool {
        exists|i: int| 0 <= i < self.entries.len() && #[trigger] self.entries[i].id == id
    }

    /// Where the notification of this id stands in the order.
    pub open spec fn position(self, id: nat) -> int {
        choose|i: int| 0 <= i < self.entries.len() && #[trigger] self.entries[i].id == id
    }

    /// The notification of this id, if present.
    pub open spec fn lookup(self, id: nat) -> Option<NotificationView> {
        if self.contains(id) {
            Some(self.entries[self.position(id)])
        } else {
            None
        }
    }

    /// The id that the next creation hands out.
    pub open spec fn next_id(self) -> nat {
        self.last_id + 1
    }

    /// The notification that creating one with this message makes.
    pub open spec fn fresh(self, message: Seq<char>) -> NotificationView {
        NotificationView { id: self.next_id(), message, ack: false }
    }

    /// The store after creating a notification with this message.
    pub open spec fn after_create(self, message: Seq<char>) -> StoreView {
        StoreView { entries: self.entries.push(self.fresh(message)), last_id: self.next_id() }
    }

    /// The notification of this id, acknowledged.
    pub open spec fn acked(self, id: nat) -> NotificationView {
        NotificationView { ack: true, ..self.entries[self.position(id)] }
    }

    /// The store after acknowledging the notification of this id.
    pub open spec fn after_acknowledge(self, id: nat) -> StoreView {
        if self.contains(id) {
            StoreView { entries: self.entries.update(self.position(id), self.acked(id)), ..self }
        } else {
            self
        }
    }

    /// The store after deleting the notification of this id.
    pub open spec fn after_delete(self, id: nat) -> StoreView {
        if self.contains(id) {
            StoreView { entries: self.entries.remove(self.position(id)), ..self }
        } else {
            self
        }
    }
}

/// The notification store: notifications by id in creation order, and the
/// id of the most recently created one, from which the next id follows.
pub struct AppState {
    notifications: IndexMap<usize, Notification>,
    last_id: usize,
}

impl View for AppState {
    type V = StoreView;

    closed spec fn view(&self) -> StoreView {
        StoreView {
            entries: index_entries(self.notifications).map_values(
                |p: (usize, NotificationView)| p.1,
            ),
            last_id: self.last_id as nat,
        }
    }
}

impl AppState {
    /// The store's model is valid, and each notification is stored under
    /// its own id.
    pub closed spec fn wf(&self) -> bool {
        &&& self@.valid()
        &&& forall|i: int|
            0 <= i < index_entries(self.notifications).len() ==> (#[trigger] index_entries(
                self.notifications,
            )[i]).0 as nat == index_entries(self.notifications)[i].1.id
    }

    /// A well-formed store has a valid model.
    pub proof fn lemma_wf_valid(&self)
        requires
            self.wf(),
        ensures
            self@.valid(),
    {
    }

    /// Creates an empty store.
    pub fn new() -> (r: AppState)
        ensures
            r.wf(),
            r@ == StoreView::empty(),
    {
        let r = AppState { notifications: map_new(), last_id: 0 };
        assert(r@.entries =~= Seq::<NotificationView>::empty());
        r
    }

    /// Whether the next id still fits in a `usize`, so that `create` may run.
    pub fn can_create(&self) -> (r: bool)
        ensures
            r == (self@.last_id < usize::MAX),
    {
        self.last_id < usize::MAX
    }

    /// Creates a notification with the given message, under the next id.
    pub fn create(&mut self, message: String) -> (r: Notification)
        requires
            old(self).wf(),
            old(self)@.last_id < usize::MAX,
        ensures
            final(self).wf(),
            final(self)@ == old(self)@.after_create(message@),
            r@ == old(self)@.fresh(message@),
    {
        let ghost before = index_entries(self.notifications);
        let id = self.last_id + 1;
        let r = Notification { id, message: message.clone(), ack: false };
        let stored = Notification { id, message, ack: false };
        assert(!has_key(before, id)) by {
            if has_key(before, id) {
                let i = choose|i: int| 0 <= i < before.len() && #[trigger] before[i].0 == id;
                assert(self@.entries[i].id <= self@.last_id);
            }
        }
        map_insert(&mut self.notifications, id, stored);
        self.last_id = id;
        assert(self@.entries =~= old(self)@.entries.push(old(self)@.fresh(message@)));
        r
    }

    /// A pair of the map with key `id` stands where the model places `id`.
    proof fn lemma_key_position(&self, i: int, id: usize)
        requires
            self.wf(),
            0 <= i < index_entries(self.notifications).len(),
            index_entries(self.notifications)[i].0 == id,
        ensures
            self@.contains(id as nat),
            self@.position(id as nat) == i,
            self@.entries[i] == index_entries(self.notifications)[i].1,
    {
        assert(self@.entries[i].id == id as nat);
        let j = self@.position(id as nat);
        assert(self@.entries[j].id == id as nat);
        if j < i {
            assert(self@.entries[j].id < self@.entries[i].id);
        } else if i < j {
            assert(self@.entries[i].id < self@.entries[j].id);
        }
    }

    /// With no pair of key `id` in the map, the model holds no such id.
    proof fn lemma_key_absent(&self, id: usize)
        requires
            self.wf(),
            !has_key(index_entries(self.notifications), id),
        ensures
            !self@.contains(id as nat),
    {
        if self@.contains(id as nat) {
            let j = self@.position(id as nat);
            assert(index_entries(self.notifications)[j].0 == id);
        }
    }

    /// Gets a notification by its ID.
    pub fn get(&self, id: usize) -> (r: Result<Notification, ResourceError>)
        requires
            self.wf(),
        ensures
            match r {
                Ok(n) => self@.lookup(id as nat) == Some(n@),
                Err(e) => self@.lookup(id as nat) is None && e == (ResourceError::NotFound { id }),
            },
    {
        match map_get(&self.notifications, id) {
            Some(n) => {
                proof {
                    let i = choose|i: int|
                        0 <= i < index_entries(self.notifications).len()
                            && #[trigger] index_entries(self.notifications)[i].0 == id
                            && n@ == index_entries(self.notifications)[i].1;
                    self.lemma_key_position(i, id);
                }
                Ok(n)
            },
            None => {
                proof {
                    self.lemma_key_absent(id);
                }
                Err(ResourceError::NotFound { id })
            },
        }
    }

    /// Acknowledges a notification by its ID; acknowledging one that is
    /// already acknowledged changes nothing.
    pub fn acknowledge(&mut self, id: usize) -> (r: Result<Notification, ResourceError>)
        requires
            old(self).wf(),
        ensures
            final(self).wf(),
            final(self)@ == old(self)@.after_acknowledge(id as nat),
            match r {
                Ok(n) => old(self)@.contains(id as nat) && n@ == old(self)@.acked(id as nat),
                Err(e) => !old(self)@.contains(id as nat) && e == (ResourceError::NotFound { id }),
            },
    {
        let ghost before = index_entries(self.notifications);
        match map_get(&self.notifications, id) {
            Some(n) => {
                let ghost i = choose|i: int|
                    0 <= i < before.len() && #[trigger] before[i].0 == id && n@ == before[i].1;
                proof {
                    self.lemma_key_position(i, id);
                }
                let updated = Notification { id: n.id, message: n.message.clone(), ack: true };
                let stored = updated.duplicate();
                map_insert(&mut self.notifications, id, stored);
                proof {
                    let k = choose|k: int|
                        0 <= k < before.len() && #[trigger] before[k].0 == id
                            && index_entries(self.notifications) == before.update(k, (id, updated@));
                    old(self).lemma_key_position(k, id);
                    assert(self@.entries =~= old(self)@.entries.update(i, updated@));
                    assert forall|a: int, b: int|
                        0 <= a < b < self@.entries.len() implies #[trigger] self@.entries[a].id
                        < #[trigger] self@.entries[b].id by {
                        assert(old(self)@.entries[a].id < old(self)@.entries[b].id);
                    }
                }
                Ok(updated)
            },
            None => {
                proof {
                    self.lemma_key_absent(id);
                }
                Err(ResourceError::NotFound { id })
            },
        }
    }

    /// Deletes a notification by its ID; the others keep their order.
    pub fn delete(&mut self, id: usize) -> (r: Result<Notification, ResourceError>)
        requires
            old(self).wf(),
        ensures
            final(self).wf(),
            final(self)@ == old(self)@.after_delete(id as nat),
            match r {
                Ok(n) => old(self)@.lookup(id as nat) == Some(n@),
                Err(e) => old(self)@.lookup(id as nat) is None && e == (ResourceError::NotFound {
                    id,
                }),
            },
    {
        let ghost before = index_entries(self.notifications);
        match map_shift_remove(&mut self.notifications, id) {
            Some(n) => {
                proof {
                    let i = choose|i: int|
                        0 <= i < before.len() && #[trigger] before[i].0 == id && n@ == before[i].1
                            && index_entries(self.notifications) == before.remove(i);
                    old(self).lemma_key_position(i, id);
                    assert(self@.entries =~= old(self)@.entries.remove(i));
                    assert forall|a: int, b: int|
                        0 <= a < b < self@.entries.len() implies #[trigger] self@.entries[a].id
                        < #[trigger] self@.entries[b].id by {
                        let a0 = if a < i { a } else { a + 1 };
                        let b0 = if b < i { b } else { b + 1 };
                        assert(old(self)@.entries[a0].id < old(self)@.entries[b0].id);
                    }
                    assert forall|a: int|
                        0 <= a < index_entries(self.notifications).len() implies (
                        #[trigger] index_entries(self.notifications)[a]).0 as nat
                        == index_entries(self.notifications)[a].1.id by {
                        let a0 = if a < i { a } else { a + 1 };
                        assert(index_entries(self.notifications)[a] == before[a0]);
                    }
                }
                Ok(n)
            },
            None => {
                proof {
                    old(self).lemma_key_absent(id);
                }
                Err(ResourceError::NotFound { id })
            },
        }
    }

    /// All notifications, in creation order.
    pub fn list(&self) -> (r: Vec<Notification>)
        requires
            self.wf(),
        ensures
            r@.len() == self@.entries.len(),
            forall|i: int| 0 <= i < r@.len() ==> #[trigger] r@[i]@ == self@.entries[i],
    {
        map_values(&self.notifications)
    }
}

} // verus!
