//! The peer registry: an insertion-ordered mapping from node key to [`Peer`]
//! that records a structured change notification for every mutation, so
//! observers can apply incremental diffs instead of re-reading the list.
use vstd::prelude::*;

use crate::index_map::{
    has_key, im_get, im_get_index, im_insert_full, im_len, im_new, im_shift_remove_full,
    index_map_entries, key_index, lemma_key_index,
};
use crate::peer::Peer;

verus! {

/// One change notification: starting at `position`, `removed` entries were
/// taken out and the entries whose keys are `added_keys` were put in.
///
/// A bare notification would carry the position and the two counts and let
/// observers read the added entries back from the list; here the added keys
/// travel with the notification, so a change record is self-contained.
#[derive(Debug)]
pub struct ListChange {
    pub position: usize,
    pub removed: usize,
    pub added_keys: Vec<u64>,
}

impl Clone for ListChange {
    fn clone(&self) -> (r: Self)
        ensures
            r.position == self.position,
            r.removed == self.removed,
            r.added_keys@ == self.added_keys@,
    {
        ListChange {
            position: self.position,
            removed: self.removed,
            added_keys: clone_keys(&self.added_keys),
        }
    }
}

fn clone_keys(keys: &Vec<u64>) -> (r: Vec<u64>)
    ensures
        r@ == keys@,
{
    let mut r: Vec<u64> = Vec::new();
    let mut i: usize = 0;
    while i < keys.len()
        invariant
            i <= keys.len(),
            r@ == keys@.subrange(0, i as int),
        decreases keys.len() - i,
    {
        r.push(keys[i]);
        i = i + 1;
        proof {
            assert(r@ =~= keys@.subrange(0, i as int));
        }
    }
    proof {
        assert(keys@.subrange(0, keys@.len() as int) =~= keys@);
    }
    r
}

/// A key sequence after one change notification has been applied to it.
pub open spec fn replay_change(l: Seq<u64>, c: ListChange) -> Seq<u64> {
    if c.position + c.removed <= l.len() {
        l.subrange(0, c.position as int) + c.added_keys@ + l.subrange(
            c.position + c.removed,
            l.len() as int,
        )
    } else {
        l
    }
}

/// The key order reconstructed by replaying a change sequence against an
/// initially empty list.
pub open spec fn replay_changes(cs: Seq<ListChange>) -> Seq<u64>
    decreases cs.len(),
{
    if cs.len() == 0 {
        Seq::<u64>::empty()
    } else {
        replay_change(replay_changes(cs.drop_last()), cs.last())
    }
}

/// The peer registry. Iteration order is insertion order; an upsert keeps the
/// existing entry's position; a removal shifts later entries down.
pub struct PeerList {
    map: indexmap::IndexMap<u64, usize>,
    arena: Vec<Option<Peer>>,
    changes: Vec<ListChange>,
}

impl PeerList {
    /// The registry's entries as the underlying ordered (key, slot) pairs.
    pub closed spec fn entries(self) -> Seq<(u64, usize)> {
        index_map_entries(self.map)
    }

    /// The keys in registry order.
    pub open spec fn keys(self) -> Seq<u64> {
        Seq::new(self.entries().len(), |i: int| self.entries()[i].0)
    }

    /// The peers in registry order.
    pub closed spec fn peers(self) -> Seq<Peer> {
        Seq::new(
            self.entries().len(),
            |i: int| self.arena@[self.entries()[i].1 as int].unwrap(),
        )
    }

    /// The change notifications emitted so far, oldest first.
    pub closed spec fn change_log(self) -> Seq<ListChange> {
        self.changes@
    }

    /// Whether a peer with the given key is registered.
    pub open spec fn has(self, key: u64) -> bool {
        has_key(self.entries(), key)
    }

    /// Position of the peer with the given key, meaningful when `has(key)`.
    pub open spec fn index_of(self, key: u64) -> int {
        key_index(self.entries(), key)
    }

    /// Internal consistency: no duplicate keys, every entry's slot holds the
    /// peer it stands for, and the change log replays to the key order.
    pub closed spec fn wf(self) -> bool {
        &&& forall|i: int, j: int|
            0 <= i < j < self.entries().len() ==> self.entries()[i].0 != self.entries()[j].0
        &&& forall|i: int, j: int|
            0 <= i < j < self.entries().len() ==> self.entries()[i].1 != self.entries()[j].1
        &&& forall|i: int|
            0 <= i < self.entries().len() ==> self.entries()[i].1 < self.arena@.len()
        &&& forall|i: int|
            0 <= i < self.entries().len() ==> (#[trigger] self.arena@[self.entries()[i].1 as int])
                is Some
        &&& forall|i: int|
            0 <= i < self.entries().len() ==> (#[trigger] self.arena@[self.entries()[i].1 as int]).unwrap().spec_id()
                == self.entries()[i].0
        &&& replay_changes(self.changes@) == self.keys()
    }

    /// An empty registry with an empty change log.
    pub fn new() -> (r: PeerList)
        ensures
            r.wf(),
            r.keys() == Seq::<u64>::empty(),
            r.peers() == Seq::<Peer>::empty(),
            r.change_log() == Seq::<ListChange>::empty(),
    {
        let r = PeerList { map: im_new(), arena: Vec::new(), changes: Vec::new() };
        proof {
            assert(r.keys() =~= Seq::<u64>::empty());
            assert(r.peers() =~= Seq::<Peer>::empty());
        }
        r
    }

    /// Number of registered peers.
    pub fn len(&self) -> (n: usize)
        ensures
            n == self.keys().len(),
    {
        im_len(&self.map)
    }

    /// Whether a peer with the given key is registered.
    pub fn contains(&self, key: u64) -> (r: bool)
        requires
            self.wf(),
        ensures
            r == self.has(key),
    {
        let slot = im_get(&self.map, key);
        proof {
            lemma_key_index(self.entries(), key);
        }
        slot.is_some()
    }

    /// The registered peer with the given key, if any.
    pub fn get(&self, key: u64) -> (r: Option<Peer>)
        requires
            self.wf(),
        ensures
            match r {
                Some(p) => self.has(key) && p == self.peers()[self.index_of(key)],
                None => !self.has(key),
            },
    {
        proof {
            lemma_key_index(self.entries(), key);
        }
        match im_get(&self.map, key) {
            Some(slot) => {
                proof {
                    let i = choose|i: int|
                        0 <= i < self.entries().len() && self.entries()[i] == (key, slot);
                    assert(self.entries()[i].0 == key);
                    assert(i == self.index_of(key)) by {
                        lemma_key_index(self.entries(), key);
                        let ki = self.index_of(key);
                        if i != ki {
                            assert(self.entries()[ki].0 == key);
                        }
                    }
                }
                match &self.arena[slot] {
                    Some(p) => Some(p.clone()),
                    None => None,
                }
            },
            None => None,
        }
    }

    /// The peer at the given position in registry order, if in range.
    pub fn item(&self, position: usize) -> (r: Option<Peer>)
        requires
            self.wf(),
        ensures
            position < self.keys().len() ==> r == Some(self.peers()[position as int]),
            position >= self.keys().len() ==> r is None,
    {
        match im_get_index(&self.map, position) {
            Some((_, slot)) => match &self.arena[slot] {
                Some(p) => Some(p.clone()),
                None => None,
            },
            None => None,
        }
    }

    /// The change notifications emitted so far, oldest first.
    pub fn changes(&self) -> (r: &Vec<ListChange>)
        ensures
            r@ == self.change_log(),
    {
        &self.changes
    }

    /// Registers or updates a peer; returns true exactly when the key is new.
    ///
    /// An update replaces the stored peer but keeps its position; an insert
    /// appends at the end. Either way one change notification is recorded.
    pub fn insert(&mut self, peer: Peer) -> (is_new: bool)
        requires
            old(self).wf(),
        ensures
            final(self).wf(),
            is_new == !old(self).has(peer.spec_id()),
            old(self).has(peer.spec_id()) ==> {
                &&& final(self).keys() == old(self).keys()
                &&& final(self).peers() == old(self).peers().update(
                    old(self).index_of(peer.spec_id()),
                    peer,
                )
            },
            !old(self).has(peer.spec_id()) ==> {
                &&& final(self).keys() == old(self).keys().push(peer.spec_id())
                &&& final(self).peers() == old(self).peers().push(peer)
            },
            final(self).change_log().len() == old(self).change_log().len() + 1,
            forall|i: int|
                0 <= i < old(self).change_log().len() ==> final(self).change_log()[i] == old(
                    self,
                ).change_log()[i],
            ({
                let c = final(self).change_log().last();
                &&& c.position == if old(self).has(peer.spec_id()) {
                    old(self).index_of(peer.spec_id())
                } else {
                    old(self).keys().len() as int
                }
                &&& c.removed == if old(self).has(peer.spec_id()) {
                    1int
                } else {
                    0int
                }
                &&& c.added_keys@ == seq![peer.spec_id()]
            }),
    {
        let ghost old_self = *old(self);
        let k = peer.id();
        proof {
            lemma_key_index(self.entries(), k);
        }
        let existing = im_get(&self.map, k);
        match existing {
            Some(slot) => {
                let ghost es = self.entries();
                let ghost ki = key_index(es, k);
                proof {
                    let i = choose|i: int| 0 <= i < es.len() && es[i] == (k, slot);
                    if i != ki {
                        assert(es[ki].0 == k);
                    }
                    assert(es[ki] == (k, slot));
                }
                let (pos, _) = im_insert_full(&mut self.map, k, slot);
                proof {
                    assert(self.entries() =~= es.update(ki, (k, slot)));
                    assert(es.update(ki, (k, slot)) =~= es);
                    assert(self.entries() == es);
                }
                self.arena.set(slot, Some(peer));
                let mut added: Vec<u64> = Vec::new();
                added.push(k);
                self.changes.push(ListChange { position: pos, removed: 1, added_keys: added });
                proof {
                    let new_self = *self;
                    assert(new_self.keys() =~= old_self.keys());
                    assert forall|j: int|
                        0 <= j < new_self.entries().len() && j != ki implies new_self.peers()[j]
                        == old_self.peers()[j] by {
                        assert(new_self.entries()[j].1 != slot);
                    }
                    assert(new_self.peers() =~= old_self.peers().update(ki, peer));
                    assert(new_self.changes@.drop_last() =~= old_self.changes@);
                    assert(replay_changes(new_self.changes@) == replay_change(
                        old_self.keys(),
                        new_self.changes@.last(),
                    ));
                    assert(replay_change(old_self.keys(), new_self.changes@.last())
                        =~= old_self.keys()) by {
                        assert(old_self.keys()[ki] == k);
                    }
                }
                false
            },
            None => {
                let ghost es = self.entries();
                let slot = self.arena.len();
                self.arena.push(Some(peer));
                let (pos, _) = im_insert_full(&mut self.map, k, slot);
                let mut added: Vec<u64> = Vec::new();
                added.push(k);
                self.changes.push(ListChange { position: pos, removed: 0, added_keys: added });
                proof {
                    let new_self = *self;
                    assert(new_self.entries() == es.push((k, slot)));
                    assert forall|j: int|
                        0 <= j < es.len() implies new_self.peers()[j] == old_self.peers()[j] by {
                        assert(new_self.entries()[j] == es[j]);
                        assert(es[j].1 < slot);
                    }
                    assert(new_self.keys() =~= old_self.keys().push(k));
                    assert(new_self.peers() =~= old_self.peers().push(peer));
                    assert(new_self.changes@.drop_last() =~= old_self.changes@);
                    assert(replay_change(old_self.keys(), new_self.changes@.last())
                        =~= old_self.keys().push(k));
                }
                true
            },
        }
    }

    /// Removes the peer with the given key; later entries shift down one
    /// position. Records a change notification exactly when a peer left.
    pub fn remove(&mut self, key: u64) -> (was_present: bool)
        requires
            old(self).wf(),
        ensures
            final(self).wf(),
            was_present == old(self).has(key),
            old(self).has(key) ==> {
                &&& final(self).keys() == old(self).keys().remove(old(self).index_of(key))
                &&& final(self).peers() == old(self).peers().remove(old(self).index_of(key))
                &&& final(self).change_log().len() == old(self).change_log().len() + 1
                &&& final(self).change_log().last().position == old(self).index_of(key)
                &&& final(self).change_log().last().removed == 1
                &&& final(self).change_log().last().added_keys@ == Seq::<u64>::empty()
                &&& forall|i: int|
                    0 <= i < old(self).change_log().len() ==> final(self).change_log()[i] == old(
                        self,
                    ).change_log()[i]
            },
            !old(self).has(key) ==> {
                &&& final(self).keys() == old(self).keys()
                &&& final(self).peers() == old(self).peers()
                &&& final(self).change_log() == old(self).change_log()
            },
    {
        let ghost old_self = *old(self);
        let ghost es = self.entries();
        proof {
            lemma_key_index(es, key);
        }
        match im_shift_remove_full(&mut self.map, key) {
            Some((pos, _, slot)) => {
                let ghost ki = key_index(es, key);
                self.arena.set(slot, None);
                let added: Vec<u64> = Vec::new();
                self.changes.push(ListChange { position: pos, removed: 1, added_keys: added });
                proof {
                    let new_self = *self;
                    assert(new_self.entries() == es.remove(ki));
                    assert forall|j: int|
                        0 <= j < new_self.entries().len() implies {
                        &&& new_self.entries()[j].1 < new_self.arena@.len()
                        &&& new_self.arena@[new_self.entries()[j].1 as int] is Some
                        &&& new_self.arena@[new_self.entries()[j].1 as int].unwrap().spec_id()
                            == new_self.entries()[j].0
                        &&& new_self.peers()[j] == old_self.peers().remove(ki)[j]
                    } by {
                        let oj = if j < ki {
                            j
                        } else {
                            j + 1
                        };
                        assert(new_self.entries()[j] == es[oj]);
                        assert(es[oj].1 != slot);
                    }
                    assert(new_self.keys() =~= old_self.keys().remove(ki));
                    assert(new_self.peers() =~= old_self.peers().remove(ki));
                    assert(new_self.changes@.drop_last() =~= old_self.changes@);
                    let l = old_self.keys();
                    let c = new_self.changes@.last();
                    assert(c.position == ki);
                    assert(c.removed == 1);
                    assert(c.added_keys@.len() == 0);
                    assert(c.position + c.removed <= l.len());
                    let rep = replay_change(l, c);
                    assert(rep.len() == l.len() - 1);
                    assert forall|j: int| 0 <= j < rep.len() implies rep[j] == l.remove(ki)[j] by {
                        if j < ki {
                            assert(rep[j] == l.subrange(0, ki)[j]);
                        } else {
                            assert(rep[j] == l.subrange(ki + 1, l.len() as int)[j - ki]);
                        }
                    }
                    assert(rep =~= l.remove(ki));
                }
                true
            },
            None => {
                proof {
                    assert(self.keys() =~= old_self.keys());
                    assert(self.peers() =~= old_self.peers());
                }
                false
            },
        }
    }

    /// Applies one property entry to the registered peer with the given key.
    /// Returns false, changing nothing, when the key is unknown. No change
    /// notification is recorded: positions and keys are untouched.
    pub fn update_peer(&mut self, key: u64, prop: &crate::envelope::Property) -> (updated: bool)
        requires
            old(self).wf(),
        ensures
            final(self).wf(),
            updated == old(self).has(key),
            final(self).entries() == old(self).entries(),
            final(self).keys() == old(self).keys(),
            final(self).change_log() == old(self).change_log(),
            old(self).has(key) ==> final(self).peers() == old(self).peers().update(
                old(self).index_of(key),
                old(self).peers()[old(self).index_of(key)].spec_with_property(*prop),
            ),
            !old(self).has(key) ==> final(self).peers() == old(self).peers(),
    {
        let ghost old_self = *old(self);
        let ghost es = self.entries();
        proof {
            lemma_key_index(es, key);
        }
        match im_get(&self.map, key) {
            Some(slot) => {
                let ghost ki = key_index(es, key);
                proof {
                    let i = choose|i: int| 0 <= i < es.len() && es[i] == (key, slot);
                    if i != ki {
                        assert(es[ki].0 == key);
                    }
                    assert(es[ki] == (key, slot));
                }
                let mut updated_entry: Option<Peer> = None;
                match &self.arena[slot] {
                    Some(p) => {
                        updated_entry = Some(p.clone());
                    },
                    None => {},
                }
                match &mut updated_entry {
                    Some(p) => {
                        p.apply_property(prop);
                    },
                    None => {},
                }
                self.arena.set(slot, updated_entry);
                proof {
                    let new_self = *self;
                    assert(new_self.keys() =~= old_self.keys());
                    assert forall|j: int|
                        0 <= j < new_self.entries().len() && j != ki implies new_self.peers()[j]
                        == old_self.peers()[j] by {
                        assert(new_self.entries()[j].1 != slot);
                    }
                    assert(new_self.peers() =~= old_self.peers().update(
                        ki,
                        old_self.peers()[ki].spec_with_property(*prop),
                    ));
                }
                true
            },
            None => {
                proof {
                    assert(self.keys() =~= old_self.keys());
                    assert(self.peers() =~= old_self.peers());
                }
                false
            },
        }
    }

    /// The key, peer and entry sequences all have the registry's length.
    pub proof fn lemma_lens(&self)
        ensures
            self.peers().len() == self.entries().len(),
            self.keys().len() == self.entries().len(),
    {
    }

    /// The emitted change notifications, replayed in order against an
    /// initially empty list, reconstruct the exact final key order.
    pub proof fn lemma_changes_replay_to_key_order(&self)
        requires
            self.wf(),
        ensures
            replay_changes(self.change_log()) == self.keys(),
    {
    }
}

} // verus!
