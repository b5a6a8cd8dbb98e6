//! The consistent-hashing ring: an ordered map from 64-bit positions to node
//! ordinals, searched clockwise with wraparound.
//!
//! Each node occupies a single position (there are no virtual nodes), so
//! removing one node hands its whole segment to one neighbour: up to 1/N of
//! the key space moves at once. What the ring does guarantee is that no key
//! outside the affected segment moves; see the laws at the end of this file.

use vstd::prelude::*;
use crate::error::ThreadError;
use crate::hashing::{hash_client_id, hash_worker_id, key_position, node_position};

verus! {

/// Whether `key` is the ring entry that owns `position`: the first entry at
/// or after `position`, or, when there is none, the first entry of the ring.
pub open spec fn is_owner_key(ring: Map<u64, usize>, position: u64, key: u64) -> bool {
    &&& ring.contains_key(key)
    &&& if exists|k: u64| ring.contains_key(k) && position <= k {
        &&& position <= key
        &&& forall|k: u64| ring.contains_key(k) && position <= k ==> key <= k
    } else {
        forall|k: u64| ring.contains_key(k) ==> key <= k
    }
}

/// The ring entry that owns `position`.
pub open spec fn owner_key(ring: Map<u64, usize>, position: u64) -> u64 {
    choose|key: u64| is_owner_key(ring, position, key)
}

/// The node that `position` is routed to.
pub open spec fn route(ring: Map<u64, usize>, position: u64) -> usize {
    ring[owner_key(ring, position)]
}

/// The ring built from `ids` by inserting each node, in order, at the
/// position of its ordinal. A later node replaces an earlier one that
/// hashes to the same position.
pub open spec fn ring_of(ids: Seq<usize>) -> Map<u64, usize>
    decreases ids.len(),
{
    if ids.len() == 0 {
        Map::empty()
    } else {
        ring_of(ids.drop_last()).insert(node_position(ids.last() as nat), ids.last())
    }
}

/// A hash ring. Its entries are kept sorted by position so that the owner
/// of a position is found by binary search.
pub struct HashRing {
    entries: Vec<(u64, usize)>,
    model: Ghost<Map<u64, usize>>,
}

impl View for HashRing {
    type V = Map<u64, usize>;

    closed spec fn view(&self) -> Map<u64, usize> {
        self.model@
    }
}

impl HashRing {
    /// The ring's invariant: the entries are strictly increasing in position
    /// and hold exactly the pairs of the map that the ring stands for.
    pub closed spec fn wf(&self) -> bool {
        &&& self.model@.dom().finite()
        &&& self.model@.dom().len() == self.entries@.len()
        &&& forall|i: int, j: int|
            0 <= i < j < self.entries@.len() ==> self.entries@[i].0 < self.entries@[j].0
        &&& forall|i: int|
            0 <= i < self.entries@.len() ==> self.model@.contains_key(
                #[trigger] self.entries@[i].0,
            ) && self.model@[self.entries@[i].0] == self.entries@[i].1
        &&& forall|k: u64| #[trigger]
            self.model@.contains_key(k) ==> exists|i: int|
                0 <= i < self.entries@.len() && self.entries@[i].0 == k
    }

    /// A ring without entries.
    pub fn new() -> (ring: HashRing)
        ensures
            ring.wf(),
            ring@ == Map::<u64, usize>::empty(),
    {
        HashRing { entries: Vec::new(), model: Ghost(Map::empty()) }
    }

    /// The number of entries.
    pub fn len(&self) -> (len: usize)
        requires
            self.wf(),
        ensures
            len == self@.dom().len(),
    {
        self.entries.len()
    }

    /// Whether the ring has no entry.
    pub fn is_empty(&self) -> (empty: bool)
        requires
            self.wf(),
        ensures
            empty <==> forall|k: u64| !self@.contains_key(k),
    {
        let empty: bool = self.entries.len() == 0;
        proof {
            if empty {
                assert forall|k: u64| !self@.contains_key(k) by {
                    if self.model@.contains_key(k) {
                        let i = choose|i: int| 0 <= i < self.entries@.len() && self.entries@[i].0 == k;
                    }
                }
            } else {
                assert(self@.contains_key(self.entries@[0].0));
            }
        }
        empty
    }

    /// The index of the first entry at or after `position`, or the number of
    /// entries when every entry lies before it.
    fn lower_bound(&self, position: u64) -> (index: usize)
        requires
            self.wf(),
        ensures
            index <= self.entries@.len(),
            forall|i: int| 0 <= i < index ==> self.entries@[i].0 < position,
            forall|i: int| index <= i < self.entries@.len() ==> position <= self.entries@[i].0,
    {
        let mut low: usize = 0;
        let mut high: usize = self.entries.len();
        while low < high
            invariant
                self.wf(),
                low <= high <= self.entries@.len(),
                forall|i: int| 0 <= i < low ==> self.entries@[i].0 < position,
                forall|i: int| high <= i < self.entries@.len() ==> position <= self.entries@[i].0,
            decreases high - low,
        {
            let middle: usize = low + (high - low) / 2;
            if self.entries[middle].0 < position {
                low = middle + 1;
            } else {
                high = middle;
            }
        }
        low
    }

    /// Places `node` at `position`, replacing the node that was there.
    pub fn insert(&mut self, position: u64, node: usize)
        requires
            old(self).wf(),
        ensures
            final(self).wf(),
            final(self)@ == old(self)@.insert(position, node),
    {
        let index: usize = self.lower_bound(position);
        let ghost before = self.entries@;
        if index < self.entries.len() && self.entries[index].0 == position {
            self.entries.set(index, (position, node));
            self.model = Ghost(self.model@.insert(position, node));
            proof {
                assert forall|k: u64| #[trigger] self.model@.contains_key(k) implies exists|i: int|
                    0 <= i < self.entries@.len() && self.entries@[i].0 == k by {
                    if k == position {
                        assert(self.entries@[index as int].0 == k);
                    } else {
                        let i = choose|i: int| 0 <= i < before.len() && before[i].0 == k;
                        assert(self.entries@[i].0 == k);
                    }
                }
            }
        } else {
            proof {
                if self.model@.contains_key(position) {
                    let i = choose|i: int| 0 <= i < before.len() && before[i].0 == position;
                    if i > index {
                        assert(before[index as int].0 < before[i].0);
                    }
                    assert(false);
                }
            }
            self.entries.insert(index, (position, node));
            self.model = Ghost(self.model@.insert(position, node));
            proof {
                assert forall|i: int, j: int| 0 <= i < j < self.entries@.len() implies self.entries@[i].0
                    < self.entries@[j].0 by {
                    let a = if i < index { i } else { i - 1 };
                    let b = if j < index { j } else { j - 1 };
                    if i != index {
                        assert(self.entries@[i] == before[a]);
                    }
                    if j != index {
                        assert(self.entries@[j] == before[b]);
                    }
                }
                assert forall|i: int| 0 <= i < self.entries@.len() implies self.model@.contains_key(
                    #[trigger] self.entries@[i].0,
                ) && self.model@[self.entries@[i].0] == self.entries@[i].1 by {
                    if i < index {
                        assert(self.entries@[i] == before[i]);
                    } else if i > index {
                        assert(self.entries@[i] == before[i - 1]);
                    }
                }
                assert forall|k: u64| #[trigger] self.model@.contains_key(k) implies exists|i: int|
                    0 <= i < self.entries@.len() && self.entries@[i].0 == k by {
                    if k == position {
                        assert(self.entries@[index as int].0 == k);
                    } else {
                        let i = choose|i: int| 0 <= i < before.len() && before[i].0 == k;
                        if i < index {
                            assert(self.entries@[i].0 == k);
                        } else {
                            assert(self.entries@[i + 1] == before[i]);
                        }
                    }
                }
            }
        }
    }

    /// The node that owns `position`: the node of the first entry at or
    /// after it, or of the ring's first entry when `position` lies beyond
    /// the last one. An empty ring owns nothing.
    pub fn locate(&self, position: u64) -> (owner: Option<usize>)
        requires
            self.wf(),
        ensures
            match owner {
                Some(node) => is_owner_key(self@, position, owner_key(self@, position))
                    && node == route(self@, position),
                None => self@ == Map::<u64, usize>::empty(),
            },
    {
        if self.entries.len() == 0 {
            assert(self@ =~= Map::<u64, usize>::empty());
            return None;
        }
        let found: usize = self.lower_bound(position);
        let index: usize = if found < self.entries.len() {
            found
        } else {
            0
        };
        let entry: (u64, usize) = self.entries[index];
        proof {
            let ring = self@;
            assert(ring.contains_key(self.entries@[index as int].0));
            assert forall|k: u64| ring.contains_key(k) && position <= k implies found
                < self.entries@.len() && entry.0 <= k by {
                let j = choose|j: int| 0 <= j < self.entries@.len() && self.entries@[j].0 == k;
                assert(found <= j);
            }
            assert forall|k: u64| ring.contains_key(k) implies self.entries@[0].0 <= k by {
                let j = choose|j: int| 0 <= j < self.entries@.len() && self.entries@[j].0 == k;
            }
            assert(is_owner_key(ring, position, entry.0));
            lemma_owner_key_unique(ring, position, entry.0, owner_key(ring, position));
        }
        Some(entry.1)
    }

    /// The node that requests with the routing key `key` go to: the owner of
    /// the key's position.
    pub fn route(&self, key: &str) -> (owner: Option<usize>)
        requires
            self.wf(),
        ensures
            match owner {
                Some(node) => is_owner_key(
                    self@,
                    key_position(key@),
                    owner_key(self@, key_position(key@)),
                ) && node == route(self@, key_position(key@)),
                None => self@ == Map::<u64, usize>::empty(),
            },
    {
        self.locate(hash_client_id(key))
    }

    /// Builds the ring of the nodes `node_ids`, each placed at the position
    /// of its ordinal. An empty node set is a configuration error.
    pub fn build(node_ids: &Vec<usize>) -> (built: Result<HashRing, ThreadError>)
        ensures
            match built {
                Ok(ring) => node_ids@.len() > 0 && ring.wf() && ring@ == ring_of(node_ids@),
                Err(error) => node_ids@.len() == 0 && (error matches ThreadError::InvalidSize(msg)
                    && msg@ == "Hash ring with no nodes cannot be initialized!"@),
            },
    {
        if node_ids.len() == 0 {
            return Err(
                ThreadError::InvalidSize(
                    "Hash ring with no nodes cannot be initialized!".to_owned(),
                ),
            );
        }
        let mut ring: HashRing = HashRing::new();
        let mut next: usize = 0;
        while next < node_ids.len()
            invariant
                next <= node_ids@.len(),
                ring.wf(),
                ring@ == ring_of(node_ids@.take(next as int)),
            decreases node_ids@.len() - next,
        {
            let id: usize = node_ids[next];
            ring.insert(hash_worker_id(id), id);
            proof {
                assert(node_ids@.take(next + 1).drop_last() =~= node_ids@.take(next as int));
            }
            next = next + 1;
        }
        proof {
            assert(node_ids@.take(next as int) =~= node_ids@);
        }
        Ok(ring)
    }
}

/// Whether `least` is the smallest member of `keys`.
pub open spec fn is_least(keys: Set<u64>, least: u64) -> bool {
    &&& keys.contains(least)
    &&& forall|k: u64| keys.contains(k) ==> least <= k
}

/// A well-formed ring stands for a finite map.
pub proof fn lemma_ring_finite(ring: HashRing)
    requires
        ring.wf(),
    ensures
        ring@.dom().finite(),
{
}

/// Routing is a function: a position has at most one owner in a ring.
pub proof fn lemma_owner_key_unique(ring: Map<u64, usize>, position: u64, a: u64, b: u64)
    requires
        is_owner_key(ring, position, a),
        is_owner_key(ring, position, b),
    ensures
        a == b,
{
}

/// Determinism: the node found for a key depends on the ring and the key
/// alone. Whenever two lookups of one key in one ring each find the node of
/// an owner, they find the same node, and it is the node that `route` names.
pub proof fn lemma_route_deterministic(
    ring: Map<u64, usize>,
    key: Seq<char>,
    first_owner: u64,
    second_owner: u64,
)
    requires
        is_owner_key(ring, key_position(key), first_owner),
        is_owner_key(ring, key_position(key), second_owner),
    ensures
        ring[first_owner] == ring[second_owner],
        ring[first_owner] == route(ring, key_position(key)),
{
    lemma_owner_key_unique(ring, key_position(key), first_owner, second_owner);
    lemma_owner_key_unique(
        ring,
        key_position(key),
        first_owner,
        owner_key(ring, key_position(key)),
    );
}

/// Every finite, non-empty set of positions has a least member.
pub proof fn lemma_least_exists(keys: Set<u64>)
    requires
        keys.finite(),
        exists|k: u64| keys.contains(k),
    ensures
        exists|least: u64| is_least(keys, least),
    decreases keys.len(),
{
    let first = choose|k: u64| keys.contains(k);
    let rest = keys.remove(first);
    if exists|k: u64| rest.contains(k) {
        lemma_least_exists(rest);
        let other = choose|least: u64| is_least(rest, least);
        let least = if first <= other {
            first
        } else {
            other
        };
        assert forall|k: u64| keys.contains(k) implies least <= k by {
            if k != first {
                assert(rest.contains(k));
            }
        }
        assert(is_least(keys, least));
    } else {
        assert forall|k: u64| keys.contains(k) implies first <= k by {
            if k != first {
                assert(rest.contains(k));
            }
        }
        assert(is_least(keys, first));
    }
}

/// In a finite, non-empty ring every position has an owner, so `route`
/// names a node of the ring.
pub proof fn lemma_owner_exists(ring: Map<u64, usize>, position: u64)
    requires
        ring.dom().finite(),
        exists|k: u64| ring.contains_key(k),
    ensures
        is_owner_key(ring, position, owner_key(ring, position)),
        ring.contains_key(owner_key(ring, position)),
{
    if exists|k: u64| ring.contains_key(k) && position <= k {
        let witness = choose|k: u64| ring.contains_key(k) && position <= k;
        let after = ring.dom().filter(|k: u64| position <= k);
        ring.dom().lemma_len_filter(|k: u64| position <= k);
        assert(after.contains(witness));
        lemma_least_exists(after);
        let least = choose|least: u64| is_least(after, least);
        assert forall|k: u64| ring.contains_key(k) && position <= k implies least <= k by {
            assert(after.contains(k));
        }
        assert(is_owner_key(ring, position, least));
    } else {
        let witness = choose|k: u64| ring.contains_key(k);
        assert(ring.dom().contains(witness));
        lemma_least_exists(ring.dom());
        let least = choose|least: u64| is_least(ring.dom(), least);
        assert forall|k: u64| ring.contains_key(k) implies least <= k by {
            assert(ring.dom().contains(k));
        }
        assert(is_owner_key(ring, position, least));
    }
}

/// A position with an entry at or after it is routed to the node of the
/// first such entry.
pub proof fn lemma_route_successor(ring: Map<u64, usize>, position: u64, key: u64)
    requires
        ring.contains_key(key),
        position <= key,
        forall|k: u64| ring.contains_key(k) && position <= k ==> key <= k,
    ensures
        route(ring, position) == ring[key],
{
    assert(is_owner_key(ring, position, key));
    lemma_owner_key_unique(ring, position, key, owner_key(ring, position));
}

/// Wraparound: a position beyond every entry is routed to the node of the
/// ring's first entry.
pub proof fn lemma_route_wraps(ring: Map<u64, usize>, position: u64, least: u64)
    requires
        ring.contains_key(least),
        forall|k: u64| ring.contains_key(k) ==> least <= k && k < position,
    ensures
        route(ring, position) == ring[least],
{
    assert(is_owner_key(ring, position, least));
    lemma_owner_key_unique(ring, position, least, owner_key(ring, position));
}

/// What `ring_of` holds: a finite map whose entries are exactly the nodes of
/// `ids`, each at the position of its ordinal.
pub proof fn lemma_ring_of_entries(ids: Seq<usize>)
    ensures
        ring_of(ids).dom().finite(),
        forall|k: u64| #[trigger]
            ring_of(ids).contains_key(k) ==> exists|i: int|
                0 <= i < ids.len() && node_position(ids[i] as nat) == k && ring_of(ids)[k]
                    == ids[i],
        forall|i: int|
            0 <= i < ids.len() ==> ring_of(ids).contains_key(
                node_position(#[trigger] ids[i] as nat),
            ),
    decreases ids.len(),
{
    if ids.len() > 0 {
        let front = ids.drop_last();
        let last = ids.last();
        lemma_ring_of_entries(front);
        assert forall|k: u64| #[trigger] ring_of(ids).contains_key(k) implies exists|i: int|
            0 <= i < ids.len() && node_position(ids[i] as nat) == k && ring_of(ids)[k]
                == ids[i] by {
            if k == node_position(last as nat) {
                assert(ids[ids.len() - 1] == last);
            } else {
                assert(ring_of(front).contains_key(k));
                let i = choose|i: int|
                    0 <= i < front.len() && node_position(front[i] as nat) == k && ring_of(
                        front,
                    )[k] == front[i];
                assert(ids[i] == front[i]);
            }
        }
        assert forall|i: int| 0 <= i < ids.len() implies ring_of(ids).contains_key(
            node_position(#[trigger] ids[i] as nat),
        ) by {
            if i < ids.len() - 1 {
                assert(ids[i] == front[i]);
            }
        }
    }
}

/// Totality: in the ring built from a non-empty node set, every position is
/// routed to one of those nodes.
pub proof fn lemma_route_total(ids: Seq<usize>, position: u64)
    requires
        ids.len() > 0,
    ensures
        ids.contains(route(ring_of(ids), position)),
{
    let ring = ring_of(ids);
    lemma_ring_of_entries(ids);
    assert(ring.contains_key(node_position(ids[0] as nat)));
    lemma_owner_exists(ring, position);
    let key = owner_key(ring, position);
    assert(ring.contains_key(key));
    let i = choose|i: int|
        0 <= i < ids.len() && node_position(ids[i] as nat) == key && ring[key] == ids[i];
    assert(ids[i] == route(ring, position));
}

/// One entry per node: when no two nodes of `ids` share a position, the
/// ring built from them has as many entries as there are nodes, and each
/// node sits at its own position.
pub proof fn lemma_one_entry_per_node(ids: Seq<usize>)
    requires
        forall|i: int, j: int|
            0 <= i < j < ids.len() ==> node_position(ids[i] as nat) != node_position(
                ids[j] as nat,
            ),
    ensures
        ring_of(ids).dom().len() == ids.len(),
        forall|i: int|
            0 <= i < ids.len() ==> ring_of(ids)[node_position(#[trigger] ids[i] as nat)] == ids[i],
    decreases ids.len(),
{
    if ids.len() > 0 {
        let front = ids.drop_last();
        let last = ids.last();
        let at = node_position(last as nat);
        assert forall|i: int, j: int| 0 <= i < j < front.len() implies node_position(
            front[i] as nat,
        ) != node_position(front[j] as nat) by {
            assert(front[i] == ids[i] && front[j] == ids[j]);
        }
        lemma_one_entry_per_node(front);
        lemma_ring_of_entries(front);
        if ring_of(front).contains_key(at) {
            let i = choose|i: int|
                0 <= i < front.len() && node_position(front[i] as nat) == at && ring_of(front)[at]
                    == front[i];
            assert(front[i] == ids[i]);
            assert(ids[ids.len() - 1] == last);
            assert(false);
        }
        assert(ring_of(ids).dom() =~= ring_of(front).dom().insert(at));
        assert forall|i: int| 0 <= i < ids.len() implies ring_of(ids)[node_position(
            #[trigger] ids[i] as nat,
        )] == ids[i] by {
            if i < ids.len() - 1 {
                assert(ids[i] == front[i]);
                assert(ids[ids.len() - 1] == last);
            }
        }
    } else {
        assert(ring_of(ids).dom() =~= Set::<u64>::empty());
    }
}

/// Adding a node moves only the positions that the new entry captures:
/// every other position keeps the node it had.
pub proof fn lemma_insert_moves_only_captured(
    ring: Map<u64, usize>,
    at: u64,
    node: usize,
    position: u64,
)
    requires
        ring.dom().finite(),
    ensures
        owner_key(ring.insert(at, node), position) == at ==> route(
            ring.insert(at, node),
            position,
        ) == node,
        owner_key(ring.insert(at, node), position) != at ==> route(
            ring.insert(at, node),
            position,
        ) == route(ring, position),
{
    let grown = ring.insert(at, node);
    assert(grown.contains_key(at));
    lemma_owner_exists(grown, position);
    let key = owner_key(grown, position);
    if key != at {
        assert(ring.contains_key(key));
        if exists|k: u64| ring.contains_key(k) && position <= k {
            let witness = choose|k: u64| ring.contains_key(k) && position <= k;
            assert(grown.contains_key(witness));
            assert forall|k: u64| ring.contains_key(k) && position <= k implies key <= k by {
                assert(grown.contains_key(k));
            }
        } else {
            if exists|k: u64| grown.contains_key(k) && position <= k {
                let witness = choose|k: u64| grown.contains_key(k) && position <= k;
                assert(witness == at);
                assert(ring.contains_key(key) && position <= key);
                assert(false);
            }
            assert forall|k: u64| ring.contains_key(k) implies key <= k by {
                assert(grown.contains_key(k));
            }
        }
        assert(is_owner_key(ring, position, key));
        lemma_owner_key_unique(ring, position, key, owner_key(ring, position));
    }
}

/// Removing a node moves only the positions that its entry owned: every
/// other position keeps the node it had.
pub proof fn lemma_remove_moves_only_orphaned(ring: Map<u64, usize>, at: u64, position: u64)
    requires
        ring.dom().finite(),
        exists|k: u64| ring.contains_key(k),
    ensures
        owner_key(ring, position) != at ==> route(ring.remove(at), position) == route(
            ring,
            position,
        ),
{
    let shrunk = ring.remove(at);
    lemma_owner_exists(ring, position);
    let key = owner_key(ring, position);
    if key != at {
        assert(shrunk.contains_key(key));
        if exists|k: u64| shrunk.contains_key(k) && position <= k {
            let witness = choose|k: u64| shrunk.contains_key(k) && position <= k;
            assert(ring.contains_key(witness));
            assert forall|k: u64| shrunk.contains_key(k) && position <= k implies key <= k by {
                assert(ring.contains_key(k));
            }
        } else {
            if exists|k: u64| ring.contains_key(k) && position <= k {
                assert(shrunk.contains_key(key) && position <= key);
                assert(false);
            }
            assert forall|k: u64| shrunk.contains_key(k) implies key <= k by {
                assert(ring.contains_key(k));
            }
        }
        assert(is_owner_key(shrunk, position, key));
        lemma_owner_key_unique(shrunk, position, key, owner_key(shrunk, position));
    }
}

} // verus!
