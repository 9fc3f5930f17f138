//! The trie of networks, as mathematics.
//!
//! The node table is a binary trie. A walk starts at a root and follows the
//! bits of a key, the first bit of the key first: from a node it goes to
//! the child that the node names for the bit, and it stops where the node
//! names none. The match of a key is the deepest node on its walk that
//! bears a network.

use crate::error::Corruption;
use crate::format::NetworkNodeRecord;
use vstd::prelude::*;

verus! {

/// The bit of `bits` at position `k`, counted from the least significant.
pub open spec fn bit_at(bits: u128, k: int) -> bool {
    (bits >> (k as u128)) & 1 == 1
}

/// The key that a register spells which is read from its least significant
/// bit upwards, `num_bits` bits in all.
pub open spec fn key_of_reversed(bits_reverse: u128, num_bits: nat) -> Seq<bool> {
    Seq::new(num_bits, |k: int| bit_at(bits_reverse, k))
}

/// The node that the walk stands on when it has followed `depth` bits of
/// the key, or `None` if it has stopped before. The node need not exist:
/// a walk that reaches an index outside the table stops there.
pub open spec fn descend(
    nodes: Seq<NetworkNodeRecord>,
    root: u32,
    key: Seq<bool>,
    depth: nat,
) -> Option<u32>
    recommends
        depth <= key.len(),
    decreases depth,
{
    if depth == 0 {
        Some(root)
    } else {
        match descend(nodes, root, key, (depth - 1) as nat) {
            Some(parent) => {
                if parent < nodes.len() && nodes[parent as int].child(key[depth - 1]) != 0 {
                    Some(nodes[parent as int].child(key[depth - 1]))
                } else {
                    None
                }
            },
            None => None,
        }
    }
}

/// Whether every node that the walk stands on after fewer than `depth` bits
/// exists in the table.
pub open spec fn stays_in_bounds(
    nodes: Seq<NetworkNodeRecord>,
    root: u32,
    key: Seq<bool>,
    depth: nat,
) -> bool {
    forall|k: nat|
        k < depth ==> (#[trigger] descend(nodes, root, key, k) matches Some(node) ==> node
            < nodes.len())
}

/// Whether the walk stands on a node that bears a network when it has
/// followed `depth` bits of the key.
pub open spec fn marked_at(
    nodes: Seq<NetworkNodeRecord>,
    root: u32,
    key: Seq<bool>,
    depth: nat,
) -> bool {
    descend(nodes, root, key, depth) matches Some(node) && node < nodes.len()
        && nodes[node as int].marked()
}

/// The network of the node that the walk stands on after `depth` bits.
pub open spec fn network_at(
    nodes: Seq<NetworkNodeRecord>,
    root: u32,
    key: Seq<bool>,
    depth: nat,
) -> u32
    recommends
        marked_at(nodes, root, key, depth),
{
    nodes[descend(nodes, root, key, depth).unwrap() as int].network
}

/// The deepest node that bears a network among those that the walk stands
/// on after at most `depth` bits: its depth and its network.
pub open spec fn deepest_marked(
    nodes: Seq<NetworkNodeRecord>,
    root: u32,
    key: Seq<bool>,
    depth: nat,
) -> Option<(u8, u32)>
    recommends
        depth <= key.len(),
        depth <= u8::MAX,
    decreases depth,
{
    if marked_at(nodes, root, key, depth) {
        Some((depth as u8, network_at(nodes, root, key, depth)))
    } else if depth == 0 {
        None
    } else {
        deepest_marked(nodes, root, key, (depth - 1) as nat)
    }
}

/// The node reached by the whole key, if the walk does not stop before.
/// The table is corrupt where a node that the walk has to read does not
/// exist; the node reached by the last bit is not read.
pub open spec fn find_node(nodes: Seq<NetworkNodeRecord>, root: u32, key: Seq<bool>) -> Result<
    Option<u32>,
    Corruption,
> {
    if stays_in_bounds(nodes, root, key, key.len()) {
        Ok(descend(nodes, root, key, key.len()))
    } else {
        Err(Corruption::NetworkNodeIndex)
    }
}

/// The match of a key: depth and network of the deepest node on its walk
/// that bears a network. The table is corrupt where a node on the walk
/// does not exist.
pub open spec fn find_marked(nodes: Seq<NetworkNodeRecord>, root: u32, key: Seq<bool>) -> Result<
    Option<(u8, u32)>,
    Corruption,
> {
    if stays_in_bounds(nodes, root, key, key.len() + 1) {
        Ok(deepest_marked(nodes, root, key, key.len()))
    } else {
        Err(Corruption::NetworkNodeIndex)
    }
}

/// One step of reading a register from its lowest bit upwards: where
/// `bits` is what is left of `bits_reverse` after `used` bits, its lowest
/// bit is the next bit of the key, and its other bits are what is left
/// after that one.
pub proof fn lemma_register_step(bits_reverse: u128, used: u128, bits: u128)
    requires
        used < 128,
        bits == bits_reverse >> used,
    ensures
        (bits & 1 != 0) == bit_at(bits_reverse, used as int),
        used + 1 < 128 ==> bits >> 1 == bits_reverse >> ((used + 1) as u128),
{
    assert((bits & 1 != 0) == (bits & 1 == 1)) by (bit_vector);
    assert(used + 1 < 128 ==> bits >> 1 == bits_reverse >> ((used + 1) as u128)) by (bit_vector)
        requires
            used < 128,
            bits == bits_reverse >> used,
    ;
}

/// A walk that has stayed in the table for `depth` nodes and whose next
/// node exists, if it has one, has stayed in the table for one node more.
pub proof fn lemma_in_bounds_extends(
    nodes: Seq<NetworkNodeRecord>,
    root: u32,
    key: Seq<bool>,
    depth: nat,
)
    requires
        stays_in_bounds(nodes, root, key, depth),
        descend(nodes, root, key, depth) matches Some(node) ==> node < nodes.len(),
    ensures
        stays_in_bounds(nodes, root, key, depth + 1),
{
    assert forall|k: nat| k < depth + 1 implies (#[trigger] descend(nodes, root, key, k) matches Some(
        node,
    ) ==> node < nodes.len()) by {
        if k < depth {
        }
    }
}

/// A walk that has stopped does not start again.
pub proof fn lemma_walk_stays_stopped(
    nodes: Seq<NetworkNodeRecord>,
    root: u32,
    key: Seq<bool>,
    stop: nat,
    depth: nat,
)
    requires
        descend(nodes, root, key, stop) is None,
        stop <= depth,
    ensures
        descend(nodes, root, key, depth) is None,
    decreases depth,
{
    if stop < depth {
        lemma_walk_stays_stopped(nodes, root, key, stop, (depth - 1) as nat);
    }
}

/// A walk that stops after `reached` bits has no further node to leave the
/// table by.
pub proof fn lemma_stopped_walk_stays_in_bounds(
    nodes: Seq<NetworkNodeRecord>,
    root: u32,
    key: Seq<bool>,
    reached: nat,
    depth: nat,
)
    requires
        stays_in_bounds(nodes, root, key, reached + 1),
        descend(nodes, root, key, reached + 1) is None,
    ensures
        stays_in_bounds(nodes, root, key, depth),
{
    assert forall|k: nat| k < depth implies (#[trigger] descend(nodes, root, key, k) matches Some(
        node,
    ) ==> node < nodes.len()) by {
        if k > reached {
            lemma_walk_stays_stopped(nodes, root, key, reached + 1, k);
        }
    }
}

/// A walk that dead-ends in the middle of the key still yields the deepest
/// network that it has passed: where the walk stops after `reached` bits,
/// the match within any greater depth is the match within `reached`.
pub proof fn lemma_dead_end_keeps_match(
    nodes: Seq<NetworkNodeRecord>,
    root: u32,
    key: Seq<bool>,
    reached: nat,
    depth: nat,
)
    requires
        descend(nodes, root, key, reached + 1) is None,
        reached <= depth,
    ensures
        deepest_marked(nodes, root, key, depth) == deepest_marked(nodes, root, key, reached),
    decreases depth,
{
    if reached < depth {
        lemma_walk_stays_stopped(nodes, root, key, reached + 1, depth);
        lemma_dead_end_keeps_match(nodes, root, key, reached, (depth - 1) as nat);
    }
}

/// A node without children and without a network is a dead end, and the
/// match is that of its ancestors: none if the node is the root.
pub proof fn lemma_barren_node_yields_ancestor(
    nodes: Seq<NetworkNodeRecord>,
    root: u32,
    key: Seq<bool>,
    reached: nat,
    depth: nat,
)
    requires
        reached <= depth,
        descend(nodes, root, key, reached) matches Some(node) && node < nodes.len()
            && nodes[node as int].child(false) == 0 && nodes[node as int].child(true) == 0
            && !nodes[node as int].marked(),
    ensures
        deepest_marked(nodes, root, key, depth) == (if reached == 0 {
            None
        } else {
            deepest_marked(nodes, root, key, (reached - 1) as nat)
        }),
{
    assert(descend(nodes, root, key, reached + 1) is None);
    lemma_dead_end_keeps_match(nodes, root, key, reached, depth);
}

/// What a match is: a node on the walk that bears the network, with no
/// node that bears a network below it within the depth; and there is no
/// match only where no node on the walk bears a network.
pub proof fn lemma_match_is_deepest(
    nodes: Seq<NetworkNodeRecord>,
    root: u32,
    key: Seq<bool>,
    depth: nat,
)
    requires
        depth <= u8::MAX,
    ensures
        match deepest_marked(nodes, root, key, depth) {
            Some((d, network)) => {
                &&& d <= depth
                &&& marked_at(nodes, root, key, d as nat)
                &&& network == network_at(nodes, root, key, d as nat)
                &&& forall|k: nat| d < k <= depth ==> !#[trigger] marked_at(nodes, root, key, k)
            },
            None => forall|k: nat| k <= depth ==> !#[trigger] marked_at(nodes, root, key, k),
        },
    decreases depth,
{
    if !marked_at(nodes, root, key, depth) && depth > 0 {
        lemma_match_is_deepest(nodes, root, key, (depth - 1) as nat);
    }
}

/// Longest-prefix match: of two nodes on the walk that bear a network, the
/// shallower one is never the match.
pub proof fn lemma_deeper_wins(
    nodes: Seq<NetworkNodeRecord>,
    root: u32,
    key: Seq<bool>,
    depth: nat,
    shallow: nat,
    deep: nat,
)
    requires
        depth <= u8::MAX,
        shallow < deep <= depth,
        marked_at(nodes, root, key, shallow),
        marked_at(nodes, root, key, deep),
    ensures
        deepest_marked(nodes, root, key, depth) matches Some((d, network)) && d >= deep
            && network == network_at(nodes, root, key, d as nat),
{
    lemma_match_is_deepest(nodes, root, key, depth);
}

} // verus!
