//! Longest-prefix match over address bits.

use crate::addr::IpAddr;
use vstd::prelude::*;

verus! {

/// Bit `i` of a 128-bit string, counted from the most significant one.
pub open spec fn bit_spec(bits: u128, i: int) -> bool {
    (bits >> ((127 - i) as u128)) & 1 == 1
}

/// The first `n` bits of a 128-bit string.
pub open spec fn leading_bits(bits: u128, n: nat) -> Seq<bool> {
    Seq::new(n, |i: int| bit_spec(bits, i))
}

/// Bit `i` of a 128-bit string, counted from the most significant one.
fn bit_at(bits: u128, i: u8) -> (r: bool)
    requires
        i < 128,
    ensures
        r == bit_spec(bits, i as int),
{
    let shift: u128 = (127 - i) as u128;
    (bits >> shift) & 1 == 1
}

/// A prefix that was inserted, and what it maps to.
pub struct Insertion {
    pub bits: u128,
    pub prefix_len: u8,
    pub info: u32,
}

impl Insertion {
    /// The bits that count.
    pub open spec fn prefix(self) -> Seq<bool> {
        leading_bits(self.bits, self.prefix_len as nat)
    }

    /// Whether an address of `len` bits starts with the prefix.
    pub open spec fn matches_bits(self, bits: u128, len: nat) -> bool {
        self.prefix_len <= len && self.prefix() == leading_bits(bits, self.prefix_len as nat)
    }
}

/// What the first insertion of exactly this prefix maps to.
pub open spec fn first_info(insertions: Seq<Insertion>, prefix: Seq<bool>) -> Option<u32>
    decreases insertions.len(),
{
    if insertions.len() == 0 {
        None
    } else {
        match first_info(insertions.drop_last(), prefix) {
            Some(info) => Some(info),
            None => if insertions.last().prefix() == prefix {
                Some(insertions.last().info)
            } else {
                None
            },
        }
    }
}

/// Whether an insertion is the one that an address is matched to: it matches,
/// none that matches is longer, and none as long came earlier.
pub open spec fn wins(insertions: Seq<Insertion>, k: int, bits: u128, len: nat) -> bool {
    &&& 0 <= k < insertions.len()
    &&& insertions[k].matches_bits(bits, len)
    &&& forall|j: int|
        0 <= j < insertions.len() && (#[trigger] insertions[j]).matches_bits(bits, len)
            ==> insertions[j].prefix_len < insertions[k].prefix_len || insertions[j].prefix_len
            == insertions[k].prefix_len && k <= j
}

/// The first insertion of a prefix has a place, and no earlier one is of that
/// prefix.
proof fn lemma_first_info(insertions: Seq<Insertion>, prefix: Seq<bool>) -> (k: int)
    ensures
        match first_info(insertions, prefix) {
            Some(info) => 0 <= k < insertions.len() && insertions[k].prefix() == prefix
                && insertions[k].info == info && forall|j: int|
                0 <= j < k ==> (#[trigger] insertions[j]).prefix() != prefix,
            None => forall|j: int|
                0 <= j < insertions.len() ==> (#[trigger] insertions[j]).prefix() != prefix,
        },
    decreases insertions.len(),
{
    if insertions.len() == 0 {
        0
    } else {
        let init = insertions.drop_last();
        let k = lemma_first_info(init, prefix);
        assert forall|j: int| 0 <= j < init.len() implies #[trigger] insertions[j] == init[j] by {}
        match first_info(init, prefix) {
            Some(_) => k,
            None => insertions.len() - 1,
        }
    }
}

/// Node of the trie. Children are places in the node arena.
#[derive(Clone, Copy)]
struct TrieNode {
    zero: Option<u32>,
    one: Option<u32>,
    info: Option<u32>,
}

impl TrieNode {
    spec fn child_spec(self, bit: bool) -> Option<u32> {
        if bit {
            self.one
        } else {
            self.zero
        }
    }

    fn child(&self, bit: bool) -> (r: Option<u32>)
        ensures
            r == self.child_spec(bit),
    {
        if bit {
            self.one
        } else {
            self.zero
        }
    }
}

/// Binary radix trie for longest-prefix match over address bits.
///
/// Lookup walks one bit per level from the most significant one, so its cost
/// does not depend on how many prefixes are loaded. Bits are left-aligned in
/// a `u128`.
pub struct PrefixTrie {
    /// Node arena; place 0 is the root.
    nodes: Vec<TrieNode>,
    /// The bits that lead to each node.
    paths: Ghost<Seq<Seq<bool>>>,
}

impl PrefixTrie {
    /// Whether the arena is a tree whose nodes are reached by their paths.
    pub closed spec fn wf(self) -> bool {
        &&& self.nodes@.len() > 0
        &&& self.nodes@.len() <= u32::MAX
        &&& self.paths@.len() == self.nodes@.len()
        &&& self.paths@[0] == Seq::<bool>::empty()
        &&& forall|i: int, j: int|
            0 <= i < j < self.paths@.len() ==> #[trigger] self.paths@[i] != #[trigger] self.paths@[j]
        &&& forall|n: int, b: bool|
            0 <= n < self.nodes@.len() ==> (match #[trigger] self.nodes@[n].child_spec(b) {
                Some(c) => c < self.nodes@.len() && self.paths@[c as int] == self.paths@[n].push(b),
                None => forall|m: int|
                    0 <= m < self.nodes@.len() ==> #[trigger] self.paths@[m]
                        != self.paths@[n].push(b),
            })
        &&& forall|m: int|
            1 <= m < self.paths@.len() ==> (#[trigger] self.paths@[m]).len() > 0 && exists|n: int|
                0 <= n < self.paths@.len() && #[trigger] self.paths@[n]
                    == self.paths@[m].drop_last()
    }

    /// How many nodes the trie has.
    pub closed spec fn node_count(self) -> nat {
        self.nodes@.len()
    }

    /// What the trie has for exactly this prefix.
    pub closed spec fn at(self, prefix: Seq<bool>) -> Option<u32> {
        if exists|n: int| 0 <= n < self.paths@.len() && #[trigger] self.paths@[n] == prefix {
            let n = choose|n: int|
                0 <= n < self.paths@.len() && #[trigger] self.paths@[n] == prefix;
            self.nodes@[n].info
        } else {
            None
        }
    }

    /// The entry at a node is what the trie has for the node's path.
    proof fn lemma_at_node(self, n: int)
        requires
            self.wf(),
            0 <= n < self.nodes@.len(),
        ensures
            self.at(self.paths@[n]) == self.nodes@[n].info,
    {
        let p = self.paths@[n];
        let m = choose|m: int| 0 <= m < self.paths@.len() && #[trigger] self.paths@[m] == p;
        if m < n {
            assert(self.paths@[m] != self.paths@[n]);
        } else if n < m {
            assert(self.paths@[n] != self.paths@[m]);
        }
    }

    /// A path to nowhere has no entry.
    proof fn lemma_at_nowhere(self, p: Seq<bool>)
        requires
            forall|m: int| 0 <= m < self.paths@.len() ==> #[trigger] self.paths@[m] != p,
        ensures
            self.at(p) is None,
    {
    }

    /// If a path leads nowhere, neither does any longer one.
    proof fn lemma_nowhere_below(self, p: Seq<bool>, longer: Seq<bool>)
        requires
            self.wf(),
            p.len() > 0,
            p.len() <= longer.len(),
            longer.take(p.len() as int) == p,
            forall|m: int| 0 <= m < self.paths@.len() ==> #[trigger] self.paths@[m] != p,
        ensures
            forall|m: int| 0 <= m < self.paths@.len() ==> #[trigger] self.paths@[m] != longer,
        decreases longer.len(),
    {
        if p.len() == longer.len() {
            assert(longer.take(p.len() as int) =~= longer);
        } else {
            let shorter = longer.drop_last();
            assert(shorter.take(p.len() as int) =~= longer.take(p.len() as int));
            self.lemma_nowhere_below(p, shorter);
            assert forall|m: int| 0 <= m < self.paths@.len() implies #[trigger] self.paths@[m]
                != longer by {
                if self.paths@[m] == longer {
                    assert(m >= 1);
                    let n = choose|n: int|
                        0 <= n < self.paths@.len() && #[trigger] self.paths@[n]
                            == self.paths@[m].drop_last();
                    assert(self.paths@[n] == shorter);
                }
            }
        }
    }

    /// An empty trie.
    pub fn new() -> (r: PrefixTrie)
        ensures
            r.wf(),
            r.node_count() == 1,
            forall|p: Seq<bool>| #[trigger] r.at(p) is None,
            r.holds(Seq::empty()),
    {
        let mut nodes: Vec<TrieNode> = Vec::new();
        nodes.push(TrieNode { zero: None, one: None, info: None });
        let ghost paths = seq![Seq::<bool>::empty()];
        let r = PrefixTrie { nodes, paths: Ghost(paths) };
        proof {
            assert forall|n: int, b: bool| 0 <= n < r.nodes@.len() implies (
            match #[trigger] r.nodes@[n].child_spec(b) {
                Some(c) => c < r.nodes@.len() && r.paths@[c as int] == r.paths@[n].push(b),
                None => forall|m: int|
                    0 <= m < r.nodes@.len() ==> #[trigger] r.paths@[m] != r.paths@[n].push(b),
            }) by {
                assert(r.paths@[0].len() == 0);
                assert(r.paths@[n].push(b).len() == 1);
            }
        }
        r
    }

    /// The place of the child of `node` along `bit`, made if there is none.
    fn descend(&mut self, node: usize, bit: bool) -> (r: usize)
        requires
            old(self).wf(),
            old(self).node_count() < u32::MAX,
            node < old(self).node_count(),
        ensures
            final(self).wf(),
            r < final(self).node_count(),
            final(self).node_count() <= old(self).node_count() + 1,
            final(self).paths@[r as int] == old(self).paths@[node as int].push(bit),
            forall|p: Seq<bool>| #[trigger] final(self).at(p) == old(self).at(p),
    {
        let current: TrieNode = self.nodes[node];
        match current.child(bit) {
            Some(child) => child as usize,
            None => {
                let ghost before = *self;
                let place: usize = self.nodes.len();
                let child: u32 = place as u32;
                self.nodes.push(TrieNode { zero: None, one: None, info: None });
                let updated = if bit {
                    TrieNode { zero: current.zero, one: Some(child), info: current.info }
                } else {
                    TrieNode { zero: Some(child), one: current.one, info: current.info }
                };
                self.nodes.set(node, updated);
                let ghost path = before.paths@[node as int].push(bit);
                self.paths = Ghost(self.paths@.push(path));
                proof {
                    self.lemma_descended(before, node as int, bit);
                }
                place
            },
        }
    }

    /// Adding a child keeps the tree and its entries.
    proof fn lemma_descended(self, before: PrefixTrie, node: int, bit: bool)
        requires
            before.wf(),
            before.node_count() < u32::MAX,
            0 <= node < before.nodes@.len(),
            before.nodes@[node].child_spec(bit) is None,
            self.nodes@.len() == before.nodes@.len() + 1,
            self.nodes@[node].child_spec(bit) == Some(before.nodes@.len() as u32),
            self.nodes@[node].child_spec(!bit) == before.nodes@[node].child_spec(!bit),
            self.nodes@[node].info == before.nodes@[node].info,
            self.nodes@.last().zero is None,
            self.nodes@.last().one is None,
            self.nodes@.last().info is None,
            forall|i: int|
                0 <= i < before.nodes@.len() && i != node ==> #[trigger] self.nodes@[i]
                    == before.nodes@[i],
            self.paths@ == before.paths@.push(before.paths@[node].push(bit)),
        ensures
            self.wf(),
            forall|p: Seq<bool>| #[trigger] self.at(p) == before.at(p),
    {
        let path = before.paths@[node].push(bit);
        let last = before.nodes@.len() as int;
        assert(self.paths@[last] == path);
        assert(path.drop_last() =~= before.paths@[node]);
        assert(before.nodes@[node].child_spec(bit) is None);
        assert forall|m: int| 0 <= m < before.paths@.len() implies #[trigger] before.paths@[m]
            != path by {}
        assert forall|i: int, j: int|
            0 <= i < j < self.paths@.len() implies #[trigger] self.paths@[i]
            != #[trigger] self.paths@[j] by {
            if j == last {
                assert(before.paths@[i] != path);
            } else {
                assert(before.paths@[i] != before.paths@[j]);
            }
        }
        assert forall|n: int, b: bool| 0 <= n < self.nodes@.len() implies (
        match #[trigger] self.nodes@[n].child_spec(b) {
            Some(c) => c < self.nodes@.len() && self.paths@[c as int] == self.paths@[n].push(b),
            None => forall|m: int|
                0 <= m < self.nodes@.len() ==> #[trigger] self.paths@[m] != self.paths@[n].push(b),
        }) by {
            if n < last {
                assert(self.paths@[n] == before.paths@[n]);
                assert(b == bit || b == !bit);
                let old_child = before.nodes@[n].child_spec(b);
                if n == node && b == bit {
                } else {
                    assert(self.nodes@[n].child_spec(b) == old_child);
                    match old_child {
                        Some(c) => {},
                        None => {
                            assert forall|m: int| 0 <= m < self.nodes@.len() implies
                            #[trigger] self.paths@[m] != self.paths@[n].push(b) by {
                                if m == last {
                                    if path == before.paths@[n].push(b) {
                                        assert(path.drop_last() =~= before.paths@[n].push(
                                            b,
                                        ).drop_last());
                                        assert(before.paths@[n].push(b).drop_last()
                                            =~= before.paths@[n]);
                                        assert(path.last() == b);
                                        assert(before.paths@[n] == before.paths@[node]);
                                        if n < node {
                                            assert(before.paths@[n] != before.paths@[node]);
                                        } else if node < n {
                                            assert(before.paths@[node] != before.paths@[n]);
                                        }
                                        assert(false);
                                    }
                                } else {
                                    assert(before.paths@[m] != before.paths@[n].push(b));
                                }
                            }
                        },
                    }
                }
            } else {
                assert forall|m: int| 0 <= m < self.nodes@.len() implies #[trigger] self.paths@[m]
                    != path.push(b) by {
                    let longer = path.push(b);
                    assert(longer.take(path.len() as int) =~= path);
                    before.lemma_nowhere_below(path, longer);
                    if m == last {
                        assert(path.len() != longer.len());
                    } else {
                        assert(before.paths@[m] != longer);
                    }
                }
            }
        }
        assert forall|m: int| 1 <= m < self.paths@.len() implies (#[trigger] self.paths@[m]).len()
            > 0 && exists|n: int|
            0 <= n < self.paths@.len() && #[trigger] self.paths@[n] == self.paths@[m].drop_last() by {
            if m == last {
                assert(self.paths@[node] == self.paths@[m].drop_last());
            } else {
                assert(self.paths@[m] == before.paths@[m]);
                let n = choose|n: int|
                    0 <= n < before.paths@.len() && #[trigger] before.paths@[n]
                        == before.paths@[m].drop_last();
                assert(self.paths@[n] == self.paths@[m].drop_last());
            }
        }
        assert(self.wf());
        assert forall|p: Seq<bool>| #[trigger] self.at(p) == before.at(p) by {
            if exists|n: int| 0 <= n < before.paths@.len() && #[trigger] before.paths@[n] == p {
                let n = choose|n: int|
                    0 <= n < before.paths@.len() && #[trigger] before.paths@[n] == p;
                before.lemma_at_node(n);
                assert(self.paths@[n] == p);
                self.lemma_at_node(n);
            } else if p == path {
                self.lemma_at_node(last);
                before.lemma_at_nowhere(p);
            } else {
                assert forall|m: int| 0 <= m < self.paths@.len() implies #[trigger] self.paths@[m]
                    != p by {
                    if m < last {
                        assert(before.paths@[m] != p);
                    }
                }
                self.lemma_at_nowhere(p);
                before.lemma_at_nowhere(p);
            }
        }
    }

    /// Inserts a prefix that maps to `info_idx`.
    ///
    /// Only the first `prefix_len` bits count, so host bits are ignored. The
    /// first insertion of a prefix wins.
    pub fn insert(&mut self, bits: u128, prefix_len: u8, info_idx: u32)
        requires
            old(self).wf(),
            prefix_len <= 128,
            old(self).node_count() + prefix_len <= u32::MAX,
        ensures
            final(self).wf(),
            final(self).node_count() <= old(self).node_count() + prefix_len,
            forall|p: Seq<bool>| #[trigger]
                final(self).at(p) == (if p == leading_bits(bits, prefix_len as nat) && old(self).at(
                    p,
                ) is None {
                    Some(info_idx)
                } else {
                    old(self).at(p)
                }),
            forall|insertions: Seq<Insertion>| #[trigger]
                old(self).holds(insertions) ==> final(self).holds(
                    insertions.push(Insertion { bits, prefix_len, info: info_idx }),
                ),
    {
        let mut node: usize = 0;
        let mut i: u8 = 0;
        let ghost before = *self;
        proof {
            assert(leading_bits(bits, 0) =~= Seq::<bool>::empty());
        }
        while i < prefix_len
            invariant
                self.wf(),
                i <= prefix_len <= 128,
                node < self.node_count(),
                self.node_count() <= before.node_count() + i,
                before.node_count() + prefix_len <= u32::MAX,
                self.paths@[node as int] == leading_bits(bits, i as nat),
                forall|p: Seq<bool>| #[trigger] self.at(p) == before.at(p),
            decreases prefix_len - i,
        {
            let bit: bool = bit_at(bits, i);
            node = self.descend(node, bit);
            assert(leading_bits(bits, i as nat).push(bit) =~= leading_bits(bits, (i + 1) as nat));
            i = i + 1;
        }
        let current: TrieNode = self.nodes[node];
        let ghost mid = *self;
        proof {
            mid.lemma_at_node(node as int);
        }
        if current.info.is_none() {
            self.nodes.set(
                node,
                TrieNode { zero: current.zero, one: current.one, info: Some(info_idx) },
            );
            proof {
                assert forall|n: int, b: bool| 0 <= n < self.nodes@.len() implies (
                match #[trigger] self.nodes@[n].child_spec(b) {
                    Some(c) => c < self.nodes@.len() && self.paths@[c as int]
                        == self.paths@[n].push(b),
                    None => forall|m: int|
                        0 <= m < self.nodes@.len() ==> #[trigger] self.paths@[m]
                            != self.paths@[n].push(b),
                }) by {
                    assert(self.nodes@[n].child_spec(b) == mid.nodes@[n].child_spec(b));
                }
                assert(self.wf());
                let path = leading_bits(bits, prefix_len as nat);
                assert forall|p: Seq<bool>| #[trigger]
                    self.at(p) == (if p == path && mid.at(p) is None {
                    Some(info_idx)
                } else {
                    mid.at(p)
                }) by {
                    if exists|n: int| 0 <= n < mid.paths@.len() && #[trigger] mid.paths@[n] == p {
                        let n = choose|n: int|
                            0 <= n < mid.paths@.len() && #[trigger] mid.paths@[n] == p;
                        mid.lemma_at_node(n);
                        self.lemma_at_node(n);
                        if n < node {
                            assert(mid.paths@[n] != mid.paths@[node as int]);
                        } else if node < n {
                            assert(mid.paths@[node as int] != mid.paths@[n]);
                        }
                    } else {
                        assert(p != path);
                    }
                }
            }
        }
        proof {
            let new = Insertion { bits, prefix_len, info: info_idx };
            assert forall|insertions: Seq<Insertion>| #[trigger]
                before.holds(insertions) implies self.holds(insertions.push(new)) by {
                assert(insertions.push(new).drop_last() =~= insertions);
                assert forall|p: Seq<bool>| #[trigger]
                    self.at(p) == first_info(insertions.push(new), p) by {
                    assert(before.at(p) == first_info(insertions, p));
                }
            }
        }
    }

    /// Whether the trie is what a sequence of insertions makes of an empty one.
    pub open spec fn holds(self, insertions: Seq<Insertion>) -> bool {
        forall|p: Seq<bool>| #[trigger] self.at(p) == first_info(insertions, p)
    }

    /// After a sequence of insertions, what a lookup finds is the longest
    /// prefix that the address starts with, the first of those inserted where
    /// it was inserted more than once. It finds nothing only if no prefix
    /// matches. Bits behind a prefix play no part, and an empty prefix matches
    /// every address.
    pub proof fn law_longest_insertion_wins(
        self,
        insertions: Seq<Insertion>,
        bits: u128,
        len: nat,
    )
        requires
            self.holds(insertions),
        ensures
            match self.longest_match(bits, len) {
                Some(info) => exists|k: int| #[trigger]
                    wins(insertions, k, bits, len) && insertions[k].info == info,
                None => forall|j: int|
                    0 <= j < insertions.len() ==> !(#[trigger] insertions[j]).matches_bits(
                        bits,
                        len,
                    ),
            },
        decreases len,
    {
        let prefix = leading_bits(bits, len);
        let k = lemma_first_info(insertions, prefix);
        assert(self.at(prefix) == first_info(insertions, prefix));
        assert forall|j: int|
            0 <= j < insertions.len() && (#[trigger] insertions[j]).prefix() == prefix implies
            insertions[j].prefix_len == len by {
            assert(insertions[j].prefix().len() == insertions[j].prefix_len);
            assert(prefix.len() == len);
        }
        match first_info(insertions, prefix) {
            Some(info) => {
                assert(wins(insertions, k, bits, len));
            },
            None => {
                if len > 0 {
                    let less = (len - 1) as nat;
                    self.law_longest_insertion_wins(insertions, bits, less);
                    assert forall|j: int| 0 <= j < insertions.len() implies (
                    #[trigger] insertions[j]).matches_bits(bits, len)
                        == insertions[j].matches_bits(bits, less) by {}
                    if let Some(info) = self.longest_match(bits, less) {
                        let w = choose|w: int| #[trigger]
                            wins(insertions, w, bits, less) && insertions[w].info == info;
                        assert(wins(insertions, w, bits, len));
                    }
                }
            },
        }
    }

    /// What a lookup of `bits` finds: the entry of the longest prefix of at
    /// most `len` bits that has one.
    pub open spec fn longest_match(self, bits: u128, len: nat) -> Option<u32>
        decreases len,
    {
        let here = self.at(leading_bits(bits, len));
        if here is Some || len == 0 {
            here
        } else {
            self.longest_match(bits, (len - 1) as nat)
        }
    }

    /// Below a path to nowhere there is nothing to match.
    proof fn lemma_match_stops(self, bits: u128, len: nat, longer: nat)
        requires
            self.wf(),
            len < longer,
            forall|m: int|
                0 <= m < self.paths@.len() ==> #[trigger] self.paths@[m] != leading_bits(
                    bits,
                    (len + 1) as nat,
                ),
        ensures
            self.longest_match(bits, longer) == self.longest_match(bits, len),
        decreases longer,
    {
        let p = leading_bits(bits, (len + 1) as nat);
        let q = leading_bits(bits, longer);
        assert(q.take(p.len() as int) =~= p);
        self.lemma_nowhere_below(p, q);
        self.lemma_at_nowhere(q);
        if longer > len + 1 {
            self.lemma_match_stops(bits, len, (longer - 1) as nat);
        }
    }

    /// Finds the entry of the most specific prefix of the address bits.
    pub fn lookup(&self, bits: u128, addr_len: u8) -> (r: Option<u32>)
        requires
            self.wf(),
            addr_len <= 128,
        ensures
            r == self.longest_match(bits, addr_len as nat),
    {
        let mut node: usize = 0;
        let mut best: Option<u32> = self.nodes[0].info;
        let mut i: u8 = 0;
        proof {
            assert(leading_bits(bits, 0) =~= Seq::<bool>::empty());
            self.lemma_at_node(0);
        }
        while i < addr_len
            invariant
                self.wf(),
                i <= addr_len <= 128,
                node < self.node_count(),
                self.paths@[node as int] == leading_bits(bits, i as nat),
                best == self.longest_match(bits, i as nat),
            decreases addr_len - i,
        {
            let bit: bool = bit_at(bits, i);
            proof {
                assert(leading_bits(bits, i as nat).push(bit) =~= leading_bits(
                    bits,
                    (i + 1) as nat,
                ));
            }
            match self.nodes[node].child(bit) {
                Some(child) => {
                    node = child as usize;
                    proof {
                        self.lemma_at_node(node as int);
                    }
                    if let Some(info) = self.nodes[node].info {
                        best = Some(info);
                    }
                },
                None => {
                    proof {
                        self.lemma_match_stops(bits, i as nat, addr_len as nat);
                    }
                    return best;
                },
            }
            i = i + 1;
        }
        best
    }
}

/// Left-aligned bits of an address.
pub open spec fn addr_bits_spec(ip: IpAddr) -> u128 {
    match ip {
        IpAddr::V4(v4) => (v4.bits * 0x1_0000_0000_0000_0000_0000_0000u128) as u128,
        IpAddr::V6(v6) => v6.bits,
    }
}

/// Bit width of an address.
pub open spec fn addr_len_spec(ip: IpAddr) -> u8 {
    match ip {
        IpAddr::V4(_) => 32,
        IpAddr::V6(_) => 128,
    }
}

/// Converts an address to left-aligned bits and its bit width.
pub fn addr_bits(ip: IpAddr) -> (r: (u128, u8))
    ensures
        r == (addr_bits_spec(ip), addr_len_spec(ip)),
{
    match ip {
        IpAddr::V4(v4) => ((v4.bits as u128) * 0x1_0000_0000_0000_0000_0000_0000u128, 32),
        IpAddr::V6(v6) => (v6.bits, 128),
    }
}

/// Leading bits are the same exactly if the numbers are the same without the
/// bits behind them.
pub proof fn lemma_leading_bits(a: u128, b: u128, n: nat)
    requires
        1 <= n <= 128,
    ensures
        leading_bits(a, n) == leading_bits(b, n) <==> a >> ((128 - n) as u128) == b >> ((128
            - n) as u128),
    decreases n,
{
    let k = (128 - n) as u128;
    let last = n - 1;
    let (p, q) = (leading_bits(a, n), leading_bits(b, n));
    assert(p[last] == bit_spec(a, last) && q[last] == bit_spec(b, last));
    assert((127 - last) as u128 == k);
    if n == 1 {
        assert(((a >> 127u128) & 1 == 1) == ((b >> 127u128) & 1 == 1) <==> a >> 127u128 == b
            >> 127u128) by (bit_vector);
        if p[0] == q[0] {
            assert(p =~= q);
        }
    } else {
        let less = (n - 1) as nat;
        lemma_leading_bits(a, b, less);
        let up = (128 - less) as u128;
        assert(up == k + 1);
        lemma_shift_once_more(a, k, up);
        lemma_shift_once_more(b, k, up);
        let (x, y) = (a >> k, b >> k);
        assert(x == y <==> (x >> 1 == y >> 1 && (x & 1 == 1) == (y & 1 == 1))) by (bit_vector);
        let (s, t) = (leading_bits(a, less), leading_bits(b, less));
        if p == q {
            assert forall|i: int| 0 <= i < less implies s[i] == t[i] by {
                assert(p[i] == q[i]);
            }
            assert(s =~= t);
        }
        if s == t && p[last] == q[last] {
            assert forall|i: int| 0 <= i < n implies p[i] == q[i] by {
                if i < less {
                    assert(s[i] == t[i]);
                }
            }
            assert(p =~= q);
        }
    }
}

/// Shifting by one more is shifting and then shifting by one.
proof fn lemma_shift_once_more(a: u128, k: u128, up: u128)
    requires
        k < 127,
        up == k + 1,
    ensures
        a >> up == (a >> k) >> 1,
{
    assert(a >> up == (a >> k) >> 1) by (bit_vector)
        requires
            k < 127,
            up == k + 1,
    ;
}

} // verus!
