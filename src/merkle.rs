//! The append-only commitment accumulator: a Merkle tree of fixed depth whose
//! leaves are commitments, in the order they were appended.

use crate::field::{fe_bytes, fields_bytes, hash_to_point, hash_to_point_of, Fe};
use vstd::prelude::*;

verus! {

/// Number of levels between a leaf and the root.
pub const DEPTH: u8 = 32;

/// Errors of the accumulator.
#[derive(Clone, Copy, Debug, PartialEq, Eq, Structural)]
pub enum TreeError {
    /// The position was appended after the given root was taken.
    StalePosition,
    /// The given root is not one that the tree has had.
    UnknownRoot,
}

/// The value of a leaf slot that holds no commitment.
pub open spec fn empty_leaf() -> Fe {
    Fe::spec_from_u64(2)
}

/// Hash of two sibling nodes at a level.
pub open spec fn combine(level: nat, a: Fe, b: Fe) -> Fe {
    hash_to_point_of("daod-merkle"@, seq![level as u8] + fe_bytes(a) + fe_bytes(b))
}

/// The leaf in slot `i`: the commitment appended there, else the empty leaf.
pub open spec fn leaf_at(leaves: Seq<Fe>, i: int) -> Fe {
    if 0 <= i < leaves.len() {
        leaves[i]
    } else {
        empty_leaf()
    }
}

/// The node at `level` (0 for leaves) and `index` of the tree over `leaves`.
pub open spec fn node(leaves: Seq<Fe>, level: nat, index: int) -> Fe
    decreases level,
{
    if level == 0 {
        leaf_at(leaves, index)
    } else {
        combine(
            (level - 1) as nat,
            node(leaves, (level - 1) as nat, 2 * index),
            node(leaves, (level - 1) as nat, 2 * index + 1),
        )
    }
}

/// The root of a subtree of height `level` that holds no commitment.
pub open spec fn empty_root(level: nat) -> Fe
    decreases level,
{
    if level == 0 {
        empty_leaf()
    } else {
        combine((level - 1) as nat, empty_root((level - 1) as nat), empty_root((level - 1) as nat))
    }
}

/// The root of the tree over `leaves`.
pub open spec fn root_of(leaves: Seq<Fe>) -> Fe {
    node(leaves, DEPTH as nat, 0)
}

/// Index at `level` of the node above the leaf at `pos`.
pub open spec fn index_at(pos: int, level: nat) -> int
    decreases level,
{
    if level == 0 {
        pos
    } else {
        index_at(pos, (level - 1) as nat) / 2
    }
}

/// The other child of the parent of `index`.
pub open spec fn sibling(index: int) -> int {
    if index % 2 == 0 {
        index + 1
    } else {
        index - 1
    }
}

/// The authentication path of the leaf at `pos`: its sibling at each level,
/// from the leaves up.
pub open spec fn path_of(leaves: Seq<Fe>, pos: int) -> Seq<Fe> {
    Seq::new(DEPTH as nat, |l: int| node(leaves, l as nat, sibling(index_at(pos, l as nat))))
}

/// The node at `level` that a leaf, its position and a path hash up to.
pub open spec fn fold_path(leaf: Fe, pos: int, path: Seq<Fe>, level: nat) -> Fe
    decreases level,
{
    if level == 0 {
        leaf
    } else {
        let l = (level - 1) as nat;
        let below = fold_path(leaf, pos, path, l);
        if index_at(pos, l) % 2 == 0 {
            combine(l, below, path[l as int])
        } else {
            combine(l, path[l as int], below)
        }
    }
}

/// The root that a leaf, its position and an authentication path stand for.
pub open spec fn root_from_path_spec(leaf: Fe, pos: int, path: Seq<Fe>) -> Fe {
    fold_path(leaf, pos, path, DEPTH as nat)
}

/// Number of leaf slots under a node of height `level`.
pub open spec fn span(level: nat) -> nat
    decreases level,
{
    if level == 0 {
        1
    } else {
        2 * span((level - 1) as nat)
    }
}

/// `s` holds the nodes at `level` that can differ from the empty root; all
/// others are empty.
pub open spec fn layer_ok(leaves: Seq<Fe>, level: nat, s: Seq<Fe>) -> bool {
    &&& forall|i: int| 0 <= i < s.len() ==> #[trigger] s[i] == node(leaves, level, i)
    &&& forall|i: int| s.len() <= i ==> #[trigger] node(leaves, level, i) == empty_root(level)
}

pub fn combine_exec(level: u8, a: Fe, b: Fe) -> (r: Fe)
    ensures
        r == combine(level as nat, a, b),
{
    let mut msg: Vec<u8> = Vec::new();
    msg.push(level);
    let mut ab: Vec<Fe> = Vec::new();
    ab.push(a);
    ab.push(b);
    let mut bytes = crate::field::encode_fields(&ab);
    assert(ab@.drop_last() =~= seq![a]);
    assert(seq![a].drop_last() =~= Seq::<Fe>::empty());
    assert(ab@ =~= seq![a, b]);
    assert(fields_bytes(seq![a]) =~= fe_bytes(a)) by {
        assert(fields_bytes(Seq::<Fe>::empty()) =~= Seq::<u8>::empty());
    }
    assert(bytes@ =~= fe_bytes(a) + fe_bytes(b));
    msg.append(&mut bytes);
    assert(msg@ =~= seq![level as u8] + fe_bytes(a) + fe_bytes(b));
    proof {
        reveal_strlit("daod-merkle");
    }
    hash_to_point("daod-merkle", &msg)
}

fn next_layer(layer: &Vec<Fe>, level: u8, empty: Fe, Ghost(leaves): Ghost<Seq<Fe>>) -> (r: Vec<Fe>)
    requires
        layer_ok(leaves, level as nat, layer@),
        empty == empty_root(level as nat),
    ensures
        layer_ok(leaves, level as nat + 1, r@),
{
    let n = layer.len();
    let m = n / 2 + n % 2;
    let mut out: Vec<Fe> = Vec::new();
    let mut i: usize = 0;
    while i < m
        invariant
            i <= m,
            m == n / 2 + n % 2,
            n == layer.len(),
            out.len() == i,
            layer_ok(leaves, level as nat, layer@),
            empty == empty_root(level as nat),
            forall|j: int| 0 <= j < i ==> #[trigger] out@[j] == node(leaves, level as nat + 1, j),
        decreases m - i,
    {
        let left = layer[2 * i];
        let right = if 2 * i + 1 < n {
            layer[2 * i + 1]
        } else {
            empty
        };
        assert(right == node(leaves, level as nat, 2 * i + 1));
        let h = combine_exec(level, left, right);
        out.push(h);
        i = i + 1;
    }
    assert forall|j: int| out.len() <= j implies #[trigger] node(leaves, level as nat + 1, j)
        == empty_root(level as nat + 1) by {
        assert(node(leaves, level as nat, 2 * j) == empty_root(level as nat));
        assert(node(leaves, level as nat, 2 * j + 1) == empty_root(level as nat));
    }
    out
}

/// The first `k` leaves.
fn copy_prefix(v: &Vec<Fe>, k: usize) -> (r: Vec<Fe>)
    requires
        k <= v.len(),
    ensures
        r@ == v@.take(k as int),
{
    let mut r: Vec<Fe> = Vec::new();
    let mut i: usize = 0;
    while i < k
        invariant
            i <= k,
            k <= v.len(),
            r@ == v@.take(i as int),
        decreases k - i,
    {
        r.push(v[i]);
        i = i + 1;
        assert(r@ =~= v@.take(i as int));
    }
    r
}

/// The root of the tree over `leaves`, and the authentication path of `pos`.
fn root_and_path(leaves: &Vec<Fe>, pos: usize) -> (r: (Fe, Vec<Fe>))
    ensures
        r.0 == root_of(leaves@),
        r.1@ == path_of(leaves@, pos as int),
{
    let mut layer = copy_prefix(leaves, leaves.len());
    assert(layer@ =~= leaves@);
    let mut level: u8 = 0;
    let mut empty = Fe::from_u64(2);
    let mut idx: usize = pos;
    let mut path: Vec<Fe> = Vec::new();
    while level < DEPTH
        invariant
            level <= DEPTH,
            layer_ok(leaves@, level as nat, layer@),
            empty == empty_root(level as nat),
            idx as int == index_at(pos as int, level as nat),
            path.len() == level,
            forall|j: int|
                0 <= j < level ==> #[trigger] path@[j] == node(
                    leaves@,
                    j as nat,
                    sibling(index_at(pos as int, j as nat)),
                ),
        decreases DEPTH - level,
    {
        let sib = if idx % 2 == 0 {
            idx + 1
        } else {
            idx - 1
        };
        let s = if sib < layer.len() {
            layer[sib]
        } else {
            empty
        };
        path.push(s);
        layer = next_layer(&layer, level, empty, Ghost(leaves@));
        empty = combine_exec(level, empty, empty);
        idx = idx / 2;
        level = level + 1;
    }
    let root = if layer.len() > 0 {
        layer[0]
    } else {
        empty
    };
    assert(path@ =~= path_of(leaves@, pos as int));
    (root, path)
}

/// Hashes a leaf up an authentication path to the root it stands for.
pub fn root_from_path(leaf: Fe, pos: u64, path: &Vec<Fe>) -> (r: Fe)
    requires
        path.len() == DEPTH,
    ensures
        r == root_from_path_spec(leaf, pos as int, path@),
{
    let mut cur = leaf;
    let mut idx: u64 = pos;
    let mut level: u8 = 0;
    while level < DEPTH
        invariant
            level <= DEPTH,
            path.len() == DEPTH,
            idx as int == index_at(pos as int, level as nat),
            cur == fold_path(leaf, pos as int, path@, level as nat),
        decreases DEPTH - level,
    {
        let s = path[level as usize];
        if idx % 2 == 0 {
            cur = combine_exec(level, cur, s);
        } else {
            cur = combine_exec(level, s, cur);
        }
        idx = idx / 2;
        level = level + 1;
    }
    cur
}

/// Whether a leaf at a position, with an authentication path, belongs to the
/// tree with the given root.
pub fn verify_path(leaf: Fe, pos: u64, path: &Vec<Fe>, root: Fe) -> (r: bool)
    ensures
        r == (path@.len() == DEPTH && root_from_path_spec(leaf, pos as int, path@) == root),
{
    if path.len() != DEPTH as usize {
        return false;
    }
    root_from_path(leaf, pos, path) == root
}

proof fn lemma_fold_path(leaves: Seq<Fe>, pos: int, l: nat)
    requires
        l <= DEPTH,
    ensures
        fold_path(leaf_at(leaves, pos), pos, path_of(leaves, pos), l) == node(
            leaves,
            l,
            index_at(pos, l),
        ),
    decreases l,
{
    if l > 0 {
        let k = (l - 1) as nat;
        lemma_fold_path(leaves, pos, k);
        let i = index_at(pos, k);
        assert(path_of(leaves, pos)[k as int] == node(leaves, k, sibling(i)));
        if i % 2 == 0 {
            assert(2 * (i / 2) == i);
        } else {
            assert(2 * (i / 2) + 1 == i);
        }
    }
}

proof fn lemma_index_bound(pos: int, l: nat, n: nat)
    requires
        0 <= pos < span(n),
        l <= n,
    ensures
        0 <= index_at(pos, l) < span((n - l) as nat),
    decreases l,
{
    if l > 0 {
        lemma_index_bound(pos, (l - 1) as nat, n);
        assert(span((n - l + 1) as nat) == 2 * span((n - l) as nat));
    }
}

/// Hashing the leaf at a position up its authentication path gives back the
/// root of the tree: the path of any appended leaf authenticates it.
pub proof fn lemma_path_reconstructs_root(leaves: Seq<Fe>, pos: int)
    requires
        0 <= pos < leaves.len(),
        pos < span(DEPTH as nat),
    ensures
        root_from_path_spec(leaves[pos], pos, path_of(leaves, pos)) == root_of(leaves),
{
    lemma_fold_path(leaves, pos, DEPTH as nat);
    lemma_index_bound(pos, DEPTH as nat, DEPTH as nat);
}

/// An append-only Merkle tree that keeps the root it had after each append.
pub struct MerkleTree {
    leaves: Vec<Fe>,
    roots: Vec<Fe>,
}

impl View for MerkleTree {
    type V = Seq<Fe>;

    /// The leaves, in the order they were appended.
    closed spec fn view(&self) -> Seq<Fe> {
        self.leaves@
    }
}

impl MerkleTree {
    /// The roots the tree has had: the `k`-th is the root over the first `k` leaves.
    pub closed spec fn roots(&self) -> Seq<Fe> {
        self.roots@
    }

    pub open spec fn wf(&self) -> bool {
        &&& self.roots().len() == self@.len() + 1
        &&& forall|k: int|
            0 <= k <= self@.len() ==> #[trigger] self.roots()[k] == root_of(self@.take(k))
    }

    /// `k` is the last number of leaves at which the tree had this root.
    pub open spec fn is_latest_checkpoint(&self, k: int, root: Fe) -> bool {
        &&& 0 <= k <= self@.len()
        &&& root_of(self@.take(k)) == root
        &&& forall|j: int| k < j <= self@.len() ==> root_of(#[trigger] self@.take(j)) != root
    }

    /// Whether the tree has had this root.
    pub open spec fn had_root(&self, root: Fe) -> bool {
        exists|k: int| 0 <= k <= self@.len() && root_of(#[trigger] self@.take(k)) == root
    }

    /// An empty tree.
    pub fn new() -> (r: MerkleTree)
        ensures
            r.wf(),
            r@ == Seq::<Fe>::empty(),
    {
        let leaves: Vec<Fe> = Vec::new();
        let (root, _) = root_and_path(&leaves, 0);
        let mut roots: Vec<Fe> = Vec::new();
        roots.push(root);
        let r = MerkleTree { leaves, roots };
        assert(r@.take(0) =~= r@);
        r
    }

    /// Number of leaves.
    pub fn len(&self) -> (r: usize)
        ensures
            r == self@.len(),
    {
        self.leaves.len()
    }

    /// The leaf at a position.
    pub fn leaf(&self, pos: usize) -> (r: Option<Fe>)
        ensures
            r == (if pos < self@.len() {
                Some(self@[pos as int])
            } else {
                None
            }),
    {
        if pos < self.leaves.len() {
            Some(self.leaves[pos])
        } else {
            None
        }
    }

    /// Appends a leaf and returns its position.
    pub fn append(&mut self, leaf: Fe) -> (pos: usize)
        requires
            old(self).wf(),
        ensures
            final(self).wf(),
            final(self)@ == old(self)@.push(leaf),
            pos == old(self)@.len(),
    {
        let pos = self.leaves.len();
        self.leaves.push(leaf);
        let (root, _) = root_and_path(&self.leaves, 0);
        self.roots.push(root);
        assert forall|k: int| 0 <= k <= self@.len() implies #[trigger] self.roots()[k] == root_of(
            self@.take(k),
        ) by {
            if k < self@.len() {
                assert(self@.take(k) =~= old(self)@.take(k));
            } else {
                assert(self@.take(k) =~= self@);
            }
        }
        pos
    }

    /// Position of the last leaf appended, which a wallet records to witness it.
    pub fn current_position(&self) -> (r: Option<usize>)
        ensures
            r == (if self@.len() == 0 {
                None
            } else {
                Some((self@.len() - 1) as usize)
            }),
    {
        if self.leaves.len() == 0 {
            None
        } else {
            Some(self.leaves.len() - 1)
        }
    }

    /// The root as it was `checkpoint_depth` appends ago.
    pub fn root(&self, checkpoint_depth: usize) -> (r: Option<Fe>)
        requires
            self.wf(),
        ensures
            r == (if checkpoint_depth <= self@.len() {
                Some(root_of(self@.take(self@.len() - checkpoint_depth)))
            } else {
                None
            }),
    {
        if checkpoint_depth <= self.leaves.len() {
            Some(self.roots[self.leaves.len() - checkpoint_depth])
        } else {
            None
        }
    }

    /// The last number of leaves at which the tree had this root.
    fn latest_checkpoint(&self, root: Fe) -> (r: Option<usize>)
        requires
            self.wf(),
        ensures
            match r {
                None => !self.had_root(root),
                Some(k) => self.is_latest_checkpoint(k as int, root),
            },
    {
        let mut best: Option<usize> = None;
        let mut i: usize = 0;
        while i < self.roots.len()
            invariant
                self.wf(),
                i <= self.roots.len(),
                match best {
                    None => forall|j: int| 0 <= j < i ==> self.roots()[j] != root,
                    Some(b) => b < i && self.roots()[b as int] == root && forall|j: int|
                        b < j < i ==> self.roots()[j] != root,
                },
            decreases self.roots.len() - i,
        {
            if self.roots[i] == root {
                best = Some(i);
            }
            i = i + 1;
        }
        proof {
            match best {
                None => {
                    assert forall|k: int| 0 <= k <= self@.len() implies root_of(
                        #[trigger] self@.take(k),
                    ) != root by {
                        assert(self.roots()[k] != root);
                    }
                },
                Some(b) => {
                    assert forall|j: int| b < j <= self@.len() implies root_of(
                        #[trigger] self@.take(j),
                    ) != root by {
                        assert(self.roots()[j] != root);
                    }
                    assert(self.roots()[b as int] == root);
                },
            }
        }
        best
    }

    /// Whether the tree has had this root.
    pub fn contains_root(&self, root: Fe) -> (r: bool)
        requires
            self.wf(),
        ensures
            r == self.had_root(root),
    {
        let k = self.latest_checkpoint(root);
        proof {
            if let Some(k) = k {
                assert(self.roots()[k as int] == root);
            }
        }
        k.is_some()
    }

    /// The authentication path of the leaf at `pos` in the tree as it was
    /// when it last had `root`.
    pub fn authentication_path(&self, pos: usize, root: Fe) -> (r: Result<Vec<Fe>, TreeError>)
        requires
            self.wf(),
        ensures
            match r {
                Err(TreeError::UnknownRoot) => !self.had_root(root),
                Err(TreeError::StalePosition) => exists|k: int|
                    #[trigger] self.is_latest_checkpoint(k, root) && pos >= k,
                Ok(p) => exists|k: int|
                    #[trigger] self.is_latest_checkpoint(k, root) && pos < k && p@ == path_of(
                        self@.take(k),
                        pos as int,
                    ),
            },
    {
        match self.latest_checkpoint(root) {
            None => Err(TreeError::UnknownRoot),
            Some(k) => {
                if pos >= k {
                    Err(TreeError::StalePosition)
                } else {
                    let snapshot = copy_prefix(&self.leaves, k);
                    let (_, path) = root_and_path(&snapshot, pos);
                    assert(self.is_latest_checkpoint(k as int, root));
                    Ok(path)
                }
            },
        }
    }
}

/// A path that `authentication_path` hands out for a leaf and a root hashes
/// that leaf up to exactly that root.
pub proof fn lemma_authentication_path_verifies(tree: MerkleTree, pos: int, root: Fe, path: Seq<Fe>)
    requires
        tree.wf(),
        0 <= pos < span(DEPTH as nat),
        exists|k: int|
            #[trigger] tree.is_latest_checkpoint(k, root) && pos < k && path == path_of(
                tree@.take(k),
                pos,
            ),
    ensures
        root_from_path_spec(tree@[pos], pos, path) == root,
{
    let k = choose|k: int|
        #[trigger] tree.is_latest_checkpoint(k, root) && pos < k && path == path_of(tree@.take(k), pos);
    lemma_path_reconstructs_root(tree@.take(k), pos);
}

} // verus!
