//! Paths through Merkle trees with four children per node, two bits of
//! the leaf's index per level.
use crate::crypto::{hash4, mimc_of};
use crate::field::Scalar;
use vstd::prelude::*;

verus! {

/// The three siblings of a node on the path, in the order of their positions.
#[derive(Clone, Copy, Debug)]
pub struct Siblings {
    pub s0: Scalar,
    pub s1: Scalar,
    pub s2: Scalar,
}

impl Siblings {
    pub open spec fn wf(self) -> bool {
        self.s0.wf() && self.s1.wf() && self.s2.wf()
    }
}

/// An inclusion proof: the siblings of each level, leaf level first.
#[derive(Clone, Debug)]
pub struct MerkleProof {
    pub levels: Vec<Siblings>,
}

impl MerkleProof {
    pub open spec fn wf(self) -> bool {
        forall|i: int| 0 <= i < self.levels@.len() ==> (#[trigger] self.levels@[i]).wf()
    }

    /// The number of levels the proof spans.
    pub open spec fn depth(self) -> nat {
        self.levels@.len()
    }
}

/// The four children of a node whose child at `pos` has value `v`.
pub open spec fn children(pos: int, v: int, s: Siblings) -> Seq<int> {
    if pos == 0 {
        seq![v, s.s0.fe(), s.s1.fe(), s.s2.fe()]
    } else if pos == 1 {
        seq![s.s0.fe(), v, s.s1.fe(), s.s2.fe()]
    } else if pos == 2 {
        seq![s.s0.fe(), s.s1.fe(), v, s.s2.fe()]
    } else {
        seq![s.s0.fe(), s.s1.fe(), s.s2.fe(), v]
    }
}

/// The root reached from a leaf of value `leaf` at `index`, through `levels`.
pub open spec fn root_from(index: nat, leaf: int, levels: Seq<Siblings>) -> int
    decreases levels.len(),
{
    if levels.len() == 0 {
        leaf
    } else {
        root_from(index / 4, mimc_of(children(index as int % 4, leaf, levels[0])), levels.drop_first())
    }
}

/// The parent of a node at position `pos` among its siblings.
fn parent(pos: u64, v: &Scalar, s: &Siblings) -> (r: Scalar)
    requires
        pos < 4,
        v.wf(),
        s.wf(),
    ensures
        r.wf(),
        r.fe() == mimc_of(children(pos as int, v.fe(), *s)),
{
    if pos == 0 {
        hash4(v, &s.s0, &s.s1, &s.s2)
    } else if pos == 1 {
        hash4(&s.s0, v, &s.s1, &s.s2)
    } else if pos == 2 {
        hash4(&s.s0, &s.s1, v, &s.s2)
    } else {
        hash4(&s.s0, &s.s1, &s.s2, v)
    }
}

/// The root of the tree in which `leaf` stands at `index`, as `proof` gives it.
pub fn calc_root(index: u64, leaf: &Scalar, proof: &MerkleProof) -> (r: Scalar)
    requires
        leaf.wf(),
        proof.wf(),
    ensures
        r.wf(),
        r.fe() == root_from(index as nat, leaf.fe(), proof.levels@),
{
    let n = proof.levels.len();
    let mut acc = *leaf;
    let mut idx: u64 = index;
    let mut i: usize = 0;
    assert(proof.levels@.subrange(0, n as int) =~= proof.levels@);
    while i < n
        invariant
            n == proof.levels@.len(),
            i <= n,
            acc.wf(),
            proof.wf(),
            root_from(index as nat, leaf.fe(), proof.levels@) == root_from(
                idx as nat,
                acc.fe(),
                proof.levels@.subrange(i as int, n as int),
            ),
        decreases n - i,
    {
        let rest = Ghost(proof.levels@.subrange(i as int, n as int));
        assert(rest@.drop_first() =~= proof.levels@.subrange(i + 1, n as int));
        let next = parent(idx % 4, &acc, &proof.levels[i]);
        acc = next;
        idx = idx / 4;
        i = i + 1;
    }
    assert(proof.levels@.subrange(n as int, n as int) =~= Seq::<Siblings>::empty());
    acc
}

} // verus!
