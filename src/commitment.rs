//! The commitment to a batch's transaction data: one leaf per slot, hashed
//! up a tree with four children per node.
use crate::crypto::{all_wf, hash4, mimc_of, values};
use crate::field::Scalar;
use crate::transition::pow4;
use vstd::arithmetic::div_mod::lemma_fundamental_div_mod;
use vstd::prelude::*;

verus! {

/// One level up: each group of four consecutive nodes hashed into its parent.
pub open spec fn parents(nodes: Seq<int>) -> Seq<int> {
    Seq::new(nodes.len() / 4, |i: int| mimc_of(nodes.subrange(4 * i, 4 * i + 4)))
}

/// The root of the tree of depth `depth` over `leaves`.
pub open spec fn tree_root(leaves: Seq<int>, depth: nat) -> int
    decreases depth,
{
    if depth == 0 {
        leaves[0]
    } else {
        tree_root(parents(leaves), (depth - 1) as nat)
    }
}

/// The parents of `nodes`, whose number is a positive multiple of four.
fn level_up(nodes: &Vec<Scalar>) -> (r: Vec<Scalar>)
    requires
        all_wf(nodes@),
    ensures
        all_wf(r@),
        values(r@) == parents(values(nodes@)),
{
    let total = nodes.len();
    let n = total / 4;
    let mut out: Vec<Scalar> = Vec::new();
    let mut j: usize = 0;
    while j < n
        invariant
            total == nodes@.len(),
            n == total / 4,
            j <= n,
            all_wf(nodes@),
            all_wf(out@),
            out@.len() == j,
            forall|k: int|
                0 <= k < j ==> (#[trigger] out@[k]).fe() == mimc_of(
                    values(nodes@).subrange(4 * k, 4 * k + 4),
                ),
        decreases n - j,
    {
        proof {
            lemma_fundamental_div_mod(nodes@.len() as int, 4);
            assert(4 * j + 3 < nodes@.len()) by (nonlinear_arith)
                requires
                    j < n,
                    nodes@.len() as int == 4 * n + nodes@.len() as int % 4,
                    nodes@.len() as int % 4 >= 0,
            ;
        }
        let b = 4 * j;
        let h = hash4(&nodes[b], &nodes[b + 1], &nodes[b + 2], &nodes[b + 3]);
        assert(values(nodes@).subrange(4 * j, 4 * j + 4) =~= seq![
            nodes@[b as int].fe(),
            nodes@[b + 1].fe(),
            nodes@[b + 2].fe(),
            nodes@[b + 3].fe(),
        ]);
        out.push(h);
        j = j + 1;
    }
    assert(values(out@) =~= parents(values(nodes@)));
    out
}

/// The root of the tree of depth `depth` over `leaves`.
pub fn calc_tree_root(leaves: Vec<Scalar>, depth: u8) -> (r: Scalar)
    requires
        leaves@.len() == pow4(depth as nat),
        all_wf(leaves@),
    ensures
        r.wf(),
        r.fe() == tree_root(values(leaves@), depth as nat),
{
    let mut nodes = leaves;
    let mut lvl: u8 = depth;
    while lvl > 0
        invariant
            lvl <= depth,
            nodes@.len() == pow4(lvl as nat),
            all_wf(nodes@),
            tree_root(values(leaves@), depth as nat) == tree_root(values(nodes@), lvl as nat),
        decreases lvl,
    {
        let ghost before = nodes@;
        nodes = level_up(&nodes);
        proof {
            let m = pow4((lvl - 1) as nat) as int;
            assert(pow4(lvl as nat) == 4 * pow4((lvl - 1) as nat));
            assert((4 * m) / 4 == m) by (nonlinear_arith);
            assert(values(nodes@).len() == nodes@.len());
            assert(values(before).len() == before.len());
        }
        lvl = lvl - 1;
    }
    nodes[0]
}

} // verus!
