//! Deciding whether the chains of unions and of intersections among the doc
//! types of a file end, which lowering needs: nodes are ranked in sweeps, a node
//! once all the chain nodes it continues through are ranked, until a sweep ranks
//! nothing more.
use vstd::prelude::*;

use crate::doc_type::{
    SalsaDocTypeBinaryOperatorSummary, SalsaDocTypeIndexSummary, SalsaDocTypeKindSummary, SalsaDocTypeNodeSummary,
    chain_rank_ok, chain_ranked,
};
use crate::lookup::{Keyed, find_last_index, last_index_with_key, last_with_key, lemma_last_index_with_key};

verus! {

/// Node `i` continues a chain of `op`: it is the last node listed under its key
/// and a binary type with operator `op`.
pub open spec fn continues_chain(nodes: Seq<SalsaDocTypeNodeSummary>, op: SalsaDocTypeBinaryOperatorSummary, i: int) -> bool {
    &&& 0 <= i < nodes.len()
    &&& last_index_with_key(nodes, nodes[i].key) == i
    &&& match nodes[i].kind {
        SalsaDocTypeKindSummary::Binary { op: o, .. } => o == op,
        _ => false,
    }
}

/// The operands of a binary node; none for any other node.
pub open spec fn binary_operands(n: SalsaDocTypeNodeSummary) -> (Option<u32>, Option<u32>) {
    match n.kind {
        SalsaDocTypeKindSummary::Binary { left_type_offset, right_type_offset, .. } => (left_type_offset, right_type_offset),
        _ => (None, None),
    }
}

/// The position of the node through which operand `t` continues a chain of
/// `op`, or -1 where it continues none.
pub open spec fn chain_operand_index(
    nodes: Seq<SalsaDocTypeNodeSummary>,
    op: SalsaDocTypeBinaryOperatorSummary,
    t: Option<u32>,
) -> int {
    match t {
        Some(a) => {
            let j = last_index_with_key(nodes, a);
            if j >= 0 && continues_chain(nodes, op, j) { j } else { -1 }
        },
        None => -1,
    }
}

spec fn operand_ready(
    nodes: Seq<SalsaDocTypeNodeSummary>,
    op: SalsaDocTypeBinaryOperatorSummary,
    done: Seq<bool>,
    rk: Seq<nat>,
    t: Option<u32>,
    r: nat,
) -> bool {
    let j = chain_operand_index(nodes, op, t);
    j < 0 || (done[j] && rk[j] < r)
}

spec fn operand_blocked(
    nodes: Seq<SalsaDocTypeNodeSummary>,
    op: SalsaDocTypeBinaryOperatorSummary,
    done: Seq<bool>,
    t: Option<u32>,
) -> bool {
    let j = chain_operand_index(nodes, op, t);
    j >= 0 && !done[j]
}

spec fn blocked(nodes: Seq<SalsaDocTypeNodeSummary>, op: SalsaDocTypeBinaryOperatorSummary, done: Seq<bool>, i: int) -> bool {
    operand_blocked(nodes, op, done, binary_operands(nodes[i]).0) || operand_blocked(
        nodes,
        op,
        done,
        binary_operands(nodes[i]).1,
    )
}

/// Every ranked node continues a chain, ranks at least one, and ranks above the
/// chain nodes its operands continue through, which are ranked.
spec fn ranks_ok(nodes: Seq<SalsaDocTypeNodeSummary>, op: SalsaDocTypeBinaryOperatorSummary, done: Seq<bool>, rk: Seq<nat>) -> bool {
    &&& done.len() == nodes.len()
    &&& rk.len() == nodes.len()
    &&& forall|i: int|
        0 <= i < nodes.len() && #[trigger] done[i] ==> {
            &&& continues_chain(nodes, op, i)
            &&& rk[i] >= 1
            &&& operand_ready(nodes, op, done, rk, binary_operands(nodes[i]).0, rk[i])
            &&& operand_ready(nodes, op, done, rk, binary_operands(nodes[i]).1, rk[i])
        }
}

spec fn count_false(s: Seq<bool>) -> nat
    decreases s.len(),
{
    if s.len() == 0 {
        0
    } else {
        count_false(s.drop_last()) + if s.last() { 0nat } else { 1nat }
    }
}

proof fn lemma_count_false_set(s: Seq<bool>, i: int)
    requires
        0 <= i < s.len(),
        !s[i],
    ensures
        count_false(s.update(i, true)) + 1 == count_false(s),
    decreases s.len(),
{
    if i == s.len() - 1 {
        assert(s.update(i, true).drop_last() =~= s.drop_last());
    } else {
        assert(s.update(i, true).drop_last() =~= s.drop_last().update(i, true));
        lemma_count_false_set(s.drop_last(), i);
    }
}

/// Where every unranked chain node is blocked by another, no ranking exists:
/// the blocking nodes would rank lower and lower without end.
proof fn lemma_blocked_unranked(
    nodes: Seq<SalsaDocTypeNodeSummary>,
    op: SalsaDocTypeBinaryOperatorSummary,
    done: Seq<bool>,
    rank: spec_fn(u32) -> nat,
    i: int,
)
    requires
        done.len() == nodes.len(),
        continues_chain(nodes, op, i),
        !done[i],
        forall|k: int| continues_chain(nodes, op, k) && !done[k] ==> #[trigger] blocked(nodes, op, done, k),
    ensures
        !chain_rank_ok(nodes, op, rank),
    decreases rank(nodes[i].key),
{
    if chain_rank_ok(nodes, op, rank) {
        let k = nodes[i].key;
        lemma_last_index_with_key(nodes, k);
        assert(last_with_key(nodes, k) == Some(nodes[i]));
        assert(blocked(nodes, op, done, i));
        let (l, r) = binary_operands(nodes[i]);
        let t = if operand_blocked(nodes, op, done, l) { l } else { r };
        assert(operand_blocked(nodes, op, done, t));
        let a = t.unwrap();
        let j = last_index_with_key(nodes, a);
        lemma_last_index_with_key(nodes, a);
        assert(nodes[j].key == a);
        assert(rank(a) < rank(k));
        lemma_blocked_unranked(nodes, op, done, rank, j);
    }
}

fn is_chain_kind(n: &SalsaDocTypeNodeSummary, op: SalsaDocTypeBinaryOperatorSummary) -> (r: bool)
    ensures
        r == match n.kind {
            SalsaDocTypeKindSummary::Binary { op: o, .. } => o == op,
            _ => false,
        },
{
    match &n.kind {
        SalsaDocTypeKindSummary::Binary { op: o, .. } => *o == op,
        _ => false,
    }
}

fn chain_operand_at(nodes: &Vec<SalsaDocTypeNodeSummary>, op: SalsaDocTypeBinaryOperatorSummary, t: Option<u32>) -> (r:
    Option<usize>)
    ensures
        match r {
            Some(j) => j as int == chain_operand_index(nodes@, op, t),
            None => chain_operand_index(nodes@, op, t) == -1,
        },
{
    match t {
        None => None,
        Some(a) => match find_last_index(nodes, a) {
            None => None,
            Some(j) => {
                proof { lemma_last_index_with_key(nodes@, a); }
                if is_chain_kind(&nodes[j], op) {
                    Some(j)
                } else {
                    None
                }
            },
        },
    }
}

fn continues_chain_at(nodes: &Vec<SalsaDocTypeNodeSummary>, op: SalsaDocTypeBinaryOperatorSummary, i: usize) -> (r: bool)
    requires
        i < nodes@.len(),
    ensures
        r == continues_chain(nodes@, op, i as int),
{
    if !is_chain_kind(&nodes[i], op) {
        return false;
    }
    match find_last_index(nodes, nodes[i].key) {
        Some(j) => j == i,
        None => false,
    }
}

/// Whether the chains of binary types with operator `op` end.
fn chains_end_for(nodes: &Vec<SalsaDocTypeNodeSummary>, op: SalsaDocTypeBinaryOperatorSummary) -> (r: bool)
    ensures
        r == chain_ranked(nodes@, op),
{
    let n = nodes.len();
    let mut done: Vec<bool> = Vec::new();
    while done.len() < n
        invariant
            done@.len() <= n == nodes@.len(),
            forall|k: int| 0 <= k < done@.len() ==> !done@[k],
        decreases n - done@.len(),
    {
        done.push(false);
    }
    let ghost mut rk: Seq<nat> = Seq::new(n as nat, |k: int| 0nat);
    let mut progress = true;
    while progress
        invariant
            n == nodes@.len(),
            ranks_ok(nodes@, op, done@, rk),
            !progress ==> forall|k: int| continues_chain(nodes@, op, k) && !done@[k] ==> #[trigger] blocked(nodes@, op, done@, k),
        decreases count_false(done@) + if progress { 1nat } else { 0nat },
    {
        let ghost start = done@;
        progress = false;
        let mut i: usize = 0;
        while i < n
            invariant
                n == nodes@.len(),
                i <= n,
                ranks_ok(nodes@, op, done@, rk),
                count_false(done@) <= count_false(start),
                progress ==> count_false(done@) < count_false(start),
                !progress ==> done@ == start,
                !progress ==> forall|k: int|
                    0 <= k < i && continues_chain(nodes@, op, k) && !done@[k] ==> #[trigger] blocked(nodes@, op, done@, k),
            decreases n - i,
        {
            if !done[i] && continues_chain_at(nodes, op, i) {
                let (left, right) = match &nodes[i].kind {
                    SalsaDocTypeKindSummary::Binary { left_type_offset, right_type_offset, .. } => (
                        *left_type_offset,
                        *right_type_offset,
                    ),
                    _ => (None, None),
                };
                assert((left, right) == binary_operands(nodes@[i as int]));
                let jl = chain_operand_at(nodes, op, left);
                let jr = chain_operand_at(nodes, op, right);
                let ready_l = match jl {
                    Some(j) => done[j],
                    None => true,
                };
                let ready_r = match jr {
                    Some(j) => done[j],
                    None => true,
                };
                if ready_l && ready_r {
                    let ghost rl: nat = match jl {
                        Some(j) => rk[j as int],
                        None => 0,
                    };
                    let ghost rr: nat = match jr {
                        Some(j) => rk[j as int],
                        None => 0,
                    };
                    let ghost old_done = done@;
                    let ghost old_rk = rk;
                    proof {
                        rk = rk.update(i as int, if rl > rr { rl + 1 } else { rr + 1 });
                        lemma_count_false_set(done@, i as int);
                    }
                    done.set(i, true);
                    assert forall|k: int| 0 <= k < nodes@.len() && #[trigger] done@[k] implies {
                        &&& continues_chain(nodes@, op, k)
                        &&& rk[k] >= 1
                        &&& operand_ready(nodes@, op, done@, rk, binary_operands(nodes@[k]).0, rk[k])
                        &&& operand_ready(nodes@, op, done@, rk, binary_operands(nodes@[k]).1, rk[k])
                    } by {
                        if k != i {
                            assert(old_done[k]);
                            let jk = chain_operand_index(nodes@, op, binary_operands(nodes@[k]).0);
                            let jk2 = chain_operand_index(nodes@, op, binary_operands(nodes@[k]).1);
                            if jk >= 0 {
                                assert(old_done[jk]);
                            }
                            if jk2 >= 0 {
                                assert(old_done[jk2]);
                            }
                        }
                    }
                    progress = true;
                } else {
                    if !progress {
                        assert(blocked(nodes@, op, done@, i as int));
                    }
                }
            }
            i = i + 1;
        }
    }
    let mut k: usize = 0;
    while k < n
        invariant
            n == nodes@.len(),
            k <= n,
            ranks_ok(nodes@, op, done@, rk),
            forall|m: int| continues_chain(nodes@, op, m) && !done@[m] ==> #[trigger] blocked(nodes@, op, done@, m),
            forall|m: int| 0 <= m < k && continues_chain(nodes@, op, m) ==> done@[m],
        decreases n - k,
    {
        if !done[k] && continues_chain_at(nodes, op, k) {
            proof {
                if chain_ranked(nodes@, op) {
                    let rank = choose|rank: spec_fn(u32) -> nat| chain_rank_ok(nodes@, op, rank);
                    lemma_blocked_unranked(nodes@, op, done@, rank, k as int);
                }
            }
            return false;
        }
        k = k + 1;
    }
    proof {
        let s = nodes@;
        let d = done@;
        let rank = |key: u32|
            {
                let i = last_index_with_key(s, key);
                if i >= 0 && continues_chain(s, op, i) {
                    rk[i]
                } else {
                    0nat
                }
            };
        assert forall|key: u32| #![trigger last_with_key(s, key)]
            match last_with_key(s, key) {
                Some(m) => match m.kind {
                    SalsaDocTypeKindSummary::Binary { op: o, left_type_offset, right_type_offset } => o == op ==> {
                        &&& match left_type_offset {
                            Some(a) => rank(a) < rank(key),
                            None => true,
                        }
                        &&& match right_type_offset {
                            Some(b) => rank(b) < rank(key),
                            None => true,
                        }
                    },
                    _ => true,
                },
                None => true,
            } by {
            lemma_last_index_with_key(s, key);
            let i = last_index_with_key(s, key);
            if i >= 0 {
                if continues_chain(s, op, i) {
                    assert(d[i]);
                    let (l, r) = binary_operands(s[i]);
                    if let Some(a) = l {
                        lemma_last_index_with_key(s, a);
                    }
                    if let Some(b) = r {
                        lemma_last_index_with_key(s, b);
                    }
                }
            }
        }
        assert(chain_rank_ok(s, op, rank));
    }
    true
}

/// Whether the chains of unions and of intersections among the doc types of a
/// file end, as lowering them needs.
pub fn doc_type_chains_end(doc_types: &SalsaDocTypeIndexSummary) -> (r: bool)
    ensures
        r == (chain_ranked(doc_types.types@, SalsaDocTypeBinaryOperatorSummary::Union) && chain_ranked(
            doc_types.types@,
            SalsaDocTypeBinaryOperatorSummary::Intersection,
        )),
{
    chains_end_for(&doc_types.types, SalsaDocTypeBinaryOperatorSummary::Union) && chains_end_for(
        &doc_types.types,
        SalsaDocTypeBinaryOperatorSummary::Intersection,
    )
}

} // verus!
