//! The variable tree: a depth-capped walk over value nodes.
//!
//! Aggregate values carry children (struct fields, array elements, pointer
//! targets), and pointer graphs in the debuggee's memory may be cyclic, so
//! the walk is capped by an expansion depth rather than chasing children
//! for as long as they exist.

use vstd::prelude::*;

use crate::state::ValueNode;

verus! {

/// The rows one node contributes: its own (name, type, value) row, then —
/// while the cap lasts — its children's rows.
pub open spec fn node_rows(v: ValueNode, depth: nat) -> Seq<(String, String, String)>
    decreases depth, 0nat, 0nat,
{
    seq![(v.name, v.display_type, v.value)] + if depth == 0 {
        Seq::empty()
    } else {
        tree_rows(v.children@, (depth - 1) as nat)
    }
}

/// The rows a list of sibling nodes contributes, in order.
pub open spec fn tree_rows(values: Seq<ValueNode>, depth: nat) -> Seq<(String, String, String)>
    decreases depth, values.len(), 1nat,
{
    if values.len() == 0 {
        Seq::empty()
    } else {
        node_rows(values[0], depth) + tree_rows(values.drop_first(), depth)
    }
}

/// Sibling rows split over concatenation.
proof fn lemma_tree_rows_concat(a: Seq<ValueNode>, b: Seq<ValueNode>, depth: nat)
    ensures
        tree_rows(a + b, depth) == tree_rows(a, depth) + tree_rows(b, depth),
    decreases a.len(),
{
    if a.len() == 0 {
        assert(a + b =~= b);
        assert(tree_rows(a, depth) + tree_rows(b, depth) =~= tree_rows(b, depth));
    } else {
        assert((a + b).drop_first() =~= a.drop_first() + b);
        assert((a + b)[0] == a[0]);
        assert((a + b).len() > 0);
        lemma_tree_rows_concat(a.drop_first(), b, depth);
        assert(node_rows(a[0], depth) + (tree_rows(a.drop_first(), depth) + tree_rows(b, depth))
            =~= (node_rows(a[0], depth) + tree_rows(a.drop_first(), depth)) + tree_rows(b, depth));
    }
}

/// Flattens the variable tree to displayed rows, expanding children only
/// to `depth` levels: the cap bounds the walk whatever the pointer graph
/// underneath looks like.
pub fn rows_to_depth(values: &Vec<ValueNode>, depth: u32) -> (r: Vec<(String, String, String)>)
    ensures
        r@ == tree_rows(values@, depth as nat),
    decreases depth,
{
    let mut out: Vec<(String, String, String)> = Vec::new();
    let n = values.len();
    let mut i: usize = 0;
    while i < n
        invariant
            0 <= i <= n,
            n == values@.len(),
            out@ == tree_rows(values@.take(i as int), depth as nat),
        decreases n - i,
    {
        let v = &values[i];
        out.push((v.name.clone(), v.display_type.clone(), v.value.clone()));
        if depth > 0 {
            let mut sub = rows_to_depth(&v.children, depth - 1);
            out.append(&mut sub);
        }
        proof {
            let d = depth as nat;
            let vs = values@;
            assert(vs.take(i + 1) =~= vs.take(i as int) + seq![vs[i as int]]);
            lemma_tree_rows_concat(vs.take(i as int), seq![vs[i as int]], d);
            assert(seq![vs[i as int]].drop_first() =~= Seq::<ValueNode>::empty());
            assert(tree_rows(seq![vs[i as int]], d) == node_rows(vs[i as int], d) + tree_rows(
                Seq::<ValueNode>::empty(),
                d,
            ));
            assert(node_rows(vs[i as int], d) + tree_rows(Seq::<ValueNode>::empty(), d)
                =~= node_rows(vs[i as int], d));
            if depth > 0 {
                assert((d - 1) as nat == (depth - 1) as nat);
            }
            assert(out@ =~= tree_rows(vs.take(i as int), d) + node_rows(vs[i as int], d));
        }
        i = i + 1;
    }
    proof {
        assert(values@.take(n as int) =~= values@);
    }
    out
}

} // verus!
