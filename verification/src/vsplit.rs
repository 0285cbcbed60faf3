use vstd::prelude::*;
use crate::boxes::spec_vlist_extent;
use crate::dims::dim_add;
use crate::nodes::{vnode_depth, vnode_height, VNode};
use crate::stomach::{
    eq_output_state, eq_page_dims, eq_par_state, eq_queues, StomachData,
};
use crate::tokens::Token;

verus! {

/// What splitting a vertical list produced: the material before the break,
/// the material after it, and the penalty observed at the break (zero when
/// the break was not at a penalty).
#[derive(Debug)]
pub struct SplitResult {
    pub first: Vec<VNode>,
    pub rest: Vec<VNode>,
    pub split_penalty: i32,
}

/// The token list of the first mark of the class in the sequence.
pub open spec fn first_mark(s: Seq<VNode>, class: usize) -> Option<Seq<Token>>
    decreases s.len(),
{
    if s.len() == 0 {
        None
    } else {
        match first_mark(s.drop_last(), class) {
            Some(t) => Some(t),
            None => match s.last() {
                VNode::Mark { class: c, toks } => if c == class {
                    Some(toks@)
                } else {
                    None
                },
                _ => None,
            },
        }
    }
}

/// The token list of the last mark of the class in the sequence.
pub open spec fn last_mark(s: Seq<VNode>, class: usize) -> Option<Seq<Token>>
    decreases s.len(),
{
    if s.len() == 0 {
        None
    } else {
        match s.last() {
            VNode::Mark { class: c, toks } => if c == class {
                Some(toks@)
            } else {
                last_mark(s.drop_last(), class)
            },
            _ => last_mark(s.drop_last(), class),
        }
    }
}

/// How a split decomposes its input: the first part is a prefix, the rest
/// a suffix, at most one node between them was discarded at the break, and
/// a reported break penalty names that node.
pub open spec fn spec_split_parts(nodes: Seq<VNode>, first: Seq<VNode>, rest: Seq<VNode>, p: i32)
    -> bool {
    &&& first.len() + rest.len() <= nodes.len()
    &&& nodes.len() - (first.len() + rest.len()) <= 1
    &&& first == nodes.take(first.len() as int)
    &&& rest == nodes.skip((nodes.len() - rest.len()) as int)
    &&& (p != 0 ==> nodes.len() == first.len() + rest.len() + 1 && nodes[first.len() as int]
        == VNode::Penalty { penalty: p })
}

/// A discardable vertical node: glue, kern or penalty, the kinds a break
/// discards and a fresh split strips.
pub open spec fn spec_vnode_discardable(n: VNode) -> bool {
    match n {
        VNode::VSkip { .. } => true,
        VNode::VKern { .. } => true,
        VNode::Penalty { .. } => true,
        _ => false,
    }
}

/// Whether index `i` of the list is a place the vertical splitter cuts:
/// a forcing penalty anywhere; a modest penalty, or glue following a
/// non-discardable node, once the accumulated extent before it has met the
/// target.
pub open spec fn spec_v_break_at(nodes: Seq<VNode>, i: int, target: int) -> bool {
    match nodes[i] {
        VNode::Penalty { penalty } => penalty <= -10000 || (penalty < 10000
            && spec_vlist_extent(nodes.take(i)) >= target),
        VNode::VSkip { .. } => i > 0 && !spec_vnode_discardable(nodes[i - 1])
            && spec_vlist_extent(nodes.take(i)) >= target,
        _ => false,
    }
}

/// Copies a token list so it can be recorded while the nodes that carry it
/// stay in place.
fn copy_token_vec(v: &Vec<Token>) -> (r: Vec<Token>)
    ensures
        r@ == v@,
{
    let mut r: Vec<Token> = Vec::new();
    let mut i: usize = 0;
    while i < v.len()
        invariant
            i <= v@.len(),
            r@ == v@.take(i as int),
        decreases v@.len() - i,
    {
        r.push(v[i]);
        proof {
            assert(v@.take(i as int + 1).drop_last() =~= v@.take(i as int));
        }
        i = i + 1;
    }
    proof {
        assert(v@.take(v@.len() as int) =~= v@);
    }
    r
}

/// Walks a vertical list accumulating each node's height and depth, and
/// cuts it at the first break point: no earlier index is one, the
/// discarded node (when there is one) stands at one, and a walk that
/// discarded nothing ran off the end of a list without any break point.
/// An observed break penalty is reported.
pub fn vsplit_roughly(nodes: Vec<VNode>, target: i32) -> (r: SplitResult)
    ensures
        spec_split_parts(nodes@, r.first@, r.rest@, r.split_penalty),
        forall|i: int| 0 <= i < r.first@.len() ==> !spec_v_break_at(nodes@, i, target as int),
        nodes@.len() > r.first@.len() + r.rest@.len() ==> spec_v_break_at(
            nodes@,
            r.first@.len() as int,
            target as int,
        ),
        nodes@.len() == r.first@.len() + r.rest@.len() ==> r.rest@.len() == 0,
{
    let ghost all = nodes@;
    let mut first: Vec<VNode> = Vec::new();
    let mut rest = nodes;
    let mut acc: i32 = 0;
    loop
        invariant
            all == nodes@,
            all == first@ + rest@,
            first@ == all.take(first@.len() as int),
            acc as int == spec_vlist_extent(first@),
            forall|i: int| 0 <= i < first@.len() ==> !spec_v_break_at(all, i, target as int),
        decreases rest@.len(),
    {
        if rest.len() == 0 {
            proof {
                assert(first@ =~= all.take(first@.len() as int));
                assert(rest@ =~= all.skip((all.len() - rest@.len()) as int));
            }
            return SplitResult { first, rest, split_penalty: 0 };
        }
        proof {
            assert(rest@.remove(0) =~= rest@.subrange(1, rest@.len() as int));
            assert(all[first@.len() as int] == rest@[0]);
            if first@.len() > 0 {
                assert(first@.last() == all[first@.len() as int - 1]);
            }
        }
        let breaks: (bool, i32) = match &rest[0] {
            VNode::Penalty { penalty } => {
                if *penalty <= -10000 {
                    (true, *penalty)
                } else if *penalty < 10000 && acc >= target {
                    (true, *penalty)
                } else {
                    (false, 0)
                }
            },
            VNode::VSkip { .. } => {
                let prev_nondiscardable = if first.len() > 0 {
                    match &first[first.len() - 1] {
                        VNode::VSkip { .. } => false,
                        VNode::VKern { .. } => false,
                        VNode::Penalty { .. } => false,
                        _ => true,
                    }
                } else {
                    false
                };
                (prev_nondiscardable && acc >= target, 0)
            },
            _ => (false, 0),
        };
        if breaks.0 {
            proof {
                assert(spec_v_break_at(all, first@.len() as int, target as int));
            }
            let node = rest.remove(0);
            proof {
                assert(all =~= first@ + seq![node] + rest@);
                assert(first@ =~= all.take(first@.len() as int));
                assert(rest@ =~= all.skip((all.len() - rest@.len()) as int));
                assert(all[first@.len() as int] == node);
                if breaks.1 != 0 {
                    assert(node == (VNode::Penalty { penalty: breaks.1 }));
                }
            }
            return SplitResult { first, rest, split_penalty: breaks.1 };
        }
        proof {
            assert(!spec_v_break_at(all, first@.len() as int, target as int));
        }
        let node = rest.remove(0);
        let h = vnode_height(&node);
        let d = vnode_depth(&node);
        acc = dim_add(acc, dim_add(h, d));
        let ghost f0 = first@;
        first.push(node);
        proof {
            assert(first@ + rest@ =~= all);
            assert(first@ =~= all.take(first@.len() as int));
            assert(first@.drop_last() =~= f0);
            assert(first@.last() == node);
        }
    }
}

/// Records the split marks for the material split off: per mark class, the
/// first mark becomes the split first mark and the last the split bottom
/// mark; classes without a mark are left clear.
pub fn record_split_marks(data: &mut StomachData, first: &Vec<VNode>)
    ensures
        forall|c: usize| final(data).splitfirstmarks.spec_get(c) == first_mark(first@, c),
        forall|c: usize| final(data).splitbotmarks.spec_get(c) == last_mark(first@, c),
        final(data).page == old(data).page,
        final(data).open_lists == old(data).open_lists,
        eq_page_dims(*old(data), *final(data)),
        eq_par_state(*old(data), *final(data)),
        eq_output_state(*old(data), *final(data)),
        eq_queues(*old(data), *final(data)),
        final(data).topmarks == old(data).topmarks,
        final(data).firstmarks == old(data).firstmarks,
        final(data).botmarks == old(data).botmarks,
        final(data).lastpenalty == old(data).lastpenalty,
        final(data).page_contains_boxes == old(data).page_contains_boxes,
{
    data.splitfirstmarks.clear();
    data.splitbotmarks.clear();
    let mut k: usize = 0;
    proof {
        assert(first@.take(0) =~= Seq::<VNode>::empty());
    }
    while k < first.len()
        invariant
            k <= first@.len(),
            forall|c: usize| data.splitfirstmarks.spec_get(c) == first_mark(
                first@.take(k as int),
                c,
            ),
            forall|c: usize| data.splitbotmarks.spec_get(c) == last_mark(first@.take(k as int), c),
            data.page == old(data).page,
            data.open_lists == old(data).open_lists,
            eq_page_dims(*old(data), *data),
            eq_par_state(*old(data), *data),
            eq_output_state(*old(data), *data),
            eq_queues(*old(data), *data),
            data.topmarks == old(data).topmarks,
            data.firstmarks == old(data).firstmarks,
            data.botmarks == old(data).botmarks,
            data.lastpenalty == old(data).lastpenalty,
            data.page_contains_boxes == old(data).page_contains_boxes,
        decreases first@.len() - k,
    {
        proof {
            assert(first@.take(k as int + 1).drop_last() =~= first@.take(k as int));
            assert(first@.take(k as int + 1).last() == first@[k as int]);
        }
        match &first[k] {
            VNode::Mark { class, toks } => {
                let already = data.splitfirstmarks.get(*class).is_some();
                let copy1 = copy_token_vec(toks);
                if !already {
                    data.splitfirstmarks.set(*class, copy1);
                    let copy2 = copy_token_vec(toks);
                    data.splitbotmarks.set(*class, copy2);
                } else {
                    data.splitbotmarks.set(*class, copy1);
                }
            },
            _ => {},
        }
        k = k + 1;
    }
    proof {
        assert(first@.take(first@.len() as int) =~= first@);
    }
}

/// Splits a vertical list at the first break point whose accumulated size
/// meets the target, recording the split marks of the material split off.
pub fn split_vertical(data: &mut StomachData, nodes: Vec<VNode>, target: i32) -> (r: SplitResult)
    ensures
        spec_split_parts(nodes@, r.first@, r.rest@, r.split_penalty),
        forall|i: int| 0 <= i < r.first@.len() ==> !spec_v_break_at(nodes@, i, target as int),
        nodes@.len() > r.first@.len() + r.rest@.len() ==> spec_v_break_at(
            nodes@,
            r.first@.len() as int,
            target as int,
        ),
        nodes@.len() == r.first@.len() + r.rest@.len() ==> r.rest@.len() == 0,
        forall|c: usize| final(data).splitfirstmarks.spec_get(c) == first_mark(r.first@, c),
        forall|c: usize| final(data).splitbotmarks.spec_get(c) == last_mark(r.first@, c),
        final(data).page == old(data).page,
        final(data).open_lists == old(data).open_lists,
        eq_page_dims(*old(data), *final(data)),
        eq_par_state(*old(data), *final(data)),
        eq_output_state(*old(data), *final(data)),
        eq_queues(*old(data), *final(data)),
        final(data).topmarks == old(data).topmarks,
        final(data).firstmarks == old(data).firstmarks,
        final(data).botmarks == old(data).botmarks,
        final(data).lastpenalty == old(data).lastpenalty,
        final(data).page_contains_boxes == old(data).page_contains_boxes,
{
    let r = vsplit_roughly(nodes, target);
    record_split_marks(data, &r.first);
    r
}

} // verus!
