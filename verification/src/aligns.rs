use vstd::prelude::*;
use crate::actions::{GroupKind, StateAction, StomachError};
use crate::nodes::{
    HNode, HorizontalListType, MathAtom, MathNode, MathNucleus, NodeList, SourceRef, ToOrSpread,
    BoxType, VNode, VerticalListType,
};
use crate::stomach::{
    add_node_m, add_nodes_v, eq_except_lists, eq_marks, eq_output_state, eq_par_state,
    has_forcing, horizontal_receptive, inserts_part, page_part, spec_output_trigger, StomachData,
};

verus! {

/// Opens an alignment: pushes an alignment group on the symbol table (the
/// returned action) and an alignment frame on the list stack — a vertical
/// frame collecting rows when the material between entries is vertical,
/// else a horizontal one.
pub fn open_align(data: &mut StomachData, inner: BoxType, between: BoxType) -> (act: StateAction)
    ensures
        act == (StateAction::PushGroup { kind: GroupKind::Align }),
        final(data).open_lists@.len() == old(data).open_lists@.len() + 1,
        forall|i: int|
            0 <= i < old(data).open_lists@.len() ==> final(data).open_lists@[i] == old(
                data,
            ).open_lists@[i],
        between == BoxType::Vertical ==> final(data).open_lists@.last().v_tp() == Some(
            VerticalListType::HAlign,
        ) && final(data).open_lists@.last().v_children() == Seq::<VNode>::empty(),
        between == BoxType::Horizontal ==> final(data).open_lists@.last().h_tp() == Some(
            HorizontalListType::VAlign,
        ) && final(data).open_lists@.last().h_children() == Seq::<HNode>::empty(),
        eq_except_lists(*old(data), *final(data)),
        final(data).lastpenalty == old(data).lastpenalty,
{
    match between {
        BoxType::Vertical => {
            data.open_lists.push(
                NodeList::Vertical { tp: VerticalListType::HAlign, children: Vec::new() },
            );
        },
        BoxType::Horizontal => {
            data.open_lists.push(
                NodeList::Horizontal { tp: HorizontalListType::VAlign, children: Vec::new() },
            );
        },
    }
    StateAction::PushGroup { kind: GroupKind::Align }
}

/// Whether the top of the stack is an alignment frame, so that a close
/// matches it.
pub open spec fn spec_align_on_top(stack: Seq<NodeList>) -> bool {
    stack.len() > 0 && (stack.last() matches NodeList::Vertical {
        tp: VerticalListType::HAlign,
        ..
    } || stack.last() matches NodeList::Horizontal { tp: HorizontalListType::VAlign, .. })
}

/// The vcenter atom a row alignment becomes when it closes inside math.
pub open spec fn spec_vcenter_atom(children: Vec<VNode>, start: SourceRef, end: SourceRef)
    -> MathNode {
    MathNode::Atom(
        MathAtom {
            nucleus: MathNucleus::VCenter { children, start, end, scaled: ToOrSpread::Natural },
            sub: None,
            sup: None,
        },
    )
}

/// What closing an alignment produced: the group pop the engine performs
/// (before anything reads the symbol table again), and whether the page is
/// now due for output.
#[derive(Debug)]
pub struct CloseAlignResult {
    pub action: StateAction,
    pub fire: bool,
}

/// Closes an alignment: pops the alignment frame and reparents its rows.
/// Rows of a vertical (row-stacked) alignment closing inside math become a
/// single vcenter atom; otherwise the rows are appended to the enclosing
/// vertical material, and the columns of a horizontal alignment to the
/// enclosing horizontal list. Closing without an alignment frame on top is
/// the internal error and changes nothing.
pub fn close_align(data: &mut StomachData, start: SourceRef, end: SourceRef) -> (r: Result<
    CloseAlignResult,
    StomachError,
>)
    requires
        ({
            let s = old(data).open_lists@;
            spec_align_on_top(s) ==> (match s.last() {
                NodeList::Vertical { tp: VerticalListType::HAlign, .. } => s.drop_last().len() == 0
                    || s.drop_last().last() is Math || s.drop_last().last() is Vertical,
                NodeList::Horizontal { tp: HorizontalListType::VAlign, .. } =>
                    horizontal_receptive(s.drop_last()),
                _ => true,
            })
        }),
    ensures
        !spec_align_on_top(old(data).open_lists@) ==> r == Err::<CloseAlignResult, StomachError>(
            StomachError::InternalListMismatch,
        ) && *final(data) == *old(data),
        spec_align_on_top(old(data).open_lists@) ==> r is Ok && r->Ok_0.action == (
        StateAction::PopGroup),
        spec_align_on_top(old(data).open_lists@) ==> ({
            let s = old(data).open_lists@;
            let below = s.drop_last();
            match s.last() {
                NodeList::Vertical { tp: VerticalListType::HAlign, children } => {
                    if below.len() > 0 && below.last() is Math {
                        &&& final(data).open_lists@.len() == below.len()
                        &&& (forall|i: int|
                            0 <= i < below.len() - 1 ==> final(data).open_lists@[i] == below[i])
                        &&& final(data).open_lists@.last() is Math
                        &&& final(data).open_lists@.last().m_tp() == below.last().m_tp()
                        &&& final(data).open_lists@.last().m_children() == below.last().m_children().push(
                            spec_vcenter_atom(children, start, end),
                        )
                        &&& eq_except_lists(*old(data), *final(data))
                        &&& final(data).lastpenalty == old(data).lastpenalty
                        &&& !r->Ok_0.fire
                    } else if below.len() > 0 {
                        &&& final(data).open_lists@.len() == below.len()
                        &&& (forall|i: int|
                            0 <= i < below.len() - 1 ==> final(data).open_lists@[i] == below[i])
                        &&& final(data).open_lists@.last() is Vertical
                        &&& final(data).open_lists@.last().v_tp() == below.last().v_tp()
                        &&& final(data).open_lists@.last().v_children() == below.last().v_children()
                            + children@
                        &&& eq_except_lists(*old(data), *final(data))
                        &&& final(data).lastpenalty == old(data).lastpenalty
                        &&& !r->Ok_0.fire
                    } else {
                        &&& final(data).open_lists@.len() == 0
                        &&& final(data).page@ == old(data).page@ + page_part(children@)
                        &&& final(data).inserts@ == old(data).inserts@ + inserts_part(children@)
                        &&& eq_marks(*old(data), *final(data))
                        &&& eq_par_state(*old(data), *final(data))
                        &&& eq_output_state(*old(data), *final(data))
                        &&& final(data).lastpenalty == old(data).lastpenalty
                        &&& final(data).vadjusts == old(data).vadjusts
                        &&& final(data).pagegoal == old(data).pagegoal
                        &&& r->Ok_0.fire == spec_output_trigger(*final(data), has_forcing(children@))
                    }
                },
                NodeList::Horizontal { tp: HorizontalListType::VAlign, children } => {
                    &&& final(data).open_lists@.len() == below.len()
                    &&& (forall|i: int|
                        0 <= i < below.len() - 1 ==> final(data).open_lists@[i] == below[i])
                    &&& final(data).open_lists@.last() is Horizontal
                    &&& final(data).open_lists@.last().h_tp() == below.last().h_tp()
                    &&& final(data).open_lists@.last().h_children() == below.last().h_children()
                        + children@
                    &&& eq_except_lists(*old(data), *final(data))
                    &&& final(data).lastpenalty == old(data).lastpenalty
                    &&& !r->Ok_0.fire
                },
                _ => true,
            }
        }),
{
    let n = data.open_lists.len();
    let accepts: bool = if n == 0 {
        false
    } else {
        match &data.open_lists[n - 1] {
            NodeList::Vertical { tp: VerticalListType::HAlign, .. } => true,
            NodeList::Horizontal { tp: HorizontalListType::VAlign, .. } => true,
            _ => false,
        }
    };
    proof {
        if n > 0 {
            assert(data.open_lists@.last() == data.open_lists@[n as int - 1]);
        }
    }
    if !accepts {
        return Err(StomachError::InternalListMismatch);
    }
    let frame = data.open_lists.pop().unwrap();
    match frame {
        NodeList::Vertical { tp: VerticalListType::HAlign, children } => {
            let m = data.open_lists.len();
            let top_is_math = m > 0 && matches!(&data.open_lists[m - 1], NodeList::Math { .. });
            proof {
                if m > 0 {
                    assert(data.open_lists@.last() == data.open_lists@[m as int - 1]);
                }
            }
            if top_is_math {
                add_node_m(
                    data,
                    MathNode::Atom(
                        MathAtom {
                            nucleus: MathNucleus::VCenter {
                                children,
                                start,
                                end,
                                scaled: ToOrSpread::Natural,
                            },
                            sub: None,
                            sup: None,
                        },
                    ),
                );
                Ok(CloseAlignResult { action: StateAction::PopGroup, fire: false })
            } else {
                let fire = add_nodes_v(data, children);
                Ok(CloseAlignResult { action: StateAction::PopGroup, fire })
            }
        },
        NodeList::Horizontal { tp: HorizontalListType::VAlign, children } => {
            let ghost below = data.open_lists@;
            let frame2 = data.open_lists.pop().unwrap();
            match frame2 {
                NodeList::Horizontal { tp, children: mut children2 } => {
                    let ghost c0 = children2@;
                    let ghost all = children@;
                    let mut rest = children;
                    let total: usize = rest.len();
                    let mut i: usize = 0;
                    proof {
                        assert(rest@ =~= all.skip(0));
                        assert(children2@ =~= c0 + all.take(0));
                    }
                    while rest.len() > 0
                        invariant
                            all.len() == total,
                            i + rest@.len() == all.len(),
                            rest@ == all.skip(i as int),
                            children2@ == c0 + all.take(i as int),
                        decreases rest@.len(),
                    {
                        let node = rest.remove(0);
                        proof {
                            assert(all.skip(i as int)[0] == all[i as int]);
                            assert(all.skip(i as int).remove(0) =~= all.skip(i as int + 1));
                            assert((c0 + all.take(i as int)).push(all[i as int]) =~= c0 + all.take(
                                i as int + 1,
                            ));
                        }
                        children2.push(node);
                        i = i + 1;
                    }
                    proof {
                        assert(all.take(all.len() as int) =~= all);
                    }
                    data.open_lists.push(NodeList::Horizontal { tp, children: children2 });
                    Ok(CloseAlignResult { action: StateAction::PopGroup, fire: false })
                },
                other => {
                    proof {
                        assert(false);
                    }
                    data.open_lists.push(other);
                    Err(StomachError::InternalListMismatch)
                },
            }
        },
        other => {
            proof {
                assert(false);
            }
            data.open_lists.push(other);
            Err(StomachError::InternalListMismatch)
        },
    }
}

} // verus!
