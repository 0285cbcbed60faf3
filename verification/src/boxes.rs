use vstd::prelude::*;
use either::Either;
use crate::actions::{StateAction, StomachError};
use crate::dims::{dim_add, dim_sub, sat_add, sat_sub};
use crate::nodes::{
    hnode_depth, hnode_height, hnode_width, spec_hnode_depth, spec_hnode_height, spec_hnode_width,
    spec_vnode_depth, spec_vnode_height, spec_vnode_width, vnode_depth, vnode_height, vnode_width,
    BoxTarget, BoxType, HBoxKind, HNode, HorizontalListType, MathAtom, MathClass, MathKernel,
    MathNode, MathNucleus, NodeList, SourceRef, TeXBox, ToOrSpread, VNode, VerticalListType,
};
use crate::stomach::{
    add_node_h, add_node_m, add_node_v, eq_except_lists, eq_marks, eq_output_state, eq_par_state,
    spec_output_trigger, spec_totals_after, StomachData,
};

verus! {

// ------------------------------------------------------------------
// Natural metrics of a node list, used when a box is closed.
// ------------------------------------------------------------------

/// The natural width of a horizontal list: the saturating sum of its
/// children's widths.
pub open spec fn spec_hlist_width(s: Seq<HNode>) -> int
    decreases s.len(),
{
    if s.len() == 0 {
        0
    } else {
        sat_add(spec_hlist_width(s.drop_last()), spec_hnode_width(s.last()))
    }
}

/// The natural height of a horizontal list: the largest child height, at
/// least zero.
pub open spec fn spec_hlist_height(s: Seq<HNode>) -> int
    decreases s.len(),
{
    if s.len() == 0 {
        0
    } else {
        let rest = spec_hlist_height(s.drop_last());
        let x = spec_hnode_height(s.last());
        if x > rest {
            x
        } else {
            rest
        }
    }
}

/// The natural depth of a horizontal list: the largest child depth, at
/// least zero.
pub open spec fn spec_hlist_depth(s: Seq<HNode>) -> int
    decreases s.len(),
{
    if s.len() == 0 {
        0
    } else {
        let rest = spec_hlist_depth(s.drop_last());
        let x = spec_hnode_depth(s.last());
        if x > rest {
            x
        } else {
            rest
        }
    }
}

/// The total vertical extent of a vertical list: the saturating sum of
/// each child's height plus depth.
pub open spec fn spec_vlist_extent(s: Seq<VNode>) -> int
    decreases s.len(),
{
    if s.len() == 0 {
        0
    } else {
        sat_add(
            spec_vlist_extent(s.drop_last()),
            sat_add(spec_vnode_height(s.last()), spec_vnode_depth(s.last())),
        )
    }
}

/// The natural depth of a vertical list: the depth of its last child.
pub open spec fn spec_vlist_depth(s: Seq<VNode>) -> int {
    if s.len() == 0 {
        0
    } else {
        spec_vnode_depth(s.last())
    }
}

/// The natural height of a vertical list: its extent less what hangs
/// below the last baseline.
pub open spec fn spec_vlist_height(s: Seq<VNode>) -> int {
    sat_sub(spec_vlist_extent(s), spec_vlist_depth(s))
}

/// The natural width of a vertical list: the largest child width, at
/// least zero.
pub open spec fn spec_vlist_width(s: Seq<VNode>) -> int
    decreases s.len(),
{
    if s.len() == 0 {
        0
    } else {
        let rest = spec_vlist_width(s.drop_last());
        let x = spec_vnode_width(s.last());
        if x > rest {
            x
        } else {
            rest
        }
    }
}

/// The size a box of the given sizing directive reports in its sized
/// dimension, for a given natural size: `to d` reports exactly `d`,
/// `spread d` the natural size plus `d`.
pub open spec fn spec_sized(sizing: ToOrSpread, natural: int) -> int {
    match sizing {
        ToOrSpread::Natural => natural,
        ToOrSpread::To { dim } => dim as int,
        ToOrSpread::Spread { dim } => sat_add(natural, dim as int),
    }
}

/// Computes the natural width, height and depth of a horizontal list.
pub fn hlist_natural(children: &Vec<HNode>) -> (r: (i32, i32, i32))
    ensures
        r.0 as int == spec_hlist_width(children@),
        r.1 as int == spec_hlist_height(children@),
        r.2 as int == spec_hlist_depth(children@),
{
    let mut w: i32 = 0;
    let mut h: i32 = 0;
    let mut d: i32 = 0;
    let mut i: usize = 0;
    proof {
        assert(children@.take(0) =~= Seq::<HNode>::empty());
    }
    while i < children.len()
        invariant
            i <= children@.len(),
            w as int == spec_hlist_width(children@.take(i as int)),
            h as int == spec_hlist_height(children@.take(i as int)),
            d as int == spec_hlist_depth(children@.take(i as int)),
        decreases children@.len() - i,
    {
        proof {
            assert(children@.take(i as int + 1).drop_last() =~= children@.take(i as int));
            assert(children@.take(i as int + 1).last() == children@[i as int]);
        }
        let node = &children[i];
        w = dim_add(w, hnode_width(node));
        let nh = hnode_height(node);
        if nh > h {
            h = nh;
        }
        let nd = hnode_depth(node);
        if nd > d {
            d = nd;
        }
        i = i + 1;
    }
    proof {
        assert(children@.take(children@.len() as int) =~= children@);
    }
    (w, h, d)
}

/// Computes the natural width, height and depth of a vertical list.
pub fn vlist_natural(children: &Vec<VNode>) -> (r: (i32, i32, i32))
    ensures
        r.0 as int == spec_vlist_width(children@),
        r.1 as int == spec_vlist_height(children@),
        r.2 as int == spec_vlist_depth(children@),
{
    let mut w: i32 = 0;
    let mut ext: i32 = 0;
    let mut d: i32 = 0;
    let mut i: usize = 0;
    proof {
        assert(children@.take(0) =~= Seq::<VNode>::empty());
    }
    while i < children.len()
        invariant
            i <= children@.len(),
            w as int == spec_vlist_width(children@.take(i as int)),
            ext as int == spec_vlist_extent(children@.take(i as int)),
            d as int == spec_vlist_depth(children@.take(i as int)),
        decreases children@.len() - i,
    {
        proof {
            assert(children@.take(i as int + 1).drop_last() =~= children@.take(i as int));
            assert(children@.take(i as int + 1).last() == children@[i as int]);
        }
        let node = &children[i];
        let nw = vnode_width(node);
        if nw > w {
            w = nw;
        }
        let nh = vnode_height(node);
        let nd = vnode_depth(node);
        ext = dim_add(ext, dim_add(nh, nd));
        d = nd;
        i = i + 1;
    }
    proof {
        assert(children@.take(children@.len() as int) =~= children@);
    }
    (w, dim_sub(ext, d), d)
}

// ------------------------------------------------------------------
// Delivering a finished box.
// ------------------------------------------------------------------

/// The atom a box becomes when it lands in a math list.
pub open spec fn spec_box_atom(bx: TeXBox) -> MathNode {
    MathNode::Atom(
        MathAtom {
            nucleus: MathNucleus::Simple {
                cls: MathClass::Ord,
                limits: None,
                kernel: MathKernel::Box(bx),
            },
            sub: None,
            sup: None,
        },
    )
}

/// How a finished box lands when the open stack is `stack0`: on the page
/// when the stack is empty, else in the innermost frame, wrapped as an
/// ordinary atom for a math frame. The non-list fields are read from `a`,
/// the state before delivery.
pub open spec fn spec_box_delivered(
    a: StomachData,
    stack0: Seq<NodeList>,
    b: StomachData,
    bx: TeXBox,
    fire: bool,
) -> bool {
    &&& eq_marks(a, b)
    &&& eq_par_state(a, b)
    &&& eq_output_state(a, b)
    &&& b.lastpenalty == a.lastpenalty
    &&& b.vadjusts == a.vadjusts
    &&& b.inserts == a.inserts
    &&& if stack0.len() == 0 {
        &&& b.open_lists@ == stack0
        &&& b.page@ == a.page@.push(VNode::Box(bx))
        &&& spec_totals_after(a, VNode::Box(bx), b)
        &&& b.page_contains_boxes
        &&& fire == spec_output_trigger(b, false)
    } else {
        &&& b.open_lists@.len() == stack0.len()
        &&& (forall|i: int| 0 <= i < stack0.len() - 1 ==> b.open_lists@[i] == stack0[i])
        &&& (match stack0.last() {
            NodeList::Horizontal { .. } => {
                &&& b.open_lists@.last() is Horizontal
                &&& b.open_lists@.last().h_tp() == stack0.last().h_tp()
                &&& b.open_lists@.last().h_children() == stack0.last().h_children().push(
                    HNode::Box(bx),
                )
            },
            NodeList::Vertical { .. } => {
                &&& b.open_lists@.last() is Vertical
                &&& b.open_lists@.last().v_tp() == stack0.last().v_tp()
                &&& b.open_lists@.last().v_children() == stack0.last().v_children().push(
                    VNode::Box(bx),
                )
            },
            NodeList::Math { .. } => {
                &&& b.open_lists@.last() is Math
                &&& b.open_lists@.last().m_tp() == stack0.last().m_tp()
                &&& b.open_lists@.last().m_children() == stack0.last().m_children().push(
                    spec_box_atom(bx),
                )
            },
        })
        &&& b.page == a.page
        &&& crate::stomach::eq_page_dims(a, b)
        &&& b.page_contains_boxes == a.page_contains_boxes
        &&& !fire
    }
}

/// Appends a finished box to the innermost open list, or contributes it to
/// the page when no list is open; in a math list the box becomes an
/// ordinary atom. The result says whether the output routine is now due.
pub fn add_box(data: &mut StomachData, bx: TeXBox) -> (fire: bool)
    ensures
        spec_box_delivered(*old(data), old(data).open_lists@, *final(data), bx, fire),
{
    let n = data.open_lists.len();
    if n == 0 {
        add_node_v(data, VNode::Box(bx))
    } else {
        let is_h = matches!(&data.open_lists[n - 1], NodeList::Horizontal { .. });
        let is_v = matches!(&data.open_lists[n - 1], NodeList::Vertical { .. });
        proof {
            assert(data.open_lists@.last() == data.open_lists@[n as int - 1]);
        }
        if is_h {
            add_node_h(data, HNode::Box(bx));
            false
        } else if is_v {
            add_node_v(data, VNode::Box(bx));
            false
        } else {
            add_node_m(
                data,
                MathNode::Atom(
                    MathAtom {
                        nucleus: MathNucleus::Simple {
                            cls: MathClass::Ord,
                            limits: None,
                            kernel: MathKernel::Box(bx),
                        },
                        sub: None,
                        sup: None,
                    },
                ),
            );
            false
        }
    }
}

// ------------------------------------------------------------------
// Opening and closing box frames.
// ------------------------------------------------------------------

/// What a box-producing command asks for when it opens a new list frame:
/// the family of the box, its sizing directive, and where the finished box
/// goes when the frame closes.
#[derive(Clone, Copy, PartialEq, Eq, Structural, Debug)]
pub struct BoxInfo {
    pub kind: BoxType,
    pub sizing: ToOrSpread,
    pub target: BoxTarget,
}

/// The frame a box opening pushes, seen through the frame accessors.
pub open spec fn spec_box_frame_pushed(
    a: StomachData,
    b: StomachData,
    bi: BoxInfo,
    start: SourceRef,
) -> bool {
    &&& b.open_lists@.len() == a.open_lists@.len() + 1
    &&& (forall|i: int| 0 <= i < a.open_lists@.len() ==> b.open_lists@[i] == a.open_lists@[i])
    &&& b.open_lists@.last().is_box_frame_of(bi.kind)
    &&& (match bi.kind {
        BoxType::Horizontal => {
            &&& b.open_lists@.last().h_tp() == Some(
                HorizontalListType::HBox { sizing: bi.sizing, target: bi.target, start },
            )
            &&& b.open_lists@.last().h_children() == Seq::<HNode>::empty()
        },
        BoxType::Vertical => {
            &&& b.open_lists@.last().v_tp() == Some(
                VerticalListType::VBox { sizing: bi.sizing, target: bi.target, start },
            )
            &&& b.open_lists@.last().v_children() == Seq::<VNode>::empty()
        },
    })
    &&& eq_except_lists(a, b)
    &&& b.lastpenalty == a.lastpenalty
}

/// Executes a box command: the box reader either produced a finished box
/// (appended where the current mode puts boxes), nothing at all, or the
/// description of a box still to be filled, whose list frame is pushed to
/// collect material until the matching close.
pub fn do_box(
    data: &mut StomachData,
    bx: Either<Option<TeXBox>, BoxInfo>,
    start: SourceRef,
) -> (fire: bool)
    ensures
        (match bx {
            Either::Left(Some(b)) => spec_box_delivered(
                *old(data),
                old(data).open_lists@,
                *final(data),
                b,
                fire,
            ),
            Either::Left(None) => *final(data) == *old(data) && !fire,
            Either::Right(bi) => spec_box_frame_pushed(*old(data), *final(data), bi, start)
                && !fire,
        }),
{
    match bx {
        Either::Left(Some(b)) => add_box(data, b),
        Either::Left(None) => false,
        Either::Right(bi) => {
            match bi.kind {
                BoxType::Horizontal => {
                    data.open_lists.push(
                        NodeList::Horizontal {
                            tp: HorizontalListType::HBox {
                                sizing: bi.sizing,
                                target: bi.target,
                                start,
                            },
                            children: Vec::new(),
                        },
                    );
                },
                BoxType::Vertical => {
                    data.open_lists.push(
                        NodeList::Vertical {
                            tp: VerticalListType::VBox {
                                sizing: bi.sizing,
                                target: bi.target,
                                start,
                            },
                            children: Vec::new(),
                        },
                    );
                },
            }
            false
        },
    }
}

/// What closing a box frame produced: whether the page is now due for
/// output, and the register store the engine must perform when the box was
/// destined for a box register.
#[derive(Debug)]
pub struct CloseBoxResult {
    pub fire: bool,
    pub action: Option<StateAction>,
}

/// Whether the top of the stack is a box frame of the given family, so
/// that a close of that family matches it.
pub open spec fn spec_close_accepts(stack: Seq<NodeList>, bt: BoxType) -> bool {
    stack.len() > 0 && stack.last().is_box_frame_of(bt)
}

/// The box a closing horizontal box frame yields: the frame's children
/// and recorded start, metrics computed from the children with the sized
/// width honoured.
pub open spec fn spec_closed_hbox(frame: NodeList, end: SourceRef) -> TeXBox {
    TeXBox::H {
        children: frame->Horizontal_children,
        width: spec_sized(
            frame->Horizontal_tp->HBox_sizing,
            spec_hlist_width(frame.h_children()),
        ) as i32,
        height: spec_hlist_height(frame.h_children()) as i32,
        depth: spec_hlist_depth(frame.h_children()) as i32,
        kind: HBoxKind::Plain,
        start: frame->Horizontal_tp->HBox_start,
        end,
    }
}

/// The box a closing vertical box frame yields, with the sized height
/// honoured.
pub open spec fn spec_closed_vbox(frame: NodeList, end: SourceRef) -> TeXBox {
    TeXBox::V {
        children: frame->Vertical_children,
        width: spec_vlist_width(frame.v_children()) as i32,
        height: spec_sized(
            frame->Vertical_tp->VBox_sizing,
            spec_vlist_height(frame.v_children()),
        ) as i32,
        depth: spec_vlist_depth(frame.v_children()) as i32,
        start: frame->Vertical_tp->VBox_start,
        end,
    }
}

/// The target recorded when a box frame opened.
pub open spec fn spec_frame_target(frame: NodeList, bt: BoxType) -> BoxTarget {
    match bt {
        BoxType::Horizontal => frame->Horizontal_tp->HBox_target,
        BoxType::Vertical => frame->Vertical_tp->VBox_target,
    }
}

/// Closes the innermost box frame of the given family: pops it, computes
/// the finished box's metrics per its sizing directive, and hands the box
/// to the target recorded when the frame opened — appended to the
/// enclosing list, or returned as a box-register store for the engine to
/// perform. A top frame of any other shape means the group discipline and
/// the list stack are out of sync, which is surfaced as the internal
/// error, changing nothing.
pub fn close_box(data: &mut StomachData, bt: BoxType, end: SourceRef) -> (r: Result<
    CloseBoxResult,
    StomachError,
>)
    ensures
        !spec_close_accepts(old(data).open_lists@, bt) ==> r == Err::<
            CloseBoxResult,
            StomachError,
        >(StomachError::InternalListMismatch) && *final(data) == *old(data),
        spec_close_accepts(old(data).open_lists@, bt) ==> r is Ok && ({
            let frame = old(data).open_lists@.last();
            let stack0 = old(data).open_lists@.drop_last();
            let bx = (match bt {
                BoxType::Horizontal => spec_closed_hbox(frame, end),
                BoxType::Vertical => spec_closed_vbox(frame, end),
            });
            match spec_frame_target(frame, bt) {
                BoxTarget::ToList => spec_box_delivered(
                    *old(data),
                    stack0,
                    *final(data),
                    bx,
                    r->Ok_0.fire,
                ) && r->Ok_0.action is None,
                BoxTarget::ToRegister { index, global } => {
                    &&& final(data).open_lists@ == stack0
                    &&& eq_except_lists(*old(data), *final(data))
                    &&& final(data).lastpenalty == old(data).lastpenalty
                    &&& !r->Ok_0.fire
                    &&& r->Ok_0.action == Some(StateAction::SetBoxRegister { index, global, bx })
                },
            }
        }),
{
    let n = data.open_lists.len();
    let accepts: bool = if n == 0 {
        false
    } else {
        match (&data.open_lists[n - 1], bt) {
            (
                NodeList::Horizontal { tp: HorizontalListType::HBox { .. }, .. },
                BoxType::Horizontal,
            ) => true,
            (NodeList::Vertical { tp: VerticalListType::VBox { .. }, .. }, BoxType::Vertical) =>
                true,
            _ => false,
        }
    };
    proof {
        if n > 0 {
            assert(data.open_lists@.last() == data.open_lists@[n as int - 1]);
        }
    }
    if !accepts {
        return Err(StomachError::InternalListMismatch);
    }
    let frame = data.open_lists.pop().unwrap();
    let ghost gframe = frame;
    match (frame, bt) {
        (NodeList::Horizontal { tp: HorizontalListType::HBox { sizing, target, start }, children },
            BoxType::Horizontal,
        ) => {
            let (natural, height, depth) = hlist_natural(&children);
            let width = match sizing {
                ToOrSpread::Natural => natural,
                ToOrSpread::To { dim } => dim,
                ToOrSpread::Spread { dim } => dim_add(natural, dim),
            };
            let bx = TeXBox::H {
                children,
                width,
                height,
                depth,
                kind: HBoxKind::Plain,
                start,
                end,
            };
            proof {
                assert(bx == spec_closed_hbox(gframe, end));
            }
            match target {
                BoxTarget::ToList => {
                    let fire = add_box(data, bx);
                    Ok(CloseBoxResult { fire, action: None })
                },
                BoxTarget::ToRegister { index, global } => {
                    Ok(
                        CloseBoxResult {
                            fire: false,
                            action: Some(StateAction::SetBoxRegister { index, global, bx }),
                        },
                    )
                },
            }
        },
        (NodeList::Vertical { tp: VerticalListType::VBox { sizing, target, start }, children },
            BoxType::Vertical,
        ) => {
            let (width, natural, depth) = vlist_natural(&children);
            let height = match sizing {
                ToOrSpread::Natural => natural,
                ToOrSpread::To { dim } => dim,
                ToOrSpread::Spread { dim } => dim_add(natural, dim),
            };
            let bx = TeXBox::V { children, width, height, depth, start, end };
            proof {
                assert(bx == spec_closed_vbox(gframe, end));
            }
            match target {
                BoxTarget::ToList => {
                    let fire = add_box(data, bx);
                    Ok(CloseBoxResult { fire, action: None })
                },
                BoxTarget::ToRegister { index, global } => {
                    Ok(
                        CloseBoxResult {
                            fire: false,
                            action: Some(StateAction::SetBoxRegister { index, global, bx }),
                        },
                    )
                },
            }
        },
        (other, _) => {
            proof {
                assert(false);
            }
            data.open_lists.push(other);
            Err(StomachError::InternalListMismatch)
        },
    }
}

} // verus!
