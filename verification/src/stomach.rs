use vstd::prelude::*;
use crate::dims::{sat_add, dim_add, StretchOrder};
use crate::marks::MarkMap;
use crate::modes::{spec_math_mode, spec_mode, TeXMode};
use crate::nodes::{
    spec_vnode_depth, spec_vnode_height, vnode_depth, vnode_height, HNode, MathNode, NodeList,
    VNode,
};
use crate::actions::StomachError;
use crate::tokens::Token;

verus! {

/// All the mutable data of the stomach: the current page, the stack of
/// open node lists, the page dimensions, the recorded marks, and the
/// paragraph and output bookkeeping.
#[derive(Debug)]
pub struct StomachData {
    /// The vertical list accumulating toward the next output.
    pub page: Vec<VNode>,
    /// The stack of open list frames; empty means top-level vertical mode.
    pub open_lists: Vec<NodeList>,
    pub pagegoal: i32,
    pub pagetotal: i32,
    pub pagestretch: i32,
    pub pagefilstretch: i32,
    pub pagefillstretch: i32,
    pub pagefilllstretch: i32,
    pub pageshrink: i32,
    pub pagedepth: i32,
    pub prevdepth: i32,
    pub spacefactor: i32,
    pub topmarks: MarkMap,
    pub firstmarks: MarkMap,
    pub botmarks: MarkMap,
    pub splitfirstmarks: MarkMap,
    pub splitbotmarks: MarkMap,
    pub page_contains_boxes: bool,
    pub lastpenalty: i32,
    pub prevgraf: u16,
    pub in_output: bool,
    pub deadcycles: usize,
    /// Vertical material queued from a paragraph's interior.
    pub vadjusts: Vec<VNode>,
    /// Class-tagged vertical material routed to insertion regions.
    pub inserts: Vec<(usize, Vec<VNode>)>,
}

/// The depth a fresh document starts with: the sentinel -1000pt in scaled
/// points, which suppresses interline glue before the first line.
pub const IGNORE_DEPTH: i32 = -65536000;

// ------------------------------------------------------------------
// Field-group equalities, used to say which parts of the data a call
// leaves untouched.
// ------------------------------------------------------------------

/// The page dimension fields agree.
pub open spec fn eq_page_dims(a: StomachData, b: StomachData) -> bool {
    &&& a.pagegoal == b.pagegoal
    &&& a.pagetotal == b.pagetotal
    &&& a.pagestretch == b.pagestretch
    &&& a.pagefilstretch == b.pagefilstretch
    &&& a.pagefillstretch == b.pagefillstretch
    &&& a.pagefilllstretch == b.pagefilllstretch
    &&& a.pageshrink == b.pageshrink
    &&& a.pagedepth == b.pagedepth
}

/// The recorded marks agree.
pub open spec fn eq_marks(a: StomachData, b: StomachData) -> bool {
    &&& a.topmarks == b.topmarks
    &&& a.firstmarks == b.firstmarks
    &&& a.botmarks == b.botmarks
    &&& a.splitfirstmarks == b.splitfirstmarks
    &&& a.splitbotmarks == b.splitbotmarks
}

/// The paragraph bookkeeping agrees.
pub open spec fn eq_par_state(a: StomachData, b: StomachData) -> bool {
    &&& a.prevdepth == b.prevdepth
    &&& a.spacefactor == b.spacefactor
    &&& a.prevgraf == b.prevgraf
}

/// The output bookkeeping agrees.
pub open spec fn eq_output_state(a: StomachData, b: StomachData) -> bool {
    &&& a.in_output == b.in_output
    &&& a.deadcycles == b.deadcycles
}

/// The queued vertical material agrees.
pub open spec fn eq_queues(a: StomachData, b: StomachData) -> bool {
    &&& a.vadjusts == b.vadjusts
    &&& a.inserts == b.inserts
}

/// Everything but the stack of open lists and `lastpenalty` agrees.
pub open spec fn eq_except_lists(a: StomachData, b: StomachData) -> bool {
    &&& a.page == b.page
    &&& eq_page_dims(a, b)
    &&& eq_marks(a, b)
    &&& eq_par_state(a, b)
    &&& eq_output_state(a, b)
    &&& eq_queues(a, b)
    &&& a.page_contains_boxes == b.page_contains_boxes
}

// ------------------------------------------------------------------
// Receptiveness: which frame must be on top for a node of a family.
// ------------------------------------------------------------------

/// A horizontal node can only be added when a horizontal frame is open.
pub open spec fn horizontal_receptive(stack: Seq<NodeList>) -> bool {
    stack.len() > 0 && stack.last() is Horizontal
}

/// A math node can only be added when a math frame is open.
pub open spec fn math_receptive(stack: Seq<NodeList>) -> bool {
    stack.len() > 0 && stack.last() is Math
}

/// A vertical node goes to the innermost vertical frame, or to the page
/// when no list is open at all.
pub open spec fn vertical_receptive(stack: Seq<NodeList>) -> bool {
    stack.len() == 0 || stack.last() is Vertical
}

/// The derived math mode is always one of the two math modes.
pub proof fn lemma_math_mode_is_math(stack: Seq<NodeList>)
    ensures
        spec_math_mode(stack) == TeXMode::InlineMath || spec_math_mode(stack)
            == TeXMode::DisplayMath,
    decreases stack.len(),
{
    if stack.len() > 0 {
        match stack.last() {
            NodeList::Math { tp: crate::nodes::MathListType::Top { .. }, .. } => {},
            _ => {
                lemma_math_mode_is_math(stack.drop_last());
            },
        }
    }
}

/// The mode is horizontal or restricted horizontal exactly when the top
/// frame is a horizontal one; so a call that demands a horizontal frame is
/// possible exactly in those modes.
pub proof fn lemma_horizontal_frame_iff_horizontal_mode(stack: Seq<NodeList>)
    ensures
        horizontal_receptive(stack) <==> (spec_mode(stack) == TeXMode::Horizontal || spec_mode(
            stack,
        ) == TeXMode::RestrictedHorizontal),
{
    if stack.len() > 0 {
        match stack.last() {
            NodeList::Math { .. } => {
                lemma_math_mode_is_math(stack);
            },
            _ => {},
        }
    }
}

/// The mode is a math mode exactly when the top frame is a math one.
pub proof fn lemma_math_frame_iff_math_mode(stack: Seq<NodeList>)
    ensures
        math_receptive(stack) <==> (spec_mode(stack) == TeXMode::InlineMath || spec_mode(stack)
            == TeXMode::DisplayMath),
{
    if stack.len() > 0 {
        match stack.last() {
            NodeList::Math { .. } => {
                lemma_math_mode_is_math(stack);
            },
            _ => {},
        }
    }
}

/// The mode is a vertical mode exactly when the top frame (if any) is a
/// vertical one.
pub proof fn lemma_vertical_frame_iff_vertical_mode(stack: Seq<NodeList>)
    ensures
        vertical_receptive(stack) <==> (spec_mode(stack) == TeXMode::Vertical || spec_mode(stack)
            == TeXMode::InternalVertical),
{
    if stack.len() > 0 {
        match stack.last() {
            NodeList::Math { .. } => {
                lemma_math_mode_is_math(stack);
            },
            _ => {},
        }
    }
}

// ------------------------------------------------------------------
// The page builder: totals updates and the output trigger.
// ------------------------------------------------------------------

/// Whether a vertical node contributes size to the page totals. Penalties,
/// marks and whatsits carry no metric contribution.
pub open spec fn vnode_contributes(n: VNode) -> bool {
    match n {
        VNode::VSkip { .. } => true,
        VNode::VKern { .. } => true,
        VNode::Rule { .. } => true,
        VNode::Box(..) => true,
        VNode::Custom(..) => true,
        _ => false,
    }
}

/// The stretch a vertical node contributes at a given order.
pub open spec fn spec_vnode_stretch(n: VNode, order: StretchOrder) -> int {
    match n {
        VNode::VSkip { skip } => match skip.stretch {
            Some(gc) => if gc.order == order {
                gc.amount as int
            } else {
                0
            },
            None => 0,
        },
        _ => 0,
    }
}

/// The shrink a vertical node contributes (all orders pooled).
pub open spec fn spec_vnode_shrink(n: VNode) -> int {
    match n {
        VNode::VSkip { skip } => match skip.shrink {
            Some(gc) => gc.amount as int,
            None => 0,
        },
        _ => 0,
    }
}

/// How one contributed node moves the page totals: the pending page depth
/// and the node's height join the total, the node's depth becomes the
/// pending depth, and glue feeds the stretch and shrink pools.
pub open spec fn spec_totals_after(d: StomachData, n: VNode, nd: StomachData) -> bool {
    &&& nd.pagetotal as int == sat_add(
        sat_add(d.pagetotal as int, d.pagedepth as int),
        spec_vnode_height(n),
    )
    &&& nd.pagedepth as int == spec_vnode_depth(n)
    &&& nd.pagestretch as int == sat_add(
        d.pagestretch as int,
        spec_vnode_stretch(n, StretchOrder::Normal),
    )
    &&& nd.pagefilstretch as int == sat_add(
        d.pagefilstretch as int,
        spec_vnode_stretch(n, StretchOrder::Fil),
    )
    &&& nd.pagefillstretch as int == sat_add(
        d.pagefillstretch as int,
        spec_vnode_stretch(n, StretchOrder::Fill),
    )
    &&& nd.pagefilllstretch as int == sat_add(
        d.pagefilllstretch as int,
        spec_vnode_stretch(n, StretchOrder::Filll),
    )
    &&& nd.pageshrink as int == sat_add(d.pageshrink as int, spec_vnode_shrink(n))
    &&& nd.pagegoal == d.pagegoal
}

/// A penalty that forces the page out.
pub open spec fn spec_forcing(n: VNode) -> bool {
    match n {
        VNode::Penalty { penalty } => penalty <= -10000,
        _ => false,
    }
}

/// The output routine is due exactly when no output is already running, no
/// list is open, the page is non-empty, and the page is full or a forcing
/// penalty was just added.
pub open spec fn spec_output_trigger(d: StomachData, forced: bool) -> bool {
    &&& !d.in_output
    &&& d.open_lists@.len() == 0
    &&& d.page@.len() > 0
    &&& (d.pagetotal >= d.pagegoal || forced)
}

impl StomachData {
    /// The current mode, derived from the stack of open lists.
    pub fn mode(&self) -> (r: TeXMode)
        ensures
            r == spec_mode(self.open_lists@),
    {
        let n = self.open_lists.len();
        if n == 0 {
            return TeXMode::Vertical;
        }
        let top: &NodeList = &self.open_lists[n - 1];
        proof {
            assert(*top == self.open_lists@[n as int - 1]);
        }
        match top {
            NodeList::Horizontal { tp: crate::nodes::HorizontalListType::Paragraph { .. }, .. } => {
                TeXMode::Horizontal
            },
            NodeList::Horizontal { .. } => TeXMode::RestrictedHorizontal,
            NodeList::Vertical { .. } => TeXMode::InternalVertical,
            NodeList::Math { .. } => {
                let mut i: usize = n;
                proof {
                    assert(self.open_lists@.take(n as int) =~= self.open_lists@);
                    assert(self.open_lists@.last() == self.open_lists@[n as int - 1]);
                }
                while i > 0
                    invariant
                        i <= self.open_lists@.len(),
                        n == self.open_lists@.len(),
                        n > 0,
                        self.open_lists@[n as int - 1] is Math,
                        spec_math_mode(self.open_lists@.take(i as int)) == spec_math_mode(
                            self.open_lists@,
                        ),
                    decreases i,
                {
                    proof {
                        assert(self.open_lists@.take(i as int).last() == self.open_lists@[i as int
                            - 1]);
                        assert(self.open_lists@.take(i as int).drop_last() =~= self.open_lists@.take(
                            i as int - 1,
                        ));
                    }
                    match &self.open_lists[i - 1] {
                        NodeList::Math {
                            tp: crate::nodes::MathListType::Top { display },
                            ..
                        } => {
                            proof {
                                assert(self.open_lists@[n as int - 1] is Math);
                                assert(spec_mode(self.open_lists@) == spec_math_mode(
                                    self.open_lists@,
                                ));
                                assert(self.open_lists@.take(i as int).last() == self.open_lists@[
                                    i as int - 1]);
                                assert(self.open_lists@.take(i as int).last() is Math);
                                assert(spec_math_mode(self.open_lists@.take(i as int)) == (
                                if self.open_lists@[i as int - 1]->Math_tp->Top_display {
                                    TeXMode::DisplayMath
                                } else {
                                    TeXMode::InlineMath
                                }));
                            }
                            return if *display {
                                TeXMode::DisplayMath
                            } else {
                                TeXMode::InlineMath
                            };
                        },
                        _ => {},
                    }
                    i = i - 1;
                }
                proof {
                    assert(self.open_lists@.take(0) =~= Seq::<NodeList>::empty());
                }
                TeXMode::InlineMath
            },
        }
    }
}

impl Default for StomachData {
    /// A fresh document's stomach: empty page and stack, the page goal at
    /// the representable maximum, the previous depth at the ignore
    /// sentinel, and the space factor at its neutral value.
    fn default() -> (r: StomachData)
        ensures
            r.page@.len() == 0,
            r.open_lists@.len() == 0,
            r.pagegoal == i32::MAX,
            r.pagetotal == 0,
            r.pagestretch == 0,
            r.pagefilstretch == 0,
            r.pagefillstretch == 0,
            r.pagefilllstretch == 0,
            r.pageshrink == 0,
            r.pagedepth == 0,
            r.prevdepth == IGNORE_DEPTH,
            r.spacefactor == 1000,
            forall|c: usize| r.topmarks.spec_get(c) is None,
            forall|c: usize| r.firstmarks.spec_get(c) is None,
            forall|c: usize| r.botmarks.spec_get(c) is None,
            forall|c: usize| r.splitfirstmarks.spec_get(c) is None,
            forall|c: usize| r.splitbotmarks.spec_get(c) is None,
            !r.page_contains_boxes,
            r.lastpenalty == 0,
            r.prevgraf == 0,
            !r.in_output,
            r.deadcycles == 0,
            r.vadjusts@.len() == 0,
            r.inserts@.len() == 0,
    {
        StomachData {
            page: Vec::new(),
            open_lists: Vec::new(),
            pagegoal: i32::MAX,
            pagetotal: 0,
            pagestretch: 0,
            pagefilstretch: 0,
            pagefillstretch: 0,
            pagefilllstretch: 0,
            pageshrink: 0,
            pagedepth: 0,
            prevdepth: IGNORE_DEPTH,
            spacefactor: 1000,
            topmarks: MarkMap::new(),
            firstmarks: MarkMap::new(),
            botmarks: MarkMap::new(),
            splitfirstmarks: MarkMap::new(),
            splitbotmarks: MarkMap::new(),
            page_contains_boxes: false,
            lastpenalty: 0,
            prevgraf: 0,
            in_output: false,
            deadcycles: 0,
            vadjusts: Vec::new(),
            inserts: Vec::new(),
        }
    }
}

/// The stomach as the engine owns it: its mutable data and the single
/// deferred token of the afterassignment hook.
#[derive(Debug)]
pub struct DefaultStomach {
    /// The token inserted after the next assignment, if one is queued.
    pub afterassignment: Option<Token>,
    /// The mutable execution state.
    pub data: StomachData,
}

impl DefaultStomach {
    /// Constructs a new stomach for a fresh document.
    pub fn new() -> (r: DefaultStomach)
        ensures
            r.afterassignment is None,
            r.data.open_lists@.len() == 0,
            r.data.page@.len() == 0,
            !r.data.in_output,
            r.data.prevgraf == 0,
    {
        DefaultStomach { afterassignment: None, data: StomachData::default() }
    }
}

// ------------------------------------------------------------------
// Adding nodes to the innermost list of each family.
// ------------------------------------------------------------------

/// Adds a node to the current horizontal list. Outside a horizontal frame
/// the call is impossible: the precondition demands one.
pub fn add_node_h(data: &mut StomachData, node: HNode)
    requires
        horizontal_receptive(old(data).open_lists@),
    ensures
        final(data).open_lists@.len() == old(data).open_lists@.len(),
        forall|i: int|
            0 <= i < old(data).open_lists@.len() - 1 ==> final(data).open_lists@[i] == old(
                data,
            ).open_lists@[i],
        final(data).open_lists@.last() is Horizontal,
        final(data).open_lists@.last().h_tp() == old(data).open_lists@.last().h_tp(),
        final(data).open_lists@.last().h_children() == old(
            data,
        ).open_lists@.last().h_children().push(node),
        final(data).lastpenalty == (match node {
            HNode::Penalty { penalty } => penalty,
            _ => old(data).lastpenalty,
        }),
        eq_except_lists(*old(data), *final(data)),
{
    if let HNode::Penalty { penalty } = &node {
        data.lastpenalty = *penalty;
    }
    let frame = data.open_lists.pop().unwrap();
    match frame {
        NodeList::Horizontal { tp, mut children } => {
            children.push(node);
            data.open_lists.push(NodeList::Horizontal { tp, children });
        },
        other => {
            proof {
                assert(false);
            }
            data.open_lists.push(other);
        },
    }
}

/// The total variant of [`add_node_h`]: on any stack at all, it appends the
/// node exactly when a horizontal frame is on top, and surfaces the broken
/// list discipline as the internal error — changing nothing — otherwise.
/// The node is never silently appended anywhere else.
pub fn try_add_node_h(data: &mut StomachData, node: HNode) -> (r: Result<(), StomachError>)
    ensures
        r is Ok <==> horizontal_receptive(old(data).open_lists@),
        r is Err ==> *final(data) == *old(data) && r == Err::<(), StomachError>(
            StomachError::InternalListMismatch,
        ),
        r is Ok ==> {
            &&& final(data).open_lists@.len() == old(data).open_lists@.len()
            &&& (forall|i: int|
                0 <= i < old(data).open_lists@.len() - 1 ==> final(data).open_lists@[i] == old(
                    data,
                ).open_lists@[i])
            &&& final(data).open_lists@.last() is Horizontal
            &&& final(data).open_lists@.last().h_tp() == old(data).open_lists@.last().h_tp()
            &&& final(data).open_lists@.last().h_children() == old(
                data,
            ).open_lists@.last().h_children().push(node)
            &&& final(data).lastpenalty == (match node {
                HNode::Penalty { penalty } => penalty,
                _ => old(data).lastpenalty,
            })
            &&& eq_except_lists(*old(data), *final(data))
        },
{
    let n = data.open_lists.len();
    let ok = n > 0 && matches!(&data.open_lists[n - 1], NodeList::Horizontal { .. });
    proof {
        if n > 0 {
            assert(data.open_lists@.last() == data.open_lists@[n as int - 1]);
        }
    }
    if !ok {
        return Err(StomachError::InternalListMismatch);
    }
    add_node_h(data, node);
    Ok(())
}

/// Adds a node to the current math list. Outside a math frame the call is
/// impossible: the precondition demands one.
pub fn add_node_m(data: &mut StomachData, node: MathNode)
    requires
        math_receptive(old(data).open_lists@),
    ensures
        final(data).open_lists@.len() == old(data).open_lists@.len(),
        forall|i: int|
            0 <= i < old(data).open_lists@.len() - 1 ==> final(data).open_lists@[i] == old(
                data,
            ).open_lists@[i],
        final(data).open_lists@.last() is Math,
        final(data).open_lists@.last().m_tp() == old(data).open_lists@.last().m_tp(),
        final(data).open_lists@.last().m_start() == old(data).open_lists@.last().m_start(),
        final(data).open_lists@.last().m_children() == old(
            data,
        ).open_lists@.last().m_children().push(node),
        final(data).lastpenalty == old(data).lastpenalty,
        eq_except_lists(*old(data), *final(data)),
{
    let frame = data.open_lists.pop().unwrap();
    match frame {
        NodeList::Math { tp, mut children, start } => {
            children.push(node);
            data.open_lists.push(NodeList::Math { tp, children, start });
        },
        other => {
            proof {
                assert(false);
            }
            data.open_lists.push(other);
        },
    }
}

/// Adds a node to the current vertical list: to the innermost vertical
/// frame if one is open, else to the page. On the page, the totals are
/// updated and the result says whether the output routine is now due;
/// insertions are routed to the insertion queue instead.
pub fn add_node_v(data: &mut StomachData, node: VNode) -> (fire: bool)
    requires
        vertical_receptive(old(data).open_lists@),
    ensures
        old(data).open_lists@.len() > 0 ==> {
            &&& final(data).open_lists@.len() == old(data).open_lists@.len()
            &&& forall|i: int|
                0 <= i < old(data).open_lists@.len() - 1 ==> final(data).open_lists@[i] == old(
                    data,
                ).open_lists@[i]
            &&& final(data).open_lists@.last() is Vertical
            &&& final(data).open_lists@.last().v_tp() == old(data).open_lists@.last().v_tp()
            &&& final(data).open_lists@.last().v_children() == old(
                data,
            ).open_lists@.last().v_children().push(node)
            &&& eq_except_lists(*old(data), *final(data))
            &&& final(data).lastpenalty == old(data).lastpenalty
            &&& !fire
        },
        old(data).open_lists@.len() == 0 ==> {
            &&& final(data).open_lists == old(data).open_lists
            &&& eq_marks(*old(data), *final(data))
            &&& eq_par_state(*old(data), *final(data))
            &&& eq_output_state(*old(data), *final(data))
            &&& final(data).lastpenalty == old(data).lastpenalty
            &&& final(data).vadjusts == old(data).vadjusts
            &&& (match node {
                VNode::Insertion { class, children } => {
                    &&& final(data).inserts@ == old(data).inserts@.push((class, children))
                    &&& final(data).page == old(data).page
                    &&& eq_page_dims(*old(data), *final(data))
                    &&& final(data).page_contains_boxes == old(data).page_contains_boxes
                    &&& !fire
                },
                _ => {
                    &&& final(data).inserts == old(data).inserts
                    &&& final(data).page@ == old(data).page@.push(node)
                    &&& (if vnode_contributes(node) {
                        spec_totals_after(*old(data), node, *final(data))
                    } else {
                        eq_page_dims(*old(data), *final(data))
                    })
                    &&& final(data).page_contains_boxes == (old(data).page_contains_boxes || node
                        is Box || node is Rule)
                    &&& fire == spec_output_trigger(*final(data), spec_forcing(node))
                },
            })
        },
{
    if data.open_lists.len() > 0 {
        let frame = data.open_lists.pop().unwrap();
        match frame {
            NodeList::Vertical { tp, mut children } => {
                children.push(node);
                data.open_lists.push(NodeList::Vertical { tp, children });
            },
            other => {
                proof {
                    assert(false);
                }
                data.open_lists.push(other);
            },
        }
        false
    } else {
        match node {
            VNode::Insertion { class, children } => {
                data.inserts.push((class, children));
                false
            },
            node => {
                let forcing = match &node {
                    VNode::Penalty { penalty } => *penalty <= -10000,
                    _ => false,
                };
                let contributes = match &node {
                    VNode::VSkip { .. } => true,
                    VNode::VKern { .. } => true,
                    VNode::Rule { .. } => true,
                    VNode::Box(..) => true,
                    VNode::Custom(..) => true,
                    _ => false,
                };
                if contributes {
                    let h = vnode_height(&node);
                    let d = vnode_depth(&node);
                    data.pagetotal = dim_add(dim_add(data.pagetotal, data.pagedepth), h);
                    data.pagedepth = d;
                    if let VNode::VSkip { skip } = &node {
                        if let Some(gc) = &skip.stretch {
                            match gc.order {
                                StretchOrder::Normal => {
                                    data.pagestretch = dim_add(data.pagestretch, gc.amount);
                                },
                                StretchOrder::Fil => {
                                    data.pagefilstretch = dim_add(data.pagefilstretch, gc.amount);
                                },
                                StretchOrder::Fill => {
                                    data.pagefillstretch = dim_add(data.pagefillstretch, gc.amount);
                                },
                                StretchOrder::Filll => {
                                    data.pagefilllstretch = dim_add(
                                        data.pagefilllstretch,
                                        gc.amount,
                                    );
                                },
                            }
                        }
                        if let Some(gc) = &skip.shrink {
                            data.pageshrink = dim_add(data.pageshrink, gc.amount);
                        }
                    }
                }
                let is_box_or_rule = match &node {
                    VNode::Box(..) => true,
                    VNode::Rule { .. } => true,
                    _ => false,
                };
                if is_box_or_rule {
                    data.page_contains_boxes = true;
                }
                data.page.push(node);
                !data.in_output && data.open_lists.len() == 0 && data.page.len() > 0 && (
                data.pagetotal >= data.pagegoal || forcing)
            },
        }
    }
}

/// Checks whether the output routine should run now, either because the
/// page is full enough or because a forcing penalty was just added (the
/// caller passes such a penalty as `penalty`).
pub fn maybe_do_output(data: &StomachData, penalty: Option<i32>) -> (r: bool)
    ensures
        r == spec_output_trigger(*data, penalty is Some),
{
    !data.in_output && data.open_lists.len() == 0 && data.page.len() > 0 && (data.pagetotal
        >= data.pagegoal || penalty.is_some())
}

/// Begins the output routine: marks the stomach as being inside output,
/// hands the accumulated page back for the routine to consume, and resets
/// the page and its totals for the material that follows.
pub fn start_output(data: &mut StomachData) -> (page: Vec<VNode>)
    requires
        !old(data).in_output,
        old(data).open_lists@.len() == 0,
        old(data).page@.len() > 0,
    ensures
        page == old(data).page,
        final(data).page@.len() == 0,
        final(data).in_output,
        final(data).open_lists == old(data).open_lists,
        final(data).pagegoal == i32::MAX,
        final(data).pagetotal == 0,
        final(data).pagestretch == 0,
        final(data).pagefilstretch == 0,
        final(data).pagefillstretch == 0,
        final(data).pagefilllstretch == 0,
        final(data).pageshrink == 0,
        final(data).pagedepth == 0,
        !final(data).page_contains_boxes,
        eq_marks(*old(data), *final(data)),
        eq_par_state(*old(data), *final(data)),
        eq_queues(*old(data), *final(data)),
        final(data).lastpenalty == old(data).lastpenalty,
        final(data).deadcycles == old(data).deadcycles,
{
    let mut page: Vec<VNode> = Vec::new();
    core::mem::swap(&mut page, &mut data.page);
    data.in_output = true;
    data.pagegoal = i32::MAX;
    data.pagetotal = 0;
    data.pagestretch = 0;
    data.pagefilstretch = 0;
    data.pagefillstretch = 0;
    data.pagefilllstretch = 0;
    data.pageshrink = 0;
    data.pagedepth = 0;
    data.page_contains_boxes = false;
    page
}

/// Ends the output routine: clears the guard against nested invocation,
/// and counts a dead cycle when the routine shipped nothing out.
pub fn finish_output(data: &mut StomachData, shipped: bool)
    requires
        old(data).in_output,
    ensures
        !final(data).in_output,
        final(data).deadcycles == (if shipped {
            old(data).deadcycles
        } else if old(data).deadcycles < usize::MAX {
            (old(data).deadcycles + 1) as usize
        } else {
            old(data).deadcycles
        }),
        final(data).page == old(data).page,
        final(data).open_lists == old(data).open_lists,
        eq_page_dims(*old(data), *final(data)),
        eq_marks(*old(data), *final(data)),
        eq_par_state(*old(data), *final(data)),
        eq_queues(*old(data), *final(data)),
        final(data).lastpenalty == old(data).lastpenalty,
        final(data).page_contains_boxes == old(data).page_contains_boxes,
{
    data.in_output = false;
    if !shipped {
        if data.deadcycles < usize::MAX {
            data.deadcycles = data.deadcycles + 1;
        }
    }
}

/// What ending the document leaves behind: whether unclosed lists had to
/// be discarded (the engine then also pops its open groups), the final
/// page material ending in the forced break, and whether the output
/// routine should consume it.
#[derive(Debug)]
pub struct FlushResult {
    /// True when open lists were discarded; the engine warns and pops all
    /// of its remaining groups.
    pub warned: bool,
    /// The page material at the end of the document, closed by a forcing
    /// penalty.
    pub last_page: Vec<VNode>,
    /// Whether the output routine should run on that material.
    pub run_output: bool,
}

/// Ends the document: discards whatever lists are still open, closes the
/// page with a forced break and hands it back, leaving the stomach empty.
pub fn flush(data: &mut StomachData) -> (r: FlushResult)
    ensures
        r.warned == (old(data).open_lists@.len() > 0),
        r.last_page@ == old(data).page@.push(VNode::Penalty { penalty: -10000i32 }),
        r.run_output == !old(data).in_output,
        final(data).open_lists@.len() == 0,
        final(data).page@.len() == 0,
        final(data).pagegoal == i32::MAX,
        final(data).pagetotal == 0,
        final(data).pagestretch == 0,
        final(data).pagefilstretch == 0,
        final(data).pagefillstretch == 0,
        final(data).pagefilllstretch == 0,
        final(data).pageshrink == 0,
        final(data).pagedepth == 0,
        !final(data).page_contains_boxes,
        final(data).lastpenalty == old(data).lastpenalty,
        eq_marks(*old(data), *final(data)),
        eq_par_state(*old(data), *final(data)),
        eq_output_state(*old(data), *final(data)),
        eq_queues(*old(data), *final(data)),
{
    let warned = data.open_lists.len() > 0;
    data.open_lists = Vec::new();
    let mut last_page: Vec<VNode> = Vec::new();
    core::mem::swap(&mut last_page, &mut data.page);
    last_page.push(VNode::Penalty { penalty: -10000 });
    let run_output = !data.in_output;
    data.pagegoal = i32::MAX;
    data.pagetotal = 0;
    data.pagestretch = 0;
    data.pagefilstretch = 0;
    data.pagefillstretch = 0;
    data.pagefilllstretch = 0;
    data.pageshrink = 0;
    data.pagedepth = 0;
    data.page_contains_boxes = false;
    FlushResult { warned, last_page, run_output }
}

/// Executes a whatsit command whose reader produced an extension node
/// body: the node is wrapped for the family of the current mode and
/// appended to the innermost list. A reader that produced nothing leaves
/// everything unchanged.
pub fn do_whatsit(data: &mut StomachData, name: u32, produced: bool) -> (fire: bool)
    ensures
        !produced ==> *final(data) == *old(data) && !fire,
        produced && old(data).open_lists@.len() > 0 ==> {
            &&& final(data).open_lists@.len() == old(data).open_lists@.len()
            &&& (forall|i: int|
                0 <= i < old(data).open_lists@.len() - 1 ==> final(data).open_lists@[i] == old(
                    data,
                ).open_lists@[i])
            &&& eq_except_lists(*old(data), *final(data))
            &&& final(data).lastpenalty == old(data).lastpenalty
            &&& !fire
            &&& (match old(data).open_lists@.last() {
                NodeList::Horizontal { .. } => {
                    &&& final(data).open_lists@.last() is Horizontal
                    &&& final(data).open_lists@.last().h_tp() == old(
                        data,
                    ).open_lists@.last().h_tp()
                    &&& final(data).open_lists@.last().h_children() == old(
                        data,
                    ).open_lists@.last().h_children().push(HNode::Whatsit { name })
                },
                NodeList::Vertical { .. } => {
                    &&& final(data).open_lists@.last() is Vertical
                    &&& final(data).open_lists@.last().v_tp() == old(
                        data,
                    ).open_lists@.last().v_tp()
                    &&& final(data).open_lists@.last().v_children() == old(
                        data,
                    ).open_lists@.last().v_children().push(VNode::Whatsit { name })
                },
                NodeList::Math { .. } => {
                    &&& final(data).open_lists@.last() is Math
                    &&& final(data).open_lists@.last().m_tp() == old(data).open_lists@.last().m_tp()
                    &&& final(data).open_lists@.last().m_children() == old(
                        data,
                    ).open_lists@.last().m_children().push(MathNode::Whatsit { name })
                },
            })
        },
        produced && old(data).open_lists@.len() == 0 ==> {
            &&& final(data).open_lists@.len() == 0
            &&& final(data).page@ == old(data).page@.push(VNode::Whatsit { name })
            &&& eq_page_dims(*old(data), *final(data))
            &&& eq_marks(*old(data), *final(data))
            &&& eq_par_state(*old(data), *final(data))
            &&& eq_output_state(*old(data), *final(data))
            &&& eq_queues(*old(data), *final(data))
            &&& final(data).lastpenalty == old(data).lastpenalty
            &&& final(data).page_contains_boxes == old(data).page_contains_boxes
            &&& fire == spec_output_trigger(*final(data), false)
        },
{
    if !produced {
        return false;
    }
    proof {
        lemma_horizontal_frame_iff_horizontal_mode(data.open_lists@);
        lemma_math_frame_iff_math_mode(data.open_lists@);
        lemma_vertical_frame_iff_vertical_mode(data.open_lists@);
    }
    let mode = data.mode();
    if mode.is_vertical() {
        add_node_v(data, VNode::Whatsit { name })
    } else if mode.is_horizontal() {
        add_node_h(data, HNode::Whatsit { name });
        false
    } else {
        add_node_m(data, MathNode::Whatsit { name });
        false
    }
}

/// The space factor after a character with the given space factor code:
/// a code of zero keeps the old value; a code above the neutral value
/// coming from below it only raises the factor to neutral; any other code
/// replaces the factor.
pub open spec fn spec_spacefactor_after(old_sf: i32, sfcode: i32) -> i32 {
    if sfcode == 0 {
        old_sf
    } else if sfcode > 1000 && old_sf < 1000 {
        1000
    } else {
        sfcode
    }
}

/// Processes a character in horizontal mode: appends its box to the
/// current horizontal list and updates the space factor from the
/// character's space factor code.
pub fn do_char(data: &mut StomachData, char: char, width: i32, height: i32, depth: i32, sfcode: i32)
    requires
        horizontal_receptive(old(data).open_lists@),
    ensures
        final(data).open_lists@.last().h_children() == old(
            data,
        ).open_lists@.last().h_children().push(HNode::Char { char, width, height, depth }),
        final(data).open_lists@.last().h_tp() == old(data).open_lists@.last().h_tp(),
        final(data).open_lists@.len() == old(data).open_lists@.len(),
        forall|i: int|
            0 <= i < old(data).open_lists@.len() - 1 ==> final(data).open_lists@[i] == old(
                data,
            ).open_lists@[i],
        final(data).spacefactor == spec_spacefactor_after(old(data).spacefactor, sfcode),
        final(data).page == old(data).page,
        final(data).prevdepth == old(data).prevdepth,
        final(data).prevgraf == old(data).prevgraf,
        eq_page_dims(*old(data), *final(data)),
        eq_marks(*old(data), *final(data)),
        eq_output_state(*old(data), *final(data)),
        eq_queues(*old(data), *final(data)),
        final(data).lastpenalty == old(data).lastpenalty,
{
    add_node_h(data, HNode::Char { char, width, height, depth });
    if sfcode != 0 {
        if sfcode > 1000 && data.spacefactor < 1000 {
            data.spacefactor = 1000;
        } else {
            data.spacefactor = sfcode;
        }
    }
}

/// Appends interword glue to the current horizontal list.
pub fn do_space(data: &mut StomachData, space: crate::dims::Skip)
    requires
        horizontal_receptive(old(data).open_lists@),
    ensures
        final(data).open_lists@.last().h_children() == old(
            data,
        ).open_lists@.last().h_children().push(HNode::Space { skip: space }),
        final(data).open_lists@.last().h_tp() == old(data).open_lists@.last().h_tp(),
        final(data).open_lists@.len() == old(data).open_lists@.len(),
        forall|i: int|
            0 <= i < old(data).open_lists@.len() - 1 ==> final(data).open_lists@[i] == old(
                data,
            ).open_lists@[i],
        eq_except_lists(*old(data), *final(data)),
        final(data).lastpenalty == old(data).lastpenalty,
{
    add_node_h(data, HNode::Space { skip: space });
}


// ------------------------------------------------------------------
// Bulk contribution of vertical material.
// ------------------------------------------------------------------

/// The part of a vertical node sequence that lands on the page: everything
/// but insertions, which are routed to the insertion queue.
pub open spec fn page_part(s: Seq<VNode>) -> Seq<VNode>
    decreases s.len(),
{
    if s.len() == 0 {
        Seq::empty()
    } else {
        let rest = page_part(s.drop_last());
        match s.last() {
            VNode::Insertion { .. } => rest,
            _ => rest.push(s.last()),
        }
    }
}

/// The insertions of a vertical node sequence, as class-tagged blocks in
/// order of appearance.
pub open spec fn inserts_part(s: Seq<VNode>) -> Seq<(usize, Vec<VNode>)>
    decreases s.len(),
{
    if s.len() == 0 {
        Seq::empty()
    } else {
        let rest = inserts_part(s.drop_last());
        match s.last() {
            VNode::Insertion { class, children } => rest.push((class, children)),
            _ => rest,
        }
    }
}

/// Whether the sequence holds a penalty that forces the page out.
pub open spec fn has_forcing(s: Seq<VNode>) -> bool
    decreases s.len(),
{
    if s.len() == 0 {
        false
    } else {
        has_forcing(s.drop_last()) || spec_forcing(s.last())
    }
}

/// Contributes a whole sequence of vertical nodes to the current vertical
/// list: into the innermost vertical frame if one is open, else onto the
/// page, with insertions routed aside. The result says whether the output
/// routine is due once everything has landed, counting any forcing penalty
/// that passed through.
pub fn add_nodes_v(data: &mut StomachData, nodes: Vec<VNode>) -> (fire: bool)
    requires
        vertical_receptive(old(data).open_lists@),
    ensures
        old(data).open_lists@.len() > 0 ==> {
            &&& final(data).open_lists@.len() == old(data).open_lists@.len()
            &&& (forall|i: int|
                0 <= i < old(data).open_lists@.len() - 1 ==> final(data).open_lists@[i] == old(
                    data,
                ).open_lists@[i])
            &&& final(data).open_lists@.last() is Vertical
            &&& final(data).open_lists@.last().v_tp() == old(data).open_lists@.last().v_tp()
            &&& final(data).open_lists@.last().v_children() == old(
                data,
            ).open_lists@.last().v_children() + nodes@
            &&& eq_except_lists(*old(data), *final(data))
            &&& final(data).lastpenalty == old(data).lastpenalty
            &&& !fire
        },
        old(data).open_lists@.len() == 0 ==> {
            &&& final(data).open_lists@.len() == 0
            &&& final(data).page@ == old(data).page@ + page_part(nodes@)
            &&& final(data).inserts@ == old(data).inserts@ + inserts_part(nodes@)
            &&& eq_marks(*old(data), *final(data))
            &&& eq_par_state(*old(data), *final(data))
            &&& eq_output_state(*old(data), *final(data))
            &&& final(data).lastpenalty == old(data).lastpenalty
            &&& final(data).vadjusts == old(data).vadjusts
            &&& final(data).pagegoal == old(data).pagegoal
            &&& fire == spec_output_trigger(*final(data), has_forcing(nodes@))
        },
{
    let ghost all = nodes@;
    if data.open_lists.len() > 0 {
        let frame = data.open_lists.pop().unwrap();
        match frame {
            NodeList::Vertical { tp, mut children } => {
                let ghost children0 = children@;
                let mut rest = nodes;
                let total: usize = rest.len();
                let mut i: usize = 0;
                proof {
                    assert(rest@ =~= all.skip(0));
                    assert(children@ =~= children0 + all.take(0));
                }
                while rest.len() > 0
                    invariant
                        all.len() == total,
                        i + rest@.len() == all.len(),
                        rest@ == all.skip(i as int),
                        children@ == children0 + all.take(i as int),
                    decreases rest@.len(),
                {
                    let node = rest.remove(0);
                    proof {
                        assert(all.skip(i as int)[0] == all[i as int]);
                        assert(all.skip(i as int).remove(0) =~= all.skip(i as int + 1));
                        assert((children0 + all.take(i as int)).push(all[i as int]) =~= children0
                            + all.take(i as int + 1));
                    }
                    children.push(node);
                    i = i + 1;
                }
                proof {
                    assert(all.take(all.len() as int) =~= all);
                }
                data.open_lists.push(NodeList::Vertical { tp, children });
            },
            other => {
                proof {
                    assert(false);
                }
                data.open_lists.push(other);
            },
        }
        false
    } else {
        let mut rest = nodes;
        let total: usize = rest.len();
        let mut i: usize = 0;
        let mut saw_forcing = false;
        proof {
            assert(rest@ =~= all.skip(0));
            assert(data.page@ =~= data.page@ + page_part(all.take(0)));
            assert(data.inserts@ =~= data.inserts@ + inserts_part(all.take(0)));
        }
        let ghost d0 = *data;
        while rest.len() > 0
            invariant
                all.len() == total,
                i + rest@.len() == all.len(),
                rest@ == all.skip(i as int),
                data.open_lists@.len() == 0,
                data.page@ == d0.page@ + page_part(all.take(i as int)),
                data.inserts@ == d0.inserts@ + inserts_part(all.take(i as int)),
                eq_marks(d0, *data),
                eq_par_state(d0, *data),
                eq_output_state(d0, *data),
                data.lastpenalty == d0.lastpenalty,
                data.vadjusts == d0.vadjusts,
                data.pagegoal == d0.pagegoal,
                saw_forcing == has_forcing(all.take(i as int)),
            decreases rest@.len(),
        {
            let node = rest.remove(0);
            proof {
                assert(all.skip(i as int)[0] == all[i as int]);
                assert(all.skip(i as int).remove(0) =~= all.skip(i as int + 1));
                assert(all.take(i as int + 1).drop_last() =~= all.take(i as int));
                assert(all.take(i as int + 1).last() == all[i as int]);
            }
            if let VNode::Penalty { penalty } = &node {
                if *penalty <= -10000 {
                    saw_forcing = true;
                }
            }
            add_node_v(data, node);
            i = i + 1;
        }
        proof {
            assert(all.take(all.len() as int) =~= all);
        }
        !data.in_output && data.open_lists.len() == 0 && data.page.len() > 0 && (data.pagetotal
            >= data.pagegoal || saw_forcing)
    }
}

} // verus!
