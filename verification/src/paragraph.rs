use vstd::prelude::*;
use crate::dims::{dim_add, dim_sub, sat_add, sat_sub, Skip};
use crate::nodes::{
    hnode_width, HBoxKind, HNode, HorizontalListType, NodeList, SourceRef, TeXBox, VNode,
};
use crate::boxes::{hlist_natural, spec_hlist_depth, spec_hlist_height, spec_hlist_width};
use crate::stomach::{
    add_node_v, eq_except_lists, eq_marks, eq_output_state, eq_page_dims, inserts_part, page_part,
    spec_output_trigger, vertical_receptive, IGNORE_DEPTH, StomachData,
};
use crate::tokens::{Primitive, Token, TokenFront};
use crate::actions::{StateAction, StomachError};

verus! {

/// The room one line of a paragraph offers: the margin glues attached to
/// it and the width left for content between them.
#[derive(Clone, Copy, PartialEq, Eq, Structural, Debug)]
pub struct ParLineSpec {
    pub leftskip: Skip,
    pub rightskip: Skip,
    pub target: i32,
}

/// The interline parameters the builder spaces lines with.
#[derive(Clone, Copy, PartialEq, Eq, Structural, Debug)]
pub struct LineSkipParams {
    pub baselineskip: Skip,
    pub lineskip: Skip,
    pub lineskiplimit: i32,
}

/// One item the paragraph splitter emits: a finished line, or vertical
/// material adjusted out of the paragraph, interleaved in source order.
#[derive(Debug)]
pub enum ParLine {
    Line(TeXBox),
    Adjust(VNode),
}

// ------------------------------------------------------------------
// Line specifications.
// ------------------------------------------------------------------

/// An ordinary line: full measure less the margin glue bases.
pub open spec fn spec_plain_spec(hsize: int, left: Skip, right: Skip) -> ParLineSpec {
    ParLineSpec {
        leftskip: left,
        rightskip: right,
        target: sat_sub(sat_sub(hsize, left.base as int), right.base as int) as i32,
    }
}

/// A hanging line: the measure is narrowed by the hanging indentation, on
/// the left when it is positive (shifting the left margin glue), else on
/// the right.
pub open spec fn spec_hung_spec(hsize: int, left: Skip, right: Skip, hangindent: int)
    -> ParLineSpec {
    if hangindent >= 0 {
        ParLineSpec {
            leftskip: Skip {
                base: sat_add(left.base as int, hangindent) as i32,
                stretch: left.stretch,
                shrink: left.shrink,
            },
            rightskip: right,
            target: sat_sub(
                sat_sub(sat_sub(hsize, left.base as int), right.base as int),
                hangindent,
            ) as i32,
        }
    } else {
        ParLineSpec {
            leftskip: left,
            rightskip: Skip {
                base: sat_add(right.base as int, -hangindent) as i32,
                stretch: right.stretch,
                shrink: right.shrink,
            },
            target: sat_add(
                sat_sub(sat_sub(hsize, left.base as int), right.base as int),
                hangindent,
            ) as i32,
        }
    }
}

/// A line drawn from a paragraph-shape entry `(indent, width)`: the left
/// margin glue is shifted by the indent and the content room is the
/// entry's width less the margin glue bases.
pub open spec fn spec_parshape_spec(entry: (i32, i32), left: Skip, right: Skip) -> ParLineSpec {
    ParLineSpec {
        leftskip: Skip {
            base: sat_add(left.base as int, entry.0 as int) as i32,
            stretch: left.stretch,
            shrink: left.shrink,
        },
        rightskip: right,
        target: sat_sub(sat_sub(entry.1 as int, left.base as int), right.base as int) as i32,
    }
}

impl ParLineSpec {
    /// Reads the line specifications for the paragraph being closed from
    /// the values the symbol table currently holds: an explicit paragraph
    /// shape wins; else hanging indentation produces its leading or
    /// trailing run of narrowed lines; else every line is plain. The last
    /// specification repeats for all later lines.
    pub fn make(
        hsize: i32,
        leftskip: Skip,
        rightskip: Skip,
        parshape: &Vec<(i32, i32)>,
        hangindent: i32,
        hangafter: i32,
    ) -> (r: Vec<ParLineSpec>)
        ensures
            r@.len() >= 1,
            parshape@.len() > 0 ==> r@.len() == parshape@.len() && (forall|i: int|
                0 <= i < r@.len() ==> r@[i] == spec_parshape_spec(
                    parshape@[i],
                    leftskip,
                    rightskip,
                )),
            parshape@.len() == 0 && hangindent != 0 && hangafter >= 0 ==> {
                &&& r@.len() == hangafter + 1
                &&& (forall|i: int|
                    0 <= i < hangafter ==> r@[i] == spec_plain_spec(
                        hsize as int,
                        leftskip,
                        rightskip,
                    ))
                &&& r@.last() == spec_hung_spec(
                    hsize as int,
                    leftskip,
                    rightskip,
                    hangindent as int,
                )
            },
            parshape@.len() == 0 && hangindent != 0 && hangafter < 0 ==> {
                &&& r@.len() == -(hangafter as int) + 1
                &&& (forall|i: int|
                    0 <= i < -(hangafter as int) ==> r@[i] == spec_hung_spec(
                        hsize as int,
                        leftskip,
                        rightskip,
                        hangindent as int,
                    ))
                &&& r@.last() == spec_plain_spec(hsize as int, leftskip, rightskip)
            },
            parshape@.len() == 0 && hangindent == 0 ==> r@ == seq![
                spec_plain_spec(hsize as int, leftskip, rightskip),
            ],
    {
        let mut r: Vec<ParLineSpec> = Vec::new();
        if parshape.len() > 0 {
            let mut i: usize = 0;
            while i < parshape.len()
                invariant
                    i <= parshape@.len(),
                    r@.len() == i,
                    forall|j: int|
                        0 <= j < i ==> r@[j] == spec_parshape_spec(
                            parshape@[j],
                            leftskip,
                            rightskip,
                        ),
                decreases parshape@.len() - i,
            {
                let entry = parshape[i];
                r.push(
                    ParLineSpec {
                        leftskip: Skip {
                            base: dim_add(leftskip.base, entry.0),
                            stretch: leftskip.stretch,
                            shrink: leftskip.shrink,
                        },
                        rightskip,
                        target: dim_sub(dim_sub(entry.1, leftskip.base), rightskip.base),
                    },
                );
                i = i + 1;
            }
            return r;
        }
        let plain = ParLineSpec {
            leftskip,
            rightskip,
            target: dim_sub(dim_sub(hsize, leftskip.base), rightskip.base),
        };
        proof {
            assert(plain == spec_plain_spec(hsize as int, leftskip, rightskip));
        }
        if hangindent == 0 {
            r.push(plain);
            proof {
                assert(r@ =~= seq![spec_plain_spec(hsize as int, leftskip, rightskip)]);
            }
            return r;
        }
        let hung = if hangindent >= 0 {
            ParLineSpec {
                leftskip: Skip {
                    base: dim_add(leftskip.base, hangindent),
                    stretch: leftskip.stretch,
                    shrink: leftskip.shrink,
                },
                rightskip,
                target: dim_sub(
                    dim_sub(dim_sub(hsize, leftskip.base), rightskip.base),
                    hangindent,
                ),
            }
        } else {
            ParLineSpec {
                leftskip,
                rightskip: Skip {
                    base: dim_sub(rightskip.base, hangindent),
                    stretch: rightskip.stretch,
                    shrink: rightskip.shrink,
                },
                target: dim_add(
                    dim_sub(dim_sub(hsize, leftskip.base), rightskip.base),
                    hangindent,
                ),
            }
        };
        proof {
            assert(hung == spec_hung_spec(hsize as int, leftskip, rightskip, hangindent as int));
        }
        if hangafter >= 0 {
            let n = hangafter;
            let mut i: i32 = 0;
            while i < n
                invariant
                    0 <= i <= n,
                    r@.len() == i,
                    plain == spec_plain_spec(hsize as int, leftskip, rightskip),
                    forall|j: int|
                        0 <= j < i ==> r@[j] == spec_plain_spec(hsize as int, leftskip, rightskip),
                decreases n - i,
            {
                r.push(plain);
                i = i + 1;
            }
            r.push(hung);
            r
        } else {
            let n: i64 = -(hangafter as i64);
            let mut i: i64 = 0;
            while i < n
                invariant
                    0 <= i <= n,
                    n == -(hangafter as int),
                    r@.len() == i,
                    hung == spec_hung_spec(hsize as int, leftskip, rightskip, hangindent as int),
                    forall|j: int|
                        0 <= j < i ==> r@[j] == spec_hung_spec(
                            hsize as int,
                            leftskip,
                            rightskip,
                            hangindent as int,
                        ),
                decreases n - i,
            {
                r.push(hung);
                i = i + 1;
            }
            r.push(plain);
            r
        }
    }
}

// ------------------------------------------------------------------
// Interline glue.
// ------------------------------------------------------------------

/// The glue the builder puts between a previous depth and the next line's
/// height: none while the previous depth is still the ignore sentinel;
/// else glue of size `baselineskip - prevdepth - height` (carrying the
/// baseline glue's stretch and shrink) when that size reaches the line
/// skip limit, and the fallback line skip glue otherwise. Subtractions
/// saturate at the representable dimension range.
pub open spec fn spec_line_glue(ls: LineSkipParams, prevdepth: int, height: int) -> Option<Skip> {
    if prevdepth <= IGNORE_DEPTH as int {
        None
    } else {
        let g = sat_sub(sat_sub(ls.baselineskip.base as int, prevdepth), height);
        if g >= ls.lineskiplimit as int {
            Some(
                Skip {
                    base: g as i32,
                    stretch: ls.baselineskip.stretch,
                    shrink: ls.baselineskip.shrink,
                },
            )
        } else {
            Some(ls.lineskip)
        }
    }
}

/// Computes the interline glue for a line of the given height arriving
/// after the given previous depth.
pub fn interline_glue(ls: LineSkipParams, prevdepth: i32, height: i32) -> (r: Option<Skip>)
    ensures
        r == spec_line_glue(ls, prevdepth as int, height as int),
{
    if prevdepth <= IGNORE_DEPTH {
        None
    } else {
        let g = dim_sub(dim_sub(ls.baselineskip.base, prevdepth), height);
        if g >= ls.lineskiplimit {
            Some(Skip { base: g, stretch: ls.baselineskip.stretch, shrink: ls.baselineskip.shrink })
        } else {
            Some(ls.lineskip)
        }
    }
}

// ------------------------------------------------------------------
// The first-fit splitter.
// ------------------------------------------------------------------

/// The vertical material carried by the adjustments in a horizontal list.
pub open spec fn count_vadjust_material(s: Seq<HNode>) -> int
    decreases s.len(),
{
    if s.len() == 0 {
        0
    } else {
        count_vadjust_material(s.drop_last()) + (match s.last() {
            HNode::VAdjust { children } => children@.len() as int,
            _ => 0int,
        })
    }
}

/// The number of adjustment items among the splitter's output.
pub open spec fn count_adjust_items(s: Seq<ParLine>) -> int
    decreases s.len(),
{
    if s.len() == 0 {
        0
    } else {
        count_adjust_items(s.drop_last()) + (match s.last() {
            ParLine::Adjust(..) => 1int,
            _ => 0int,
        })
    }
}

/// The number of finished lines among the splitter's output.
pub open spec fn count_lines(s: Seq<ParLine>) -> int
    decreases s.len(),
{
    if s.len() == 0 {
        0
    } else {
        count_lines(s.drop_last()) + (match s.last() {
            ParLine::Line(..) => 1int,
            _ => 0int,
        })
    }
}

/// The character nodes in a horizontal list.
pub open spec fn count_chars(s: Seq<HNode>) -> int
    decreases s.len(),
{
    if s.len() == 0 {
        0
    } else {
        count_chars(s.drop_last()) + (match s.last() {
            HNode::Char { .. } => 1int,
            _ => 0int,
        })
    }
}

/// The character nodes carried by the lines of the splitter's output.
pub open spec fn count_out_chars(lines: Seq<ParLine>) -> int
    decreases lines.len(),
{
    if lines.len() == 0 {
        0
    } else {
        count_out_chars(lines.drop_last()) + (match lines.last() {
            ParLine::Line(TeXBox::H { children, .. }) => count_chars(children@),
            _ => 0int,
        })
    }
}

pub proof fn lemma_count_chars_split(s: Seq<HNode>, b: int)
    requires
        0 <= b <= s.len(),
    ensures
        count_chars(s) == count_chars(s.take(b)) + count_chars(s.skip(b)),
    decreases s.len() - b,
{
    if b == s.len() {
        assert(s.take(b) =~= s);
        assert(s.skip(b) =~= Seq::<HNode>::empty());
    } else {
        lemma_count_chars_split(s.drop_last(), b);
        assert(s.drop_last().take(b) =~= s.take(b));
        assert(s.skip(b).drop_last() =~= s.drop_last().skip(b));
        assert(s.skip(b).last() == s.last());
    }
}

pub proof fn lemma_count_chars_cons(x: HNode, s: Seq<HNode>)
    ensures
        count_chars(seq![x] + s) == count_chars(seq![x]) + count_chars(s),
    decreases s.len(),
{
    if s.len() == 0 {
        assert(seq![x] + s =~= seq![x]);
    } else {
        lemma_count_chars_cons(x, s.drop_last());
        assert((seq![x] + s).drop_last() =~= seq![x] + s.drop_last());
        assert((seq![x] + s).last() == s.last());
    }
}

/// A discardable horizontal node: glue, kern, penalty, math shift or
/// discretionary — the kinds a line break discards.
pub open spec fn spec_hnode_discardable(n: HNode) -> bool {
    match n {
        HNode::Space { .. } => true,
        HNode::Kern { .. } => true,
        HNode::Penalty { .. } => true,
        HNode::MathOn => true,
        HNode::MathOff => true,
        HNode::Discretionary => true,
        _ => false,
    }
}

/// Whether index `i` of an adjust-free horizontal list offers a legal line
/// break: a penalty below the inhibiting threshold, a discretionary, or
/// glue following a non-discardable node.
pub open spec fn spec_h_break_at(s: Seq<HNode>, i: int) -> bool {
    match s[i] {
        HNode::Penalty { penalty } => penalty < 10000,
        HNode::Discretionary => true,
        HNode::Space { .. } => i > 0 && !spec_hnode_discardable(s[i - 1]),
        _ => false,
    }
}

/// A list without any legal break opportunity.
pub open spec fn no_h_breaks(s: Seq<HNode>) -> bool {
    forall|i: int| 0 <= i < s.len() ==> !spec_h_break_at(s, i)
}

/// The horizontal list with its adjustments taken out: what the line
/// breaker actually cuts.
pub open spec fn strip_adjusts(s: Seq<HNode>) -> Seq<HNode>
    decreases s.len(),
{
    if s.len() == 0 {
        Seq::empty()
    } else {
        let rest = strip_adjusts(s.drop_last());
        match s.last() {
            HNode::VAdjust { .. } => rest,
            _ => rest.push(s.last()),
        }
    }
}

/// The content of a line box: its children without the two margin glues.
pub open spec fn line_content(b: TeXBox) -> Seq<HNode> {
    b->H_children@.subrange(1, b->H_children@.len() - 1)
}

/// Stripping a prefix of the input yields a prefix of the stripped input.
pub proof fn lemma_strip_take_prefix(s: Seq<HNode>, i: int)
    requires
        0 <= i <= s.len(),
    ensures
        strip_adjusts(s.take(i)).len() <= strip_adjusts(s).len(),
        strip_adjusts(s.take(i)) == strip_adjusts(s).take(
            strip_adjusts(s.take(i)).len() as int,
        ),
    decreases s.len() - i,
{
    if i == s.len() {
        assert(s.take(i) =~= s);
        assert(strip_adjusts(s).take(strip_adjusts(s).len() as int) =~= strip_adjusts(s));
    } else {
        lemma_strip_take_prefix(s, i + 1);
        assert(s.take(i + 1).drop_last() =~= s.take(i));
        assert(s.take(i + 1).last() == s[i]);
        let a = strip_adjusts(s.take(i));
        let b = strip_adjusts(s.take(i + 1));
        match s[i] {
            HNode::VAdjust { .. } => {
                assert(b == a);
            },
            _ => {
                assert(b == a.push(s[i]));
                assert(b.drop_last() =~= a);
                assert(strip_adjusts(s).take(b.len() as int).drop_last() =~= strip_adjusts(s).take(
                    b.len() as int - 1,
                ));
            },
        }
    }
}

/// A penalty that forces a line break.
pub open spec fn is_forcing_h(n: HNode) -> bool {
    match n {
        HNode::Penalty { penalty } => penalty <= -10000,
        _ => false,
    }
}

/// The boxes of the emitted lines, in order.
pub open spec fn line_boxes(lines: Seq<ParLine>) -> Seq<TeXBox>
    decreases lines.len(),
{
    if lines.len() == 0 {
        Seq::empty()
    } else {
        let rest = line_boxes(lines.drop_last());
        match lines.last() {
            ParLine::Line(b) => rest.push(b),
            _ => rest,
        }
    }
}

/// Where line `m` starts in the adjust-free input: right after the
/// previous line's cut, skipping the node that cut discarded.
pub open spec fn spec_cut_start(cuts: Seq<(int, bool)>, m: int) -> int {
    if m <= 0 {
        0
    } else {
        cuts[m - 1].0 + (if cuts[m - 1].1 {
            1int
        } else {
            0int
        })
    }
}

/// How the splitter cut the adjust-free input into the emitted lines: one
/// cut per line, each line's content the contiguous segment from the
/// previous cut to its own; every line but the last discards the node it
/// broke at, which is a legal break point there; forcing penalties always
/// break. Together the segments and discarded break nodes cover the whole
/// input.
pub open spec fn spec_cuts_describe(
    strip: Seq<HNode>,
    boxes: Seq<TeXBox>,
    cuts: Seq<(int, bool)>,
) -> bool {
    &&& cuts.len() == boxes.len()
    &&& (forall|m: int|
        0 <= m < cuts.len() ==> spec_cut_start(cuts, m) <= (#[trigger] cuts[m]).0 <= strip.len())
    &&& (forall|m: int|
        0 <= m < cuts.len() ==> line_content(#[trigger] boxes[m]) == strip.subrange(
            spec_cut_start(cuts, m),
            cuts[m].0,
        ))
    &&& (forall|m: int|
        0 <= m < cuts.len() ==> ((#[trigger] cuts[m]).1 ==> cuts[m].0 < strip.len()
            && spec_h_break_at(strip, cuts[m].0)))
    &&& (forall|m: int| 0 <= m < cuts.len() - 1 ==> (#[trigger] cuts[m]).1)
    &&& (cuts.len() > 0 ==> spec_cut_start(cuts, cuts.len() as int) == strip.len())
    &&& (forall|j: int|
        0 <= j < strip.len() && is_forcing_h(#[trigger] strip[j]) ==> exists|m: int|
            0 <= m < cuts.len() && (#[trigger] cuts[m]) == (j, true))
}

/// A legal break point stays one when the list grows at the end.
pub proof fn lemma_break_at_push(s: Seq<HNode>, x: HNode, p: int)
    requires
        0 <= p < s.len(),
    ensures
        spec_h_break_at(s.push(x), p) == spec_h_break_at(s, p),
{
    assert(s.push(x)[p] == s[p]);
    if p > 0 {
        assert(s.push(x)[p - 1] == s[p - 1]);
    }
}

/// The facts the splitter maintains about its recorded cuts, bundled:
/// positions are ordered and in range, each line's content is its segment,
/// every recorded cut discards a legal break, and every forcing penalty
/// seen so far has its cut. Opaque so that only the lemmas below unfold it.
#[verifier::opaque]
pub open spec fn spec_cut_facts(
    strip: Seq<HNode>,
    boxes: Seq<TeXBox>,
    cuts: Seq<(int, bool)>,
) -> bool {
    &&& cuts.len() == boxes.len()
    &&& (forall|m: int|
        0 <= m < cuts.len() ==> 0 <= spec_cut_start(cuts, m) <= (#[trigger] cuts[m]).0
            <= strip.len())
    &&& (forall|m: int|
        0 <= m < cuts.len() ==> line_content(#[trigger] boxes[m]) == strip.subrange(
            spec_cut_start(cuts, m),
            cuts[m].0,
        ))
    &&& (forall|m: int|
        0 <= m < cuts.len() ==> (#[trigger] cuts[m]).1 && cuts[m].0 < strip.len()
            && spec_h_break_at(strip, cuts[m].0))
    &&& (forall|j: int|
        0 <= j < strip.len() && is_forcing_h(#[trigger] strip[j]) ==> exists|m: int|
            0 <= m < cuts.len() && (#[trigger] cuts[m]) == (j, true))
}

/// Nothing recorded yet: the facts hold of the empty state.
pub proof fn lemma_cut_facts_empty()
    ensures
        spec_cut_facts(Seq::empty(), Seq::empty(), Seq::empty()),
{
    reveal(spec_cut_facts);
}

/// The cut facts survive the adjust-free input growing by one node that is
/// not a forcing penalty.
#[verifier::rlimit(50)]
pub proof fn lemma_cut_facts_push(
    so: Seq<HNode>,
    x: HNode,
    boxes: Seq<TeXBox>,
    cuts: Seq<(int, bool)>,
)
    requires
        !is_forcing_h(x),
        spec_cut_facts(so, boxes, cuts),
    ensures
        spec_cut_facts(so.push(x), boxes, cuts),
{
    reveal(spec_cut_facts);
    let sn = so.push(x);
    assert forall|m: int|
        0 <= m < cuts.len() implies line_content(#[trigger] boxes[m]) == sn.subrange(
        spec_cut_start(cuts, m),
        cuts[m].0,
    ) by {
        assert(0 <= spec_cut_start(cuts, m) <= cuts[m].0 <= so.len());
        assert(sn.subrange(spec_cut_start(cuts, m), cuts[m].0) =~= so.subrange(
            spec_cut_start(cuts, m),
            cuts[m].0,
        ));
    };
    assert forall|m: int|
        0 <= m < cuts.len() implies (#[trigger] cuts[m]).1 && cuts[m].0 < sn.len()
        && spec_h_break_at(sn, cuts[m].0) by {
        assert((cuts[m]).1 && cuts[m].0 < so.len() && spec_h_break_at(so, cuts[m].0));
        lemma_break_at_push(so, x, cuts[m].0);
    };
    assert forall|j: int|
        0 <= j < sn.len() && is_forcing_h(#[trigger] sn[j]) implies exists|m: int|
        0 <= m < cuts.len() && (#[trigger] cuts[m]) == (j, true) by {
        if j < so.len() {
            assert(sn[j] == so[j]);
            assert(is_forcing_h(so[j]));
        } else {
            assert(sn[j] == x);
        }
    };
}

/// Recording a cut as the input grows by the node that decided it: the new
/// line's content is the segment up to the cut, the discarded node is a
/// legal break there, and a forcing arrival is exactly the node cut at.
#[verifier::rlimit(50)]
pub proof fn lemma_cut_facts_cut(
    so: Seq<HNode>,
    x: HNode,
    boxes: Seq<TeXBox>,
    cuts: Seq<(int, bool)>,
    bx: TeXBox,
    q: int,
)
    requires
        spec_cut_facts(so, boxes, cuts),
        spec_cut_start(cuts, cuts.len() as int) <= q < so.push(x).len(),
        spec_h_break_at(so.push(x), q),
        line_content(bx) == so.push(x).subrange(spec_cut_start(cuts, cuts.len() as int), q),
        is_forcing_h(x) ==> q == so.len(),
    ensures
        spec_cut_facts(so.push(x), boxes.push(bx), cuts.push((q, true))),
        spec_cut_start(cuts.push((q, true)), cuts.push((q, true)).len() as int) == q + 1,
{
    reveal(spec_cut_facts);
    let sn = so.push(x);
    let cuts2 = cuts.push((q, true));
    let boxes2 = boxes.push(bx);
    assert forall|m: int|
        0 <= m < cuts2.len() implies 0 <= spec_cut_start(cuts2, m) <= (#[trigger] cuts2[m]).0
        <= sn.len() by {
        if m < cuts.len() {
            assert(cuts2[m] == cuts[m]);
            assert(spec_cut_start(cuts2, m) == spec_cut_start(cuts, m));
        } else {
            assert(cuts2[m] == (q, true));
            assert(spec_cut_start(cuts2, m) == spec_cut_start(cuts, cuts.len() as int));
        }
    };
    assert forall|m: int|
        0 <= m < cuts2.len() implies line_content(#[trigger] boxes2[m]) == sn.subrange(
        spec_cut_start(cuts2, m),
        cuts2[m].0,
    ) by {
        if m < cuts.len() {
            assert(boxes2[m] == boxes[m]);
            assert(cuts2[m] == cuts[m]);
            assert(spec_cut_start(cuts2, m) == spec_cut_start(cuts, m));
            assert(0 <= spec_cut_start(cuts, m) <= cuts[m].0 <= so.len());
            assert(sn.subrange(spec_cut_start(cuts, m), cuts[m].0) =~= so.subrange(
                spec_cut_start(cuts, m),
                cuts[m].0,
            ));
        } else {
            assert(boxes2[m] == bx);
            assert(cuts2[m] == (q, true));
            assert(spec_cut_start(cuts2, m) == spec_cut_start(cuts, cuts.len() as int));
        }
    };
    assert forall|m: int|
        0 <= m < cuts2.len() implies (#[trigger] cuts2[m]).1 && cuts2[m].0 < sn.len()
        && spec_h_break_at(sn, cuts2[m].0) by {
        if m < cuts.len() {
            assert(cuts2[m] == cuts[m]);
            assert((cuts[m]).1 && cuts[m].0 < so.len() && spec_h_break_at(so, cuts[m].0));
            lemma_break_at_push(so, x, cuts[m].0);
        } else {
            assert(cuts2[m] == (q, true));
        }
    };
    assert forall|j: int|
        0 <= j < sn.len() && is_forcing_h(#[trigger] sn[j]) implies exists|m: int|
        0 <= m < cuts2.len() && (#[trigger] cuts2[m]) == (j, true) by {
        if j == q {
            assert(cuts2[cuts2.len() - 1] == (q, true));
        } else if j < so.len() {
            assert(sn[j] == so[j]);
            assert(is_forcing_h(so[j]));
            let m0 = choose|m: int| 0 <= m < cuts.len() && (#[trigger] cuts[m]) == (j, true);
            assert(cuts2[m0] == (j, true));
        } else {
            assert(sn[j] == x);
            assert(false);
        }
    };
}

/// A final, non-discarding cut at the end of the input turns the recorded
/// facts into the full cut description.
#[verifier::rlimit(50)]
pub proof fn lemma_cut_facts_final(
    strip: Seq<HNode>,
    boxes: Seq<TeXBox>,
    cuts: Seq<(int, bool)>,
    bx: TeXBox,
)
    requires
        spec_cut_facts(strip, boxes, cuts),
        0 <= spec_cut_start(cuts, cuts.len() as int) <= strip.len(),
        line_content(bx) == strip.subrange(
            spec_cut_start(cuts, cuts.len() as int),
            strip.len() as int,
        ),
    ensures
        spec_cuts_describe(
            strip,
            boxes.push(bx),
            cuts.push((strip.len() as int, false)),
        ),
{
    reveal(spec_cut_facts);
    let q = strip.len() as int;
    let cuts2 = cuts.push((q, false));
    let boxes2 = boxes.push(bx);
    assert forall|m: int|
        0 <= m < cuts2.len() implies spec_cut_start(cuts2, m) <= (#[trigger] cuts2[m]).0
        <= strip.len() by {
        if m < cuts.len() {
            assert(cuts2[m] == cuts[m]);
            assert(spec_cut_start(cuts2, m) == spec_cut_start(cuts, m));
        } else {
            assert(cuts2[m] == (q, false));
            assert(spec_cut_start(cuts2, m) == spec_cut_start(cuts, cuts.len() as int));
        }
    };
    assert forall|m: int|
        0 <= m < cuts2.len() implies line_content(#[trigger] boxes2[m]) == strip.subrange(
        spec_cut_start(cuts2, m),
        cuts2[m].0,
    ) by {
        if m < cuts.len() {
            assert(boxes2[m] == boxes[m]);
            assert(cuts2[m] == cuts[m]);
            assert(spec_cut_start(cuts2, m) == spec_cut_start(cuts, m));
        } else {
            assert(boxes2[m] == bx);
            assert(spec_cut_start(cuts2, m) == spec_cut_start(cuts, cuts.len() as int));
        }
    };
    assert forall|m: int|
        0 <= m < cuts2.len() implies ((#[trigger] cuts2[m]).1 ==> cuts2[m].0 < strip.len()
        && spec_h_break_at(strip, cuts2[m].0)) by {
        if m < cuts.len() {
            assert(cuts2[m] == cuts[m]);
        }
    };
    assert forall|m: int| 0 <= m < cuts2.len() - 1 implies (#[trigger] cuts2[m]).1 by {
        assert(cuts2[m] == cuts[m]);
    };
    assert(spec_cut_start(cuts2, cuts2.len() as int) == strip.len());
    assert forall|j: int|
        0 <= j < strip.len() && is_forcing_h(#[trigger] strip[j]) implies exists|m: int|
        0 <= m < cuts2.len() && (#[trigger] cuts2[m]) == (j, true) by {
        let m0 = choose|m: int| 0 <= m < cuts.len() && (#[trigger] cuts[m]) == (j, true);
        assert(cuts2[m0] == (j, true));
    };
}

/// When the recorded cuts already reach the end of the input, they are the
/// full cut description as they stand.
pub proof fn lemma_cut_facts_complete(
    strip: Seq<HNode>,
    boxes: Seq<TeXBox>,
    cuts: Seq<(int, bool)>,
)
    requires
        spec_cut_facts(strip, boxes, cuts),
        cuts.len() > 0 ==> spec_cut_start(cuts, cuts.len() as int) == strip.len(),
    ensures
        spec_cuts_describe(strip, boxes, cuts),
{
    reveal(spec_cut_facts);
}

/// A box produced as a paragraph line.
pub open spec fn is_par_line_box(b: TeXBox) -> bool {
    b matches TeXBox::H { kind: HBoxKind::ParLine, .. }
}

/// What holds of every box the splitter emits as a line: it is tagged as a
/// paragraph line, holds the two margin glues around its content, and
/// reports the natural metrics of its children.
pub open spec fn spec_line_box_wf(b: TeXBox) -> bool {
    &&& is_par_line_box(b)
    &&& b->H_children@.len() >= 2
    &&& b.spec_width() == spec_hlist_width(b->H_children@)
    &&& b.spec_height() == spec_hlist_height(b->H_children@)
    &&& b.spec_depth() == spec_hlist_depth(b->H_children@)
}

pub proof fn lemma_count_vadjust_nonneg(s: Seq<HNode>)
    ensures
        count_vadjust_material(s) >= 0,
    decreases s.len(),
{
    if s.len() > 0 {
        lemma_count_vadjust_nonneg(s.drop_last());
    }
}

pub proof fn lemma_count_vadjust_split(s: Seq<HNode>, b: int)
    requires
        0 <= b <= s.len(),
    ensures
        count_vadjust_material(s) == count_vadjust_material(s.take(b)) + count_vadjust_material(
            s.skip(b),
        ),
    decreases s.len() - b,
{
    if b == s.len() {
        assert(s.take(b) =~= s);
        assert(s.skip(b) =~= Seq::<HNode>::empty());
    } else {
        lemma_count_vadjust_split(s.drop_last(), b);
        assert(s.drop_last().take(b) =~= s.take(b));
        assert(s.skip(b).drop_last() =~= s.drop_last().skip(b));
        assert(s.skip(b).last() == s.last());
    }
}

/// Builds one line box: the content is wrapped between the margin glues,
/// the box is tagged as a paragraph line, and it reports its natural
/// metrics.
pub fn make_line_box(content: Vec<HNode>, spec: &ParLineSpec, sref: SourceRef) -> (r: TeXBox)
    ensures
        is_par_line_box(r),
        r->H_children@ == seq![HNode::Space { skip: spec.leftskip }] + content@ + seq![
            HNode::Space { skip: spec.rightskip },
        ],
        r.spec_width() == spec_hlist_width(r->H_children@),
        r.spec_height() == spec_hlist_height(r->H_children@),
        r.spec_depth() == spec_hlist_depth(r->H_children@),
        count_chars(r->H_children@) == count_chars(content@),
{
    let ghost content0 = content@;
    let mut children: Vec<HNode> = Vec::new();
    children.push(HNode::Space { skip: spec.leftskip });
    let mut rest = content;
    let total: usize = rest.len();
    let mut i: usize = 0;
    proof {
        assert(rest@ =~= content0.skip(0));
        assert(children@ =~= seq![HNode::Space { skip: spec.leftskip }] + content0.take(0));
    }
    while rest.len() > 0
        invariant
            content0.len() == total,
            i + rest@.len() == content0.len(),
            rest@ == content0.skip(i as int),
            children@ == seq![HNode::Space { skip: spec.leftskip }] + content0.take(i as int),
        decreases rest@.len(),
    {
        let node = rest.remove(0);
        proof {
            assert(content0.skip(i as int)[0] == content0[i as int]);
            assert(content0.skip(i as int).remove(0) =~= content0.skip(i as int + 1));
            assert((seq![HNode::Space { skip: spec.leftskip }] + content0.take(i as int)).push(
                content0[i as int],
            ) =~= seq![HNode::Space { skip: spec.leftskip }] + content0.take(i as int + 1));
        }
        children.push(node);
        i = i + 1;
    }
    proof {
        assert(content0.take(content0.len() as int) =~= content0);
    }
    let ghost before_right = children@;
    children.push(HNode::Space { skip: spec.rightskip });
    proof {
        assert(children@ =~= seq![HNode::Space { skip: spec.leftskip }] + content0 + seq![
            HNode::Space { skip: spec.rightskip },
        ]);
        assert(children@.drop_last() =~= before_right);
        lemma_count_chars_cons(HNode::Space { skip: spec.leftskip }, content0);
        assert(count_chars(Seq::<HNode>::empty()) == 0);
        assert(seq![HNode::Space { skip: spec.leftskip }].drop_last() =~= Seq::<HNode>::empty());
        assert(seq![HNode::Space { skip: spec.leftskip }].last() == (HNode::Space {
            skip: spec.leftskip,
        }));
        assert(count_chars(seq![HNode::Space { skip: spec.leftskip }]) == 0);
        assert(count_chars(children@) == count_chars(content0));
    }
    let (w, h, d) = hlist_natural(&children);
    TeXBox::H {
        children,
        width: w,
        height: h,
        depth: d,
        kind: HBoxKind::ParLine,
        start: sref,
        end: sref,
    }
}

/// What the splitter guarantees of its output against its input: every
/// piece of adjusted vertical material comes out as exactly one
/// adjustment item, a non-empty paragraph yields at least one line, and
/// every line is a paragraph-line box.
pub open spec fn spec_splitter_ok(
    children: Seq<HNode>,
    specs: Seq<ParLineSpec>,
    lines: Seq<ParLine>,
) -> bool {
    &&& count_adjust_items(lines) == count_vadjust_material(children)
    &&& count_out_chars(lines) == count_chars(children)
    &&& (children.len() > 0 ==> count_lines(lines) >= 1)
    &&& (no_h_breaks(strip_adjusts(children)) && specs.len() >= 1 ==> count_lines(lines) == 1 && (
    forall|i: int|
        0 <= i < lines.len() ==> ((#[trigger] lines[i]) matches ParLine::Line(b) ==> b->H_children@
            == seq![HNode::Space { skip: specs[0].leftskip }] + strip_adjusts(children) + seq![
            HNode::Space { skip: specs[0].rightskip },
        ])))
    &&& (forall|i: int|
        0 <= i < lines.len() ==> ((#[trigger] lines[i]) matches ParLine::Line(b)
            ==> spec_line_box_wf(b)))
    &&& (exists|cuts: Seq<(int, bool)>| #[trigger] spec_cuts_describe(
        strip_adjusts(children),
        line_boxes(lines),
        cuts,
    ))
}

/// Splits a paragraph's horizontal list into lines, first-fit and without
/// backtracking. Breaks are legal at a penalty below the inhibiting
/// threshold, at a discretionary, and at glue following a non-discardable
/// node; a penalty at or below the forcing threshold breaks at once. The
/// line is cut at the last legal break that still fits the line's target
/// width — or at the overflowing break when none fits — and the node
/// broken at is discarded. Adjusted vertical material passes through as
/// adjustment items after the line it occurred on, and every character
/// entering the splitter comes out on exactly one line.
#[verifier::rlimit(100)]
pub fn split_paragraph_roughly(
    specs: &Vec<ParLineSpec>,
    children: Vec<HNode>,
    sref: SourceRef,
) -> (r: Vec<ParLine>)
    requires
        specs@.len() >= 1,
    ensures
        spec_splitter_ok(children@, specs@, r@),
{
    let ghost all = children@;
    let mut out: Vec<ParLine> = Vec::new();
    let mut cur: Vec<HNode> = Vec::new();
    let mut pending: Vec<VNode> = Vec::new();
    let mut cur_w: i32 = 0;
    let mut line_no: usize = 0;
    let mut brk: usize = 0;
    let mut have_brk = false;
    let mut rest = children;
    let total: usize = rest.len();
    let mut i: usize = 0;
    let ghost mut cuts: Seq<(int, bool)> = Seq::empty();
    let ghost mut done: int = 0;
    let ghost mut stripped: Seq<HNode> = Seq::empty();
    let ghost mut boxes: Seq<TeXBox> = Seq::empty();
    proof {
        assert(rest@ =~= all.skip(0));
        assert(all.take(0) =~= Seq::<HNode>::empty());
        assert(count_vadjust_material(all.take(0)) == 0);
        assert(count_chars(all.take(0)) == 0);
        assert(strip_adjusts(all.take(0)) =~= Seq::<HNode>::empty());
        assert(line_boxes(out@).len() == 0);
        assert(line_boxes(out@) =~= Seq::<TeXBox>::empty());
        assert(cur@ =~= strip_adjusts(all.take(0)).skip(0));
        lemma_cut_facts_empty();
        assert(stripped =~= Seq::<HNode>::empty());
        assert(boxes =~= Seq::<TeXBox>::empty());
        assert(cuts =~= Seq::<(int, bool)>::empty());
    }
    while rest.len() > 0
        invariant
            specs@.len() >= 1,
            all.len() == total,
            i + rest@.len() == all.len(),
            rest@ == all.skip(i as int),
            count_adjust_items(out@) + pending@.len() == count_vadjust_material(all.take(i as int)),
            count_vadjust_material(cur@) == 0,
            count_out_chars(out@) + count_chars(cur@) == count_chars(all.take(i as int)),
            count_lines(out@) == line_no,
            out@.len() > 0 ==> count_lines(out@) >= 1,
            line_no <= i,
            have_brk ==> brk < cur@.len() && (match cur@[brk as int] {
                HNode::Penalty { .. } => true,
                HNode::Space { .. } => true,
                HNode::Discretionary => true,
                _ => false,
            }),
            no_h_breaks(strip_adjusts(all)) ==> out@.len() == 0 && !have_brk && cur@
                == strip_adjusts(all.take(i as int)),
            stripped == strip_adjusts(all.take(i as int)),
            boxes == line_boxes(out@),
            spec_cut_facts(stripped, boxes, cuts),
            done == spec_cut_start(cuts, cuts.len() as int),
            0 <= done <= stripped.len(),
            done + cur@.len() == stripped.len(),
            cur@ == stripped.skip(done),
            have_brk ==> spec_h_break_at(stripped, done + (brk as int)),
            forall|k: int|
                0 <= k < out@.len() ==> ((#[trigger] out@[k]) matches ParLine::Line(b)
                    ==> spec_line_box_wf(b)),
        decreases rest@.len(),
    {
        let node = rest.remove(0);
        proof {
            assert(all.skip(i as int)[0] == all[i as int]);
            assert(all.skip(i as int).remove(0) =~= all.skip(i as int + 1));
            assert(all.take(i as int + 1).drop_last() =~= all.take(i as int));
            assert(all.take(i as int + 1).last() == all[i as int]);
            if all[i as int] is VAdjust {
                assert(strip_adjusts(all.take(i as int + 1)) == strip_adjusts(
                    all.take(i as int),
                ));
            } else {
                assert(strip_adjusts(all.take(i as int + 1)) == strip_adjusts(
                    all.take(i as int),
                ).push(all[i as int]));
                stripped = stripped.push(all[i as int]);
            }
        }
        match node {
            HNode::VAdjust { children: adj } => {
                // adjusted material is queued and emitted after the line
                // it occurs on
                let mut aj = adj;
                let ghost aj0 = aj@;
                let atotal: usize = aj.len();
                let mut j: usize = 0;
                let ghost pend0 = pending@;
                proof {
                    assert(aj@ =~= aj0.skip(0));
                }
                while aj.len() > 0
                    invariant
                        aj0.len() == atotal,
                        j + aj@.len() == aj0.len(),
                        aj@ == aj0.skip(j as int),
                        pending@.len() == pend0.len() + j,
                    decreases aj@.len(),
                {
                    let a = aj.remove(0);
                    proof {
                        assert(aj0.skip(j as int).remove(0) =~= aj0.skip(j as int + 1));
                    }
                    pending.push(a);
                    j = j + 1;
                }
            },
            HNode::Penalty { penalty } => {
                if penalty <= -10000 {
                    // forced break: emit the current line, dropping the
                    // penalty
                    let ghost so = strip_adjusts(all.take(i as int));
                    let ghost sn = strip_adjusts(all.take(i as int + 1));
                    let ghost q = done + cur@.len();
                    let ghost cur_pre = cur@;
                    let ghost boxes0 = boxes;
                    let ghost cuts0 = cuts;
                    let ghost done0 = done;
                    proof {
                        if no_h_breaks(strip_adjusts(all)) {
                            lemma_strip_take_prefix(all, i as int + 1);
                            let stripped_i = strip_adjusts(all.take(i as int));
                            let p = stripped_i.len() as int;
                            assert(cur@ == stripped_i);
                            assert(strip_adjusts(all).take(p + 1) == stripped_i.push(
                                all[i as int],
                            ));
                            assert(p + 1 <= strip_adjusts(all).len());
                            assert(strip_adjusts(all)[p] == all[i as int]) by {
                                assert(strip_adjusts(all).take(p + 1)[p] == strip_adjusts(all)[p]);
                                assert(stripped_i.push(all[i as int])[p] == all[i as int]);
                            };
                            assert(spec_h_break_at(strip_adjusts(all), p));
                            assert(false);
                        }
                    }
                    let spec_idx = if line_no < specs.len() {
                        line_no
                    } else {
                        specs.len() - 1
                    };
                    let bx = make_line_box(cur, &specs[spec_idx], sref);
                    let ghost gbx = bx;
                    let ghost outp = out@;
                    out.push(ParLine::Line(bx));
                    proof {
                        assert(out@.drop_last() =~= outp);
                        assert(line_boxes(out@) == boxes0.push(gbx));
                    }
                    line_no = line_no + 1;
                    let mut k: usize = 0;
                    let ghost outm = out@;
                    let ghost pendm = pending@;
                    let pt: usize = pending.len();
                    proof {
                        assert(pendm.skip(0) =~= pendm);
                    }
                    while pending.len() > 0
                        invariant
                            !no_h_breaks(strip_adjusts(all)),
                            line_boxes(out@) == line_boxes(outm),
                            pendm.len() == pt,
                            k + pending@.len() == pendm.len(),
                            pending@ == pendm.skip(k as int),
                            out@.len() == outm.len() + k,
                            count_adjust_items(out@) == count_adjust_items(outm) + k,
                            count_out_chars(out@) == count_out_chars(outm),
                            count_lines(out@) == count_lines(outm),
                            count_lines(outm) >= 1,
                            forall|q: int|
                                0 <= q < out@.len() ==> ((#[trigger] out@[q]) matches ParLine::Line(
                                    b,
                                ) ==> spec_line_box_wf(b)),
                        decreases pending@.len(),
                    {
                        let a = pending.remove(0);
                        let ghost outp = out@;
                        proof {
                            assert(pendm.skip(k as int).remove(0) =~= pendm.skip(k as int + 1));
                        }
                        out.push(ParLine::Adjust(a));
                        proof {
                            assert(out@.drop_last() =~= outp);
                        }
                        k = k + 1;
                    }
                    cur = Vec::new();
                    cur_w = 0;
                    have_brk = false;
                    proof {
                        assert(sn == so.push(all[i as int]));
                        assert(q == so.len());
                        assert(sn[q] == all[i as int]);
                        assert(spec_h_break_at(sn, q));
                        assert(line_content(gbx) =~= cur_pre);
                        assert(cur_pre =~= sn.subrange(done0, q)) by {
                            assert(so.skip(done0) =~= sn.subrange(done0, q));
                        };
                        lemma_cut_facts_cut(so, all[i as int], boxes0, cuts0, gbx, q);
                        cuts = cuts0.push((q, true));
                        done = q + 1;
                        boxes = boxes0.push(gbx);
                        assert(line_boxes(out@) == boxes0.push(gbx));
                        assert(cur@ =~= sn.skip(done));
                    }
                } else {
                    // a modest penalty is a legal break point and stays in
                    // the list until a break chooses it
                    if penalty < 10000 {
                        proof {
                            if no_h_breaks(strip_adjusts(all)) {
                                lemma_strip_take_prefix(all, i as int + 1);
                                let stripped_i = strip_adjusts(all.take(i as int));
                                let p = stripped_i.len() as int;
                                assert(cur@ == stripped_i);
                                assert(strip_adjusts(all).take(p + 1) == stripped_i.push(
                                    all[i as int],
                                ));
                                assert(p + 1 <= strip_adjusts(all).len());
                                assert(strip_adjusts(all)[p] == all[i as int]) by {
                                    assert(strip_adjusts(all).take(p + 1)[p] == strip_adjusts(all)[p]);
                                    assert(stripped_i.push(all[i as int])[p] == all[i as int]);
                                };
                                assert(spec_h_break_at(strip_adjusts(all), p));
                                assert(false);
                        }
                    }
                        brk = cur.len();
                        have_brk = true;
                    }
                    let ghost curp = cur@;
                    let ghost brk_set = penalty < 10000;
                    cur.push(HNode::Penalty { penalty });
                    proof {
                        assert(cur@.drop_last() =~= curp);
                        let so = strip_adjusts(all.take(i as int));
                        let sn = strip_adjusts(all.take(i as int + 1));
                        assert(sn == so.push(all[i as int]));
                        lemma_cut_facts_push(so, all[i as int], boxes, cuts);
                        assert(cur@ =~= sn.skip(done)) by {
                            assert(so.skip(done).push(all[i as int]) =~= sn.skip(done));
                        };
                        if have_brk {
                            if brk_set {
                                assert(done + (brk as int) == so.len());
                                assert(sn[done + (brk as int)] == all[i as int]);
                                assert(spec_h_break_at(sn, done + (brk as int)));
                            } else {
                                assert(done + (brk as int) < so.len());
                                lemma_break_at_push(so, all[i as int], done + (brk as int));
                            }
                        }
                    }
                }
            },
            HNode::Discretionary => {
                proof {
                    if no_h_breaks(strip_adjusts(all)) {
                        lemma_strip_take_prefix(all, i as int + 1);
                        let stripped_i = strip_adjusts(all.take(i as int));
                        let p = stripped_i.len() as int;
                        assert(cur@ == stripped_i);
                        assert(strip_adjusts(all).take(p + 1) == stripped_i.push(
                            all[i as int],
                        ));
                        assert(p + 1 <= strip_adjusts(all).len());
                        assert(strip_adjusts(all)[p] == all[i as int]) by {
                            assert(strip_adjusts(all).take(p + 1)[p] == strip_adjusts(all)[p]);
                            assert(stripped_i.push(all[i as int])[p] == all[i as int]);
                        };
                        assert(spec_h_break_at(strip_adjusts(all), p));
                        assert(false);
                    }
                }
                brk = cur.len();
                have_brk = true;
                let ghost curp = cur@;
                cur.push(HNode::Discretionary);
                proof {
                    assert(cur@.drop_last() =~= curp);
                    let so = strip_adjusts(all.take(i as int));
                    let sn = strip_adjusts(all.take(i as int + 1));
                    assert(sn == so.push(all[i as int]));
                    lemma_cut_facts_push(so, all[i as int], boxes, cuts);
                    assert(cur@ =~= sn.skip(done)) by {
                        assert(so.skip(done).push(all[i as int]) =~= sn.skip(done));
                    };
                    assert(done + (brk as int) == so.len());
                    assert(sn[done + (brk as int)] == all[i as int]);
                    assert(spec_h_break_at(sn, done + (brk as int)));
                }
            },
            node => {
                let is_glue = matches!(&node, HNode::Space { .. });
                let glue_breaks_here: bool = if is_glue && cur.len() > 0 {
                    match &cur[cur.len() - 1] {
                        HNode::Space { .. } => false,
                        HNode::Kern { .. } => false,
                        HNode::Penalty { .. } => false,
                        HNode::MathOn => false,
                        HNode::MathOff => false,
                        HNode::Discretionary => false,
                        _ => true,
                    }
                } else {
                    false
                };
                proof {
                    if glue_breaks_here && no_h_breaks(strip_adjusts(all)) {
                        lemma_strip_take_prefix(all, i as int + 1);
                        let stripped_i = strip_adjusts(all.take(i as int));
                        let p = stripped_i.len() as int;
                        assert(cur@ == stripped_i);
                        assert(strip_adjusts(all).take(p + 1) == stripped_i.push(all[i as int]));
                        assert(p + 1 <= strip_adjusts(all).len());
                        assert(strip_adjusts(all)[p] == all[i as int]) by {
                            assert(strip_adjusts(all).take(p + 1)[p] == strip_adjusts(all)[p]);
                            assert(stripped_i.push(all[i as int])[p] == all[i as int]);
                        };
                        assert(p > 0);
                        assert(strip_adjusts(all)[p - 1] == cur@[p - 1]) by {
                            assert(strip_adjusts(all).take(p + 1)[p - 1] == strip_adjusts(all)[p
                                - 1]);
                            assert(stripped_i.push(all[i as int])[p - 1] == stripped_i[p - 1]);
                        };
                        assert(cur@[p - 1] == cur@.last());
                        assert(!spec_hnode_discardable(cur@.last()));
                        assert(spec_h_break_at(strip_adjusts(all), p));
                        assert(false);
                    }
                }
                let w = hnode_width(&node);
                let would = dim_add(cur_w, w);
                let spec_idx = if line_no < specs.len() {
                    line_no
                } else {
                    specs.len() - 1
                };
                let target = specs[spec_idx].target;
                if would > target && glue_breaks_here {
                    // the arriving glue is itself the latest legal break:
                    // the whole current content becomes the line and the
                    // glue is discarded
                    let ghost so = strip_adjusts(all.take(i as int));
                    let ghost sn = strip_adjusts(all.take(i as int + 1));
                    let ghost q = done + cur@.len();
                    let ghost cur_pre = cur@;
                    let ghost boxes0 = boxes;
                    let ghost cuts0 = cuts;
                    let ghost done0 = done;
                    let bx = make_line_box(cur, &specs[spec_idx], sref);
                    let ghost gbx = bx;
                    let ghost outp = out@;
                    out.push(ParLine::Line(bx));
                    proof {
                        assert(out@.drop_last() =~= outp);
                        assert(line_boxes(out@) == boxes0.push(gbx));
                    }
                    line_no = line_no + 1;
                    let mut k: usize = 0;
                    let ghost outm = out@;
                    let ghost pendm = pending@;
                    let pt: usize = pending.len();
                    proof {
                        assert(pendm.skip(0) =~= pendm);
                    }
                    while pending.len() > 0
                        invariant
                            !no_h_breaks(strip_adjusts(all)),
                            line_boxes(out@) == line_boxes(outm),
                            pendm.len() == pt,
                            k + pending@.len() == pendm.len(),
                            pending@ == pendm.skip(k as int),
                            out@.len() == outm.len() + k,
                            count_adjust_items(out@) == count_adjust_items(outm) + k,
                            count_out_chars(out@) == count_out_chars(outm),
                            count_lines(out@) == count_lines(outm),
                            count_lines(outm) >= 1,
                            forall|q: int|
                                0 <= q < out@.len() ==> ((#[trigger] out@[q]) matches ParLine::Line(
                                    b,
                                ) ==> spec_line_box_wf(b)),
                        decreases pending@.len(),
                    {
                        let a = pending.remove(0);
                        let ghost outp2 = out@;
                        proof {
                            assert(pendm.skip(k as int).remove(0) =~= pendm.skip(k as int + 1));
                        }
                        out.push(ParLine::Adjust(a));
                        proof {
                            assert(out@.drop_last() =~= outp2);
                        }
                        k = k + 1;
                    }
                    cur = Vec::new();
                    cur_w = 0;
                    have_brk = false;
                    proof {
                        assert(sn == so.push(all[i as int]));
                        assert(q == so.len());
                        assert(sn[q] == all[i as int]);
                        assert(cur_pre.len() > 0);
                        assert(sn[q - 1] == so[q - 1]);
                        assert(so[q - 1] == cur_pre.last()) by {
                            assert(so.skip(done0)[cur_pre.len() - 1] == so[q - 1]);
                        };
                        assert(!spec_hnode_discardable(cur_pre.last()));
                        assert(spec_h_break_at(sn, q));
                        assert(line_content(gbx) =~= cur_pre);
                        assert(cur_pre =~= sn.subrange(done0, q)) by {
                            assert(so.skip(done0) =~= sn.subrange(done0, q));
                        };
                        lemma_cut_facts_cut(so, all[i as int], boxes0, cuts0, gbx, q);
                        cuts = cuts0.push((q, true));
                        done = q + 1;
                        boxes = boxes0.push(gbx);
                        assert(line_boxes(out@) == boxes0.push(gbx));
                        assert(cur@ =~= sn.skip(done));
                    }
                } else if would > target && have_brk {
                    // cut at the last legal break; the break node is
                    // discarded
                    proof {
                        if no_h_breaks(strip_adjusts(all)) {
                            assert(!have_brk);
                            assert(false);
                        }
                    }
                    let ghost so = strip_adjusts(all.take(i as int));
                    let ghost sn = strip_adjusts(all.take(i as int + 1));
                    let ghost q = done + (brk as int);
                    let ghost boxes0 = boxes;
                    let ghost cuts0 = cuts;
                    let ghost done0 = done;
                    let ghost curg = cur@;
                    let mut tail = cur.split_off(brk);
                    proof {
                        lemma_count_vadjust_split(curg, brk as int);
                        lemma_count_vadjust_nonneg(curg.take(brk as int));
                        lemma_count_vadjust_nonneg(curg.skip(brk as int));
                        lemma_count_chars_split(curg, brk as int);
                    }
                    let bx = make_line_box(cur, &specs[spec_idx], sref);
                    let ghost gbx = bx;
                    let ghost outp = out@;
                    out.push(ParLine::Line(bx));
                    proof {
                        assert(out@.drop_last() =~= outp);
                        assert(line_boxes(out@) == boxes0.push(gbx));
                    }
                    line_no = line_no + 1;
                    let mut k: usize = 0;
                    let ghost outm = out@;
                    let ghost pendm = pending@;
                    let pt: usize = pending.len();
                    proof {
                        assert(pendm.skip(0) =~= pendm);
                    }
                    while pending.len() > 0
                        invariant
                            !no_h_breaks(strip_adjusts(all)),
                            line_boxes(out@) == line_boxes(outm),
                            pendm.len() == pt,
                            k + pending@.len() == pendm.len(),
                            pending@ == pendm.skip(k as int),
                            out@.len() == outm.len() + k,
                            count_adjust_items(out@) == count_adjust_items(outm) + k,
                            count_out_chars(out@) == count_out_chars(outm),
                            count_lines(out@) == count_lines(outm),
                            count_lines(outm) >= 1,
                            forall|q: int|
                                0 <= q < out@.len() ==> ((#[trigger] out@[q]) matches ParLine::Line(
                                    b,
                                ) ==> spec_line_box_wf(b)),
                        decreases pending@.len(),
                    {
                        let a = pending.remove(0);
                        let ghost outp = out@;
                        proof {
                            assert(pendm.skip(k as int).remove(0) =~= pendm.skip(k as int + 1));
                        }
                        out.push(ParLine::Adjust(a));
                        proof {
                            assert(out@.drop_last() =~= outp);
                        }
                        k = k + 1;
                    }
                    // the break node is dropped; the remainder plus the
                    // arriving node start the next line
                    let ghost tail0 = tail@;
                    proof {
                        assert(tail0 =~= curg.skip(brk as int));
                        assert(count_vadjust_material(tail0) == 0);
                        lemma_count_vadjust_split(tail0, 1);
                        lemma_count_vadjust_nonneg(tail0.take(1));
                        lemma_count_vadjust_nonneg(tail0.skip(1));
                        lemma_count_chars_split(tail0, 1);
                        assert(tail0[0] == curg[brk as int]);
                        assert(tail0.take(1) =~= seq![tail0[0]]);
                        assert(count_chars(Seq::<HNode>::empty()) == 0);
                        assert(seq![tail0[0]].drop_last() =~= Seq::<HNode>::empty());
                        assert(seq![tail0[0]].last() == tail0[0]);
                        assert(count_chars(tail0.take(1)) == 0);
                    }
                    tail.remove(0);
                    proof {
                        assert(tail0.skip(1) =~= tail0.remove(0));
                        assert(count_vadjust_material(tail@) == 0);
                        assert(count_chars(tail@) == count_chars(tail0));
                    }
                    let ghost tailr = tail@;
                    tail.push(node);
                    proof {
                        assert(tail@.drop_last() =~= tailr);
                        assert(count_vadjust_material(tail@) == 0);
                    }
                    cur = tail;
                    let (nw, _nh, _nd) = hlist_natural(&cur);
                    cur_w = nw;
                    have_brk = false;
                    proof {
                        assert(sn == so.push(all[i as int]));
                        assert(q < so.len());
                        assert(spec_h_break_at(so, q));
                        lemma_break_at_push(so, all[i as int], q);
                        assert(spec_h_break_at(sn, q));
                        assert(!is_forcing_h(all[i as int]));
                        assert(line_content(gbx) =~= curg.subrange(0, brk as int));
                        assert(curg.subrange(0, brk as int) =~= sn.subrange(done0, q)) by {
                            assert(curg =~= so.skip(done0));
                            assert(sn.subrange(done0, q) =~= so.subrange(done0, q));
                        };
                        lemma_cut_facts_cut(so, all[i as int], boxes0, cuts0, gbx, q);
                        cuts = cuts0.push((q, true));
                        done = q + 1;
                        boxes = boxes0.push(gbx);
                        assert(line_boxes(out@) == boxes0.push(gbx));
                        assert(cur@ =~= sn.skip(done)) by {
                            assert(curg.skip(brk as int).remove(0) =~= so.skip(q + 1)) by {
                                assert(curg.skip(brk as int) =~= so.skip(q));
                                assert(so.skip(q).remove(0) =~= so.skip(q + 1));
                            };
                            assert(sn.skip(q + 1) =~= so.skip(q + 1).push(all[i as int]));
                        };
                    }
                } else {
                    if glue_breaks_here {
                        brk = cur.len();
                        have_brk = true;
                    }
                    let ghost curp = cur@;
                    let ghost glue_set = glue_breaks_here;
                    cur.push(node);
                    proof {
                        assert(cur@.drop_last() =~= curp);
                        let so = strip_adjusts(all.take(i as int));
                        let sn = strip_adjusts(all.take(i as int + 1));
                        assert(sn == so.push(all[i as int]));
                        lemma_cut_facts_push(so, all[i as int], boxes, cuts);
                        assert(cur@ =~= sn.skip(done)) by {
                            assert(so.skip(done).push(all[i as int]) =~= sn.skip(done));
                        };
                        if have_brk {
                            if glue_set {
                                assert(done + (brk as int) == so.len());
                                assert(sn[done + (brk as int)] == all[i as int]);
                                assert(curp.len() > 0);
                                assert(sn[done + (brk as int) - 1] == so[done + (brk as int) - 1]);
                                assert(so[done + (brk as int) - 1] == curp.last()) by {
                                    assert(so.skip(done)[curp.len() - 1] == so[done + (brk as int)
                                        - 1]);
                                };
                                assert(!spec_hnode_discardable(curp.last()));
                                assert(spec_h_break_at(sn, done + (brk as int)));
                            } else {
                                assert(done + (brk as int) < so.len());
                                lemma_break_at_push(so, all[i as int], done + (brk as int));
                            }
                        }
                    }
                    cur_w = would;
                }
            },
        }
        i = i + 1;
    }
    proof {
        assert(all.take(all.len() as int) =~= all);
    }
    // the material left over becomes the final line; a paragraph always
    // produces at least one line
    let ghost cur_final = cur@;
    let ghost strip_all = strip_adjusts(all);
    let ghost boxes_f = line_boxes(out@);
    let ghost cuts_f = cuts;
    let ghost done_f = done;
    if cur.len() > 0 || out.len() == 0 {
        let spec_idx = if line_no < specs.len() {
            line_no
        } else {
            specs.len() - 1
        };
        let bx = make_line_box(cur, &specs[spec_idx], sref);
        let ghost gbx = bx;
        let ghost outp = out@;
        out.push(ParLine::Line(bx));
        proof {
            assert(out@.drop_last() =~= outp);
            if no_h_breaks(strip_adjusts(all)) {
                assert(cur_final == strip_adjusts(all));
                assert(line_content(bx) =~= cur_final);
                assert(count_lines(out@) == 1);
                assert(spec_idx == 0);
                assert(bx->H_children@ == seq![HNode::Space { skip: specs@[0].leftskip }]
                    + strip_adjusts(all) + seq![HNode::Space { skip: specs@[0].rightskip }]);
            }
            // record the final, non-discarding cut at the end of the input
            let q = strip_all.len() as int;
            assert(line_boxes(out@) == boxes_f.push(gbx));
            assert(line_content(gbx) =~= cur_final);
            assert(cur_final =~= strip_all.subrange(done_f, q));
            lemma_cut_facts_final(strip_all, boxes_f, cuts_f, gbx);
            cuts = cuts_f.push((q, false));
            done = q;
            assert(spec_cuts_describe(strip_all, line_boxes(out@), cuts));
        }
    } else {
        proof {
            // nothing left over: the recorded cuts already cover the input
            assert(done_f == strip_all.len());
            lemma_cut_facts_complete(strip_all, boxes_f, cuts_f);
            assert(spec_cuts_describe(strip_all, line_boxes(out@), cuts));
        }
    }
    let mut k: usize = 0;
    let ghost outm = out@;
    let ghost pendm = pending@;
    let pt: usize = pending.len();
    proof {
        assert(pendm.skip(0) =~= pendm);
    }
    while pending.len() > 0
        invariant
            line_boxes(out@) == line_boxes(outm),
            spec_cuts_describe(strip_adjusts(all), line_boxes(outm), cuts),
            pendm.len() == pt,
            k + pending@.len() == pendm.len(),
            pending@ == pendm.skip(k as int),
            out@.len() == outm.len() + k,
            count_adjust_items(out@) == count_adjust_items(outm) + k,
            count_out_chars(out@) == count_out_chars(outm),
            count_lines(out@) == count_lines(outm),
            count_lines(outm) >= 1,
            no_h_breaks(strip_adjusts(all)) ==> count_lines(out@) == 1 && (forall|q: int|
                0 <= q < out@.len() ==> ((#[trigger] out@[q]) matches ParLine::Line(b)
                    ==> b->H_children@ == seq![HNode::Space { skip: specs@[0].leftskip }]
                    + strip_adjusts(all) + seq![HNode::Space { skip: specs@[0].rightskip }])),
            forall|q: int|
                0 <= q < out@.len() ==> ((#[trigger] out@[q]) matches ParLine::Line(b)
                    ==> spec_line_box_wf(b)),
        decreases pending@.len(),
    {
        let a = pending.remove(0);
        let ghost outp = out@;
        proof {
            assert(pendm.skip(k as int).remove(0) =~= pendm.skip(k as int + 1));
        }
        out.push(ParLine::Adjust(a));
        proof {
            assert(out@.drop_last() =~= outp);
        }
        k = k + 1;
    }
    proof {
        assert(spec_cuts_describe(strip_adjusts(children@), line_boxes(out@), cuts));
    }
    out
}


// ------------------------------------------------------------------
// Appending the produced lines to the enclosing vertical material.
// ------------------------------------------------------------------

/// The vertical nodes one splitter item contributes: an adjustment passes
/// through as itself; a line is its box, preceded by the interline glue
/// due after the previous depth.
pub open spec fn spec_line_nodes(l: ParLine, prevdepth: int, ls: LineSkipParams) -> Seq<VNode> {
    match l {
        ParLine::Adjust(n) => seq![n],
        ParLine::Line(bx) => match spec_line_glue(ls, prevdepth, bx.spec_height()) {
            Some(g) => seq![VNode::VSkip { skip: g }, VNode::Box(bx)],
            None => seq![VNode::Box(bx)],
        },
    }
}

/// The previous depth after one splitter item: a line leaves its own
/// depth, an adjustment leaves it untouched.
pub open spec fn spec_prevdepth_next(l: ParLine, prevdepth: int) -> int {
    match l {
        ParLine::Adjust(..) => prevdepth,
        ParLine::Line(bx) => bx.spec_depth(),
    }
}

/// The previous depth after a run of splitter items.
pub open spec fn prevdepth_after(lines: Seq<ParLine>, pd0: int) -> int
    decreases lines.len(),
{
    if lines.len() == 0 {
        pd0
    } else {
        spec_prevdepth_next(lines.last(), prevdepth_after(lines.drop_last(), pd0))
    }
}

/// Everything a run of splitter items contributes to the vertical list,
/// with the previous depth threaded through the interline glue.
pub open spec fn par_contribution(lines: Seq<ParLine>, pd0: int, ls: LineSkipParams) -> Seq<VNode>
    decreases lines.len(),
{
    if lines.len() == 0 {
        Seq::empty()
    } else {
        par_contribution(lines.drop_last(), pd0, ls) + spec_line_nodes(
            lines.last(),
            prevdepth_after(lines.drop_last(), pd0),
            ls,
        )
    }
}

pub proof fn lemma_count_lines_nonneg(s: Seq<ParLine>)
    ensures
        count_lines(s) >= 0,
    decreases s.len(),
{
    if s.len() > 0 {
        lemma_count_lines_nonneg(s.drop_last());
    }
}


/// Pushing one node extends the page part and the insertion part in the
/// expected way.
pub proof fn lemma_vpart_push(s: Seq<VNode>, x: VNode)
    ensures
        page_part(s.push(x)) == (match x {
            VNode::Insertion { .. } => page_part(s),
            _ => page_part(s).push(x),
        }),
        inserts_part(s.push(x)) == (match x {
            VNode::Insertion { class, children } => inserts_part(s).push((class, children)),
            _ => inserts_part(s),
        }),
{
    assert(s.push(x).drop_last() =~= s);
    assert(s.push(x).last() == x);
}

pub proof fn lemma_vpart_empty()
    ensures
        page_part(Seq::<VNode>::empty()) == Seq::<VNode>::empty(),
        inserts_part(Seq::<VNode>::empty()) == Seq::<(usize, Vec<VNode>)>::empty(),
{
}

/// The paragraph skip the builder prepends when it is not zero.
pub open spec fn spec_parskip_part(parskip: Skip) -> Seq<VNode> {
    if parskip == Skip::spec_zero() {
        Seq::empty()
    } else {
        seq![VNode::VSkip { skip: parskip }]
    }
}

/// How a split paragraph lands: the lines and adjustments, preceded by the
/// paragraph skip, joined to the vertical material that `stack0` (the
/// stack after the paragraph frame is gone) designates — the innermost
/// vertical frame, or the page with insertions routed aside. The previous
/// depth follows the last line, the paragraph's line count joins
/// `prevgraf` (which saturates), and the page totals move as the page
/// builder dictates.
pub open spec fn spec_lines_appended(
    a: StomachData,
    stack0: Seq<NodeList>,
    b: StomachData,
    lines: Seq<ParLine>,
    ls: LineSkipParams,
    pre: Seq<VNode>,
    fire: bool,
) -> bool {
    let added = pre + par_contribution(lines, a.prevdepth as int, ls);
    &&& b.prevdepth as int == prevdepth_after(lines, a.prevdepth as int)
    &&& b.prevgraf as int == (if a.prevgraf as int + count_lines(lines) > 65535 {
        65535int
    } else {
        a.prevgraf as int + count_lines(lines)
    })
    &&& b.spacefactor == a.spacefactor
    &&& eq_marks(a, b)
    &&& eq_output_state(a, b)
    &&& b.lastpenalty == a.lastpenalty
    &&& b.vadjusts == a.vadjusts
    &&& if stack0.len() == 0 {
        &&& b.open_lists@.len() == 0
        &&& b.page@ == a.page@ + page_part(added)
        &&& b.inserts@ == a.inserts@ + inserts_part(added)
        &&& b.pagegoal == a.pagegoal
        &&& fire == spec_output_trigger(b, false)
    } else {
        &&& b.open_lists@.len() == stack0.len()
        &&& (forall|i: int| 0 <= i < stack0.len() - 1 ==> b.open_lists@[i] == stack0[i])
        &&& b.open_lists@.last() is Vertical
        &&& b.open_lists@.last().v_tp() == stack0.last().v_tp()
        &&& b.open_lists@.last().v_children() == stack0.last().v_children() + added
        &&& b.page == a.page
        &&& eq_page_dims(a, b)
        &&& b.inserts == a.inserts
        &&& b.page_contains_boxes == a.page_contains_boxes
        &&& !fire
    }
}

/// Splits a paragraph's collected horizontal list into lines and adds them
/// — each preceded by its interline glue, adjustments interleaved — to the
/// enclosing vertical material, preceded by the paragraph skip when that
/// is not zero. An empty paragraph contributes nothing.
pub fn split_paragraph(
    data: &mut StomachData,
    specs: &Vec<ParLineSpec>,
    children: Vec<HNode>,
    start_ref: SourceRef,
    parskip: Skip,
    ls: LineSkipParams,
) -> (fire: bool)
    requires
        vertical_receptive(old(data).open_lists@),
        specs@.len() >= 1,
    ensures
        children@.len() == 0 ==> *final(data) == *old(data) && !fire,
        children@.len() > 0 ==> exists|lines: Seq<ParLine>|
            #[trigger] spec_splitter_ok(children@, specs@, lines) && spec_lines_appended(
                *old(data),
                old(data).open_lists@,
                *final(data),
                lines,
                ls,
                spec_parskip_part(parskip),
                fire,
            ),
{
    if children.len() == 0 {
        return false;
    }
    let ghost d0 = *old(data);
    let ghost stack0 = old(data).open_lists@;
    let ghost pre = spec_parskip_part(parskip);
    let ghost pd0 = d0.prevdepth as int;
    if !(parskip == Skip::zero()) {
        add_node_v(data, VNode::VSkip { skip: parskip });
    }
    proof {
        lemma_vpart_empty();
        assert(pre + par_contribution(Seq::empty(), pd0, ls) =~= pre);
        if !(parskip == Skip::spec_zero()) {
            assert(pre =~= Seq::<VNode>::empty().push(VNode::VSkip { skip: parskip }));
            lemma_vpart_push(Seq::<VNode>::empty(), VNode::VSkip { skip: parskip });
        }
        if stack0.len() == 0 {
            assert(data.page@ =~= d0.page@ + page_part(pre));
            assert(data.inserts@ =~= d0.inserts@ + inserts_part(pre));
        } else {
            assert(data.open_lists@.last().v_children() =~= stack0.last().v_children() + pre);
        }
    }
    let lines = split_paragraph_roughly(specs, children, start_ref);
    let ghost all = lines@;
    let mut rest = lines;
    let total: usize = rest.len();
    let mut i: usize = 0;
    proof {
        assert(rest@ =~= all.skip(0));
        assert(all.take(0) =~= Seq::<ParLine>::empty());
        lemma_count_lines_nonneg(all.take(0));
    }
    while rest.len() > 0
        invariant
            specs@.len() >= 1,
            all.len() == total,
            i + rest@.len() == all.len(),
            rest@ == all.skip(i as int),
            data.prevdepth as int == prevdepth_after(all.take(i as int), pd0),
            data.prevgraf as int == (if d0.prevgraf as int + count_lines(all.take(i as int))
                > 65535 {
                65535int
            } else {
                d0.prevgraf as int + count_lines(all.take(i as int))
            }),
            data.spacefactor == d0.spacefactor,
            eq_marks(d0, *data),
            eq_output_state(d0, *data),
            data.lastpenalty == d0.lastpenalty,
            data.vadjusts == d0.vadjusts,
            stack0.len() == 0 ==> {
                &&& data.open_lists@.len() == 0
                &&& data.page@ == d0.page@ + page_part(pre + par_contribution(
                    all.take(i as int),
                    pd0,
                    ls,
                ))
                &&& data.inserts@ == d0.inserts@ + inserts_part(pre + par_contribution(
                    all.take(i as int),
                    pd0,
                    ls,
                ))
                &&& data.pagegoal == d0.pagegoal
            },
            stack0.len() > 0 ==> {
                &&& data.open_lists@.len() == stack0.len()
                &&& (forall|k: int| 0 <= k < stack0.len() - 1 ==> data.open_lists@[k] == stack0[k])
                &&& data.open_lists@.last() is Vertical
                &&& data.open_lists@.last().v_tp() == stack0.last().v_tp()
                &&& data.open_lists@.last().v_children() == stack0.last().v_children() + (pre
                    + par_contribution(all.take(i as int), pd0, ls))
                &&& data.page == d0.page
                &&& eq_page_dims(d0, *data)
                &&& data.inserts == d0.inserts
                &&& data.page_contains_boxes == d0.page_contains_boxes
            },
        decreases rest@.len(),
    {
        let item = rest.remove(0);
        let ghost c_i = pre + par_contribution(all.take(i as int), pd0, ls);
        let ghost pd_i = prevdepth_after(all.take(i as int), pd0);
        proof {
            assert(all.skip(i as int)[0] == all[i as int]);
            assert(all.skip(i as int).remove(0) =~= all.skip(i as int + 1));
            assert(all.take(i as int + 1).drop_last() =~= all.take(i as int));
            assert(all.take(i as int + 1).last() == all[i as int]);
            lemma_count_lines_nonneg(all.take(i as int));
        }
        match item {
            ParLine::Adjust(n) => {
                let ghost gn = n;
                add_node_v(data, n);
                proof {
                    lemma_vpart_push(c_i, gn);
                    assert(c_i.push(gn) =~= pre + par_contribution(all.take(i as int + 1), pd0, ls));
                    if stack0.len() == 0 {
                        assert((d0.page@ + page_part(c_i)).push(gn) =~= d0.page@ + page_part(
                            c_i,
                        ).push(gn));
                        if gn is Insertion {
                            assert((d0.inserts@ + inserts_part(c_i)).push(
                                (gn->Insertion_class, gn->Insertion_children),
                            ) =~= d0.inserts@ + inserts_part(c_i).push(
                                (gn->Insertion_class, gn->Insertion_children),
                            ));
                        }
                    } else {
                        assert(stack0.last().v_children() + c_i.push(gn) =~= (stack0.last().v_children()
                            + c_i).push(gn));
                    }
                }
            },
            ParLine::Line(bx) => {
                let h = bx.height();
                let d = bx.depth();
                let glue = interline_glue(ls, data.prevdepth, h);
                let ghost gbx = bx;
                match glue {
                    Some(g) => {
                        add_node_v(data, VNode::VSkip { skip: g });
                        let ghost c_mid = c_i.push(VNode::VSkip { skip: g });
                        proof {
                            lemma_vpart_push(c_i, VNode::VSkip { skip: g });
                            if stack0.len() == 0 {
                                assert((d0.page@ + page_part(c_i)).push(VNode::VSkip { skip: g })
                                    =~= d0.page@ + page_part(c_mid));
                            } else {
                                assert(stack0.last().v_children() + c_mid =~= (stack0.last().v_children()
                                    + c_i).push(VNode::VSkip { skip: g }));
                            }
                        }
                        add_node_v(data, VNode::Box(bx));
                        proof {
                            lemma_vpart_push(c_mid, VNode::Box(gbx));
                            assert(c_mid.push(VNode::Box(gbx)) =~= pre + par_contribution(
                                all.take(i as int + 1),
                                pd0,
                                ls,
                            ));
                            if stack0.len() == 0 {
                                assert((d0.page@ + page_part(c_mid)).push(VNode::Box(gbx)) =~= d0.page@
                                    + page_part(c_mid.push(VNode::Box(gbx))));
                            } else {
                                assert(stack0.last().v_children() + c_mid.push(VNode::Box(gbx)) =~= (
                                stack0.last().v_children() + c_mid).push(VNode::Box(gbx)));
                            }
                        }
                    },
                    None => {
                        add_node_v(data, VNode::Box(bx));
                        proof {
                            lemma_vpart_push(c_i, VNode::Box(gbx));
                            assert(c_i.push(VNode::Box(gbx)) =~= pre + par_contribution(
                                all.take(i as int + 1),
                                pd0,
                                ls,
                            ));
                            if stack0.len() == 0 {
                                assert((d0.page@ + page_part(c_i)).push(VNode::Box(gbx)) =~= d0.page@
                                    + page_part(c_i.push(VNode::Box(gbx))));
                            } else {
                                assert(stack0.last().v_children() + c_i.push(VNode::Box(gbx)) =~= (
                                stack0.last().v_children() + c_i).push(VNode::Box(gbx)));
                            }
                        }
                    },
                }
                data.prevdepth = d;
                if data.prevgraf < 65535 {
                    data.prevgraf = data.prevgraf + 1;
                }
            },
        }
        i = i + 1;
    }
    proof {
        assert(all.take(all.len() as int) =~= all);
    }
    let fire: bool = if data.open_lists.len() == 0 {
        !data.in_output && data.page.len() > 0 && data.pagetotal >= data.pagegoal
    } else {
        false
    };
    proof {
        assert(spec_splitter_ok(children@, specs@, all));
        assert(spec_lines_appended(d0, stack0, *data, all, ls, pre, fire));
    }
    fire
}


// ------------------------------------------------------------------
// Opening and closing paragraphs.
// ------------------------------------------------------------------

/// The indentation box a paragraph starts with.
pub open spec fn is_par_indent_box(n: HNode, parindent: i32) -> bool {
    match n {
        HNode::Box(
            TeXBox::H { children, width, height, depth, kind: HBoxKind::ParIndent, .. },
        ) => children@.len() == 0 && width == parindent && height == 0 && depth == 0,
        _ => false,
    }
}

/// Opens a paragraph: resets the line count, pushes a paragraph frame
/// recording the current source reference, and decides the indentation
/// from the triggering token — an explicit indent or no-indent primitive
/// is consumed, any other trigger is requeued to be reprocessed in
/// horizontal mode and indents by default. The paragraph-start token list
/// is pushed in front of everything requeued.
pub fn open_paragraph(
    data: &mut StomachData,
    front: &mut TokenFront,
    token: Token,
    sref: SourceRef,
    parindent: i32,
    everypar: &Vec<Token>,
)
    ensures
        final(data).prevgraf == 0,
        final(data).open_lists@.len() == old(data).open_lists@.len() + 1,
        forall|i: int|
            0 <= i < old(data).open_lists@.len() ==> final(data).open_lists@[i] == old(
                data,
            ).open_lists@[i],
        final(data).open_lists@.last().h_tp() == Some(
            HorizontalListType::Paragraph { start: sref },
        ),
        (match token {
            Token::Primitive { prim: Primitive::Noindent } => final(data).open_lists@.last().h_children() =~= Seq::<HNode>::empty() && final(front)@ == everypar@
                + old(front)@,
            Token::Primitive { prim: Primitive::Indent } => final(data).open_lists@.last().h_children().len() == 1 && is_par_indent_box(
                final(data).open_lists@.last().h_children()[0],
                parindent,
            ) && final(front)@ == everypar@ + old(front)@,
            _ => final(data).open_lists@.last().h_children().len() == 1 && is_par_indent_box(
                final(data).open_lists@.last().h_children()[0],
                parindent,
            ) && final(front)@ == everypar@ + seq![token] + old(front)@,
        }),
        final(data).page == old(data).page,
        eq_page_dims(*old(data), *final(data)),
        eq_marks(*old(data), *final(data)),
        eq_output_state(*old(data), *final(data)),
        final(data).lastpenalty == old(data).lastpenalty,
        final(data).prevdepth == old(data).prevdepth,
        final(data).spacefactor == old(data).spacefactor,
        final(data).vadjusts == old(data).vadjusts,
        final(data).inserts == old(data).inserts,
        final(data).page_contains_boxes == old(data).page_contains_boxes,
{
    data.prevgraf = 0;
    let mut children: Vec<HNode> = Vec::new();
    let indent_box = HNode::Box(
        TeXBox::H {
            children: Vec::new(),
            width: parindent,
            height: 0,
            depth: 0,
            kind: HBoxKind::ParIndent,
            start: sref,
            end: sref,
        },
    );
    match token {
        Token::Primitive { prim: Primitive::Indent } => {
            children.push(indent_box);
        },
        Token::Primitive { prim: Primitive::Noindent } => {},
        other => {
            front.requeue(other);
            children.push(indent_box);
        },
    }
    front.push_list(everypar);
    data.open_lists.push(
        NodeList::Horizontal { tp: HorizontalListType::Paragraph { start: sref }, children },
    );
}

/// Whether the top of the stack is a paragraph frame, so that a close
/// matches it.
pub open spec fn spec_paragraph_on_top(stack: Seq<NodeList>) -> bool {
    stack.len() > 0 && (stack.last() matches NodeList::Horizontal {
        tp: HorizontalListType::Paragraph { .. },
        ..
    })
}

/// What closing a paragraph produced: the reset of the paragraph-shape
/// parameters owed when the paragraph was empty, and whether the page is
/// due for output.
#[derive(Debug)]
pub struct CloseParagraphResult {
    pub action: Option<StateAction>,
    pub fire: bool,
}

/// Closes a paragraph: pops the paragraph frame. An empty paragraph is
/// dropped silently, besides resetting the paragraph shape and the hanging
/// parameters (the returned action). Otherwise the collected list is split
/// into lines against the given specifications and contributed, after the
/// paragraph skip, to the enclosing vertical material. Closing without a
/// paragraph frame on top is the internal error and changes nothing.
pub fn close_paragraph(
    data: &mut StomachData,
    specs: &Vec<ParLineSpec>,
    parskip: Skip,
    ls: LineSkipParams,
) -> (r: Result<CloseParagraphResult, StomachError>)
    requires
        specs@.len() >= 1,
        spec_paragraph_on_top(old(data).open_lists@) ==> vertical_receptive(
            old(data).open_lists@.drop_last(),
        ),
    ensures
        !spec_paragraph_on_top(old(data).open_lists@) ==> r == Err::<
            CloseParagraphResult,
            StomachError,
        >(StomachError::InternalListMismatch) && *final(data) == *old(data),
        spec_paragraph_on_top(old(data).open_lists@) ==> r is Ok && ({
            let children = old(data).open_lists@.last().h_children();
            let stack0 = old(data).open_lists@.drop_last();
            if children.len() == 0 {
                &&& final(data).open_lists@ == stack0
                &&& eq_except_lists(*old(data), *final(data))
                &&& final(data).lastpenalty == old(data).lastpenalty
                &&& r->Ok_0.action == Some(StateAction::ResetParagraphShape)
                &&& !r->Ok_0.fire
            } else {
                &&& r->Ok_0.action is None
                &&& exists|lines: Seq<ParLine>|
                    #[trigger] spec_splitter_ok(children, specs@, lines) && spec_lines_appended(
                        *old(data),
                        stack0,
                        *final(data),
                        lines,
                        ls,
                        spec_parskip_part(parskip),
                        r->Ok_0.fire,
                    )
            }
        }),
{
    let n = data.open_lists.len();
    let accepts: bool = if n == 0 {
        false
    } else {
        matches!(
            &data.open_lists[n - 1],
            NodeList::Horizontal { tp: HorizontalListType::Paragraph { .. }, .. }
        )
    };
    proof {
        if n > 0 {
            assert(data.open_lists@.last() == data.open_lists@[n as int - 1]);
        }
    }
    if !accepts {
        return Err(StomachError::InternalListMismatch);
    }
    let frame = data.open_lists.pop().unwrap();
    match frame {
        NodeList::Horizontal { tp: HorizontalListType::Paragraph { start }, children } => {
            if children.len() == 0 {
                return Ok(
                    CloseParagraphResult {
                        action: Some(StateAction::ResetParagraphShape),
                        fire: false,
                    },
                );
            }
            let fire = split_paragraph(data, specs, children, start, parskip, ls);
            Ok(CloseParagraphResult { action: None, fire })
        },
        other => {
            proof {
                assert(false);
            }
            data.open_lists.push(other);
            Err(StomachError::InternalListMismatch)
        },
    }
}

} // verus!
