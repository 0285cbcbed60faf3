use vstd::prelude::*;
use crate::boxes::{spec_box_frame_pushed, spec_close_accepts, spec_closed_hbox, spec_closed_vbox, BoxInfo};
use crate::dims::Skip;
use crate::modes::{spec_math_mode, spec_mode, TeXMode};
use crate::nodes::{
    BoxType, HorizontalListType, MathListType, NodeList, SourceRef, ToOrSpread, VNode,
    VerticalListType,
};
use crate::paragraph::{
    count_lines, is_par_line_box, par_contribution, spec_line_glue, spec_line_nodes, LineSkipParams,
    ParLine,
};
use crate::stomach::{
    horizontal_receptive, lemma_math_mode_is_math, spec_output_trigger, StomachData, IGNORE_DEPTH,
};
use crate::assign::spec_aa_insert;
use crate::tokens::Token;

verus! {

/// Law: the mode is derived from the top of the open-list stack — an empty
/// stack is vertical mode; a paragraph frame is horizontal and any other
/// horizontal frame restricted horizontal; a vertical frame is internal
/// vertical; a math frame takes inline or display math from the nearest
/// enclosing top-level math frame.
pub proof fn lemma_mode_derivation(stack: Seq<NodeList>)
    ensures
        stack.len() == 0 ==> spec_mode(stack) == TeXMode::Vertical,
        stack.len() > 0 ==> (match stack.last() {
            NodeList::Horizontal { tp: HorizontalListType::Paragraph { .. }, .. } => spec_mode(
                stack,
            ) == TeXMode::Horizontal,
            NodeList::Horizontal { .. } => spec_mode(stack) == TeXMode::RestrictedHorizontal,
            NodeList::Vertical { .. } => spec_mode(stack) == TeXMode::InternalVertical,
            NodeList::Math { .. } => spec_mode(stack) == spec_math_mode(stack) && (spec_mode(stack)
                == TeXMode::InlineMath || spec_mode(stack) == TeXMode::DisplayMath),
        }),
        stack.len() > 0 ==> (match stack.last() {
            NodeList::Math { tp: MathListType::Top { display }, .. } => spec_mode(stack) == (
            if display {
                TeXMode::DisplayMath
            } else {
                TeXMode::InlineMath
            }),
            _ => true,
        }),
{
    if stack.len() > 0 {
        match stack.last() {
            NodeList::Math { .. } => {
                lemma_math_mode_is_math(stack);
            },
            _ => {},
        }
    }
}

/// Law: adding to the current horizontal list demands a horizontal frame
/// on top of the stack, and such a frame is there exactly in the two
/// horizontal modes — outside them the addition is impossible.
pub proof fn lemma_add_node_h_frame(stack: Seq<NodeList>)
    ensures
        horizontal_receptive(stack) <==> (spec_mode(stack) == TeXMode::Horizontal || spec_mode(
            stack,
        ) == TeXMode::RestrictedHorizontal),
{
    crate::stomach::lemma_horizontal_frame_iff_horizontal_mode(stack);
}

/// The paragraph-line boxes among a vertical contribution.
pub open spec fn count_line_boxes(s: Seq<VNode>) -> int
    decreases s.len(),
{
    if s.len() == 0 {
        0
    } else {
        count_line_boxes(s.drop_last()) + (match s.last() {
            VNode::Box(b) => if is_par_line_box(b) {
                1int
            } else {
                0int
            },
            _ => 0int,
        })
    }
}

/// Law: a paragraph's contribution to the vertical list carries exactly
/// one line box per line the splitter emitted — interline glue and
/// adjustments add none — provided the adjusted material smuggles no
/// paragraph-line box of its own in at top level.
pub proof fn lemma_emitted_lines_counted(lines: Seq<ParLine>, pd0: int, ls: LineSkipParams)
    requires
        forall|i: int|
            0 <= i < lines.len() ==> ((#[trigger] lines[i]) matches ParLine::Adjust(n) ==> !(
            n matches VNode::Box(b) && is_par_line_box(b))),
        forall|i: int|
            0 <= i < lines.len() ==> ((#[trigger] lines[i]) matches ParLine::Line(b)
                ==> is_par_line_box(b)),
    ensures
        count_line_boxes(par_contribution(lines, pd0, ls)) == count_lines(lines),
    decreases lines.len(),
{
    if lines.len() > 0 {
        let prefix = lines.drop_last();
        assert(forall|i: int| 0 <= i < prefix.len() ==> prefix[i] == lines[i]);
        lemma_emitted_lines_counted(prefix, pd0, ls);
        let rec = par_contribution(prefix, pd0, ls);
        let pd = crate::paragraph::prevdepth_after(prefix, pd0);
        assert(lines[lines.len() - 1] == lines.last());
        assert(par_contribution(lines, pd0, ls) == rec + spec_line_nodes(lines.last(), pd, ls));
        assert(count_lines(lines) == count_lines(prefix) + (match lines.last() {
            ParLine::Line(..) => 1int,
            _ => 0int,
        }));
        match lines.last() {
            ParLine::Adjust(n) => {
                assert(rec + seq![n] =~= rec.push(n));
                assert(rec.push(n).drop_last() =~= rec);
            },
            ParLine::Line(bx) => {
                assert(lines[lines.len() as int - 1] == lines.last());
                assert(is_par_line_box(bx)) by {
                    assert(lines[lines.len() as int - 1] matches ParLine::Line(b)
                        ==> is_par_line_box(b));
                };
                match spec_line_glue(ls, pd, bx.spec_height()) {
                    Some(g) => {
                        assert(rec + seq![VNode::VSkip { skip: g }, VNode::Box(bx)] =~= rec.push(
                            VNode::VSkip { skip: g },
                        ).push(VNode::Box(bx)));
                        assert(rec.push(VNode::VSkip { skip: g }).push(
                            VNode::Box(bx),
                        ).drop_last() =~= rec.push(VNode::VSkip { skip: g }));
                        assert(rec.push(VNode::VSkip { skip: g }).drop_last() =~= rec);
                        assert(count_line_boxes(rec.push(VNode::VSkip { skip: g }))
                            == count_line_boxes(rec));
                        assert(count_line_boxes(rec.push(VNode::VSkip { skip: g }).push(
                            VNode::Box(bx),
                        )) == count_line_boxes(rec.push(VNode::VSkip { skip: g })) + 1);
                    },
                    None => {
                        assert(rec + seq![VNode::Box(bx)] =~= rec.push(VNode::Box(bx)));
                        assert(rec.push(VNode::Box(bx)).drop_last() =~= rec);
                        assert(count_line_boxes(rec.push(VNode::Box(bx))) == count_line_boxes(rec)
                            + 1);
                    },
                }
            },
        }
    }
}

/// Law: a paragraph reports exactly the number of lines emitted for it:
/// opening it resets the line counter to zero, and contributing the split
/// lines raises the counter by their number, so at the close the counter
/// is that number (the counter saturates only beyond its range, which the
/// premise leaves out).
pub proof fn lemma_prevgraf_counts_lines(
    a: StomachData,
    stack0: Seq<NodeList>,
    b: StomachData,
    lines: Seq<ParLine>,
    ls: LineSkipParams,
    pre: Seq<VNode>,
    fire: bool,
)
    requires
        a.prevgraf == 0,
        count_lines(lines) <= 65535,
        crate::paragraph::spec_lines_appended(a, stack0, b, lines, ls, pre, fire),
    ensures
        b.prevgraf as int == count_lines(lines),
{
}

/// Law: opening a box pushes a frame that only a close of the same family
/// matches: the close of that family accepts exactly this frame, pops
/// exactly it, and a close of the other family is the internal error.
pub proof fn lemma_box_open_close_match(
    a: StomachData,
    b: StomachData,
    bi: BoxInfo,
    start: SourceRef,
    bt: BoxType,
)
    requires
        spec_box_frame_pushed(a, b, bi, start),
    ensures
        b.open_lists@.len() == a.open_lists@.len() + 1,
        spec_close_accepts(b.open_lists@, bt) <==> bt == bi.kind,
        b.open_lists@.drop_last() =~= a.open_lists@,
{
    assert(b.open_lists@.drop_last() =~= a.open_lists@);
    match bi.kind {
        BoxType::Horizontal => {
            assert(b.open_lists@.last().is_box_frame_of(BoxType::Horizontal));
        },
        BoxType::Vertical => {
            assert(b.open_lists@.last().is_box_frame_of(BoxType::Vertical));
        },
    }
}

/// Law: at most one token is inserted per assignment — inserting leaves
/// the slot empty, grows the input front by the slot's one token or not at
/// all, and inserting again after an insertion changes nothing.
pub proof fn lemma_afterassignment_discipline(slot: Option<Token>, front: Seq<Token>)
    ensures
        spec_aa_insert(slot, front).0 is None,
        spec_aa_insert(slot, front).1.len() == front.len() + (if slot is Some {
            1int
        } else {
            0int
        }),
        spec_aa_insert(spec_aa_insert(slot, front).0, spec_aa_insert(slot, front).1)
            == spec_aa_insert(slot, front),
{
}

/// Law: the output routine fires only with no output already running, no
/// open lists, and a non-empty page; and a routine round that empties the
/// page on entry and leaves it alone afterwards returns with an empty page
/// and the guard clear.
pub proof fn lemma_output_round(
    d0: StomachData,
    d1: StomachData,
    d2: StomachData,
    forced: bool,
)
    requires
        spec_output_trigger(d0, forced),
        d1.page@.len() == 0 && d1.in_output,
        !d2.in_output && d2.page == d1.page,
    ensures
        !d0.in_output,
        d0.open_lists@.len() == 0,
        d0.page@.len() > 0,
        d2.page@.len() == 0,
        !d2.in_output,
{
}

/// Law: a box sized `to d` reports `d` in the targeted dimension — the
/// width of a horizontal box, the height of a vertical one — whatever its
/// contents.
pub proof fn lemma_box_to_dimension(frame: NodeList, end: SourceRef, d: i32)
    ensures
        (frame matches NodeList::Horizontal {
            tp: HorizontalListType::HBox { sizing: ToOrSpread::To { dim }, .. },
            ..
        } && dim == d) ==> spec_closed_hbox(frame, end).spec_width() == d,
        (frame matches NodeList::Vertical {
            tp: VerticalListType::VBox { sizing: ToOrSpread::To { dim }, .. },
            ..
        } && dim == d) ==> spec_closed_vbox(frame, end).spec_height() == d,
{
}

/// Law: the interline glue after a previous depth above the ignore
/// sentinel is `baselineskip - prevdepth - height` (with the baseline
/// glue's stretch and shrink) whenever that value reaches the line skip
/// limit — equality included — and the fallback line skip glue otherwise.
pub proof fn lemma_line_glue_formula(ls: LineSkipParams, prevdepth: i32, height: i32)
    requires
        prevdepth > IGNORE_DEPTH,
        i32::MIN <= ls.baselineskip.base - prevdepth,
        ls.baselineskip.base - prevdepth <= i32::MAX,
        i32::MIN <= ls.baselineskip.base - prevdepth - height,
        ls.baselineskip.base - prevdepth - height <= i32::MAX,
    ensures
        ls.baselineskip.base - prevdepth - height >= ls.lineskiplimit ==> spec_line_glue(
            ls,
            prevdepth as int,
            height as int,
        ) == Some(
            Skip {
                base: (ls.baselineskip.base - prevdepth - height) as i32,
                stretch: ls.baselineskip.stretch,
                shrink: ls.baselineskip.shrink,
            },
        ),
        ls.baselineskip.base - prevdepth - height < ls.lineskiplimit ==> spec_line_glue(
            ls,
            prevdepth as int,
            height as int,
        ) == Some(ls.lineskip),
{
}

} // verus!
