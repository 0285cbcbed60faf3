use either::Either;
use tex_stomach::actions::{StateAction, StomachError};
use tex_stomach::aligns::{close_align, open_align};
use tex_stomach::boxes::{close_box, do_box, BoxInfo};
use tex_stomach::dims::{GlueComponent, Skip, StretchOrder};
use tex_stomach::dispatch::{
    maybe_switch_mode, missing_box_result, read_box_step, BoxReadStep, BoxReadToken,
    DispatchOutcome, ParagraphContext,
};
use tex_stomach::math::{close_math_group, do_char_in_math, math_group_step, open_math,
    MathGroupStep, MathGroupToken};
use tex_stomach::modes::{CommandScope, TeXMode};
use tex_stomach::nodes::{
    BoxTarget, BoxType, HBoxKind, HNode, HorizontalListType, MathClass, MathKernel,
    MathListTarget, MathNode, MathNucleus, NodeList, SourceRef, TeXBox, ToOrSpread, VNode,
    VerticalListType,
};
use tex_stomach::paragraph::{
    close_paragraph, interline_glue, open_paragraph, split_paragraph_roughly, LineSkipParams,
    ParLine, ParLineSpec,
};
use tex_stomach::stomach::{
    add_node_h, add_node_v, do_char, do_space, do_whatsit, finish_output, flush, maybe_do_output,
    start_output, try_add_node_h, StomachData,
};
use tex_stomach::tokens::{CommandCode, Primitive, Token, TokenFront};
use tex_stomach::vsplit::split_vertical;

const PT: i32 = 65536;

fn plain_skip(base: i32) -> Skip {
    Skip { base, stretch: None, shrink: None }
}

fn line_params() -> LineSkipParams {
    LineSkipParams {
        baselineskip: plain_skip(12 * PT),
        lineskip: plain_skip(PT),
        lineskiplimit: 0,
    }
}

fn plain_specs() -> Vec<ParLineSpec> {
    ParLineSpec::make(100 * PT, plain_skip(0), plain_skip(0), &vec![], 0, 0)
}

// Scenario: `\noindent A\par` in vertical mode — one line box lands on the
// page with the character's metrics; the line count and previous depth
// follow it.
#[test]
fn open_and_close_paragraph_without_indent() {
    let mut data = StomachData::default();
    let mut front = TokenFront::new();
    open_paragraph(
        &mut data,
        &mut front,
        Token::Primitive { prim: Primitive::Noindent },
        SourceRef::none(),
        20 * PT,
        &vec![],
    );
    assert_eq!(data.mode(), TeXMode::Horizontal);
    do_char(&mut data, 'A', 10 * PT, 7 * PT, 2 * PT, 1000);
    let r = close_paragraph(&mut data, &plain_specs(), plain_skip(0), line_params()).unwrap();
    assert!(r.action.is_none());
    assert!(!r.fire);
    assert_eq!(data.mode(), TeXMode::Vertical);
    assert_eq!(data.page.len(), 1);
    match &data.page[0] {
        VNode::Box(TeXBox::H { kind, width, height, depth, children, .. }) => {
            assert_eq!(*kind, HBoxKind::ParLine);
            assert_eq!(*width, 10 * PT); // the natural width of "A" plus zero margin glue
            assert_eq!(*height, 7 * PT);
            assert_eq!(*depth, 2 * PT);
            assert_eq!(children.len(), 3); // left glue, the character, right glue
        }
        _ => panic!("one line box expected"),
    }
    assert_eq!(data.prevgraf, 1);
    assert_eq!(data.prevdepth, 2 * PT);
}

// Scenario: `X\par` in vertical mode — the paragraph opens with an
// indentation box of the paragraph indent, and the character follows it.
#[test]
fn default_indent_box_opens_the_paragraph() {
    let mut data = StomachData::default();
    let mut front = TokenFront::new();
    let x = Token::Character { char: 'X', code: CommandCode::Letter };
    open_paragraph(&mut data, &mut front, x, SourceRef::none(), 20 * PT, &vec![]);
    // the trigger is requeued to be reprocessed in horizontal mode
    assert_eq!(front.pop_front(), Some(x));
    do_char(&mut data, 'X', 9 * PT, 7 * PT, 0, 1000);
    match &data.open_lists[0] {
        NodeList::Horizontal { children, .. } => {
            assert_eq!(children.len(), 2);
            match &children[0] {
                HNode::Box(TeXBox::H { kind, width, children: inner, .. }) => {
                    assert_eq!(*kind, HBoxKind::ParIndent);
                    assert_eq!(*width, 20 * PT);
                    assert!(inner.is_empty());
                }
                _ => panic!("indent box expected first"),
            }
            assert!(matches!(&children[1], HNode::Char { char: 'X', .. }));
        }
        _ => panic!("paragraph frame expected"),
    }
    let r = close_paragraph(&mut data, &plain_specs(), plain_skip(0), line_params()).unwrap();
    assert!(!r.fire);
    assert_eq!(data.prevgraf, 1);
}

// Scenario: `\kern1pt` in vertical mode — the command switches to
// horizontal mode first: it is requeued, the paragraph opens, and the
// re-dispatch proceeds and produces the kern.
#[test]
fn mode_switch_requeues_and_reprocesses() {
    let mut data = StomachData::default();
    let mut front = TokenFront::new();
    let kern_tok = Token::ControlSequence { name: 77 };
    let ctx = ParagraphContext {
        sref: SourceRef::none(),
        parindent: 20 * PT,
        everypar: vec![],
        specs: plain_specs(),
        parskip: plain_skip(0),
        ls: line_params(),
    };
    let r = maybe_switch_mode(
        &mut data,
        &mut front,
        CommandScope::SwitchesToHorizontal,
        kern_tok,
        77,
        &ctx,
    );
    assert_eq!(r.outcome, DispatchOutcome::Suppressed);
    assert!(r.error.is_none());
    assert_eq!(data.mode(), TeXMode::Horizontal);
    assert_eq!(front.pop_front(), Some(kern_tok));
    // re-dispatch in horizontal mode proceeds, and the command body runs
    let r2 = maybe_switch_mode(
        &mut data,
        &mut front,
        CommandScope::SwitchesToHorizontal,
        kern_tok,
        77,
        &ctx,
    );
    assert_eq!(r2.outcome, DispatchOutcome::Proceed);
    add_node_h(&mut data, HNode::Kern { dim: PT });
    match &data.open_lists[0] {
        NodeList::Horizontal { children, .. } => {
            assert!(matches!(children.last().unwrap(), HNode::Kern { dim } if *dim == PT));
        }
        _ => panic!("paragraph frame expected"),
    }
}

#[test]
fn math_only_command_rejected_in_vertical_mode() {
    let mut data = StomachData::default();
    let mut front = TokenFront::new();
    let ctx = ParagraphContext {
        sref: SourceRef::none(),
        parindent: 0,
        everypar: vec![],
        specs: plain_specs(),
        parskip: plain_skip(0),
        ls: line_params(),
    };
    let tok = Token::ControlSequence { name: 5 };
    let r = maybe_switch_mode(&mut data, &mut front, CommandScope::MathOnly, tok, 5, &ctx);
    assert_eq!(r.outcome, DispatchOutcome::Rejected);
    match r.error {
        Some(StomachError::NotAllowedInMode { name, mode }) => {
            assert_eq!(name, 5);
            assert_eq!(mode, TeXMode::Vertical);
        }
        _ => panic!("a mode rejection expected"),
    }
    assert!(data.page.is_empty());
}

// Scenario: a page goal of 100pt, 99pt accumulated, then a forcing penalty
// — the trigger fires on the penalty, and the output round consumes the
// page.
#[test]
fn forcing_penalty_triggers_the_output_routine() {
    let mut data = StomachData::default();
    data.pagegoal = 100 * PT;
    let fire1 = add_node_v(&mut data, VNode::VKern { dim: 99 * PT });
    assert!(!fire1);
    assert_eq!(data.pagetotal, 99 * PT);
    assert!(!maybe_do_output(&data, None));
    let fire2 = add_node_v(&mut data, VNode::Penalty { penalty: -10000 });
    assert!(fire2);
    assert!(maybe_do_output(&data, Some(-10000)));
    let page = start_output(&mut data);
    assert_eq!(page.len(), 2);
    assert!(data.page.is_empty());
    assert!(data.in_output);
    assert_eq!(data.pagetotal, 0);
    finish_output(&mut data, true);
    assert!(!data.in_output);
    assert_eq!(data.deadcycles, 0);
    finish_output_counts_dead_cycles();
}

fn finish_output_counts_dead_cycles() {
    let mut data = StomachData::default();
    data.in_output = true;
    finish_output(&mut data, false);
    assert_eq!(data.deadcycles, 1);
}

// Scenario: an operator whose nucleus is a braced sub-formula — the brace
// opens a math sub-list, the characters fill it, and its close installs it
// as the operator atom in the enclosing list.
#[test]
fn math_group_closes_into_an_operator_atom() {
    let mut data = StomachData::default();
    let mut front = TokenFront::new();
    open_math(&mut data, false, SourceRef::none());
    assert_eq!(data.mode(), TeXMode::InlineMath);
    let (step, act) = math_group_step(
        &mut data,
        &mut front,
        MathGroupToken::BeginGroup,
        MathListTarget::AtomNucleus { cls: MathClass::Op, limits: None },
        SourceRef::none(),
    );
    assert!(matches!(step, MathGroupStep::OpenedList));
    assert!(matches!(act, Some(StateAction::PushGroup { .. })));
    do_char_in_math(&mut data, 'a');
    do_char_in_math(&mut data, '+');
    do_char_in_math(&mut data, 'b');
    let act2 = close_math_group(&mut data).unwrap();
    assert!(matches!(act2, StateAction::PopGroup));
    assert_eq!(data.open_lists.len(), 1);
    match &data.open_lists[0] {
        NodeList::Math { children, .. } => {
            assert_eq!(children.len(), 1);
            match &children[0] {
                MathNode::Atom(atom) => match &atom.nucleus {
                    MathNucleus::Simple { cls, kernel: MathKernel::List { children }, .. } => {
                        assert_eq!(*cls, MathClass::Op);
                        assert_eq!(children.len(), 3);
                    }
                    _ => panic!("a list kernel expected"),
                },
                _ => panic!("an atom expected"),
            }
        }
        _ => panic!("the top math frame expected"),
    }
}

#[test]
fn math_group_step_skips_and_reads_characters() {
    let mut data = StomachData::default();
    let mut front = TokenFront::new();
    open_math(&mut data, false, SourceRef::none());
    let target = MathListTarget::Inline;
    let (s1, _) = math_group_step(&mut data, &mut front, MathGroupToken::Space, target,
        SourceRef::none());
    assert!(matches!(s1, MathGroupStep::Continue));
    let (s2, _) = math_group_step(
        &mut data,
        &mut front,
        MathGroupToken::CharTok { char: 'y', mathcode: 0x1279 },
        target,
        SourceRef::none(),
    );
    match s2 {
        MathGroupStep::UseChar { mc } => {
            assert_eq!(mc.cls, MathClass::Op);
            assert_eq!(mc.fam, 2);
            assert_eq!(mc.code_point, 'y' as u32);
        }
        _ => panic!("a math character expected"),
    }
    let (s3, _) = math_group_step(
        &mut data,
        &mut front,
        MathGroupToken::CharTok { char: '~', mathcode: 32768 },
        target,
        SourceRef::none(),
    );
    assert!(matches!(s3, MathGroupStep::RequeuedActive));
    assert_eq!(
        front.pop_front(),
        Some(Token::Character { char: '~', code: CommandCode::Active })
    );
    let (s4, _) = math_group_step(&mut data, &mut front, MathGroupToken::Other, target,
        SourceRef::none());
    assert!(matches!(s4, MathGroupStep::Rejected { .. }));
}

// A box sized `to` a dimension reports exactly that dimension.
#[test]
fn box_sized_to_reports_the_target() {
    let mut data = StomachData::default();
    let bi = BoxInfo {
        kind: BoxType::Horizontal,
        sizing: ToOrSpread::To { dim: 50 * PT },
        target: BoxTarget::ToList,
    };
    let fire = do_box(&mut data, Either::Right(bi), SourceRef::none());
    assert!(!fire);
    assert_eq!(data.mode(), TeXMode::RestrictedHorizontal);
    add_node_h(&mut data, HNode::Char { char: 'w', width: 4 * PT, height: 5 * PT, depth: PT });
    let r = close_box(&mut data, BoxType::Horizontal, SourceRef::none()).unwrap();
    assert!(r.action.is_none());
    assert_eq!(data.page.len(), 1);
    match &data.page[0] {
        VNode::Box(TeXBox::H { width, height, depth, .. }) => {
            assert_eq!(*width, 50 * PT);
            assert_eq!(*height, 5 * PT);
            assert_eq!(*depth, PT);
        }
        _ => panic!("a box expected on the page"),
    }
}

#[test]
fn box_spread_and_register_target() {
    let mut data = StomachData::default();
    let bi = BoxInfo {
        kind: BoxType::Vertical,
        sizing: ToOrSpread::Spread { dim: 3 * PT },
        target: BoxTarget::ToRegister { index: 7, global: false },
    };
    do_box(&mut data, Either::Right(bi), SourceRef::none());
    add_node_v(&mut data, VNode::Rule { width: 2 * PT, height: 4 * PT, depth: PT });
    let r = close_box(&mut data, BoxType::Vertical, SourceRef::none()).unwrap();
    match r.action {
        Some(StateAction::SetBoxRegister { index, global, bx }) => {
            assert_eq!(index, 7);
            assert!(!global);
            match bx {
                TeXBox::V { width, height, depth, .. } => {
                    assert_eq!(width, 2 * PT);
                    // natural height 4pt, spread by 3pt
                    assert_eq!(height, 7 * PT);
                    assert_eq!(depth, PT);
                }
                _ => panic!("a vertical box expected"),
            }
        }
        _ => panic!("a box register store expected"),
    }
    assert!(data.page.is_empty());
}

#[test]
fn closing_the_wrong_family_is_the_internal_error() {
    let mut data = StomachData::default();
    let bi = BoxInfo {
        kind: BoxType::Horizontal,
        sizing: ToOrSpread::Natural,
        target: BoxTarget::ToList,
    };
    do_box(&mut data, Either::Right(bi), SourceRef::none());
    assert_eq!(
        close_box(&mut data, BoxType::Vertical, SourceRef::none()).unwrap_err(),
        StomachError::InternalListMismatch
    );
    // the frame is still there and the right close succeeds
    assert!(close_box(&mut data, BoxType::Horizontal, SourceRef::none()).is_ok());
}

#[test]
fn finished_box_lands_where_the_mode_puts_it() {
    let mut data = StomachData::default();
    let bx = TeXBox::H {
        children: vec![],
        width: PT,
        height: PT,
        depth: 0,
        kind: HBoxKind::Plain,
        start: SourceRef::none(),
        end: SourceRef::none(),
    };
    let fire = do_box(&mut data, Either::Left(Some(bx)), SourceRef::none());
    assert!(!fire);
    assert!(matches!(&data.page[0], VNode::Box(..)));
    assert!(data.page_contains_boxes);
    // an absent box changes nothing
    let fire2 = do_box(&mut data, Either::Left(None), SourceRef::none());
    assert!(!fire2);
    assert_eq!(data.page.len(), 1);
}

#[test]
fn alignment_rows_reparent_on_close() {
    let mut data = StomachData::default();
    let act = open_align(&mut data, BoxType::Horizontal, BoxType::Vertical);
    assert!(matches!(act, StateAction::PushGroup { .. }));
    assert_eq!(data.mode(), TeXMode::InternalVertical);
    add_node_v(&mut data, VNode::Rule { width: PT, height: PT, depth: 0 });
    add_node_v(&mut data, VNode::VKern { dim: 2 * PT });
    let r = close_align(&mut data, SourceRef::none(), SourceRef::none()).unwrap();
    assert!(matches!(r.action, StateAction::PopGroup));
    assert_eq!(data.page.len(), 2);
    assert!(data.open_lists.is_empty());
}

#[test]
fn alignment_inside_math_becomes_a_vcenter_atom() {
    let mut data = StomachData::default();
    open_math(&mut data, false, SourceRef::none());
    open_align(&mut data, BoxType::Horizontal, BoxType::Vertical);
    add_node_v(&mut data, VNode::Rule { width: PT, height: PT, depth: 0 });
    let r = close_align(&mut data, SourceRef::none(), SourceRef::none()).unwrap();
    assert!(matches!(r.action, StateAction::PopGroup));
    match &data.open_lists[0] {
        NodeList::Math { children, .. } => {
            assert_eq!(children.len(), 1);
            match &children[0] {
                MathNode::Atom(atom) => {
                    assert!(matches!(&atom.nucleus, MathNucleus::VCenter { children, .. }
                        if children.len() == 1));
                }
                _ => panic!("an atom expected"),
            }
        }
        _ => panic!("the math frame expected"),
    }
}

#[test]
fn closing_an_alignment_without_one_is_the_internal_error() {
    let mut data = StomachData::default();
    assert_eq!(
        close_align(&mut data, SourceRef::none(), SourceRef::none()).unwrap_err(),
        StomachError::InternalListMismatch
    );
}

// The interline glue formula, boundary included: equality with the limit
// takes the baseline branch.
#[test]
fn interline_glue_formula_and_boundary() {
    let ls = LineSkipParams {
        baselineskip: Skip {
            base: 12 * PT,
            stretch: Some(GlueComponent { amount: PT, order: StretchOrder::Normal }),
            shrink: None,
        },
        lineskip: plain_skip(PT),
        lineskiplimit: 3 * PT,
    };
    // 12 - 2 - 7 = 3pt, exactly the limit: the baseline branch wins
    let g = interline_glue(ls, 2 * PT, 7 * PT).unwrap();
    assert_eq!(g.base, 3 * PT);
    assert_eq!(g.stretch, Some(GlueComponent { amount: PT, order: StretchOrder::Normal }));
    // below the limit: the fallback line skip
    let g2 = interline_glue(ls, 3 * PT, 7 * PT).unwrap();
    assert_eq!(g2, plain_skip(PT));
    // the ignore sentinel suppresses the glue entirely
    assert!(interline_glue(ls, -1000 * PT, 7 * PT).is_none());
}

#[test]
fn paragraph_lines_break_at_the_last_fitting_glue() {
    // two 6pt words separated by glue against a 10pt measure: the second
    // word does not fit, so the line breaks at the glue
    let specs = ParLineSpec::make(10 * PT, plain_skip(0), plain_skip(0), &vec![], 0, 0);
    let children = vec![
        HNode::Char { char: 'a', width: 6 * PT, height: PT, depth: 0 },
        HNode::Space { skip: plain_skip(PT) },
        HNode::Char { char: 'b', width: 6 * PT, height: PT, depth: 0 },
    ];
    let lines = split_paragraph_roughly(&specs, children, SourceRef::none());
    let line_count = lines.iter().filter(|l| matches!(l, ParLine::Line(..))).count();
    assert_eq!(line_count, 2);
    match &lines[0] {
        ParLine::Line(TeXBox::H { children, .. }) => {
            // margin glue, the word, margin glue: the break glue is dropped
            assert_eq!(children.len(), 3);
            assert!(matches!(&children[1], HNode::Char { char: 'a', .. }));
        }
        _ => panic!("a first line expected"),
    }
}

#[test]
fn forced_break_and_adjustments_between_lines() {
    let specs = plain_specs();
    let children = vec![
        HNode::Char { char: 'a', width: PT, height: PT, depth: 0 },
        HNode::VAdjust { children: vec![VNode::VKern { dim: PT }, VNode::VKern { dim: 2 * PT }] },
        HNode::Penalty { penalty: -10000 },
        HNode::Char { char: 'b', width: PT, height: PT, depth: 0 },
    ];
    let lines = split_paragraph_roughly(&specs, children, SourceRef::none());
    let line_count = lines.iter().filter(|l| matches!(l, ParLine::Line(..))).count();
    let adjust_count = lines.iter().filter(|l| matches!(l, ParLine::Adjust(..))).count();
    assert_eq!(line_count, 2);
    assert_eq!(adjust_count, 2);
    // the adjustments follow the line they occurred on
    assert!(matches!(&lines[0], ParLine::Line(..)));
    assert!(matches!(&lines[1], ParLine::Adjust(..)));
    assert!(matches!(&lines[2], ParLine::Adjust(..)));
    assert!(matches!(&lines[3], ParLine::Line(..)));
}

#[test]
fn empty_paragraph_resets_the_shape_silently() {
    let mut data = StomachData::default();
    let mut front = TokenFront::new();
    open_paragraph(
        &mut data,
        &mut front,
        Token::Primitive { prim: Primitive::Noindent },
        SourceRef::none(),
        20 * PT,
        &vec![],
    );
    let r = close_paragraph(&mut data, &plain_specs(), plain_skip(0), line_params()).unwrap();
    assert!(matches!(r.action, Some(StateAction::ResetParagraphShape)));
    assert!(data.page.is_empty());
    assert!(data.open_lists.is_empty());
}

#[test]
fn parskip_precedes_the_first_line() {
    let mut data = StomachData::default();
    let mut front = TokenFront::new();
    open_paragraph(
        &mut data,
        &mut front,
        Token::Primitive { prim: Primitive::Noindent },
        SourceRef::none(),
        20 * PT,
        &vec![],
    );
    do_char(&mut data, 'A', PT, PT, 0, 1000);
    close_paragraph(&mut data, &plain_specs(), plain_skip(5 * PT), line_params()).unwrap();
    assert_eq!(data.page.len(), 2);
    assert!(matches!(&data.page[0], VNode::VSkip { skip } if skip.base == 5 * PT));
    assert!(matches!(&data.page[1], VNode::Box(..)));
}

#[test]
fn second_line_gets_interline_glue() {
    let mut data = StomachData::default();
    let mut front = TokenFront::new();
    open_paragraph(
        &mut data,
        &mut front,
        Token::Primitive { prim: Primitive::Noindent },
        SourceRef::none(),
        0,
        &vec![],
    );
    // a forced break makes two lines of 7pt height and 2pt depth each
    do_char(&mut data, 'a', PT, 7 * PT, 2 * PT, 1000);
    add_node_h(&mut data, HNode::Penalty { penalty: -10000 });
    do_char(&mut data, 'b', PT, 7 * PT, 2 * PT, 1000);
    close_paragraph(&mut data, &plain_specs(), plain_skip(0), line_params()).unwrap();
    // line, then glue 12 - 2 - 7 = 3pt, then line
    assert_eq!(data.page.len(), 3);
    assert!(matches!(&data.page[0], VNode::Box(..)));
    assert!(matches!(&data.page[1], VNode::VSkip { skip } if skip.base == 3 * PT));
    assert!(matches!(&data.page[2], VNode::Box(..)));
    assert_eq!(data.prevgraf, 2);
}

#[test]
fn line_specs_follow_shape_and_hanging() {
    let left = plain_skip(5 * PT);
    let right = plain_skip(3 * PT);
    let plain = ParLineSpec::make(100 * PT, left, right, &vec![], 0, 0);
    assert_eq!(plain.len(), 1);
    assert_eq!(plain[0].target, 92 * PT);
    let shaped = ParLineSpec::make(
        100 * PT,
        left,
        right,
        &vec![(10 * PT, 80 * PT), (0, 100 * PT)],
        0,
        0,
    );
    assert_eq!(shaped.len(), 2);
    assert_eq!(shaped[0].leftskip.base, 15 * PT);
    assert_eq!(shaped[0].target, 72 * PT);
    assert_eq!(shaped[1].leftskip.base, 5 * PT);
    assert_eq!(shaped[1].target, 92 * PT);
    let hung = ParLineSpec::make(100 * PT, left, right, &vec![], 10 * PT, 2);
    assert_eq!(hung.len(), 3);
    assert_eq!(hung[0].target, 92 * PT);
    assert_eq!(hung[1].target, 92 * PT);
    assert_eq!(hung[2].leftskip.base, 15 * PT);
    assert_eq!(hung[2].target, 82 * PT);
    let hung_first = ParLineSpec::make(100 * PT, left, right, &vec![], -10 * PT, -1);
    assert_eq!(hung_first.len(), 2);
    assert_eq!(hung_first[0].rightskip.base, 13 * PT);
    assert_eq!(hung_first[0].target, 82 * PT);
    assert_eq!(hung_first[1].target, 92 * PT);
}

#[test]
fn page_totals_track_glue_components() {
    let mut data = StomachData::default();
    add_node_v(
        &mut data,
        VNode::VSkip {
            skip: Skip {
                base: 2 * PT,
                stretch: Some(GlueComponent { amount: 5 * PT, order: StretchOrder::Fil }),
                shrink: Some(GlueComponent { amount: PT, order: StretchOrder::Normal }),
            },
        },
    );
    assert_eq!(data.pagetotal, 2 * PT);
    assert_eq!(data.pagefilstretch, 5 * PT);
    assert_eq!(data.pageshrink, PT);
    // a box's height joins the total and its depth waits as the page depth
    add_node_v(&mut data, VNode::Rule { width: PT, height: 4 * PT, depth: PT });
    assert_eq!(data.pagetotal, 6 * PT);
    assert_eq!(data.pagedepth, PT);
    add_node_v(&mut data, VNode::VKern { dim: PT });
    assert_eq!(data.pagetotal, 8 * PT); // the waiting depth flushed with the kern
    assert_eq!(data.pagedepth, 0);
}

#[test]
fn insertions_route_to_the_insertion_queue() {
    let mut data = StomachData::default();
    let fire = add_node_v(
        &mut data,
        VNode::Insertion { class: 3, children: vec![VNode::VKern { dim: PT }] },
    );
    assert!(!fire);
    assert!(data.page.is_empty());
    assert_eq!(data.inserts.len(), 1);
    assert_eq!(data.inserts[0].0, 3);
}

#[test]
fn whatsits_follow_the_current_mode() {
    let mut data = StomachData::default();
    let fire = do_whatsit(&mut data, 11, true);
    assert!(!fire);
    assert!(matches!(&data.page[0], VNode::Whatsit { name: 11 }));
    data.open_lists.push(NodeList::Horizontal {
        tp: HorizontalListType::Paragraph { start: SourceRef::none() },
        children: vec![],
    });
    do_whatsit(&mut data, 12, true);
    match &data.open_lists[0] {
        NodeList::Horizontal { children, .. } => {
            assert!(matches!(&children[0], HNode::Whatsit { name: 12 }));
        }
        _ => panic!("horizontal frame expected"),
    }
    // a reader that produced nothing appends nothing
    do_whatsit(&mut data, 13, false);
    match &data.open_lists[0] {
        NodeList::Horizontal { children, .. } => assert_eq!(children.len(), 1),
        _ => panic!("horizontal frame expected"),
    }
}

#[test]
fn flush_discards_lists_and_forces_the_page_out() {
    let mut data = StomachData::default();
    add_node_v(&mut data, VNode::VKern { dim: PT });
    data.open_lists.push(NodeList::Vertical {
        tp: VerticalListType::HAlign,
        children: vec![],
    });
    let r = flush(&mut data);
    assert!(r.warned);
    assert!(r.run_output);
    assert_eq!(r.last_page.len(), 2);
    assert!(matches!(r.last_page.last().unwrap(), VNode::Penalty { penalty: -10000 }));
    assert!(data.page.is_empty());
    assert!(data.open_lists.is_empty());
    assert_eq!(data.pagetotal, 0);
}

#[test]
fn vertical_split_cuts_at_the_first_full_break() {
    let mut data = StomachData::default();
    let nodes = vec![
        VNode::Rule { width: PT, height: 5 * PT, depth: 0 },
        VNode::Mark { class: 0, toks: vec![Token::ControlSequence { name: 1 }] },
        VNode::Penalty { penalty: 50 },
        VNode::Rule { width: PT, height: 5 * PT, depth: 0 },
        VNode::Mark { class: 0, toks: vec![Token::ControlSequence { name: 2 }] },
        VNode::VSkip { skip: plain_skip(PT) },
        VNode::Rule { width: PT, height: 5 * PT, depth: 0 },
    ];
    // 10pt target: after two rules the accumulated size meets it, so the
    // split happens at the following glue
    let r = split_vertical(&mut data, nodes, 10 * PT);
    assert_eq!(r.first.len(), 5);
    assert_eq!(r.rest.len(), 1);
    assert_eq!(r.split_penalty, 0);
    // the first mark of the class and the last one were recorded
    assert_eq!(
        data.splitfirstmarks.get(0).unwrap().as_slice(),
        &[Token::ControlSequence { name: 1 }]
    );
    assert_eq!(
        data.splitbotmarks.get(0).unwrap().as_slice(),
        &[Token::ControlSequence { name: 2 }]
    );
}

#[test]
fn vertical_split_reports_a_break_penalty() {
    let mut data = StomachData::default();
    let nodes = vec![
        VNode::Rule { width: PT, height: 5 * PT, depth: 0 },
        VNode::Penalty { penalty: -10000 },
        VNode::Rule { width: PT, height: 5 * PT, depth: 0 },
    ];
    let r = split_vertical(&mut data, nodes, 100 * PT);
    assert_eq!(r.first.len(), 1);
    assert_eq!(r.rest.len(), 1);
    assert_eq!(r.split_penalty, -10000);
    assert!(data.splitfirstmarks.get(0).is_none());
}

#[test]
fn box_scan_steps_and_missing_box() {
    assert_eq!(read_box_step(BoxReadToken::EqualsSign, false), BoxReadStep::AcceptEquals);
    assert_eq!(read_box_step(BoxReadToken::EqualsSign, true), BoxReadStep::Fail);
    assert_eq!(read_box_step(BoxReadToken::Space, false), BoxReadStep::SkipSpace);
    assert_eq!(read_box_step(BoxReadToken::BoxCommand, true), BoxReadStep::CallBox);
    assert_eq!(read_box_step(BoxReadToken::Other, false), BoxReadStep::Fail);
    // a failed scan stands in an absent box, which a box consumer ignores
    let mut data = StomachData::default();
    let fire = do_box(&mut data, missing_box_result(), SourceRef::none());
    assert!(!fire);
    assert!(data.page.is_empty());
    assert!(data.open_lists.is_empty());
}

#[test]
fn math_scan_rejects_with_the_expected_error() {
    let mut data = StomachData::default();
    let mut front = TokenFront::new();
    open_math(&mut data, false, SourceRef::none());
    let (step, _) = math_group_step(
        &mut data,
        &mut front,
        MathGroupToken::Other,
        MathListTarget::Inline,
        SourceRef::none(),
    );
    match step {
        MathGroupStep::Rejected { error } => {
            assert_eq!(error, StomachError::MathCharExpected);
        }
        _ => panic!("a rejection expected"),
    }
    // a bad delimiter is rejected with its code
    let (step2, _) = math_group_step(
        &mut data,
        &mut front,
        MathGroupToken::DelimiterCmd { code: -5 },
        MathListTarget::Inline,
        SourceRef::none(),
    );
    match step2 {
        MathGroupStep::Rejected { error } => {
            assert_eq!(error, StomachError::BadDelimiter { code: -5 });
        }
        _ => panic!("a rejection expected"),
    }
}

#[test]
fn closing_a_math_group_needs_a_target_frame() {
    let mut data = StomachData::default();
    open_math(&mut data, false, SourceRef::none());
    assert_eq!(close_math_group(&mut data).unwrap_err(), StomachError::InternalListMismatch);
}

#[test]
fn interword_glue_joins_the_horizontal_list() {
    let mut data = StomachData::default();
    data.open_lists.push(NodeList::Horizontal {
        tp: HorizontalListType::Paragraph { start: SourceRef::none() },
        children: vec![],
    });
    do_space(&mut data, plain_skip(3 * PT));
    match &data.open_lists[0] {
        NodeList::Horizontal { children, .. } => {
            assert!(matches!(&children[0], HNode::Space { skip } if skip.base == 3 * PT));
        }
        _ => panic!("horizontal frame expected"),
    }
}

#[test]
fn characters_are_conserved_across_line_breaking() {
    // ten characters, glue between each pair, a narrow measure: however
    // the splitter breaks, every character lands on exactly one line
    let specs = ParLineSpec::make(5 * PT, plain_skip(0), plain_skip(0), &vec![], 0, 0);
    let mut children: Vec<HNode> = Vec::new();
    for i in 0..10u32 {
        children.push(HNode::Char {
            char: char::from_u32('a' as u32 + i).unwrap(),
            width: 2 * PT,
            height: PT,
            depth: 0,
        });
        children.push(HNode::Space { skip: plain_skip(PT) });
    }
    let lines = split_paragraph_roughly(&specs, children, SourceRef::none());
    let mut chars: usize = 0;
    for l in &lines {
        if let ParLine::Line(TeXBox::H { children, .. }) = l {
            chars += children.iter().filter(|n| matches!(n, HNode::Char { .. })).count();
        }
    }
    assert_eq!(chars, 10);
}

// P2 as a runtime property: on stacks without a horizontal frame on top,
// the total variant traps with the internal error and appends nowhere.
#[test]
fn adding_horizontal_material_traps_outside_horizontal_frames() {
    // empty stack
    let mut data = StomachData::default();
    let r = try_add_node_h(&mut data, HNode::Kern { dim: PT });
    assert_eq!(r.unwrap_err(), StomachError::InternalListMismatch);
    assert!(data.page.is_empty());
    assert!(data.open_lists.is_empty());
    // vertical frame on top
    data.open_lists.push(NodeList::Vertical { tp: VerticalListType::HAlign, children: vec![] });
    assert!(try_add_node_h(&mut data, HNode::Kern { dim: PT }).is_err());
    match &data.open_lists[0] {
        NodeList::Vertical { children, .. } => assert!(children.is_empty()),
        _ => panic!("vertical frame expected"),
    }
    // math frame on top
    open_math(&mut data, false, SourceRef::none());
    assert!(try_add_node_h(&mut data, HNode::Kern { dim: PT }).is_err());
    // a horizontal frame accepts
    data.open_lists.push(NodeList::Horizontal {
        tp: HorizontalListType::Paragraph { start: SourceRef::none() },
        children: vec![],
    });
    assert!(try_add_node_h(&mut data, HNode::Kern { dim: PT }).is_ok());
    match data.open_lists.last().unwrap() {
        NodeList::Horizontal { children, .. } => assert_eq!(children.len(), 1),
        _ => panic!("horizontal frame expected"),
    }
}

// The vertical split never cuts before a break point: a list whose only
// break candidate lies past the target is carried whole, and a leading
// forcing penalty cuts immediately.
#[test]
fn vertical_split_only_cuts_at_break_points() {
    let mut data = StomachData::default();
    // no break point at all: boxes only — nothing is split off
    let nodes = vec![
        VNode::Rule { width: PT, height: 5 * PT, depth: 0 },
        VNode::Rule { width: PT, height: 5 * PT, depth: 0 },
    ];
    let r = split_vertical(&mut data, nodes, PT);
    assert_eq!(r.first.len(), 2);
    assert_eq!(r.rest.len(), 0);
    assert_eq!(r.split_penalty, 0);
    // a forcing penalty in front cuts at once, before anything accumulates
    let nodes2 = vec![
        VNode::Penalty { penalty: -10000 },
        VNode::Rule { width: PT, height: 5 * PT, depth: 0 },
    ];
    let r2 = split_vertical(&mut data, nodes2, 100 * PT);
    assert_eq!(r2.first.len(), 0);
    assert_eq!(r2.rest.len(), 1);
    assert_eq!(r2.split_penalty, -10000);
}

// A paragraph without any break opportunity comes out as exactly one line
// holding all of its material between the margin glues.
#[test]
fn unbreakable_paragraph_is_a_single_line() {
    let specs = ParLineSpec::make(PT, plain_skip(2 * PT), plain_skip(3 * PT), &vec![], 0, 0);
    let children = vec![
        HNode::Char { char: 'a', width: 4 * PT, height: PT, depth: 0 },
        HNode::Char { char: 'b', width: 4 * PT, height: PT, depth: 0 },
        HNode::Kern { dim: PT },
        HNode::Char { char: 'c', width: 4 * PT, height: PT, depth: 0 },
    ];
    let lines = split_paragraph_roughly(&specs, children, SourceRef::none());
    assert_eq!(lines.len(), 1);
    match &lines[0] {
        ParLine::Line(TeXBox::H { children, width, .. }) => {
            assert_eq!(children.len(), 6); // both margins around the four nodes
            assert!(matches!(&children[0], HNode::Space { skip } if skip.base == 2 * PT));
            assert!(matches!(&children[5], HNode::Space { skip } if skip.base == 3 * PT));
            // natural width: margins plus content, however narrow the measure
            assert_eq!(*width, 18 * PT);
        }
        _ => panic!("one line expected"),
    }
}

// A forced break followed by one character yields exactly two lines: an
// empty one ending at the penalty, and one carrying the character.
#[test]
fn forced_break_then_character_yields_two_lines() {
    let specs = plain_specs();
    let children = vec![
        HNode::Penalty { penalty: -10000 },
        HNode::Char { char: 'b', width: PT, height: PT, depth: 0 },
    ];
    let lines = split_paragraph_roughly(&specs, children, SourceRef::none());
    assert_eq!(lines.len(), 2);
    match (&lines[0], &lines[1]) {
        (ParLine::Line(TeXBox::H { children: c0, .. }), ParLine::Line(TeXBox::H { children: c1, .. })) => {
            assert_eq!(c0.len(), 2); // the two margin glues around nothing
            assert_eq!(c1.len(), 3);
            assert!(matches!(&c1[1], HNode::Char { char: 'b', .. }));
        }
        _ => panic!("two lines expected"),
    }
}
