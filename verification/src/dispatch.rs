use vstd::prelude::*;
use either::Either;
use crate::actions::{StateAction, StomachError};
use crate::boxes::BoxInfo;
use crate::dims::Skip;
use crate::modes::{spec_mode, spec_switch_decision, switch_decision, CommandScope, ModeDecision, TeXMode};
use crate::nodes::{NodeList, SourceRef, TeXBox};
use crate::paragraph::{
    close_paragraph, open_paragraph, spec_lines_appended, spec_paragraph_on_top,
    spec_parskip_part, spec_splitter_ok, LineSkipParams, ParLine, ParLineSpec,
};
use crate::stomach::{eq_except_lists, lemma_math_mode_is_math, vertical_receptive, StomachData};
use crate::tokens::{Token, TokenFront};

verus! {

/// In horizontal mode the top frame is a paragraph frame.
pub proof fn lemma_horizontal_mode_paragraph(stack: Seq<NodeList>)
    requires
        spec_mode(stack) == TeXMode::Horizontal,
    ensures
        spec_paragraph_on_top(stack),
{
    if stack.len() > 0 {
        match stack.last() {
            NodeList::Math { .. } => {
                lemma_math_mode_is_math(stack);
            },
            _ => {},
        }
    }
}

/// Everything the stomach needs from the symbol table when a command makes
/// it open or close a paragraph: the current source reference, the
/// paragraph indentation and start-of-paragraph tokens for opening, and
/// the line specifications, paragraph skip and interline parameters for
/// closing.
#[derive(Debug)]
pub struct ParagraphContext {
    pub sref: SourceRef,
    pub parindent: i32,
    pub everypar: Vec<Token>,
    pub specs: Vec<ParLineSpec>,
    pub parskip: Skip,
    pub ls: LineSkipParams,
}

/// How a command was received in the current mode: run it now; or it was
/// suppressed while a paragraph opens or closes first (the token is
/// requeued and the command will be re-dispatched); or it is not allowed
/// in this mode and was rejected.
#[derive(Clone, Copy, PartialEq, Eq, Structural, Debug)]
pub enum DispatchOutcome {
    Proceed,
    Suppressed,
    Rejected,
}

/// What receiving a command did: the outcome, whether the page is now due
/// for output, the symbol-table action owed, and the error to report when
/// the command was rejected.
#[derive(Debug)]
pub struct SwitchResult {
    pub outcome: DispatchOutcome,
    pub fire: bool,
    pub action: Option<StateAction>,
    pub error: Option<StomachError>,
}

/// Receives a command of the given scope: consults the decision table for
/// the current mode, and either lets the caller execute the command now,
/// or requeues its token and opens or closes a paragraph first, or rejects
/// it as not allowed in this mode. This is the whole of what executing an
/// unexpandable command adds around the command's own body.
pub fn maybe_switch_mode(
    data: &mut StomachData,
    front: &mut TokenFront,
    scope: CommandScope,
    token: Token,
    name: u32,
    ctx: &ParagraphContext,
) -> (r: SwitchResult)
    requires
        ctx.specs@.len() >= 1,
        spec_paragraph_on_top(old(data).open_lists@) ==> vertical_receptive(
            old(data).open_lists@.drop_last(),
        ),
    ensures
        (match spec_switch_decision(scope, spec_mode(old(data).open_lists@)) {
            ModeDecision::Proceed => {
                &&& r.outcome == DispatchOutcome::Proceed
                &&& *final(data) == *old(data)
                &&& final(front)@ == old(front)@
                &&& !r.fire
                &&& r.action is None
                &&& r.error is None
            },
            ModeDecision::NotAllowed => {
                &&& r.outcome == DispatchOutcome::Rejected
                &&& *final(data) == *old(data)
                &&& final(front)@ == old(front)@
                &&& !r.fire
                &&& r.action is None
                &&& r.error == Some(
                    StomachError::NotAllowedInMode {
                        name,
                        mode: spec_mode(old(data).open_lists@),
                    },
                )
            },
            ModeDecision::OpenParagraph => {
                &&& r.outcome == DispatchOutcome::Suppressed
                &&& !r.fire
                &&& r.action is None
                &&& r.error is None
                &&& final(data).prevgraf == 0
                &&& final(data).open_lists@.len() == old(data).open_lists@.len() + 1
                &&& final(data).open_lists@.last().h_tp() == Some(
                    crate::nodes::HorizontalListType::Paragraph { start: ctx.sref },
                )
                &&& (match token {
                    Token::Primitive { prim: crate::tokens::Primitive::Indent } => final(front)@
                        == ctx.everypar@ + old(front)@,
                    Token::Primitive { prim: crate::tokens::Primitive::Noindent } => final(front)@
                        == ctx.everypar@ + old(front)@,
                    _ => final(front)@ == ctx.everypar@ + seq![token] + old(front)@,
                })
                &&& final(data).page == old(data).page
            },
            ModeDecision::CloseParagraph => {
                &&& r.outcome == DispatchOutcome::Suppressed
                &&& r.error is None
                &&& ({
                    let children = old(data).open_lists@.last().h_children();
                    let stack0 = old(data).open_lists@.drop_last();
                    if children.len() == 0 {
                        &&& final(data).open_lists@ == stack0
                        &&& eq_except_lists(*old(data), *final(data))
                        &&& r.action == Some(StateAction::ResetParagraphShape)
                        &&& !r.fire
                        &&& final(front)@ == seq![token] + old(front)@
                    } else {
                        &&& r.action is None
                        &&& final(front)@ == seq![token] + old(front)@
                        &&& exists|lines: Seq<ParLine>|
                            #[trigger] spec_splitter_ok(children, ctx.specs@, lines) && spec_lines_appended(
                                *old(data),
                                stack0,
                                *final(data),
                                lines,
                                ctx.ls,
                                spec_parskip_part(ctx.parskip),
                                r.fire,
                            )
                    }
                })
            },
        }),
{
    let mode = data.mode();
    match switch_decision(scope, mode) {
        ModeDecision::Proceed => {
            SwitchResult {
                outcome: DispatchOutcome::Proceed,
                fire: false,
                action: None,
                error: None,
            }
        },
        ModeDecision::NotAllowed => {
            SwitchResult {
                outcome: DispatchOutcome::Rejected,
                fire: false,
                action: None,
                error: Some(StomachError::NotAllowedInMode { name, mode }),
            }
        },
        ModeDecision::OpenParagraph => {
            open_paragraph(data, front, token, ctx.sref, ctx.parindent, &ctx.everypar);
            SwitchResult {
                outcome: DispatchOutcome::Suppressed,
                fire: false,
                action: None,
                error: None,
            }
        },
        ModeDecision::CloseParagraph => {
            proof {
                lemma_horizontal_mode_paragraph(data.open_lists@);
            }
            front.requeue(token);
            match close_paragraph(data, &ctx.specs, ctx.parskip, ctx.ls) {
                Ok(cr) => {
                    SwitchResult {
                        outcome: DispatchOutcome::Suppressed,
                        fire: cr.fire,
                        action: cr.action,
                        error: None,
                    }
                },
                Err(e) => {
                    proof {
                        assert(false);
                    }
                    SwitchResult {
                        outcome: DispatchOutcome::Suppressed,
                        fire: false,
                        action: None,
                        error: Some(e),
                    }
                },
            }
        },
    }
}

/// A resolved token as it matters while scanning for a box: an equals sign
/// (allowed once before the box), skippable space, a box-producing
/// command, or anything else, which ends the scan in failure.
#[derive(Clone, Copy, PartialEq, Eq, Structural, Debug)]
pub enum BoxReadToken {
    EqualsSign,
    Space,
    BoxCommand,
    Other,
}

/// What one box-scanning step decided.
#[derive(Clone, Copy, PartialEq, Eq, Structural, Debug)]
pub enum BoxReadStep {
    /// The equals sign was consumed; keep scanning, now refusing another.
    AcceptEquals,
    /// Skip the space and keep scanning.
    SkipSpace,
    /// Run the box command; its result is handed to the box consumer.
    CallBox,
    /// No box here: report it and stand in an empty result.
    Fail,
}

/// One step of scanning for a box where one is required: space is skipped,
/// a single equals sign is accepted before the box, a box command is
/// called, and anything else means the box is missing.
pub fn read_box_step(tok: BoxReadToken, read_eq: bool) -> (r: BoxReadStep)
    ensures
        r == (match tok {
            BoxReadToken::EqualsSign => if !read_eq {
                BoxReadStep::AcceptEquals
            } else {
                BoxReadStep::Fail
            },
            BoxReadToken::Space => BoxReadStep::SkipSpace,
            BoxReadToken::BoxCommand => BoxReadStep::CallBox,
            BoxReadToken::Other => BoxReadStep::Fail,
        }),
{
    match tok {
        BoxReadToken::EqualsSign => {
            if !read_eq {
                BoxReadStep::AcceptEquals
            } else {
                BoxReadStep::Fail
            }
        },
        BoxReadToken::Space => BoxReadStep::SkipSpace,
        BoxReadToken::BoxCommand => BoxReadStep::CallBox,
        BoxReadToken::Other => BoxReadStep::Fail,
    }
}

/// The result a failed box scan stands in after the missing box has been
/// reported: no box at all.
pub fn missing_box_result() -> (r: Either<Option<TeXBox>, BoxInfo>)
    ensures
        r matches Either::Left(b) && b is None,
{
    Either::Left(None)
}

} // verus!
