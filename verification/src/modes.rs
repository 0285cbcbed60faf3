use vstd::prelude::*;
use crate::nodes::{HorizontalListType, MathListType, NodeList};

verus! {

/// The mode the engine is currently in. It is always derived from the
/// stack of open node lists ([`spec_mode`]) and never stored separately.
#[derive(Clone, Copy, PartialEq, Eq, Structural, Debug)]
pub enum TeXMode {
    /// The mode the engine is in at the start of a document, outside of
    /// boxes or paragraphs.
    Vertical,
    /// The mode the engine is in inside a vertical box.
    InternalVertical,
    /// The mode the engine is in inside a paragraph.
    Horizontal,
    /// The mode the engine is in inside a horizontal box.
    RestrictedHorizontal,
    /// The mode the engine is in inside an inline math list.
    InlineMath,
    /// The mode the engine is in inside a display math list.
    DisplayMath,
}

impl TeXMode {
    /// Returns true if the mode is vertical or internal vertical.
    pub fn is_vertical(&self) -> (r: bool)
        ensures
            r == (*self == TeXMode::Vertical || *self == TeXMode::InternalVertical),
    {
        matches!(self, TeXMode::Vertical | TeXMode::InternalVertical)
    }

    /// Returns true if the mode is horizontal or restricted horizontal.
    pub fn is_horizontal(&self) -> (r: bool)
        ensures
            r == (*self == TeXMode::Horizontal || *self == TeXMode::RestrictedHorizontal),
    {
        matches!(self, TeXMode::Horizontal | TeXMode::RestrictedHorizontal)
    }

    /// Returns true if the mode is inline math or display math.
    pub fn is_math(&self) -> (r: bool)
        ensures
            r == (*self == TeXMode::InlineMath || *self == TeXMode::DisplayMath),
    {
        matches!(self, TeXMode::InlineMath | TeXMode::DisplayMath)
    }

    /// Returns true if the mode is horizontal, restricted horizontal,
    /// inline math, or display math.
    pub fn h_or_m(&self) -> (r: bool)
        ensures
            r == (*self == TeXMode::Horizontal || *self == TeXMode::RestrictedHorizontal || *self
                == TeXMode::InlineMath || *self == TeXMode::DisplayMath),
    {
        matches!(
            self,
            TeXMode::Horizontal | TeXMode::RestrictedHorizontal | TeXMode::InlineMath
                | TeXMode::DisplayMath
        )
    }

    /// A readable name for diagnostics.
    pub fn display_name(&self) -> (r: &'static str)
        ensures
            r@ == (match self {
                TeXMode::Vertical => "vertical"@,
                TeXMode::InternalVertical => "internal vertical"@,
                TeXMode::Horizontal => "horizontal"@,
                TeXMode::RestrictedHorizontal => "restricted horizontal"@,
                TeXMode::InlineMath => "inline math"@,
                TeXMode::DisplayMath => "display math"@,
            }),
    {
        match self {
            TeXMode::Vertical => "vertical",
            TeXMode::InternalVertical => "internal vertical",
            TeXMode::Horizontal => "horizontal",
            TeXMode::RestrictedHorizontal => "restricted horizontal",
            TeXMode::InlineMath => "inline math",
            TeXMode::DisplayMath => "display math",
        }
    }

    /// The mode entered inside a box of the given family.
    pub fn of_box_type(bt: crate::nodes::BoxType) -> (r: TeXMode)
        ensures
            r == (match bt {
                crate::nodes::BoxType::Horizontal => TeXMode::RestrictedHorizontal,
                crate::nodes::BoxType::Vertical => TeXMode::InternalVertical,
            }),
    {
        match bt {
            crate::nodes::BoxType::Horizontal => TeXMode::RestrictedHorizontal,
            crate::nodes::BoxType::Vertical => TeXMode::InternalVertical,
        }
    }
}

/// Which of the top math frames decides display-ness: scanning from the
/// top of the stack toward its base, the first frame tagged `Top` found.
/// A well-formed stack holds such a frame below every math frame.
pub open spec fn spec_math_mode(stack: Seq<NodeList>) -> TeXMode
    decreases stack.len(),
{
    if stack.len() == 0 {
        TeXMode::InlineMath
    } else {
        match stack.last() {
            NodeList::Math { tp: MathListType::Top { display }, .. } => if display {
                TeXMode::DisplayMath
            } else {
                TeXMode::InlineMath
            },
            _ => spec_math_mode(stack.drop_last()),
        }
    }
}

/// The mode derived from a stack of open lists:
/// empty means vertical; a horizontal frame tagged as a paragraph means
/// horizontal and any other horizontal frame restricted horizontal; a
/// vertical frame means internal vertical; a math frame means inline or
/// display math according to the nearest enclosing `Top` math frame.
pub open spec fn spec_mode(stack: Seq<NodeList>) -> TeXMode {
    if stack.len() == 0 {
        TeXMode::Vertical
    } else {
        match stack.last() {
            NodeList::Horizontal { tp: HorizontalListType::Paragraph { .. }, .. } =>
                TeXMode::Horizontal,
            NodeList::Horizontal { .. } => TeXMode::RestrictedHorizontal,
            NodeList::Vertical { .. } => TeXMode::InternalVertical,
            NodeList::Math { .. } => spec_math_mode(stack),
        }
    }
}

/// The scope a primitive command declares: the modes it may run in, and
/// whether it forces a mode switch first.
#[derive(Clone, Copy, PartialEq, Eq, Structural, Debug)]
pub enum CommandScope {
    Any,
    MathOnly,
    SwitchesToVertical,
    SwitchesToHorizontal,
    SwitchesToHorizontalOrMath,
}

/// What a command's scope demands in the current mode: run it now, open or
/// close a paragraph first (requeueing the command), or reject it.
#[derive(Clone, Copy, PartialEq, Eq, Structural, Debug)]
pub enum ModeDecision {
    Proceed,
    OpenParagraph,
    CloseParagraph,
    NotAllowed,
}

/// The decision table for a command scope met in a mode.
pub open spec fn spec_switch_decision(scope: CommandScope, mode: TeXMode) -> ModeDecision {
    match scope {
        CommandScope::Any => ModeDecision::Proceed,
        CommandScope::MathOnly => if mode == TeXMode::InlineMath || mode == TeXMode::DisplayMath {
            ModeDecision::Proceed
        } else {
            ModeDecision::NotAllowed
        },
        CommandScope::SwitchesToVertical => if mode == TeXMode::Vertical || mode
            == TeXMode::InternalVertical {
            ModeDecision::Proceed
        } else if mode == TeXMode::Horizontal {
            ModeDecision::CloseParagraph
        } else {
            ModeDecision::NotAllowed
        },
        CommandScope::SwitchesToHorizontal => if mode == TeXMode::Horizontal || mode
            == TeXMode::RestrictedHorizontal {
            ModeDecision::Proceed
        } else if mode == TeXMode::Vertical || mode == TeXMode::InternalVertical {
            ModeDecision::OpenParagraph
        } else {
            ModeDecision::NotAllowed
        },
        CommandScope::SwitchesToHorizontalOrMath => if mode == TeXMode::Vertical || mode
            == TeXMode::InternalVertical {
            ModeDecision::OpenParagraph
        } else {
            ModeDecision::Proceed
        },
    }
}

/// Decide whether a command of the given scope may run in the given mode,
/// or which paragraph action must come first. The triggering token is
/// requeued and the command suppressed by the caller whenever the decision
/// is to open or close a paragraph.
pub fn switch_decision(scope: CommandScope, mode: TeXMode) -> (r: ModeDecision)
    ensures
        r == spec_switch_decision(scope, mode),
{
    match scope {
        CommandScope::Any => ModeDecision::Proceed,
        CommandScope::MathOnly => {
            if mode.is_math() {
                ModeDecision::Proceed
            } else {
                ModeDecision::NotAllowed
            }
        },
        CommandScope::SwitchesToVertical => {
            if mode.is_vertical() {
                ModeDecision::Proceed
            } else if mode == TeXMode::Horizontal {
                ModeDecision::CloseParagraph
            } else {
                ModeDecision::NotAllowed
            }
        },
        CommandScope::SwitchesToHorizontal => {
            if mode.is_horizontal() {
                ModeDecision::Proceed
            } else if mode.is_vertical() {
                ModeDecision::OpenParagraph
            } else {
                ModeDecision::NotAllowed
            }
        },
        CommandScope::SwitchesToHorizontalOrMath => {
            if mode.is_vertical() {
                ModeDecision::OpenParagraph
            } else {
                ModeDecision::Proceed
            }
        },
    }
}

} // verus!
