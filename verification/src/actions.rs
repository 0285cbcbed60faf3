use vstd::prelude::*;
use crate::dims::Skip;
use crate::modes::TeXMode;
use crate::nodes::TeXBox;
use crate::tokens::Token;

verus! {

/// The kind of group pushed on the symbol table's save stack.
#[derive(Clone, Copy, PartialEq, Eq, Structural, Debug)]
pub enum GroupKind {
    Align,
    Math,
    Simple,
}

/// A mutation of the grouped symbol table that the stomach has decided on.
/// The symbol table itself lives outside this core; the surrounding engine
/// performs each action in the order it is handed out.
#[derive(Debug)]
pub enum StateAction {
    SetIntRegister { index: usize, global: bool, value: i32 },
    SetDimRegister { index: usize, global: bool, value: i32 },
    SetSkipRegister { index: usize, global: bool, value: Skip },
    SetMuSkipRegister { index: usize, global: bool, value: Skip },
    SetToksRegister { index: usize, global: bool, value: Vec<Token> },
    SetPrimitiveInt { name: u32, global: bool, value: i32 },
    SetPrimitiveDim { name: u32, global: bool, value: i32 },
    SetPrimitiveSkip { name: u32, global: bool, value: Skip },
    SetPrimitiveMuSkip { name: u32, global: bool, value: Skip },
    SetPrimitiveToks { name: u32, global: bool, value: Vec<Token> },
    SetCurrentFont { font: u32, global: bool },
    SetBoxRegister { index: usize, global: bool, bx: TeXBox },
    PushGroup { kind: GroupKind },
    PopGroup,
    PopAllGroups,
    /// Silently drop the paragraph shape and reset the hanging-indentation
    /// parameters, as closing an empty paragraph demands.
    ResetParagraphShape,
}

/// An error the stomach reports up the dispatch chain. Recoverable errors
/// abandon the current command; the internal one means a caller broke the
/// list discipline.
#[derive(Clone, Copy, PartialEq, Eq, Structural, Debug)]
pub enum StomachError {
    /// The command is not permitted in the current mode.
    NotAllowedInMode { name: u32, mode: TeXMode },
    /// A delimiter code outside the representable range.
    BadDelimiter { code: i32 },
    /// A box was supposed to be here.
    MissingBox,
    /// A group opening or a math character was expected.
    MathCharExpected,
    /// The group discipline and the list stack are out of sync.
    InternalListMismatch,
}

} // verus!
