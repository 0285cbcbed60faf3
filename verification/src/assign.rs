use vstd::prelude::*;
use crate::actions::StateAction;
use crate::dims::Skip;
use crate::stomach::DefaultStomach;
use crate::tokens::{Token, TokenFront};

verus! {

/// What the afterassignment hook does when an assignment completes: the
/// queued token (if any) moves to the front of the input, and the slot is
/// cleared. The first component is the slot afterwards, the second the
/// input front afterwards.
pub open spec fn spec_aa_insert(slot: Option<Token>, front: Seq<Token>) -> (Option<Token>, Seq<
    Token,
>) {
    match slot {
        Some(t) => (None, seq![t] + front),
        None => (None, front),
    }
}

/// Queue a token to be inserted after the next assignment. At most one
/// token is held; queueing replaces an earlier one.
pub fn set_afterassignment(stomach: &mut DefaultStomach, t: Token)
    ensures
        final(stomach).afterassignment == Some(t),
        final(stomach).data == old(stomach).data,
{
    stomach.afterassignment = Some(t);
}

/// Insert the queued afterassignment token, if any, at the front of the
/// input, and clear the slot. Inserting is idempotent: with an empty slot
/// nothing happens, so running it a second time is a no-op.
pub fn insert_afterassignment(stomach: &mut DefaultStomach, front: &mut TokenFront)
    ensures
        (final(stomach).afterassignment, final(front)@) == spec_aa_insert(
            old(stomach).afterassignment,
            old(front)@,
        ),
        final(stomach).data == old(stomach).data,
{
    let mut slot: Option<Token> = None;
    core::mem::swap(&mut slot, &mut stomach.afterassignment);
    match slot {
        Some(t) => {
            front.requeue(t);
        },
        None => {},
    }
}

/// Assign a parsed value to a count register: the engine performs the
/// returned action, and the afterassignment token is inserted exactly once.
pub fn assign_int_register(
    stomach: &mut DefaultStomach,
    front: &mut TokenFront,
    register: usize,
    global: bool,
    value: i32,
) -> (r: StateAction)
    ensures
        r == (StateAction::SetIntRegister { index: register, global, value }),
        (final(stomach).afterassignment, final(front)@) == spec_aa_insert(
            old(stomach).afterassignment,
            old(front)@,
        ),
        final(stomach).data == old(stomach).data,
{
    insert_afterassignment(stomach, front);
    StateAction::SetIntRegister { index: register, global, value }
}

/// Assign a parsed value to a dimension register and insert the
/// afterassignment token.
pub fn assign_dim_register(
    stomach: &mut DefaultStomach,
    front: &mut TokenFront,
    register: usize,
    global: bool,
    value: i32,
) -> (r: StateAction)
    ensures
        r == (StateAction::SetDimRegister { index: register, global, value }),
        (final(stomach).afterassignment, final(front)@) == spec_aa_insert(
            old(stomach).afterassignment,
            old(front)@,
        ),
        final(stomach).data == old(stomach).data,
{
    insert_afterassignment(stomach, front);
    StateAction::SetDimRegister { index: register, global, value }
}

/// Assign a parsed value to a skip register and insert the afterassignment
/// token.
pub fn assign_skip_register(
    stomach: &mut DefaultStomach,
    front: &mut TokenFront,
    register: usize,
    global: bool,
    value: Skip,
) -> (r: StateAction)
    ensures
        r == (StateAction::SetSkipRegister { index: register, global, value }),
        (final(stomach).afterassignment, final(front)@) == spec_aa_insert(
            old(stomach).afterassignment,
            old(front)@,
        ),
        final(stomach).data == old(stomach).data,
{
    insert_afterassignment(stomach, front);
    StateAction::SetSkipRegister { index: register, global, value }
}

/// Assign a parsed value to a mu-skip register and insert the
/// afterassignment token.
pub fn assign_muskip_register(
    stomach: &mut DefaultStomach,
    front: &mut TokenFront,
    register: usize,
    global: bool,
    value: Skip,
) -> (r: StateAction)
    ensures
        r == (StateAction::SetMuSkipRegister { index: register, global, value }),
        (final(stomach).afterassignment, final(front)@) == spec_aa_insert(
            old(stomach).afterassignment,
            old(front)@,
        ),
        final(stomach).data == old(stomach).data,
{
    insert_afterassignment(stomach, front);
    StateAction::SetMuSkipRegister { index: register, global, value }
}

/// Assign a balanced token list to a token register and insert the
/// afterassignment token.
pub fn assign_toks_register(
    stomach: &mut DefaultStomach,
    front: &mut TokenFront,
    register: usize,
    global: bool,
    value: Vec<Token>,
) -> (r: StateAction)
    ensures
        r == (StateAction::SetToksRegister { index: register, global, value }),
        (final(stomach).afterassignment, final(front)@) == spec_aa_insert(
            old(stomach).afterassignment,
            old(front)@,
        ),
        final(stomach).data == old(stomach).data,
{
    insert_afterassignment(stomach, front);
    StateAction::SetToksRegister { index: register, global, value }
}

/// Assign a parsed value to a named integer parameter and insert the
/// afterassignment token.
pub fn assign_primitive_int(
    stomach: &mut DefaultStomach,
    front: &mut TokenFront,
    name: u32,
    global: bool,
    value: i32,
) -> (r: StateAction)
    ensures
        r == (StateAction::SetPrimitiveInt { name, global, value }),
        (final(stomach).afterassignment, final(front)@) == spec_aa_insert(
            old(stomach).afterassignment,
            old(front)@,
        ),
        final(stomach).data == old(stomach).data,
{
    insert_afterassignment(stomach, front);
    StateAction::SetPrimitiveInt { name, global, value }
}

/// Assign a parsed value to a named dimension parameter and insert the
/// afterassignment token.
pub fn assign_primitive_dim(
    stomach: &mut DefaultStomach,
    front: &mut TokenFront,
    name: u32,
    global: bool,
    value: i32,
) -> (r: StateAction)
    ensures
        r == (StateAction::SetPrimitiveDim { name, global, value }),
        (final(stomach).afterassignment, final(front)@) == spec_aa_insert(
            old(stomach).afterassignment,
            old(front)@,
        ),
        final(stomach).data == old(stomach).data,
{
    insert_afterassignment(stomach, front);
    StateAction::SetPrimitiveDim { name, global, value }
}

/// Assign a parsed value to a named skip parameter and insert the
/// afterassignment token.
pub fn assign_primitive_skip(
    stomach: &mut DefaultStomach,
    front: &mut TokenFront,
    name: u32,
    global: bool,
    value: Skip,
) -> (r: StateAction)
    ensures
        r == (StateAction::SetPrimitiveSkip { name, global, value }),
        (final(stomach).afterassignment, final(front)@) == spec_aa_insert(
            old(stomach).afterassignment,
            old(front)@,
        ),
        final(stomach).data == old(stomach).data,
{
    insert_afterassignment(stomach, front);
    StateAction::SetPrimitiveSkip { name, global, value }
}

/// Assign a parsed value to a named mu-skip parameter and insert the
/// afterassignment token.
pub fn assign_primitive_muskip(
    stomach: &mut DefaultStomach,
    front: &mut TokenFront,
    name: u32,
    global: bool,
    value: Skip,
) -> (r: StateAction)
    ensures
        r == (StateAction::SetPrimitiveMuSkip { name, global, value }),
        (final(stomach).afterassignment, final(front)@) == spec_aa_insert(
            old(stomach).afterassignment,
            old(front)@,
        ),
        final(stomach).data == old(stomach).data,
{
    insert_afterassignment(stomach, front);
    StateAction::SetPrimitiveMuSkip { name, global, value }
}

/// Assign a balanced token list to a named token-list parameter and insert
/// the afterassignment token.
pub fn assign_primitive_toks(
    stomach: &mut DefaultStomach,
    front: &mut TokenFront,
    name: u32,
    global: bool,
    value: Vec<Token>,
) -> (r: StateAction)
    ensures
        r == (StateAction::SetPrimitiveToks { name, global, value }),
        (final(stomach).afterassignment, final(front)@) == spec_aa_insert(
            old(stomach).afterassignment,
            old(front)@,
        ),
        final(stomach).data == old(stomach).data,
{
    insert_afterassignment(stomach, front);
    StateAction::SetPrimitiveToks { name, global, value }
}

/// Make a font current and insert the afterassignment token.
pub fn assign_font(stomach: &mut DefaultStomach, front: &mut TokenFront, font: u32, global: bool)
    -> (r: StateAction)
    ensures
        r == (StateAction::SetCurrentFont { font, global }),
        (final(stomach).afterassignment, final(front)@) == spec_aa_insert(
            old(stomach).afterassignment,
            old(front)@,
        ),
        final(stomach).data == old(stomach).data,
{
    insert_afterassignment(stomach, front);
    StateAction::SetCurrentFont { font, global }
}

} // verus!
