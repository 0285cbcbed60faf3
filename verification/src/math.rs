use vstd::prelude::*;
use crate::actions::{GroupKind, StateAction, StomachError};
use crate::nodes::{
    MathAtom, MathChar, MathClass, MathKernel, MathListTarget, MathListType, MathNode,
    MathNucleus, NodeList, SourceRef,
};
use crate::stomach::{
    add_node_m, eq_except_lists, math_receptive, StomachData,
};
use crate::tokens::{CommandCode, Token, TokenFront};

verus! {

/// The class encoded by a three-bit math class index; the variable-family
/// class behaves as an ordinary atom here.
pub open spec fn spec_math_class_of(u: int) -> MathClass {
    if u == 1 {
        MathClass::Op
    } else if u == 2 {
        MathClass::Bin
    } else if u == 3 {
        MathClass::Rel
    } else if u == 4 {
        MathClass::Open
    } else if u == 5 {
        MathClass::Close
    } else if u == 6 {
        MathClass::Punct
    } else {
        MathClass::Ord
    }
}

/// The math character encoded by a math code below the active-character
/// sentinel: class, family and slot packed as `cls * 4096 + fam * 256 +
/// slot`. A known character replaces the slot as the code point.
pub open spec fn spec_mathchar_of(code: int, ch: Option<char>) -> MathChar {
    MathChar {
        code_point: (match ch {
            Some(c) => c as int,
            None => code % 256,
        }) as u32,
        cls: spec_math_class_of(code / 4096),
        fam: ((code / 256) % 16) as u32,
    }
}

/// Decodes a math code into class, family and code point. Codes at or
/// above the active-character sentinel are the caller's to handle.
pub fn mathchar_from_u32(code: u32, ch: Option<char>) -> (r: MathChar)
    requires
        code < 32768,
    ensures
        r == spec_mathchar_of(code as int, ch),
{
    let cls_idx = code / 4096;
    let cls = if cls_idx == 1 {
        MathClass::Op
    } else if cls_idx == 2 {
        MathClass::Bin
    } else if cls_idx == 3 {
        MathClass::Rel
    } else if cls_idx == 4 {
        MathClass::Open
    } else if cls_idx == 5 {
        MathClass::Close
    } else if cls_idx == 6 {
        MathClass::Punct
    } else {
        MathClass::Ord
    };
    let fam = (code / 256) % 16;
    let code_point: u32 = match ch {
        Some(c) => c as u32,
        None => code % 256,
    };
    MathChar { code_point, cls, fam }
}

/// The math character a delimiter code designates through its small
/// variant: the class from the top three bits and the small variant's
/// family and slot from the middle twelve.
pub open spec fn spec_delimiter_small(code: int) -> MathChar {
    spec_mathchar_of((code / 16777216) * 4096 + (code / 4096) % 4096, None)
}

/// Whether a delimiter code is in range: non-negative and below 2^27.
pub open spec fn spec_delimiter_ok(code: int) -> bool {
    0 <= code < 134217728
}

/// Decodes a delimiter code into the math character of its small variant.
/// An out-of-range code is reported; the engine recovers by continuing
/// with an ordinary empty character, as the error is not fatal.
pub fn delimiter_small(code: i32) -> (r: Result<MathChar, StomachError>)
    ensures
        spec_delimiter_ok(code as int) ==> r == Ok::<MathChar, StomachError>(
            spec_delimiter_small(code as int),
        ),
        !spec_delimiter_ok(code as int) ==> r == Err::<MathChar, StomachError>(
            StomachError::BadDelimiter { code },
        ),
{
    if code < 0 || code >= 134217728 {
        return Err(StomachError::BadDelimiter { code });
    }
    let cls = code / 16777216;
    let small = (code / 4096) % 4096;
    let packed: i32 = cls * 4096 + small;
    proof {
        assert(0 <= packed < 32768) by {
            assert(code / 16777216 < 8);
            assert((code / 4096) % 4096 < 4096);
        };
    }
    Ok(mathchar_from_u32(packed as u32, None))
}

/// The atom one plain character becomes in a math list: an ordinary atom
/// whose kernel is the character in family zero, without scripts.
pub open spec fn spec_plain_char_atom(ch: char) -> MathNode {
    MathNode::Atom(
        MathAtom {
            nucleus: MathNucleus::Simple {
                cls: MathClass::Ord,
                limits: None,
                kernel: MathKernel::Char { code_point: ch as u32, fam: 0 },
            },
            sub: None,
            sup: None,
        },
    )
}

/// Processes a plain character in math mode: wraps it as an ordinary atom
/// with a simple character kernel at family zero and appends it to the
/// current math list.
pub fn do_char_in_math(data: &mut StomachData, char: char)
    requires
        math_receptive(old(data).open_lists@),
    ensures
        final(data).open_lists@.len() == old(data).open_lists@.len(),
        forall|i: int|
            0 <= i < old(data).open_lists@.len() - 1 ==> final(data).open_lists@[i] == old(
                data,
            ).open_lists@[i],
        final(data).open_lists@.last() is Math,
        final(data).open_lists@.last().m_tp() == old(data).open_lists@.last().m_tp(),
        final(data).open_lists@.last().m_children() == old(
            data,
        ).open_lists@.last().m_children().push(spec_plain_char_atom(char)),
        eq_except_lists(*old(data), *final(data)),
        final(data).lastpenalty == old(data).lastpenalty,
{
    add_node_m(
        data,
        MathNode::Atom(
            MathAtom {
                nucleus: MathNucleus::Simple {
                    cls: MathClass::Ord,
                    limits: None,
                    kernel: MathKernel::Char { code_point: char as u32, fam: 0 },
                },
                sub: None,
                sup: None,
            },
        ),
    );
}

/// Processes a math-code value. The sentinel code on a known character
/// requeues it as an active character and appends nothing; any other code
/// is decoded and appended as an atom of its class.
pub fn do_mathchar(data: &mut StomachData, front: &mut TokenFront, code: u32, token: Option<Token>)
    requires
        math_receptive(old(data).open_lists@),
        code <= 32768,
        code == 32768 ==> (token matches Some(Token::Character { .. })),
    ensures
        code == 32768 ==> {
            &&& *final(data) == *old(data)
            &&& final(front)@ == seq![
                Token::Character {
                    char: token->Some_0->Character_char,
                    code: CommandCode::Active,
                },
            ] + old(front)@
        },
        code != 32768 ==> {
            let hint = (match token {
                Some(Token::Character { char, .. }) => Some(char),
                _ => None,
            });
            &&& final(front)@ == old(front)@
            &&& final(data).open_lists@.len() == old(data).open_lists@.len()
            &&& (forall|i: int|
                0 <= i < old(data).open_lists@.len() - 1 ==> final(data).open_lists@[i] == old(
                    data,
                ).open_lists@[i])
            &&& final(data).open_lists@.last() is Math
            &&& final(data).open_lists@.last().m_tp() == old(data).open_lists@.last().m_tp()
            &&& final(data).open_lists@.last().m_children() == old(
                data,
            ).open_lists@.last().m_children().push(
                MathNode::Atom(
                    MathAtom {
                        nucleus: MathNucleus::Simple {
                            cls: spec_mathchar_of(code as int, hint).cls,
                            limits: None,
                            kernel: MathKernel::Char {
                                code_point: spec_mathchar_of(code as int, hint).code_point,
                                fam: spec_mathchar_of(code as int, hint).fam,
                            },
                        },
                        sub: None,
                        sup: None,
                    },
                ),
            )
            &&& eq_except_lists(*old(data), *final(data))
            &&& final(data).lastpenalty == old(data).lastpenalty
        },
{
    if code == 32768 {
        match token {
            Some(Token::Character { char, .. }) => {
                front.requeue(Token::Character { char, code: CommandCode::Active });
            },
            _ => {
                proof {
                    assert(false);
                }
            },
        }
    } else {
        match token {
            Some(Token::Character { char, .. }) => {
                let mc = mathchar_from_u32(code, Some(char));
                add_node_m(data, MathNode::Atom(MathAtom::of_char(mc)));
            },
            _ => {
                let mc = mathchar_from_u32(code, None);
                add_node_m(data, MathNode::Atom(MathAtom::of_char(mc)));
            },
        }
    }
}

/// Opens the outermost math list of a math nest, recording whether it is
/// display math. The engine pushes a math group around it (the returned
/// action).
pub fn open_math(data: &mut StomachData, display: bool, start: SourceRef) -> (act: StateAction)
    ensures
        act == (StateAction::PushGroup { kind: GroupKind::Math }),
        final(data).open_lists@.len() == old(data).open_lists@.len() + 1,
        forall|i: int|
            0 <= i < old(data).open_lists@.len() ==> final(data).open_lists@[i] == old(
                data,
            ).open_lists@[i],
        final(data).open_lists@.last().m_tp() == Some(MathListType::Top { display }),
        final(data).open_lists@.last().m_children() == Seq::<MathNode>::empty(),
        final(data).open_lists@.last().m_start() == Some(start),
        eq_except_lists(*old(data), *final(data)),
        final(data).lastpenalty == old(data).lastpenalty,
{
    data.open_lists.push(
        NodeList::Math { tp: MathListType::Top { display }, children: Vec::new(), start },
    );
    StateAction::PushGroup { kind: GroupKind::Math }
}

/// A resolved token as it matters while scanning for a math character or
/// group: spaces and relax are skipped; a begin-group opens a sub-list; a
/// plain character comes with the math code the symbol table gives it; a
/// math-char or delimiter command carries its code.
#[derive(Clone, Copy, PartialEq, Eq, Structural, Debug)]
pub enum MathGroupToken {
    Space,
    Relax,
    BeginGroup,
    CharTok { char: char, mathcode: u32 },
    MathCharCmd { code: u32 },
    DelimiterCmd { code: i32 },
    Other,
}

/// What one scanning step decided while reading a math character or group.
#[derive(Clone, Copy, PartialEq, Eq, Structural, Debug)]
pub enum MathGroupStep {
    /// Keep scanning.
    Continue,
    /// A math sub-list frame was pushed (the engine pushes the math group
    /// of the returned action); the continuation is invoked when it
    /// closes.
    OpenedList,
    /// A math character was read: the caller hands it to its continuation.
    UseChar { mc: MathChar },
    /// An active character was requeued; keep scanning.
    RequeuedActive,
    /// A bad delimiter code was reported; the caller recovers with the
    /// carried error and continues with nothing read.
    Rejected { error: StomachError },
}

/// One step of reading a math character or group, as the commands for an
/// atom's kernel demand (for instance an operator's nucleus): a space or
/// relax is skipped; a begin-group pushes a fresh math sub-list whose
/// close will dispatch to the recorded continuation; a character with the
/// active math code is requeued as an active character; any other
/// character, math-char or delimiter yields its math character; anything
/// else is rejected as a missing group.
pub fn math_group_step(
    data: &mut StomachData,
    front: &mut TokenFront,
    tok: MathGroupToken,
    target: MathListTarget,
    start: SourceRef,
) -> (r: (MathGroupStep, Option<StateAction>))
    requires
        math_receptive(old(data).open_lists@),
    ensures
        (match tok {
            MathGroupToken::Space | MathGroupToken::Relax => r.0 == MathGroupStep::Continue
                && *final(data) == *old(data) && final(front)@ == old(front)@ && r.1 is None,
            MathGroupToken::BeginGroup => {
                &&& r.0 == MathGroupStep::OpenedList
                &&& r.1 == Some(StateAction::PushGroup { kind: GroupKind::Math })
                &&& final(front)@ == old(front)@
                &&& final(data).open_lists@.len() == old(data).open_lists@.len() + 1
                &&& (forall|i: int|
                    0 <= i < old(data).open_lists@.len() ==> final(data).open_lists@[i] == old(
                        data,
                    ).open_lists@[i])
                &&& final(data).open_lists@.last().m_tp() == Some(
                    MathListType::Target { target },
                )
                &&& final(data).open_lists@.last().m_children() == Seq::<MathNode>::empty()
                &&& final(data).open_lists@.last().m_start() == Some(start)
                &&& eq_except_lists(*old(data), *final(data))
                &&& final(data).lastpenalty == old(data).lastpenalty
            },
            MathGroupToken::CharTok { char, mathcode } => {
                &&& *final(data) == *old(data)
                &&& r.1 is None
                &&& (if mathcode == 32768 {
                    r.0 == MathGroupStep::RequeuedActive && final(front)@ == seq![
                        Token::Character { char, code: CommandCode::Active },
                    ] + old(front)@
                } else {
                    r.0 == (MathGroupStep::UseChar {
                        mc: spec_mathchar_of(mathcode as int % 32768, Some(char)),
                    }) && final(front)@ == old(front)@
                })
            },
            MathGroupToken::MathCharCmd { code } => {
                &&& *final(data) == *old(data)
                &&& final(front)@ == old(front)@
                &&& r.1 is None
                &&& r.0 == (MathGroupStep::UseChar {
                    mc: spec_mathchar_of(code as int % 32768, None),
                })
            },
            MathGroupToken::DelimiterCmd { code } => {
                &&& *final(data) == *old(data)
                &&& final(front)@ == old(front)@
                &&& r.1 is None
                &&& (if spec_delimiter_ok(code as int) {
                    r.0 == (MathGroupStep::UseChar { mc: spec_delimiter_small(code as int) })
                } else {
                    r.0 == (MathGroupStep::Rejected {
                        error: StomachError::BadDelimiter { code },
                    })
                })
            },
            MathGroupToken::Other => r.0 == (MathGroupStep::Rejected {
                error: StomachError::MathCharExpected,
            }) && *final(data) == *old(data) && final(front)@ == old(front)@ && r.1 is None,
        }),
{
    match tok {
        MathGroupToken::Space => (MathGroupStep::Continue, None),
        MathGroupToken::Relax => (MathGroupStep::Continue, None),
        MathGroupToken::BeginGroup => {
            data.open_lists.push(
                NodeList::Math { tp: MathListType::Target { target }, children: Vec::new(), start },
            );
            (MathGroupStep::OpenedList, Some(StateAction::PushGroup { kind: GroupKind::Math }))
        },
        MathGroupToken::CharTok { char, mathcode } => {
            if mathcode == 32768 {
                front.requeue(Token::Character { char, code: CommandCode::Active });
                (MathGroupStep::RequeuedActive, None)
            } else {
                let mc = mathchar_from_u32(mathcode % 32768, Some(char));
                (MathGroupStep::UseChar { mc }, None)
            }
        },
        MathGroupToken::MathCharCmd { code } => {
            let mc = mathchar_from_u32(code % 32768, None);
            (MathGroupStep::UseChar { mc }, None)
        },
        MathGroupToken::DelimiterCmd { code } => {
            match delimiter_small(code) {
                Ok(mc) => (MathGroupStep::UseChar { mc }, None),
                Err(e) => (MathGroupStep::Rejected { error: e }, None),
            }
        },
        MathGroupToken::Other => {
            (MathGroupStep::Rejected { error: StomachError::MathCharExpected }, None)
        },
    }
}

/// Whether the top of the stack is a math sub-list opened for a deferred
/// continuation.
pub open spec fn spec_math_target_on_top(stack: Seq<NodeList>) -> bool {
    stack.len() > 0 && (stack.last() matches NodeList::Math {
        tp: MathListType::Target { .. },
        ..
    })
}

/// The atom a closed math sub-list becomes when its continuation asked for
/// an atom nucleus.
pub open spec fn spec_list_atom(
    cls: MathClass,
    limits: Option<bool>,
    children: Vec<MathNode>,
) -> MathNode {
    MathNode::Atom(
        MathAtom {
            nucleus: MathNucleus::Simple {
                cls,
                limits,
                kernel: MathKernel::List { children },
            },
            sub: None,
            sup: None,
        },
    )
}

/// Closes a math sub-list when its group ends and invokes the recorded
/// continuation: the children become the nucleus of a new atom appended to
/// the enclosing math list, or are appended to it as they are. The engine
/// pops the math group (the returned action). Closing without such a frame
/// on top, or without an enclosing math frame, is the internal error and
/// changes nothing.
pub fn close_math_group(data: &mut StomachData) -> (r: Result<StateAction, StomachError>)
    ensures
        !(spec_math_target_on_top(old(data).open_lists@) && math_receptive(
            old(data).open_lists@.drop_last(),
        )) ==> r == Err::<StateAction, StomachError>(StomachError::InternalListMismatch) && *final(data) == *old(data),
        spec_math_target_on_top(old(data).open_lists@) && math_receptive(
            old(data).open_lists@.drop_last(),
        ) ==> r == Ok::<StateAction, StomachError>(StateAction::PopGroup) && ({
            let s = old(data).open_lists@;
            let below = s.drop_last();
            let children = s.last()->Math_children;
            let target = s.last()->Math_tp->Target_target;
            &&& final(data).open_lists@.len() == below.len()
            &&& (forall|i: int| 0 <= i < below.len() - 1 ==> final(data).open_lists@[i] == below[i])
            &&& final(data).open_lists@.last() is Math
            &&& final(data).open_lists@.last().m_tp() == below.last().m_tp()
            &&& final(data).open_lists@.last().m_children() == (match target {
                MathListTarget::AtomNucleus { cls, limits } => below.last().m_children().push(
                    spec_list_atom(cls, limits, children),
                ),
                MathListTarget::Inline => below.last().m_children() + children@,
            })
            &&& eq_except_lists(*old(data), *final(data))
            &&& final(data).lastpenalty == old(data).lastpenalty
        }),
{
    let n = data.open_lists.len();
    let accepts: bool = if n < 2 {
        false
    } else {
        matches!(
            &data.open_lists[n - 1],
            NodeList::Math { tp: MathListType::Target { .. }, .. }
        ) && matches!(&data.open_lists[n - 2], NodeList::Math { .. })
    };
    proof {
        if n > 0 {
            assert(data.open_lists@.last() == data.open_lists@[n as int - 1]);
        }
        if n > 1 {
            assert(data.open_lists@.drop_last().last() == data.open_lists@[n as int - 2]);
            assert(data.open_lists@.drop_last().len() == n as int - 1);
        }
    }
    if !accepts {
        return Err(StomachError::InternalListMismatch);
    }
    let frame = data.open_lists.pop().unwrap();
    match frame {
        NodeList::Math { tp: MathListType::Target { target }, children, .. } => {
            match target {
                MathListTarget::AtomNucleus { cls, limits } => {
                    add_node_m(
                        data,
                        MathNode::Atom(
                            MathAtom {
                                nucleus: MathNucleus::Simple {
                                    cls,
                                    limits,
                                    kernel: MathKernel::List { children },
                                },
                                sub: None,
                                sup: None,
                            },
                        ),
                    );
                    Ok(StateAction::PopGroup)
                },
                MathListTarget::Inline => {
                    let frame2 = data.open_lists.pop().unwrap();
                    match frame2 {
                        NodeList::Math { tp, children: mut below_children, start } => {
                            let ghost c0 = below_children@;
                            let ghost all = children@;
                            let mut rest = children;
                            let total: usize = rest.len();
                            let mut i: usize = 0;
                            proof {
                                assert(rest@ =~= all.skip(0));
                                assert(below_children@ =~= c0 + all.take(0));
                            }
                            while rest.len() > 0
                                invariant
                                    all.len() == total,
                                    i + rest@.len() == all.len(),
                                    rest@ == all.skip(i as int),
                                    below_children@ == c0 + all.take(i as int),
                                decreases rest@.len(),
                            {
                                let node = rest.remove(0);
                                proof {
                                    assert(all.skip(i as int)[0] == all[i as int]);
                                    assert(all.skip(i as int).remove(0) =~= all.skip(i as int + 1));
                                    assert((c0 + all.take(i as int)).push(all[i as int]) =~= c0
                                        + all.take(i as int + 1));
                                }
                                below_children.push(node);
                                i = i + 1;
                            }
                            proof {
                                assert(all.take(all.len() as int) =~= all);
                            }
                            data.open_lists.push(
                                NodeList::Math { tp, children: below_children, start },
                            );
                            Ok(StateAction::PopGroup)
                        },
                        other => {
                            proof {
                                assert(false);
                            }
                            data.open_lists.push(other);
                            Err(StomachError::InternalListMismatch)
                        },
                    }
                },
            }
        },
        other => {
            proof {
                assert(false);
            }
            data.open_lists.push(other);
            Err(StomachError::InternalListMismatch)
        },
    }
}

} // verus!
