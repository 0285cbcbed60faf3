use tex_stomach::actions::{StateAction, StomachError};
use tex_stomach::assign::{
    assign_dim_register, assign_font, assign_int_register, assign_primitive_int, set_afterassignment,
};
use tex_stomach::dims::Skip;
use tex_stomach::marks::MarkMap;
use tex_stomach::math::{delimiter_small, mathchar_from_u32};
use tex_stomach::modes::{switch_decision, CommandScope, ModeDecision, TeXMode};
use tex_stomach::nodes::{
    BoxType, HorizontalListType, MathClass, NodeList, SourceRef, VerticalListType,
};
use tex_stomach::stomach::{DefaultStomach, StomachData};
use tex_stomach::tokens::{CommandCode, Primitive, Token, TokenFront};
use tex_stomach::math::{do_mathchar, math_group_step, open_math, MathGroupStep, MathGroupToken};
use tex_stomach::nodes::MathListTarget;
use tex_stomach::paragraph::open_paragraph;
use tex_stomach::stomach::do_char;

const PT: i32 = 65536;

fn cs(name: u32) -> Token {
    Token::ControlSequence { name }
}

#[test]
fn mode_of_fresh_document_is_vertical() {
    let data = StomachData::default();
    assert_eq!(data.mode(), TeXMode::Vertical);
    assert!(data.mode().is_vertical());
    assert!(!data.mode().is_horizontal());
    assert!(!data.mode().is_math());
    assert!(!data.mode().h_or_m());
}

#[test]
fn mode_follows_top_frame() {
    let mut data = StomachData::default();
    data.open_lists.push(NodeList::Vertical {
        tp: VerticalListType::HAlign,
        children: vec![],
    });
    assert_eq!(data.mode(), TeXMode::InternalVertical);
    data.open_lists.push(NodeList::Horizontal {
        tp: HorizontalListType::Paragraph { start: SourceRef::none() },
        children: vec![],
    });
    assert_eq!(data.mode(), TeXMode::Horizontal);
    data.open_lists.push(NodeList::Horizontal {
        tp: HorizontalListType::VAlign,
        children: vec![],
    });
    assert_eq!(data.mode(), TeXMode::RestrictedHorizontal);
    assert!(data.mode().h_or_m());
}

#[test]
fn mode_of_math_nest_comes_from_top_math_frame() {
    let mut data = StomachData::default();
    data.open_lists.push(NodeList::Horizontal {
        tp: HorizontalListType::Paragraph { start: SourceRef::none() },
        children: vec![],
    });
    let act = open_math(&mut data, true, SourceRef::none());
    assert!(matches!(act, StateAction::PushGroup { .. }));
    assert_eq!(data.mode(), TeXMode::DisplayMath);
    assert!(data.mode().is_math());
    // a nested sub-list still reports the display-ness of the outer frame
    let mut front = TokenFront::new();
    let (step, act2) = math_group_step(
        &mut data,
        &mut front,
        MathGroupToken::BeginGroup,
        MathListTarget::AtomNucleus { cls: MathClass::Op, limits: None },
        SourceRef::none(),
    );
    assert!(matches!(step, MathGroupStep::OpenedList));
    assert!(act2.is_some());
    assert_eq!(data.mode(), TeXMode::DisplayMath);
}

#[test]
fn of_box_type_matches_the_inner_modes() {
    assert_eq!(TeXMode::of_box_type(BoxType::Horizontal), TeXMode::RestrictedHorizontal);
    assert_eq!(TeXMode::of_box_type(BoxType::Vertical), TeXMode::InternalVertical);
    assert_eq!(TeXMode::Vertical.display_name(), "vertical");
    assert_eq!(TeXMode::DisplayMath.display_name(), "display math");
}

#[test]
fn switch_decision_table() {
    let modes = [TeXMode::Vertical, TeXMode::InternalVertical, TeXMode::Horizontal, TeXMode::RestrictedHorizontal, TeXMode::InlineMath,
        TeXMode::DisplayMath];
    for m in modes {
        assert_eq!(switch_decision(CommandScope::Any, m), ModeDecision::Proceed);
    }
    assert_eq!(switch_decision(CommandScope::SwitchesToVertical, TeXMode::Vertical), ModeDecision::Proceed);
    assert_eq!(switch_decision(CommandScope::SwitchesToVertical, TeXMode::InternalVertical), ModeDecision::Proceed);
    assert_eq!(switch_decision(CommandScope::SwitchesToVertical, TeXMode::Horizontal), ModeDecision::CloseParagraph);
    assert_eq!(switch_decision(CommandScope::SwitchesToVertical, TeXMode::RestrictedHorizontal), ModeDecision::NotAllowed);
    assert_eq!(switch_decision(CommandScope::SwitchesToVertical, TeXMode::InlineMath), ModeDecision::NotAllowed);
    assert_eq!(switch_decision(CommandScope::SwitchesToVertical, TeXMode::DisplayMath), ModeDecision::NotAllowed);
    assert_eq!(switch_decision(CommandScope::SwitchesToHorizontal, TeXMode::Vertical), ModeDecision::OpenParagraph);
    assert_eq!(switch_decision(CommandScope::SwitchesToHorizontal, TeXMode::InternalVertical), ModeDecision::OpenParagraph);
    assert_eq!(switch_decision(CommandScope::SwitchesToHorizontal, TeXMode::Horizontal), ModeDecision::Proceed);
    assert_eq!(switch_decision(CommandScope::SwitchesToHorizontal, TeXMode::RestrictedHorizontal), ModeDecision::Proceed);
    assert_eq!(switch_decision(CommandScope::SwitchesToHorizontal, TeXMode::InlineMath), ModeDecision::NotAllowed);
    assert_eq!(switch_decision(CommandScope::SwitchesToHorizontal, TeXMode::DisplayMath), ModeDecision::NotAllowed);
    assert_eq!(switch_decision(CommandScope::SwitchesToHorizontalOrMath, TeXMode::Vertical), ModeDecision::OpenParagraph);
    assert_eq!(switch_decision(CommandScope::SwitchesToHorizontalOrMath, TeXMode::InternalVertical), ModeDecision::OpenParagraph);
    assert_eq!(switch_decision(CommandScope::SwitchesToHorizontalOrMath, TeXMode::Horizontal), ModeDecision::Proceed);
    assert_eq!(switch_decision(CommandScope::SwitchesToHorizontalOrMath, TeXMode::RestrictedHorizontal), ModeDecision::Proceed);
    assert_eq!(switch_decision(CommandScope::SwitchesToHorizontalOrMath, TeXMode::InlineMath), ModeDecision::Proceed);
    assert_eq!(switch_decision(CommandScope::SwitchesToHorizontalOrMath, TeXMode::DisplayMath), ModeDecision::Proceed);
    assert_eq!(switch_decision(CommandScope::MathOnly, TeXMode::Vertical), ModeDecision::NotAllowed);
    assert_eq!(switch_decision(CommandScope::MathOnly, TeXMode::InternalVertical), ModeDecision::NotAllowed);
    assert_eq!(switch_decision(CommandScope::MathOnly, TeXMode::Horizontal), ModeDecision::NotAllowed);
    assert_eq!(switch_decision(CommandScope::MathOnly, TeXMode::RestrictedHorizontal), ModeDecision::NotAllowed);
    assert_eq!(switch_decision(CommandScope::MathOnly, TeXMode::InlineMath), ModeDecision::Proceed);
    assert_eq!(switch_decision(CommandScope::MathOnly, TeXMode::DisplayMath), ModeDecision::Proceed);
}

#[test]
fn default_data_has_documented_initial_values() {
    let data = StomachData::default();
    assert_eq!(data.pagegoal, i32::MAX);
    assert_eq!(data.pagetotal, 0);
    assert_eq!(data.prevdepth, -1000 * PT);
    assert_eq!(data.spacefactor, 1000);
    assert_eq!(data.prevgraf, 0);
    assert_eq!(data.lastpenalty, 0);
    assert_eq!(data.deadcycles, 0);
    assert!(!data.in_output);
    assert!(!data.page_contains_boxes);
    assert!(data.page.is_empty());
    assert!(data.open_lists.is_empty());
}

// Scenario: `\afterassignment\alpha \count0=5 \beta` — the assignment sets
// the register, alpha is requeued exactly once ahead of beta, and neither
// re-triggers the hook.
#[test]
fn afterassignment_inserted_once_per_assignment() {
    let mut st = DefaultStomach::new();
    let mut front = TokenFront::new();
    front.requeue(cs(2)); // beta waits in the stream
    set_afterassignment(&mut st, cs(1)); // alpha
    let act = assign_int_register(&mut st, &mut front, 0, false, 5);
    match act {
        StateAction::SetIntRegister { index, global, value } => {
            assert_eq!(index, 0);
            assert!(!global);
            assert_eq!(value, 5);
        }
        _ => panic!("wrong action"),
    }
    // alpha comes out before beta
    assert_eq!(front.pop_front(), Some(cs(1)));
    assert_eq!(front.pop_front(), Some(cs(2)));
    assert!(st.afterassignment.is_none());
    // a second assignment inserts nothing
    let _ = assign_dim_register(&mut st, &mut front, 7, true, 3 * PT);
    assert_eq!(front.len(), 0);
}

#[test]
fn assignment_actions_carry_their_values() {
    let mut st = DefaultStomach::new();
    let mut front = TokenFront::new();
    match assign_primitive_int(&mut st, &mut front, 42, true, -7) {
        StateAction::SetPrimitiveInt { name, global, value } => {
            assert_eq!(name, 42);
            assert!(global);
            assert_eq!(value, -7);
        }
        _ => panic!("wrong action"),
    }
    match assign_font(&mut st, &mut front, 3, false) {
        StateAction::SetCurrentFont { font, global } => {
            assert_eq!(font, 3);
            assert!(!global);
        }
        _ => panic!("wrong action"),
    }
}

#[test]
fn token_front_orders_requeues_and_lists() {
    let mut front = TokenFront::new();
    front.requeue(cs(3));
    front.requeue(cs(2));
    front.push_list(&vec![cs(0), cs(1)]);
    assert_eq!(front.len(), 4);
    assert_eq!(front.pop_front(), Some(cs(0)));
    assert_eq!(front.pop_front(), Some(cs(1)));
    assert_eq!(front.pop_front(), Some(cs(2)));
    assert_eq!(front.pop_front(), Some(cs(3)));
    assert_eq!(front.pop_front(), None);
}

#[test]
fn mark_map_records_latest_entry_per_class() {
    let mut m = MarkMap::new();
    assert!(m.get(0).is_none());
    m.set(0, vec![cs(1)]);
    m.set(2, vec![cs(2)]);
    m.set(0, vec![cs(3)]);
    assert_eq!(m.get(0).unwrap().as_slice(), &[cs(3)]);
    assert_eq!(m.get(2).unwrap().as_slice(), &[cs(2)]);
    assert!(m.get(1).is_none());
}

#[test]
fn mathchar_decodes_class_family_slot() {
    let mc = mathchar_from_u32(0x1234, None);
    assert_eq!(mc.cls, MathClass::Op);
    assert_eq!(mc.fam, 2);
    assert_eq!(mc.code_point, 0x34);
    let mc2 = mathchar_from_u32(0x7041, Some('x'));
    assert_eq!(mc2.cls, MathClass::Ord); // variable family behaves as ordinary
    assert_eq!(mc2.fam, 0);
    assert_eq!(mc2.code_point, 'x' as u32);
    let mc3 = mathchar_from_u32(0x2000 + 0x100 + 0x2B, None);
    assert_eq!(mc3.cls, MathClass::Bin);
    assert_eq!(mc3.fam, 1);
    assert_eq!(mc3.code_point, 0x2B);
}

#[test]
fn delimiter_code_decodes_or_reports() {
    let mc = delimiter_small(0x1234567).unwrap();
    assert_eq!(mc.cls, MathClass::Op);
    assert_eq!(mc.fam, 2);
    assert_eq!(mc.code_point, 0x34);
    match delimiter_small(-1) {
        Err(StomachError::BadDelimiter { code }) => assert_eq!(code, -1),
        _ => panic!("expected a bad delimiter report"),
    }
    match delimiter_small(0x8000000) {
        Err(StomachError::BadDelimiter { code }) => assert_eq!(code, 0x8000000),
        _ => panic!("expected a bad delimiter report"),
    }
}

#[test]
fn do_mathchar_requeues_active_sentinel() {
    let mut data = StomachData::default();
    let mut front = TokenFront::new();
    open_math(&mut data, false, SourceRef::none());
    do_mathchar(
        &mut data,
        &mut front,
        32768,
        Some(Token::Character { char: '~', code: CommandCode::Letter }),
    );
    assert_eq!(
        front.pop_front(),
        Some(Token::Character { char: '~', code: CommandCode::Active })
    );
    match &data.open_lists[0] {
        NodeList::Math { children, .. } => assert!(children.is_empty()),
        _ => panic!("math frame expected"),
    }
}

#[test]
fn space_factor_follows_the_character_codes() {
    let mut data = StomachData::default();
    data.open_lists.push(NodeList::Horizontal {
        tp: HorizontalListType::Paragraph { start: SourceRef::none() },
        children: vec![],
    });
    do_char(&mut data, 'a', PT, PT, 0, 900);
    assert_eq!(data.spacefactor, 900);
    // a raising code from below neutral only restores neutral
    do_char(&mut data, ')', PT, PT, 0, 1500);
    assert_eq!(data.spacefactor, 1000);
    do_char(&mut data, ')', PT, PT, 0, 1500);
    assert_eq!(data.spacefactor, 1500);
    // code zero keeps the factor
    do_char(&mut data, 'q', PT, PT, 0, 0);
    assert_eq!(data.spacefactor, 1500);
    match &data.open_lists[0] {
        NodeList::Horizontal { children, .. } => assert_eq!(children.len(), 4),
        _ => panic!("horizontal frame expected"),
    }
}

#[test]
fn noindent_primitive_is_consumed_when_opening() {
    let mut data = StomachData::default();
    let mut front = TokenFront::new();
    open_paragraph(
        &mut data,
        &mut front,
        Token::Primitive { prim: Primitive::Noindent },
        SourceRef::none(),
        20 * PT,
        &vec![cs(9)],
    );
    assert_eq!(data.prevgraf, 0);
    assert_eq!(front.pop_front(), Some(cs(9)));
    assert_eq!(front.pop_front(), None);
    match &data.open_lists[0] {
        NodeList::Horizontal { tp: HorizontalListType::Paragraph { .. }, children } => {
            assert!(children.is_empty());
        }
        _ => panic!("paragraph frame expected"),
    }
}

#[test]
fn everypar_tokens_precede_the_requeued_trigger() {
    let mut data = StomachData::default();
    let mut front = TokenFront::new();
    front.requeue(cs(30)); // already waiting in the stream
    let trigger = Token::Character { char: 'Q', code: CommandCode::Letter };
    open_paragraph(&mut data, &mut front, trigger, SourceRef::none(), 0, &vec![cs(10), cs(11)]);
    assert_eq!(front.pop_front(), Some(cs(10)));
    assert_eq!(front.pop_front(), Some(cs(11)));
    assert_eq!(front.pop_front(), Some(trigger));
    assert_eq!(front.pop_front(), Some(cs(30)));
}
