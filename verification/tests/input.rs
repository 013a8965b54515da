use herdr_gui::input::{
    modifier_bits, mouse_button, pixel_to_cell, scroll_kinds, translate_key, ElementState, Key, Modifiers, MouseButton, NamedKey,
    CONTROL, SHIFT,
};
use herdr_gui::protocol::{ClientInputEvent, ClientKeyCode, ClientKeyKind, ClientMouseButton, ClientMouseKind};

fn shift() -> Modifiers {
    Modifiers { shift: true, ..Modifiers::default() }
}

#[test]
fn shifted_letter_reports_uppercase_with_shift() {
    let event = translate_key(&Key::Character("N".into()), shift(), ElementState::Pressed, false).expect("event");
    match event {
        ClientInputEvent::Key { code, modifiers, .. } => {
            assert_eq!(code, ClientKeyCode::Char('N'));
            assert_eq!(modifiers & SHIFT, SHIFT);
        }
        other => panic!("unexpected event: {other:?}"),
    }
}

#[test]
fn ctrl_b_carries_control_modifier() {
    let state = Modifiers { control: true, ..Modifiers::default() };
    let event = translate_key(&Key::Character("b".into()), state, ElementState::Pressed, false).expect("event");
    match event {
        ClientInputEvent::Key { code, modifiers, .. } => {
            assert_eq!(code, ClientKeyCode::Char('b'));
            assert_eq!(modifiers & CONTROL, CONTROL);
        }
        other => panic!("unexpected event: {other:?}"),
    }
}

#[test]
fn releases_are_dropped() {
    assert!(translate_key(&Key::Character("a".into()), Modifiers::default(), ElementState::Released, false).is_none());
}

#[test]
fn shift_tab_becomes_backtab() {
    let event = translate_key(&Key::Named(NamedKey::Tab), shift(), ElementState::Pressed, false).expect("event");
    match event {
        ClientInputEvent::Key { code, .. } => assert_eq!(code, ClientKeyCode::BackTab),
        other => panic!("unexpected: {other:?}"),
    }
}

#[test]
fn pixel_to_cell_clamps() {
    assert_eq!(pixel_to_cell(0, 0, 8, 16, 80, 24), (0, 0));
    assert_eq!(pixel_to_cell(8, 16, 8, 16, 80, 24), (1, 1));
    assert_eq!(pixel_to_cell(100000, 100000, 8, 16, 80, 24), (79, 23));
}

#[test]
fn pixel_to_cell_degenerate_grid() {
    assert_eq!(pixel_to_cell(50, 50, 0, 16, 80, 24), (0, 0));
    assert_eq!(pixel_to_cell(50, 50, 8, 16, 0, 24), (0, 0));
}

#[test]
fn shifted_symbol_keeps_only_other_modifiers() {
    let state = Modifiers { shift: true, alt: true, ..Modifiers::default() };
    let event = translate_key(&Key::Character("!".into()), state, ElementState::Pressed, true);
    assert_eq!(
        event,
        Some(ClientInputEvent::Key { code: ClientKeyCode::Char('!'), modifiers: 0b100, kind: ClientKeyKind::Repeat })
    );
}

#[test]
fn named_keys_carry_all_modifiers() {
    let state = Modifiers { shift: true, control: true, alt: true, super_key: true };
    assert_eq!(modifier_bits(state), 0b1111);
    let event = translate_key(&Key::Named(NamedKey::F(5)), state, ElementState::Pressed, false);
    assert_eq!(
        event,
        Some(ClientInputEvent::Key { code: ClientKeyCode::F(5), modifiers: 0b1111, kind: ClientKeyKind::Press })
    );
    assert_eq!(
        translate_key(&Key::Named(NamedKey::Space), Modifiers::default(), ElementState::Pressed, false),
        Some(ClientInputEvent::Key { code: ClientKeyCode::Char(' '), modifiers: 0, kind: ClientKeyKind::Press })
    );
}

#[test]
fn keys_without_terminal_meaning_give_nothing() {
    let pressed = ElementState::Pressed;
    assert_eq!(translate_key(&Key::Named(NamedKey::Unmapped), Modifiers::default(), pressed, false), None);
    assert_eq!(translate_key(&Key::Named(NamedKey::F(13)), Modifiers::default(), pressed, false), None);
    assert_eq!(translate_key(&Key::Character(String::new()), Modifiers::default(), pressed, false), None);
    assert_eq!(translate_key(&Key::Other, Modifiers::default(), pressed, false), None);
}

#[test]
fn mouse_buttons_map() {
    assert_eq!(mouse_button(MouseButton::Left), Some(ClientMouseButton::Left));
    assert_eq!(mouse_button(MouseButton::Middle), Some(ClientMouseButton::Middle));
    assert_eq!(mouse_button(MouseButton::Other), None);
}

#[test]
fn wheel_signs_give_vertical_then_horizontal_scrolls() {
    assert_eq!(scroll_kinds(1, -1), vec![ClientMouseKind::ScrollUp, ClientMouseKind::ScrollLeft]);
    assert_eq!(scroll_kinds(-1, 0), vec![ClientMouseKind::ScrollDown]);
    assert_eq!(scroll_kinds(0, 1), vec![ClientMouseKind::ScrollRight]);
    assert!(scroll_kinds(0, 0).is_empty());
}
