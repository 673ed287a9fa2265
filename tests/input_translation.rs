use nvim_grid::events::ClientEvent;
use nvim_grid::input::{
    mouse_button_down, mouse_button_up, mouse_motion, mouse_wheel, resize_request, translate_key_down,
    translate_text_input, update_modifier_state, InputState, Key, ModKeys, MouseButtonState,
};

fn mods(shift: bool, ctrl: bool, alt: bool) -> ModKeys {
    ModKeys { lshift: shift, rshift: false, lctrl: false, rctrl: ctrl, lalt: alt, ralt: false }
}

fn texts(events: &[ClientEvent]) -> Vec<String> {
    events
        .iter()
        .map(|e| match e {
            ClientEvent::Text(t) => t.clone(),
            _ => panic!("expected text"),
        })
        .collect()
}

fn mouse_parts(e: &ClientEvent) -> (String, String, String, i64, i64, i64) {
    match e {
        ClientEvent::Mouse { button, action, modifier, grid, row, col } => {
            (button.clone(), action.clone(), modifier.clone(), *grid, *row, *col)
        }
        _ => panic!("expected mouse"),
    }
}

#[test]
fn modifiers_are_tracked_on_either_side() {
    let mut s = InputState::new();
    update_modifier_state(&ModKeys { lshift: false, rshift: true, lctrl: true, rctrl: false, lalt: false, ralt: false }, &mut s);
    assert!(s.shift_down && s.ctrl_down && !s.alt_down);
}

#[test]
fn ctrl_letter_sends_chord() {
    let mut s = InputState::new();
    assert_eq!(texts(&translate_key_down(&mut s, Key::A, &mods(false, true, false))), vec!["<C-a>"]);
    assert_eq!(texts(&translate_key_down(&mut s, Key::Space, &mods(false, true, true))), vec!["<M-C-Space>"]);
}

#[test]
fn plain_letter_is_left_to_text_input() {
    let mut s = InputState::new();
    assert!(translate_key_down(&mut s, Key::A, &mods(true, false, false)).is_empty());
    assert!(translate_key_down(&mut s, Key::Other, &mods(false, true, false)).is_empty());
}

#[test]
fn shift_changes_symbol_not_prefix() {
    let mut s = InputState::new();
    assert_eq!(texts(&translate_key_down(&mut s, Key::Num2, &mods(true, false, true))), vec!["<M-@>"]);
    assert_eq!(texts(&translate_key_down(&mut s, Key::Backslash, &mods(true, true, false))), vec!["<C-|>"]);
    assert_eq!(texts(&translate_key_down(&mut s, Key::B, &mods(true, true, false))), vec!["<C-b>"]);
}

#[test]
fn special_keys_carry_all_modifiers() {
    let mut s = InputState::new();
    assert_eq!(texts(&translate_key_down(&mut s, Key::Escape, &mods(false, false, false))), vec!["<Esc>"]);
    assert_eq!(texts(&translate_key_down(&mut s, Key::Return, &mods(true, true, true))), vec!["<M-C-S-CR>"]);
    assert_eq!(texts(&translate_key_down(&mut s, Key::Kp0, &mods(false, false, false))), vec!["<k0>"]);
    assert_eq!(texts(&translate_key_down(&mut s, Key::F12, &mods(true, false, false))), vec!["<S-F12>"]);
}

#[test]
fn text_input_only_without_ctrl_or_alt() {
    let mut s = InputState::new();
    match translate_text_input(&s, "Ä".to_string()) {
        Some(ClientEvent::Text(t)) => assert_eq!(t, "Ä"),
        _ => panic!("expected text"),
    }
    update_modifier_state(&mods(false, true, false), &mut s);
    assert!(translate_text_input(&s, "a".to_string()).is_none());
}

#[test]
fn button_names() {
    assert_eq!(MouseButtonState::Left.to_string(), "left");
    assert_eq!(MouseButtonState::Right.to_string(), "right");
    assert_eq!(MouseButtonState::Middle.to_string(), "middle");
    assert_eq!(MouseButtonState::Nil.to_string(), "");
}

#[test]
fn double_click_presses_twice_at_cell() {
    let mut s = InputState::new();
    let out = mouse_button_down(&mut s, MouseButtonState::Left, 25, 41, 2, 10, 20);
    assert_eq!(out.len(), 2);
    for e in &out {
        assert_eq!(mouse_parts(e), ("left".to_string(), "press".to_string(), String::new(), 0, 2, 2));
    }
    assert_eq!((s.mouse_row, s.mouse_col), (2, 2));
    let none = mouse_button_down(&mut s, MouseButtonState::Nil, 5, 5, 1, 10, 20);
    assert!(none.is_empty());
}

#[test]
fn drag_and_release() {
    let mut s = InputState::new();
    assert!(mouse_motion(&mut s, 100, 100, 10, 20).is_none());
    mouse_button_down(&mut s, MouseButtonState::Right, 0, 0, 1, 10, 20);
    let drag = mouse_motion(&mut s, 35, 65, 10, 20).unwrap();
    assert_eq!(mouse_parts(&drag), ("right".to_string(), "drag".to_string(), String::new(), 0, 3, 3));
    let up = mouse_button_up(&mut s, MouseButtonState::Right);
    assert_eq!(mouse_parts(&up), ("right".to_string(), "release".to_string(), String::new(), 0, 3, 3));
    assert_eq!(s.mouse_button, MouseButtonState::Nil);
}

#[test]
fn negative_pixels_round_toward_zero() {
    let mut s = InputState::new();
    mouse_button_down(&mut s, MouseButtonState::Left, -15, -5, 1, 10, 20);
    assert_eq!((s.mouse_row, s.mouse_col), (0, -1));
}

#[test]
fn wheel_directions() {
    let s = InputState::new();
    let action = |x, y| mouse_parts(&mouse_wheel(&s, x, y)).1;
    assert_eq!(action(0, 1), "up");
    assert_eq!(action(0, -1), "down");
    assert_eq!(action(1, 0), "right");
    assert_eq!(action(-1, 0), "left");
    assert_eq!(action(2, 2), "");
    assert_eq!(mouse_parts(&mouse_wheel(&s, 0, 1)).0, "wheel");
}

#[test]
fn resize_counts_whole_cells() {
    match resize_request(805, 610, 10, 20) {
        ClientEvent::WindowResize { cols, rows } => assert_eq!((cols, rows), (80, 30)),
        _ => panic!("expected resize"),
    }
}
