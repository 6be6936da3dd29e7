use laberinto::input::{keyboard_intent, menu_axis, menu_step, wrap_choice, KeyboardState};

#[test]
fn wrap_choice_wraps_both_ways() {
    assert_eq!(wrap_choice(0, -1, 3), 2);
    assert_eq!(wrap_choice(2, 1, 3), 0);
    assert_eq!(wrap_choice(1, 1, 3), 2);
    assert_eq!(wrap_choice(1, -2, 2), 1);
    assert_eq!(wrap_choice(0, 0, 3), 0);
    assert_eq!(wrap_choice(1, -7, 3), 0);
}

#[test]
fn a_step_and_its_opposite_cancel() {
    for choice in 0..3 {
        for step in -2..=2 {
            let there = wrap_choice(choice, step, 3);
            assert_eq!(wrap_choice(there, -step, 3), choice);
        }
    }
}

#[test]
fn holding_the_pad_moves_the_menu_once() {
    let mut rested = true;
    assert_eq!(menu_step(false, false, 1, &mut rested), 1);
    assert!(!rested);
    assert_eq!(menu_step(false, false, 1, &mut rested), 0);
    assert_eq!(menu_step(false, false, 0, &mut rested), 0);
    assert!(rested);
    assert_eq!(menu_step(false, false, -1, &mut rested), -1);
}

#[test]
fn keys_and_pad_add_up_in_menus() {
    let mut rested = true;
    assert_eq!(menu_step(false, true, 1, &mut rested), 2);
    assert_eq!(menu_step(true, true, 0, &mut rested), 0);
    assert_eq!(menu_step(true, false, 0, &mut rested), -1);
}

#[test]
fn the_dpad_wins_over_the_stick() {
    assert_eq!(menu_axis(false, true, false, 1), 0);
    assert_eq!(menu_axis(true, true, true, 1), -1);
    assert_eq!(menu_axis(true, false, true, -1), 1);
    assert_eq!(menu_axis(true, false, false, -1), -1);
}

#[test]
fn opposite_keys_cancel_out() {
    let keys = KeyboardState {
        forward: true,
        back: true,
        strafe_left: true,
        turn_right: true,
        fire: true,
        ..KeyboardState::default()
    };
    let intent = keyboard_intent(&keys);
    assert_eq!(intent.forward, 0);
    assert_eq!(intent.strafe, -1);
    assert_eq!(intent.turn, 1);
    assert!(intent.shoot);
    assert!(!intent.reload);
}
