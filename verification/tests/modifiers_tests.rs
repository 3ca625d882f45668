use keyboard_overlay::event::KeyPressState::{Down, Up};
use keyboard_overlay::layout::KeyPress;
use keyboard_overlay::modifiers::Modifiers;

fn none() -> Modifiers {
    Modifiers { ctrl: false, shift: false, alt: false, sup: false }
}

#[test]
fn new_modifiers_hold_nothing() {
    assert_eq!(Modifiers::new(), none());
}

#[test]
fn a_press_sets_and_a_release_clears_its_modifier() {
    let mut m = Modifiers::new();
    m.update(&KeyPress::Ctrl, &Down);
    assert_eq!(m, Modifiers { ctrl: true, ..none() });
    m.update(&KeyPress::Shift, &Down);
    assert_eq!(m, Modifiers { ctrl: true, shift: true, ..none() });
    m.update(&KeyPress::Alt, &Down);
    assert_eq!(m, Modifiers { ctrl: true, shift: true, alt: true, sup: false });
    m.update(&KeyPress::Super, &Down);
    assert_eq!(m, Modifiers { ctrl: true, shift: true, alt: true, sup: true });
    m.update(&KeyPress::Shift, &Up);
    assert_eq!(m, Modifiers { ctrl: true, shift: false, alt: true, sup: true });
    m.update(&KeyPress::Ctrl, &Up);
    assert_eq!(m, Modifiers { ctrl: false, shift: false, alt: true, sup: true });
    m.update(&KeyPress::Super, &Up);
    assert_eq!(m, Modifiers { alt: true, ..none() });
    m.update(&KeyPress::Alt, &Up);
    assert_eq!(m, none());
}

#[test]
fn a_second_press_or_release_changes_nothing() {
    let mut m = Modifiers::new();
    m.update(&KeyPress::Alt, &Up);
    assert_eq!(m, none());
    m.update(&KeyPress::Alt, &Down);
    m.update(&KeyPress::Alt, &Down);
    assert_eq!(m, Modifiers { alt: true, ..none() });
    m.update(&KeyPress::Alt, &Up);
    assert_eq!(m, none());
}

#[test]
fn other_keys_never_touch_the_modifiers() {
    let mut m = Modifiers { ctrl: true, shift: false, alt: true, sup: false };
    let before = m;
    m.update(&KeyPress::Other("a".to_string()), &Down);
    assert_eq!(m, before);
    m.update(&KeyPress::Other("a".to_string()), &Up);
    assert_eq!(m, before);
    m.update(&KeyPress::Other("Shift".to_string()), &Down);
    assert_eq!(m, before);
    m.update(&KeyPress::Other(String::new()), &Up);
    assert_eq!(m, before);
}

#[test]
fn interleaved_keys_do_not_change_the_outcome() {
    let modifiers_only = [
        (KeyPress::Shift, Down),
        (KeyPress::Ctrl, Down),
        (KeyPress::Shift, Up),
        (KeyPress::Super, Down),
        (KeyPress::Alt, Down),
        (KeyPress::Alt, Up),
    ];
    let mut plain = Modifiers::new();
    for (key, state) in modifiers_only.iter() {
        plain.update(key, state);
    }
    let mut mixed = Modifiers::new();
    for (key, state) in modifiers_only.iter() {
        mixed.update(&KeyPress::Other("x".to_string()), &Down);
        mixed.update(key, state);
        mixed.update(&KeyPress::Other("x".to_string()), &Up);
        mixed.update(&KeyPress::Other("y".to_string()), &Down);
    }
    assert_eq!(plain, Modifiers { ctrl: true, shift: false, alt: false, sup: true });
    assert_eq!(mixed, plain);
}
