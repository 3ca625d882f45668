use keyboard_overlay::event::InputEvent;
use keyboard_overlay::history::KeyHistoryItem;
use keyboard_overlay::layout::{
    KeysymInfo, XKB_KEY_ALT_L, XKB_KEY_CONTROL_R, XKB_KEY_SHIFT_L, XKB_KEY_SUPER_L,
};
use keyboard_overlay::modifiers::Modifiers;
use keyboard_overlay::overlay::App;

const KEY_A: u16 = 30;
const KEY_LEFTSHIFT: u16 = 42;

fn key(code: u16, value: i32) -> InputEvent {
    InputEvent { time_sec: 0, time_usec: 0, type_: 1, code, value }
}

fn symbol(text: &str) -> KeysymInfo {
    KeysymInfo { sym: 0x100_0000, utf8: Some(text.to_string()), name: Some(text.to_string()) }
}

fn modifier(sym: u32) -> KeysymInfo {
    KeysymInfo { sym, utf8: None, name: None }
}

fn tap(app: &mut App, code: u16, info: &KeysymInfo) {
    app.process_input_event(&key(code, 1), info);
    app.process_input_event(&key(code, 0), info);
}

fn bare() -> Modifiers {
    Modifiers { ctrl: false, shift: false, alt: false, sup: false }
}

#[test]
fn a_new_overlay_is_empty() {
    let mut app = App::new();
    assert_eq!(app.history_len(), 0);
    assert_eq!(app.modifiers(), bare());
    assert!(app.render().is_empty());
    assert_eq!(app.history_len(), 0);
}

#[test]
fn press_and_release_make_one_line_with_count_one() {
    let mut app = App::new();
    app.process_input_event(&key(KEY_A, 1), &symbol("a"));
    assert_eq!(app.history_len(), 1);
    app.process_input_event(&key(KEY_A, 0), &symbol("a"));
    assert_eq!(app.history_len(), 1);
    assert_eq!(app.modifiers(), bare());
    assert_eq!(app.render(), vec!["a"]);
    assert_eq!(app.history_len(), 1);
    assert_eq!(app.render(), vec!["a"]);
}

#[test]
fn an_old_press_leaves_once_forty_groups_are_newer() {
    let mut app = App::new();
    tap(&mut app, KEY_A, &symbol("a"));
    assert_eq!(app.render(), vec!["a"]);
    for i in 0..39 {
        tap(&mut app, 2 + i, &symbol(&format!("k{}", i)));
    }
    let lines = app.render();
    assert_eq!(lines.len(), 40);
    assert_eq!(lines[39], "a");
    assert_eq!(app.history_len(), 40);
    tap(&mut app, 100, &symbol("last"));
    assert_eq!(app.history_len(), 41);
    let lines = app.render();
    assert_eq!(lines.len(), 40);
    assert_eq!(lines[0], "last");
    assert_eq!(lines[39], "k0");
    assert!(!lines.contains(&"a".to_string()));
    assert_eq!(app.history_len(), 40);
    let again = app.render();
    assert_eq!(again, lines);
    assert_eq!(app.history_len(), 40);
}

#[test]
fn the_same_chord_n_times_is_one_line_with_count_n() {
    let mut app = App::new();
    for _ in 0..7 {
        tap(&mut app, KEY_A, &symbol("a"));
    }
    assert_eq!(app.history_len(), 7);
    assert_eq!(app.render(), vec!["a×7"]);
    tap(&mut app, 48, &symbol("b"));
    tap(&mut app, 48, &symbol("b"));
    for _ in 0..3 {
        tap(&mut app, KEY_A, &symbol("a"));
    }
    assert_eq!(app.render(), vec!["a×3", "b×2", "a×7"]);
}

#[test]
fn rendering_between_presses_does_not_break_a_run() {
    let mut app = App::new();
    for n in 1..=5usize {
        tap(&mut app, KEY_A, &symbol("a"));
        let lines = app.render();
        let expected = if n == 1 { "a".to_string() } else { format!("a×{}", n) };
        assert_eq!(lines, vec![expected]);
    }
}

#[test]
fn render_never_returns_more_than_forty_lines() {
    let mut app = App::new();
    for i in 0..5000u32 {
        tap(&mut app, (i % 200) as u16, &symbol(&format!("k{}", i % 200)));
    }
    assert_eq!(app.history_len(), 5000);
    let lines = app.render();
    assert_eq!(lines.len(), 40);
    assert_eq!(lines[0], "k199");
    assert_eq!(lines[39], "k160");
    assert_eq!(app.history_len(), 40);
    for i in 0..45u32 {
        tap(&mut app, 1, &symbol(&format!("n{}", i)));
        assert!(app.render().len() <= 40);
        assert!(app.history_len() <= 40);
    }
}

#[test]
fn shift_a_then_a_renders_a_above_shift_a() {
    let mut app = App::new();
    app.process_input_event(&key(KEY_LEFTSHIFT, 1), &modifier(XKB_KEY_SHIFT_L));
    app.process_input_event(&key(KEY_A, 1), &symbol("a"));
    app.process_input_event(&key(KEY_A, 0), &symbol("a"));
    app.process_input_event(&key(KEY_LEFTSHIFT, 0), &modifier(XKB_KEY_SHIFT_L));
    app.process_input_event(&key(KEY_A, 1), &symbol("a"));
    app.process_input_event(&key(KEY_A, 0), &symbol("a"));
    assert_eq!(app.history_len(), 2);
    assert_eq!(app.render(), vec!["a", "Shift + a"]);
}

#[test]
fn autorepeat_changes_neither_history_nor_modifiers() {
    let mut app = App::new();
    app.process_input_event(&key(KEY_A, 1), &symbol("a"));
    for _ in 0..20 {
        app.process_input_event(&key(KEY_A, 2), &symbol("a"));
    }
    assert_eq!(app.history_len(), 1);
    assert_eq!(app.modifiers(), bare());
    for _ in 0..20 {
        app.process_input_event(&key(KEY_LEFTSHIFT, 2), &modifier(XKB_KEY_SHIFT_L));
    }
    assert_eq!(app.history_len(), 1);
    assert_eq!(app.modifiers(), bare());
    app.process_input_event(&key(KEY_LEFTSHIFT, 1), &modifier(XKB_KEY_SHIFT_L));
    for _ in 0..20 {
        app.process_input_event(&key(KEY_LEFTSHIFT, 2), &modifier(XKB_KEY_SHIFT_L));
        app.process_input_event(&key(KEY_A, 2), &symbol("a"));
    }
    assert_eq!(app.history_len(), 1);
    assert_eq!(app.modifiers(), Modifiers { shift: true, ..bare() });
    assert_eq!(app.render(), vec!["a"]);
}

#[test]
fn records_of_other_classes_change_nothing() {
    let mut app = App::new();
    let sync = InputEvent { time_sec: 1, time_usec: 2, type_: 0, code: 0, value: 0 };
    let scan = InputEvent { time_sec: 1, time_usec: 2, type_: 4, code: 4, value: 1 };
    app.process_input_event(&sync, &symbol("a"));
    app.process_input_event(&scan, &symbol("a"));
    app.process_input_event(&scan, &modifier(XKB_KEY_SHIFT_L));
    assert_eq!(app.history_len(), 0);
    assert_eq!(app.modifiers(), bare());
}

#[test]
fn a_key_without_mapping_shows_its_fallback_label() {
    let mut app = App::new();
    let unmapped = KeysymInfo { sym: 0, utf8: None, name: Some("NoSymbol".to_string()) };
    tap(&mut app, 240, &unmapped);
    assert_eq!(app.history_len(), 1);
    let unknown = KeysymInfo { sym: 0x1fff_ffff, utf8: None, name: Some("UNKNOWN".to_string()) };
    tap(&mut app, 241, &unknown);
    tap(&mut app, KEY_A, &symbol("a"));
    assert_eq!(app.render(), vec!["a", "UNKNOWN", "NoSymbol"]);
}

#[test]
fn a_key_without_any_label_shows_nothing() {
    let mut app = App::new();
    let nameless = KeysymInfo { sym: 0x2000_0000, utf8: None, name: None };
    tap(&mut app, 240, &nameless);
    assert_eq!(app.history_len(), 0);
    assert_eq!(app.modifiers(), bare());
    assert!(app.render().is_empty());
}

#[test]
fn modifiers_follow_presses_and_releases() {
    let mut app = App::new();
    app.process_input_event(&key(29, 1), &modifier(XKB_KEY_CONTROL_R));
    app.process_input_event(&key(56, 1), &modifier(XKB_KEY_ALT_L));
    assert_eq!(app.modifiers(), Modifiers { ctrl: true, alt: true, ..bare() });
    tap(&mut app, 111, &KeysymInfo {
        sym: 0xffff,
        utf8: Some("\u{7f}".to_string()),
        name: Some("Delete".to_string()),
    });
    assert_eq!(app.modifiers(), Modifiers { ctrl: true, alt: true, ..bare() });
    app.process_input_event(&key(29, 0), &modifier(XKB_KEY_CONTROL_R));
    app.process_input_event(&key(125, 1), &modifier(XKB_KEY_SUPER_L));
    assert_eq!(app.modifiers(), Modifiers { alt: true, sup: true, ..bare() });
    tap(&mut app, KEY_A, &symbol("a"));
    assert_eq!(app.history_len(), 2);
    assert_eq!(app.render(), vec!["Alt + Super + a", "Alt + Ctrl + Delete"]);
}

#[test]
fn a_release_adds_nothing() {
    let mut app = App::new();
    app.process_input_event(&key(KEY_A, 0), &symbol("a"));
    assert_eq!(app.history_len(), 0);
    app.process_input_event(&key(KEY_LEFTSHIFT, 0), &modifier(XKB_KEY_SHIFT_L));
    assert_eq!(app.modifiers(), bare());
}

#[test]
fn on_keydown_appends_the_chord() {
    let mut app = App::new();
    app.on_keydown(KeyHistoryItem { key_s: "x".to_string(), modifiers: bare() });
    app.on_keydown(KeyHistoryItem {
        key_s: "x".to_string(),
        modifiers: Modifiers { ctrl: true, ..bare() },
    });
    assert_eq!(app.history_len(), 2);
    assert_eq!(app.modifiers(), bare());
    assert_eq!(app.render(), vec!["Ctrl + x", "x"]);
}

#[test]
fn pruning_keeps_what_is_shown() {
    let mut pruned = App::new();
    let mut whole = Vec::new();
    for round in 0..6u32 {
        for i in 0..17u32 {
            let item = KeyHistoryItem {
                key_s: format!("k{}", (i + round) % 5),
                modifiers: Modifiers { shift: i % 4 == 0, ..bare() },
            };
            whole.push(item.clone());
            pruned.on_keydown(item);
        }
        let mut fresh = App::new();
        for item in whole.iter() {
            fresh.on_keydown(item.clone());
        }
        let lines = pruned.render();
        assert!(lines.len() <= 40);
        assert_eq!(lines, fresh.render());
        assert_eq!(pruned.history_len(), fresh.history_len());
    }
    assert!(pruned.history_len() < whole.len());
}

#[test]
fn a_tick_takes_all_records_in_order_and_renders_once() {
    let mut app = App::new();
    let events = vec![
        (key(KEY_LEFTSHIFT, 1), modifier(XKB_KEY_SHIFT_L)),
        (key(KEY_A, 1), symbol("a")),
        (key(KEY_A, 2), symbol("a")),
        (key(KEY_A, 0), symbol("a")),
        (key(KEY_LEFTSHIFT, 0), modifier(XKB_KEY_SHIFT_L)),
        (key(KEY_A, 1), symbol("a")),
        (key(KEY_A, 0), symbol("a")),
        (key(KEY_A, 1), symbol("a")),
        (key(KEY_A, 0), symbol("a")),
    ];
    assert_eq!(app.update(&events), vec!["a×2", "Shift + a"]);
    assert_eq!(app.history_len(), 3);
    assert_eq!(app.modifiers(), bare());
    assert_eq!(app.update(&vec![]), vec!["a×2", "Shift + a"]);
    assert_eq!(app.update(&vec![(key(KEY_A, 1), symbol("a"))]), vec!["a×3", "Shift + a"]);
}

#[test]
fn a_tick_with_many_records_still_shows_forty_lines() {
    let mut app = App::new();
    let mut events = Vec::new();
    for i in 0..300u16 {
        events.push((key(i, 1), symbol(&format!("k{}", i))));
        events.push((key(i, 0), symbol(&format!("k{}", i))));
    }
    let lines = app.update(&events);
    assert_eq!(lines.len(), 40);
    assert_eq!(lines[0], "k299");
    assert_eq!(lines[39], "k260");
    assert_eq!(app.history_len(), 40);
}

#[test]
fn the_super_key_sets_super_and_a_meta_key_is_a_symbol() {
    let mut app = App::new();
    let super_l = KeysymInfo { sym: XKB_KEY_SUPER_L, utf8: None, name: Some("Super_L".to_string()) };
    app.process_input_event(&key(125, 1), &super_l);
    assert_eq!(app.modifiers(), Modifiers { sup: true, ..bare() });
    assert_eq!(app.history_len(), 0);
    let meta_l = KeysymInfo { sym: 0xffe7, utf8: None, name: Some("Meta_L".to_string()) };
    tap(&mut app, 56, &meta_l);
    assert_eq!(app.modifiers(), Modifiers { sup: true, ..bare() });
    assert_eq!(app.history_len(), 1);
    app.process_input_event(&key(125, 0), &super_l);
    assert_eq!(app.modifiers(), bare());
    assert_eq!(app.render(), vec!["Super + Meta_L"]);
}
