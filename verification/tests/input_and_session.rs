use term_engine::grid::Color;
use term_engine::input::InputConfig;
use term_engine::input::KeyModifiers;
use term_engine::input::MouseEvent;
use term_engine::input::MouseEventType;
use term_engine::input::TerminalKey;
use term_engine::input::translate_key;
use term_engine::session::EngineStatus;
use term_engine::session::TerminalEngine;
use term_engine::session::TerminalState;
use term_engine::workspace::EditorFeature;
use term_engine::workspace::SplitDirection;
use term_engine::workspace::Theme;
use term_engine::workspace::TileDirection;

fn no_mods() -> KeyModifiers {
    KeyModifiers { ctrl: false, shift: false, alt: false }
}

fn ctrl() -> KeyModifiers {
    KeyModifiers { ctrl: true, shift: false, alt: false }
}

#[test]
fn key_translation_basic_keys() {
    assert_eq!(translate_key(TerminalKey::Enter, no_mods()), Some(vec![0x0d]));
    assert_eq!(translate_key(TerminalKey::Backspace, no_mods()), Some(vec![0x08]));
    assert_eq!(translate_key(TerminalKey::Tab, no_mods()), Some(vec![0x09]));
}

#[test]
fn key_translation_arrows() {
    assert_eq!(
        translate_key(TerminalKey::ArrowUp, no_mods()),
        Some(vec![0x1b, b'[', b'A'])
    );
    assert_eq!(
        translate_key(TerminalKey::ArrowDown, no_mods()),
        Some(vec![0x1b, b'[', b'B'])
    );
    assert_eq!(
        translate_key(TerminalKey::ArrowRight, no_mods()),
        Some(vec![0x1b, b'[', b'C'])
    );
    assert_eq!(
        translate_key(TerminalKey::ArrowLeft, no_mods()),
        Some(vec![0x1b, b'[', b'D'])
    );
}

#[test]
fn key_translation_control_combinations() {
    assert_eq!(translate_key(TerminalKey::Character('c'), ctrl()), Some(vec![0x03]));
    assert_eq!(translate_key(TerminalKey::Character('d'), ctrl()), Some(vec![0x04]));
    assert_eq!(translate_key(TerminalKey::Character('z'), ctrl()), Some(vec![0x1a]));
    assert_eq!(translate_key(TerminalKey::Character('l'), ctrl()), Some(vec![0x0c]));
    assert_eq!(translate_key(TerminalKey::Character('C'), ctrl()), Some(vec![0x03]));
}

#[test]
fn key_translation_ignores_extra_modifiers() {
    let ctrl_shift = KeyModifiers { ctrl: true, shift: true, alt: false };
    assert_eq!(translate_key(TerminalKey::Character('c'), ctrl_shift), Some(vec![0x03]));
}

#[test]
fn key_translation_unmapped_keys() {
    // plain characters travel as text, not through the key translator
    assert_eq!(translate_key(TerminalKey::Character('a'), no_mods()), None);
    assert_eq!(translate_key(TerminalKey::Character('c'), no_mods()), None);
    // an unmapped control combination
    assert_eq!(translate_key(TerminalKey::Character('q'), ctrl()), None);
}

#[test]
fn engine_life_cycle() {
    let mut e = TerminalEngine::new(10, 4);
    assert_eq!(e.status, EngineStatus::Created);
    assert!(!e.is_alive());
    e.start();
    assert_eq!(e.status, EngineStatus::Running);
    assert!(e.is_alive());
    e.close();
    assert_eq!(e.status, EngineStatus::Closed);
    assert!(!e.is_alive());
}

#[test]
fn engine_feed_and_snapshot() {
    let mut e = TerminalEngine::new(10, 4);
    e.start();
    let bytes: Vec<u8> = "\x1b[32mok\x1b]0;t\x07".bytes().collect();
    e.feed(&bytes);
    let snap = e.snapshot();
    assert_eq!(snap.cells[0][0].ch, 'o');
    assert_eq!(snap.cells[0][1].ch, 'k');
    assert_eq!(snap.cells[0][0].fg, Color::Green);
    assert_eq!(snap.title, "t");
    // the snapshot is independent of later mutation
    let more: Vec<u8> = "!".bytes().collect();
    e.feed(&more);
    assert_eq!(snap.cells[0][2].ch, ' ');
    assert_eq!(e.grid.cells[0][2].ch, '!');
}

#[test]
fn engine_feed_spans_chunk_boundaries() {
    // an escape sequence split across two reads is still one sequence
    let mut e = TerminalEngine::new(10, 4);
    e.start();
    let first: Vec<u8> = "\x1b[3".bytes().collect();
    let second: Vec<u8> = "1mR".bytes().collect();
    e.feed(&first);
    e.feed(&second);
    assert_eq!(e.grid.cells[0][0].ch, 'R');
    assert_eq!(e.grid.cells[0][0].fg, Color::Red);
}

#[test]
fn engine_resize_updates_grid() {
    let mut e = TerminalEngine::new(6, 3);
    e.start();
    let bytes: Vec<u8> = "hi".bytes().collect();
    e.feed(&bytes);
    e.resize(4, 2);
    assert_eq!(e.grid.size, (4, 2));
    assert_eq!(e.grid.cells[0][0].ch, 'h');
    assert_eq!(e.grid.cells[0][1].ch, 'i');
    // a closed engine keeps its last frame
    e.close();
    let snap = e.snapshot();
    assert_eq!(snap.cells[0][0].ch, 'h');
}

#[test]
fn terminal_state_carries_pty_id_and_title() {
    let s = TerminalState { pty_id: Some(7), title: String::from("shell") };
    assert_eq!(s.pty_id, Some(7));
    assert_eq!(s.title, "shell");
    let none = TerminalState { pty_id: None, title: String::new() };
    assert!(none.pty_id.is_none());
}

#[test]
fn input_config_default_enables_everything() {
    let c = InputConfig::default();
    assert!(c.enable_zoom);
    assert!(c.enable_pan);
    assert!(c.axis_locked_pan);
    assert!(c.zoom_with_pinch);
    assert!(c.pan_with_scroll);
    assert!(c.pan_with_drag);
}

#[test]
fn mouse_event_types() {
    let ev = MouseEvent { position: (3, 5), event_type: MouseEventType::LeftClick };
    assert_eq!(ev.position, (3, 5));
    assert_eq!(ev.event_type, MouseEventType::LeftClick);
    let scroll = MouseEvent { position: (0, 0), event_type: MouseEventType::Scroll(-2) };
    match scroll.event_type {
        MouseEventType::Scroll(d) => assert_eq!(d, -2),
        _ => panic!("wrong variant"),
    }
    assert_ne!(MouseEventType::Drag, MouseEventType::MiddleClick);
}

#[test]
fn workspace_boundary_types() {
    assert_eq!(Theme::Dark, Theme::Dark);
    assert_ne!(Theme::Dark, Theme::Light);
    assert_ne!(Theme::System, Theme::Light);
    assert_ne!(SplitDirection::Horizontal, SplitDirection::Vertical);
    assert_ne!(TileDirection::Horizontal, TileDirection::Vertical);
}

#[test]
fn editor_feature_uses_stock_editor() {
    let f = EditorFeature::new();
    assert_eq!(f.editor_binary, "micro");
    let d = EditorFeature::default();
    assert_eq!(d.editor_binary, "micro");
}
