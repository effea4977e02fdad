use retgui::text_input::{copy, cut, message_command, paste, TextInputMessage};
use rustc_hash::FxHashMap;
use retgui::element_id::IdCounter;
use retgui::events::{ Code, ElementState, Event, EventKind, FocusEvent, Ime, ImeEvent, KeyboardEvent, Location, };
use retgui::store::RetainedElements;
use retgui::text_input::{container_scrolls_for, text_input_step, TextInputStep};
use retgui::events::{Key, KeyboardModifiers, NamedKey};
use retgui::text_input::{key_press_plan, ClickCounter, EditCommand, Platform, PressSelection};

fn ctrl() -> KeyboardModifiers {
    KeyboardModifiers { control: true, ..KeyboardModifiers::default() }
}

#[test]
fn clicks_count_to_line_selection() {
    let mut c = ClickCounter::new();
    assert_eq!(c.press(None), PressSelection::MoveToPoint);
    assert_eq!(c.press(Some(100_000_000)), PressSelection::SelectWord);
    assert_eq!(c.press(Some(249_999_999)), PressSelection::SelectLine);
    assert_eq!(c.press(Some(1)), PressSelection::MoveToPoint);
    assert_eq!(c.press(Some(250_000_000)), PressSelection::MoveToPoint);
    assert_eq!(c.press(Some(10)), PressSelection::SelectWord);
}

#[test]
fn typed_text_is_inserted() {
    let plan = key_press_plan(&Key::Character("h".to_string()), KeyboardModifiers::default(), Platform::Other);
    assert_eq!(plan.commands, vec![EditCommand::InsertOrReplace("h".to_string())]);
    assert!(plan.text_changed);
    assert!(!plan.scroll_to_cursor);
}

#[test]
fn shortcuts_follow_platform() {
    let undo = key_press_plan(&Key::Character("Z".to_string()), ctrl(), Platform::Other);
    assert_eq!(undo.commands, vec![EditCommand::Undo]);
    let redo = key_press_plan(&Key::Character("y".to_string()), ctrl(), Platform::Windows);
    assert_eq!(redo.commands, vec![EditCommand::Redo]);
    let y_elsewhere = key_press_plan(&Key::Character("y".to_string()), ctrl(), Platform::Other);
    assert_eq!(y_elsewhere.commands, vec![EditCommand::InsertOrReplace("y".to_string())]);
    let copy = key_press_plan(&Key::Character("c".to_string()), ctrl(), Platform::Other);
    assert_eq!(copy.commands, vec![EditCommand::Copy]);
    assert!(!copy.text_changed);
    let upper_c = key_press_plan(&Key::Character("C".to_string()), ctrl(), Platform::Other);
    assert_eq!(upper_c.commands, vec![EditCommand::InsertOrReplace("C".to_string())]);
    let mac_copy = key_press_plan(
        &Key::Character("c".to_string()),
        KeyboardModifiers { meta: true, ..KeyboardModifiers::default() },
        Platform::MacOs,
    );
    assert_eq!(mac_copy.commands, vec![EditCommand::Copy]);
}

#[test]
fn arrows_move_by_word_and_select_with_shift() {
    let word = key_press_plan(&Key::Named(NamedKey::ArrowLeft), ctrl(), Platform::Other);
    assert_eq!(word.commands, vec![EditCommand::MoveWordLeft]);
    assert!(word.scroll_to_cursor);
    let shift = KeyboardModifiers { shift: true, ..KeyboardModifiers::default() };
    let sel = key_press_plan(&Key::Named(NamedKey::ArrowRight), shift, Platform::Other);
    assert_eq!(sel.commands, vec![EditCommand::SelectRight]);
    let mac_line = key_press_plan(
        &Key::Named(NamedKey::ArrowLeft),
        KeyboardModifiers { meta: true, ..KeyboardModifiers::default() },
        Platform::MacOs,
    );
    assert_eq!(mac_line.commands, vec![EditCommand::MoveToLineStart]);
    let para = key_press_plan(&Key::Named(NamedKey::ArrowUp), ctrl(), Platform::Other);
    assert_eq!(para.commands, vec![EditCommand::MoveLeft, EditCommand::MoveToHardLineStart]);
    let home = key_press_plan(&Key::Named(NamedKey::Home), ctrl(), Platform::Other);
    assert_eq!(home.commands, vec![EditCommand::MoveToTextStart]);
}

#[test]
fn deletion_and_enter() {
    let back = key_press_plan(&Key::Named(NamedKey::Backspace), KeyboardModifiers::default(), Platform::Other);
    assert_eq!(back.commands, vec![EditCommand::Backdelete]);
    let mac_word = key_press_plan(
        &Key::Named(NamedKey::Backspace),
        KeyboardModifiers { alt: true, ..KeyboardModifiers::default() },
        Platform::MacOs,
    );
    assert_eq!(mac_word.commands, vec![EditCommand::MoveAnchorWordLeft, EditCommand::DeleteSelection]);
    let enter = key_press_plan(&Key::Named(NamedKey::Enter), KeyboardModifiers::default(), Platform::Other);
    assert_eq!(enter.commands, vec![EditCommand::InsertNewline]);
    assert!(enter.text_changed);
    let tab = key_press_plan(&Key::Named(NamedKey::Tab), KeyboardModifiers::default(), Platform::Other);
    assert!(tab.commands.is_empty() && !tab.text_changed);
}

#[test]
fn messages_respect_disabled_inputs() {
    assert_eq!(message_command(TextInputMessage::Copy, true), Some(EditCommand::Copy));
    assert_eq!(message_command(TextInputMessage::Paste, true), None);
    assert_eq!(message_command(TextInputMessage::Cut, false), Some(EditCommand::Cut));
    assert_eq!(paste(Some("abc".to_string())), "abc");
    assert_eq!(paste(None), "");
    assert_eq!(copy(Some("sel")), Some("sel".to_string()));
    assert_eq!(copy(None), None);
    assert_eq!(cut(Some("sel")), (Some("sel".to_string()), true));
    assert_eq!(cut(None), (None, false));
}

#[test]
fn text_input_routes_keys_and_ime() {
    let mut ids = IdCounter::new(0);
    let mut elements = RetainedElements::new(&mut ids);
    let mut by_id = FxHashMap::default();
    let t = elements.insert(1, &mut by_id);
    let key = |k: Key, composing: bool| {
        EventKind::KeyDown(KeyboardEvent::new(
            t,
            ElementState::Pressed,
            k,
            Code::Other,
            Location::Standard,
            KeyboardModifiers::default(),
            false,
            composing,
        ))
    };
    let mut typed = key(Key::Character("a".to_string()), false);
    assert_eq!(text_input_step(true, false, false, &mut typed), Some(TextInputStep::KeyPress));
    assert!(typed.is_propagation_stopped());
    let mut disabled = key(Key::Character("a".to_string()), false);
    assert_eq!(text_input_step(true, true, false, &mut disabled), Some(TextInputStep::Ignore));
    assert!(!disabled.is_propagation_stopped());
    let mut composing = key(Key::Named(NamedKey::ArrowDown), true);
    assert!(!container_scrolls_for(true, false, &composing));
    assert_eq!(text_input_step(true, false, false, &mut composing), Some(TextInputStep::ImeOwnsKey));
    let arrow = key(Key::Named(NamedKey::ArrowUp), false);
    assert!(!container_scrolls_for(false, false, &arrow));
    let letter = key(Key::Character("b".to_string()), false);
    assert!(container_scrolls_for(true, false, &letter));
    let mut focus = EventKind::Focus(FocusEvent::new(t));
    assert_eq!(
        text_input_step(true, true, false, &mut focus),
        Some(TextInputStep::StartEditing { enable_ime: false })
    );
    let mut commit = EventKind::Ime(ImeEvent::new(t, Ime::Commit("é".to_string())));
    assert_eq!(text_input_step(true, false, false, &mut commit), Some(TextInputStep::ImeCommit("é".to_string())));
    let mut prevented = key(Key::Character("a".to_string()), false);
    prevented.prevent_default();
    assert_eq!(text_input_step(true, false, false, &mut prevented), None);
}
