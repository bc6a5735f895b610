use term_chat_ui::input::{InputManager, KeyEventResult};
use term_chat_ui::textarea::{KeyCode, KeyEvent, KeyModifiers};

fn key(code: KeyCode, modifiers: KeyModifiers) -> KeyEvent {
    KeyEvent { code, modifiers }
}

fn mods(shift: bool, control: bool, alt: bool) -> KeyModifiers {
    KeyModifiers { shift, control, alt }
}

#[test]
fn test_input_manager_basic_operations() {
    let mut input_manager = InputManager::new();

    assert_eq!(input_manager.textarea.text(), "");

    let result = input_manager.handle_key_event(key(KeyCode::Char('h'), mods(false, false, false)));
    assert!(matches!(result, KeyEventResult::Continue));

    let result = input_manager.handle_key_event(key(KeyCode::Char('i'), mods(false, false, false)));
    assert!(matches!(result, KeyEventResult::Continue));

    assert_eq!(input_manager.textarea.text(), "hi");

    let result = input_manager.handle_key_event(key(KeyCode::Enter, mods(false, false, false)));
    match result {
        KeyEventResult::SendMessage { message, attachments } => {
            assert_eq!(message, "hi");
            assert!(attachments.is_empty());
        }
        _ => panic!("Expected SendMessage"),
    }

    assert_eq!(input_manager.textarea.text(), "");
}

#[test]
fn test_quit_signal() {
    let mut input_manager = InputManager::new();
    let result = input_manager.handle_key_event(key(KeyCode::Char('c'), mods(false, true, false)));
    assert!(matches!(result, KeyEventResult::Quit));
}

#[test]
fn test_escape_key() {
    let mut input_manager = InputManager::new();
    let result = input_manager.handle_key_event(key(KeyCode::Esc, mods(false, false, false)));
    assert!(matches!(result, KeyEventResult::Escape));
}

#[test]
fn test_newline_handling() {
    let mut input_manager = InputManager::new();

    input_manager.handle_key_event(key(KeyCode::Char('h'), mods(false, false, false)));
    input_manager.handle_key_event(key(KeyCode::Char('i'), mods(false, false, false)));

    let result = input_manager.handle_key_event(key(KeyCode::Enter, mods(true, false, false)));
    assert!(matches!(result, KeyEventResult::Continue));

    input_manager.handle_key_event(key(KeyCode::Char('b'), mods(false, false, false)));
    input_manager.handle_key_event(key(KeyCode::Char('y'), mods(false, false, false)));
    input_manager.handle_key_event(key(KeyCode::Char('e'), mods(false, false, false)));

    assert_eq!(input_manager.textarea.text(), "hi\nbye");

    let result = input_manager.handle_key_event(key(KeyCode::Enter, mods(false, false, false)));
    match result {
        KeyEventResult::SendMessage { message, .. } => {
            assert_eq!(message, "hi\nbye");
        }
        _ => panic!("Expected SendMessage"),
    }
}

#[test]
fn test_small_paste_inserts_directly() {
    let mut input_manager = InputManager::new();
    input_manager.handle_paste("hello world".to_string());
    assert_eq!(input_manager.textarea.text(), "hello world");
    assert!(input_manager.pending_pastes.is_empty());
}

#[test]
fn test_large_paste_uses_placeholder() {
    let mut input_manager = InputManager::new();
    let large_text: String = (0..50).map(|i| format!("line {}\n", i)).collect();
    let line_count = large_text.lines().count();
    input_manager.handle_paste(large_text.clone());

    let content = input_manager.textarea.text();
    assert!(
        content.contains(&format!("[Pasted {} lines]", line_count)),
        "Expected placeholder in: {}",
        content
    );

    assert_eq!(input_manager.pending_pastes.len(), 1);
    assert_eq!(
        input_manager.pending_pastes[0].1,
        large_text.replace("\r\n", "\n").replace('\r', "\n")
    );
}

#[test]
fn test_large_paste_expanded_on_submit() {
    let mut input_manager = InputManager::new();
    input_manager.textarea.insert_str("before ");
    let large_text: String = (0..50).map(|i| format!("line {}\n", i)).collect();
    input_manager.handle_paste(large_text.clone());
    input_manager.textarea.insert_str(" after");

    let content = input_manager.build_submit_content();
    assert!(content.starts_with("before "));
    assert!(content.ends_with(" after"));
    assert!(content.contains("line 0"));
    assert!(content.contains("line 49"));
}

#[test]
fn test_clear_resets_paste_state() {
    let mut input_manager = InputManager::new();
    let large_text: String = (0..50).map(|i| format!("line {}\n", i)).collect();
    input_manager.handle_paste(large_text);
    input_manager.attach_image("abc".to_string(), "image/png".to_string(), None, None);
    assert_eq!(input_manager.image_counter, 1);

    input_manager.clear();
    assert_eq!(input_manager.textarea.text(), "");
    assert!(input_manager.pending_pastes.is_empty());
    assert!(input_manager.attachments.is_empty());
    assert_eq!(input_manager.image_counter, 0);
}

#[test]
fn test_crlf_paste_normalized() {
    let mut input_manager = InputManager::new();
    input_manager.handle_paste("a\r\nb\rc".to_string());
    assert_eq!(input_manager.textarea.text(), "a\nb\nc");
}

#[test]
fn test_repeated_large_paste_gets_numbered_placeholder() {
    let mut input_manager = InputManager::new();
    let large_text: String = (0..50).map(|i| format!("line {}\n", i)).collect();
    input_manager.handle_paste(large_text.clone());
    input_manager.handle_paste(large_text);
    let content = input_manager.textarea.text();
    assert!(content.contains("[Pasted 50 lines]"));
    assert!(content.contains("[Pasted 50 lines] #2"));
}

#[test]
fn test_attach_image_inserts_placeholder() {
    let mut input_manager = InputManager::new();
    input_manager.attach_image("data".to_string(), "image/png".to_string(), Some(2), Some(3));
    assert_eq!(input_manager.textarea.text(), "[Image 1]");
    assert_eq!(input_manager.attachments.len(), 1);
    let result = input_manager.handle_key_event(key(KeyCode::Char('v'), mods(false, true, false)));
    assert!(matches!(result, KeyEventResult::RequestImagePaste));
}
