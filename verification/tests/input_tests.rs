use uplink::input::{
    char_counter, decode_input_message, extract_input_text, id_changed, input_disabled,
    input_element_id, rich_editor_action, shown_placeholder, signed_decimal_string, JSTextData,
    KeyCode, KeyState, RichEditorAction, Size,
};

#[test]
fn size_heights() {
    assert_eq!(Size::Small.get_height(), "0");
    assert_eq!(Size::Normal.get_height(), "");
}

#[test]
fn enter_submits_once_while_held() {
    let mut s = KeyState::new();
    let a = s.keydown(KeyCode::Enter, false, false, false);
    assert!(a.submit);
    let b = s.keydown(KeyCode::Enter, false, false, false);
    assert!(!b.submit);
    s.keyup(KeyCode::Enter);
    let c = s.keydown(KeyCode::Enter, false, false, false);
    assert!(c.submit);
}

#[test]
fn shift_enter_does_not_submit() {
    let mut s = KeyState::new();
    s.keydown(KeyCode::ShiftLeft, false, false, false);
    let a = s.keydown(KeyCode::Enter, false, false, false);
    assert!(!a.submit);
    s.keyup(KeyCode::ShiftLeft);
    s.keyup(KeyCode::Enter);
    let b = s.keydown(KeyCode::NumpadEnter, false, false, false);
    assert!(b.submit);
}

#[test]
fn arrows_and_paste() {
    let mut s = KeyState::new();
    let a = s.keydown(KeyCode::ArrowUp, false, false, true);
    assert!(a.up_down_arrow && a.update_cursor);
    let b = s.keydown(KeyCode::ArrowLeft, false, false, true);
    assert!(!b.up_down_arrow && b.update_cursor);
    let c = s.keydown(KeyCode::ArrowLeft, false, false, false);
    assert!(!c.update_cursor);
    let d = s.keydown(KeyCode::KeyV, true, true, false);
    assert!(d.paste);
    let e = s.keydown(KeyCode::KeyV, true, false, false);
    assert!(!e.paste);
}

#[test]
fn disabled_and_placeholder() {
    assert!(input_disabled(true, false));
    assert!(!input_disabled(false, false));
    assert_eq!(shown_placeholder(true, "Say something"), "");
    assert_eq!(shown_placeholder(false, "Say something"), "Say something");
}

#[test]
fn element_id() {
    assert_eq!(input_element_id("chat-input"), "chat-input");
    let fresh = input_element_id("");
    assert_eq!(fresh.len(), 36);
    assert_eq!(&fresh[8..9], "-");
    assert!(uuid::Uuid::parse_str(&fresh).is_ok());
    assert_eq!(&fresh[14..15], "4");
    assert!("89ab".contains(&fresh[19..20]));
    assert!(fresh.chars().all(|c| c == '-' || c.is_ascii_digit() || ('a'..='f').contains(&c)));
    assert_ne!(input_element_id(""), fresh);
    assert!(id_changed("b", &"a".to_string()));
    assert!(!id_changed("", &"a".to_string()));
    assert!(!id_changed("a", &"a".to_string()));
}

#[test]
fn counter_texts() {
    let (n, max) = char_counter("héllo", 1025, false);
    assert_eq!(n, "6");
    assert_eq!(max, "/1024");
    let (n2, _) = char_counter("héllo", 1025, true);
    assert_eq!(n2, "5");
    let (_, m) = char_counter("", 0, true);
    assert_eq!(m, "/-1");
    assert_eq!(signed_decimal_string(i64::MIN), i64::MIN.to_string());
}

#[test]
fn input_message_capture() {
    assert_eq!(extract_input_text(r#"{"Input":"hello"}"#), Some("hello".to_string()));
    assert_eq!(extract_input_text("{\"Input\":\"two\nlines\"}"), Some("two\nlines".to_string()));
    // greedy: the capture runs to the last closing quote and brace
    assert_eq!(extract_input_text(r#"{"Input":"a"}"}"#), Some("a\"}".to_string()));
    assert_eq!(extract_input_text(r#"{"Input":""}"#), None);
    assert_eq!(extract_input_text(r#""Submit""#), None);
    assert_eq!(extract_input_text(r#"{"Cursor":5}"#), None);
    assert_eq!(extract_input_text(r#"x{"Input":"b"}y"#), Some("b".to_string()));
}

#[test]
fn editor_actions() {
    assert!(matches!(rich_editor_action(JSTextData::Submit), RichEditorAction::Submit));
    assert!(matches!(rich_editor_action(JSTextData::Init), RichEditorAction::Focus));
    assert!(matches!(rich_editor_action(JSTextData::Cursor(7)), RichEditorAction::CursorUpdate(7)));
    assert!(matches!(
        rich_editor_action(JSTextData::KeyPress(KeyCode::ArrowDown)),
        RichEditorAction::UpDownArrow(KeyCode::ArrowDown)
    ));
    assert!(matches!(rich_editor_action(JSTextData::KeyPress(KeyCode::Enter)), RichEditorAction::Ignore));
    match rich_editor_action(JSTextData::Input("x".to_string())) {
        RichEditorAction::SetText(t) => assert_eq!(t, "x"),
        _ => panic!("expected a text"),
    }
    assert!(matches!(decode_input_message(r#"{"Input":"q"}"#), Some(JSTextData::Input(_))));
    assert!(decode_input_message("\"Init\"").is_none());
}
