use uplink::config::{config_file_relative_path, toggle_devmode, Configuration};
use uplink::keybinds::{
    check_for_conflicts, is_it_a_key_code, keybind_pieces, replace_keybind,
    return_string_from_modifier, shown_binding, keybind_section_class, GlobalShortcut, Key,
    KeybindRecorder, Modifier, Shortcut,
};
use uplink::profile::{
    field_update_to_send, merged_identity, selected_status, IdentityStatus, OwnIdentity,
    friend_validation, image_data_prefix, image_kind_of_file_name, no_banner_picture,
    no_profile_picture, profile_update_message, status_message_to_send, status_validation,
    username_validation,
    ImageKind, ProfileUpdateError, ProfileUpdateMessage,
};

fn sc(keys: &[&str]) -> Shortcut {
    Shortcut { keys_and_modifiers: keys.iter().map(|k| k.to_string()).collect(), system_shortcut: false }
}

#[test]
fn new_configuration() {
    let c = Configuration::new();
    assert_eq!(c.developer.cache_dir, ".uplink");
    assert!(!c.developer.developer_mode);
    assert_eq!(c.general.theme, "");
    assert!(!c.general.enable_overlay && !c.general.show_splash);
    assert!(!c.extensions.enable && !c.privacy.satellite_sync_nodes);
    let d = Configuration::default();
    assert_eq!(d.developer.cache_dir, "");
}

#[test]
fn setters_and_toggle() {
    let mut c = Configuration::new();
    c.set_theme("dark".to_string());
    c.set_overlay(true);
    c.set_developer_mode(true);
    assert_eq!(c.general.theme, "dark");
    assert!(c.general.enable_overlay);
    assert!(c.developer.developer_mode);
    toggle_devmode(&mut c);
    assert!(!c.developer.developer_mode);
    toggle_devmode(&mut c);
    assert!(c.developer.developer_mode);
    assert_eq!(c.general.theme, "dark");
}

#[test]
fn loading_falls_back() {
    let c = Configuration::from_loaded(None);
    assert_eq!(c.developer.cache_dir, ".uplink");
    let mut mine = Configuration::new();
    mine.set_theme("x".to_string());
    assert_eq!(Configuration::from_loaded(Some(mine)).general.theme, "x");
    assert_eq!(config_file_relative_path(), ".uplink/Config.json");
}

#[test]
fn conflicts() {
    let binds = vec![
        (GlobalShortcut::ToggleMute, sc(&["M", "Ctrl"])),
        (GlobalShortcut::ToggleDeafen, sc(&["D", "Ctrl"])),
    ];
    assert!(!check_for_conflicts(&sc(&["M", "Ctrl"]), &binds));
    let mut dup = binds;
    dup.push((GlobalShortcut::ToggleDevmode, sc(&["M", "Ctrl"])));
    assert!(check_for_conflicts(&sc(&["M", "Ctrl"]), &dup));
    assert!(!check_for_conflicts(&sc(&["Q"]), &dup));
}

#[test]
fn replacing_a_keybind() {
    let mut binds = vec![
        (GlobalShortcut::ToggleMute, sc(&["M"])),
        (GlobalShortcut::ToggleDeafen, sc(&["D"])),
        (GlobalShortcut::ToggleMute, sc(&["N"])),
    ];
    replace_keybind(&mut binds, GlobalShortcut::ToggleMute, sc(&["X", "Alt"]));
    assert_eq!(binds.len(), 2);
    assert!(binds[0].0 == GlobalShortcut::ToggleDeafen);
    assert_eq!(shown_binding(&binds, GlobalShortcut::ToggleMute), vec!["X", "Alt"]);
    assert_eq!(shown_binding(&binds, GlobalShortcut::ToggleDeafen), vec!["D"]);
    assert!(shown_binding(&binds, GlobalShortcut::SetAppVisible).is_empty());
}

#[test]
fn modifier_names() {
    let ms = vec![Modifier::Alt, Modifier::CapsLock, Modifier::Control, Modifier::Meta, Modifier::Shift, Modifier::Super];
    assert_eq!(return_string_from_modifier(&ms, false), vec!["Alt", "Ctrl", "Windows Key", "Shift", "Windows Key"]);
    assert_eq!(return_string_from_modifier(&vec![Modifier::Meta], true), vec!["Command"]);
    assert!(return_string_from_modifier(&vec![Modifier::NumLock], true).is_empty());
}

#[test]
fn key_codes() {
    assert!(is_it_a_key_code(Key::Other));
    assert!(!is_it_a_key_code(Key::Shift));
    assert!(!is_it_a_key_code(Key::CapsLock));
}

#[test]
fn keybind_drawing() {
    let p = keybind_pieces(&vec!["ctrl".to_string(), "shiftleft".to_string(), "ß".to_string()]);
    assert_eq!(p, vec![("CTRL".to_string(), true), ("SHIFTLEFT".to_string(), true), ("SS".to_string(), false)]);
}

#[test]
fn profile_rules() {
    assert_eq!(status_message_to_send(String::new()), None);
    assert_eq!(status_message_to_send("busy".into()), Some("busy".into()));
    assert!(profile_update_message(ProfileUpdateError::InvalidLength) == ProfileUpdateMessage::TooLarge);
    assert!(profile_update_message(ProfileUpdateError::Other) == ProfileUpdateMessage::Failed);
    assert!(no_profile_picture("\0", false));
    assert!(no_profile_picture("", false));
    assert!(no_profile_picture("data:x", true));
    assert!(!no_profile_picture("data:x", false));
    assert!(no_banner_picture(""));
    assert!(!no_banner_picture("b"));
}

#[test]
fn image_prefixes() {
    assert!(image_kind_of_file_name("me.photo.PNG").is_none());
    assert!(image_kind_of_file_name("me.jpeg") == Some(ImageKind::Jpeg));
    assert_eq!(image_data_prefix("me.png", 10), "data:image/png;base64,");
    assert_eq!(image_data_prefix("me.jpg", 10), "data:image/jpeg;base64,");
    assert_eq!(image_data_prefix("icon.svg", 10), "data:image/svg+xml;base64,");
    assert_eq!(image_data_prefix("me.gif", 10), "data:;base64,");
    assert_eq!(image_data_prefix("me.png", 0), "");
}

#[test]
fn validations() {
    let u = username_validation();
    assert_eq!((u.min_length, u.max_length), (Some(4), Some(32)));
    let f = friend_validation();
    assert_eq!(f.special_chars_allowed, Some(vec!['#']));
    assert!(f.ignore_colons);
    let s = status_validation();
    assert_eq!((s.min_length, s.max_length), (Some(0), Some(128)));
    assert!(!s.alpha_numeric_only && !s.no_whitespace && s.special_chars_allowed.is_none());
}

#[test]
fn recording_a_new_shortcut() {
    let mut rec = KeybindRecorder::new();
    rec.focus();
    assert!(rec.is_recording);
    rec.keydown(false, Key::Control, "ControlLeft".into(), vec!["ctrl".to_string()]);
    assert_eq!(rec.recorded, vec!["ctrl".to_string()]);
    rec.keydown(false, Key::Other, "KeyM".into(), vec!["ctrl".to_string(), "shift".to_string()]);
    assert_eq!(rec.recorded, vec!["KeyM".to_string(), "ctrl".to_string(), "shift".to_string()]);
    let done = rec.keyup();
    assert_eq!(done, Some(vec!["KeyM".to_string(), "ctrl".to_string(), "shift".to_string()]));
    assert!(!rec.is_recording && !rec.has_key && !rec.has_modifier);

    // a key without a modifier records nothing
    rec.focus();
    rec.keydown(false, Key::Other, "KeyA".into(), vec![]);
    assert_eq!(rec.keyup(), None);

    // escape stops the recording
    rec.focus();
    rec.keydown(false, Key::Other, "KeyB".into(), vec!["alt".to_string()]);
    rec.keydown(true, Key::Other, "Escape".into(), vec![]);
    assert!(!rec.is_recording);
    assert_eq!(rec.keyup(), None);

    assert_eq!(keybind_section_class(false, false), "keybind-section-keys");
    assert_eq!(keybind_section_class(true, true), "keybind-section-keys recording conflicting");
    assert_eq!(keybind_section_class(false, true), "keybind-section-keys conflicting");
}

#[test]
fn profile_field_and_status_updates() {
    let cur = "ann".to_string();
    assert_eq!(field_update_to_send("anna".into(), true, &cur), Some("anna".to_string()));
    assert_eq!(field_update_to_send("anna".into(), false, &cur), None);
    assert_eq!(field_update_to_send("ann".into(), true, &cur), None);
    assert_eq!(selected_status(Some(IdentityStatus::Busy)), IdentityStatus::Busy);
    assert_eq!(selected_status(None), IdentityStatus::Online);
    let current = OwnIdentity { rest: ("ann", "old status"), profile_picture: "pic".to_string(), profile_banner: "ban".to_string() };
    let updated = OwnIdentity { rest: ("anna", "new status"), profile_picture: String::new(), profile_banner: String::new() };
    let m = merged_identity(updated, &current);
    assert_eq!(m.rest, ("anna", "new status"));
    assert_eq!((m.profile_picture.as_str(), m.profile_banner.as_str()), ("pic", "ban"));
}
