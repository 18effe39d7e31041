use uplink::calls::{
    call_disabled, show_edit_members, show_group_settings, toggle_deafen, toggle_mute, ChatPanels,
    ConversationKind, MuteCommand, SilenceCommand,
};
use uplink::components::{
    attachment_details, is_minimal_view, message_class, plus_badge, select_options,
    should_open_overlay, slide_icons, slide_minus, slide_minus_disabled, slide_plus,
    slide_minus_onset, slide_plus_onset, slide_sync_index, slide_value_text, user_image_group_view, ButtonsFormat, LifeCycle, Order, SlideIcon,
};
use uplink::diagnostics::{crash_report, logger_settings, parse_log_line, LevelFilter, LogProfile};
use uplink::friends::{
    default_username, did_suffix, friend_matches_search, friend_request_message,
    group_name_from_input, group_name_to_send, short_name, AddFriendForm, DidError, DidSet,
    RequestsInProgress,
    FriendRequestError, FriendRequestMessage,
};

#[test]
fn placeholder_names() {
    let did = "did:key:z6MkhaXgBZDvotDkL5257faiztiGiC2QtKLGpbnnEGta2doK";
    assert_eq!(default_username(did).unwrap(), "z6M...doK");
    assert!(default_username("did:key:") == Err(DidError::DidTooShort));
    assert!(default_username("") == Err(DidError::DidTooShort));
    // byte 8 falls inside a character
    assert!(default_username("did:key\u{e9}z6Mk-end") == Err(DidError::DidTooShort));
    assert_eq!(default_username("did:key:abc").unwrap(), "abc...abc");
}

#[test]
fn suffixes_and_names() {
    assert_eq!(did_suffix("did:key:abcdefgh"), "hgfedc");
    assert_eq!(did_suffix("xy"), "yx");
    assert_eq!(short_name("ann", "a1b2c3d4"), "ann#a1b2c3d4");
}

#[test]
fn friend_request_messages() {
    let me = "ann#1234".to_string();
    assert!(friend_request_message(FriendRequestError::PublicKeyIsBlocked, &"x".into(), &me) == FriendRequestMessage::KeyBlocked);
    assert!(friend_request_message(FriendRequestError::FriendExist, &"x".into(), &me) == FriendRequestMessage::AddExistingFriend);
    assert!(friend_request_message(FriendRequestError::FriendRequestExist, &"x".into(), &me) == FriendRequestMessage::RequestExist);
    assert!(friend_request_message(FriendRequestError::CannotSendSelfFriendRequest, &"x".into(), &me) == FriendRequestMessage::CannotAddSelf);
    assert!(friend_request_message(FriendRequestError::Other, &me.clone(), &me) == FriendRequestMessage::CannotAddSelf);
    assert!(friend_request_message(FriendRequestError::Other, &"bob#1".into(), &me) == FriendRequestMessage::AddFailed);
}

#[test]
fn group_names() {
    assert_eq!(group_name_to_send(Some("  ".into())), None);
    assert_eq!(group_name_to_send(Some(String::new())), None);
    assert_eq!(group_name_to_send(Some("Team".into())), Some("Team".into()));
    assert_eq!(group_name_to_send(None), None);
    assert_eq!(group_name_from_input("T".into(), false), None);
    assert_eq!(group_name_from_input("T".into(), true), Some("T".into()));
}

#[test]
fn friend_search() {
    assert_eq!(friend_matches_search("annabel", "ann"), Some(true));
    assert_eq!(friend_matches_search("an", "ann"), Some(false));
    assert_eq!(friend_matches_search("bob", "ann"), Some(false));
    assert_eq!(friend_matches_search("Zoë", ""), Some(true));
    assert_eq!(friend_matches_search("Annabel", "ANN"), Some(true));
    assert_eq!(friend_matches_search("Bob", "a"), Some(false));
    // the one-byte search text would cut "é" in half
    assert_eq!(friend_matches_search("éa", "a"), None);
}

#[test]
fn call_controls() {
    assert!(toggle_mute(Some(false)) == Some(MuteCommand::MuteSelf));
    assert!(toggle_mute(Some(true)) == Some(MuteCommand::UnmuteSelf));
    assert!(toggle_mute(None).is_none());
    assert!(toggle_deafen(Some(false)) == Some(SilenceCommand::SilenceCall));
    assert!(toggle_deafen(Some(true)) == Some(SilenceCommand::UnsilenceCall));
    assert!(toggle_deafen(None).is_none());
    let g = ConversationKind::Group { members_can_add_participants: true };
    assert!(show_edit_members(g, false));
    assert!(!show_edit_members(ConversationKind::Direct, true));
    assert!(!show_group_settings(g, false));
    assert!(show_group_settings(g, true));
    assert!(call_disabled(false, false, false));
    assert!(!call_disabled(true, false, false));
    assert!(call_disabled(true, true, false));
}

#[test]
fn panels_stay_exclusive() {
    let mut p = ChatPanels { manage_members: None, group_settings: true, group_users: Some(3), show_more: true };
    p.toggle_manage_members(true, 7);
    assert!(p == ChatPanels { manage_members: Some(7), group_settings: false, group_users: None, show_more: false });
    p.toggle_group_settings(true);
    assert!(p == ChatPanels { manage_members: None, group_settings: true, group_users: None, show_more: false });
    p.toggle_group_settings(true);
    assert!(!p.group_settings);
    p.toggle_manage_members(false, 7);
    assert!(p.manage_members.is_none());
}

#[test]
fn slide_selector() {
    assert!(slide_icons(Some(ButtonsFormat::PlusAndMinus)) == (SlideIcon::Minus, SlideIcon::Plus));
    assert!(slide_icons(None) == (SlideIcon::ArrowLeft, SlideIcon::ArrowRight));
    assert!(slide_minus_disabled(0));
    assert_eq!(slide_minus(0), None);
    assert_eq!(slide_minus(2), Some(1));
    assert_eq!(slide_plus(2, 3), None);
    assert_eq!(slide_plus(1, 3), Some(2));
    assert_eq!(slide_minus(slide_plus(0, 3).unwrap()), Some(0));
    assert_eq!(slide_sync_index(4, 1), 1);
}

#[test]
fn image_groups() {
    let v = user_image_group_view(5, None, None);
    assert_eq!((v.additional_participants, v.is_group, v.loading, v.show_more), (2, true, false, true));
    assert_eq!((v.pictures, v.show_typing), (3, false));
    let typing = user_image_group_view(5, None, Some(true));
    assert_eq!((typing.pictures, typing.show_more, typing.show_typing), (3, false, true));
    let two = user_image_group_view(2, Some(false), None);
    assert_eq!((two.pictures, two.show_more, two.is_group), (2, false, true));
    let e = user_image_group_view(0, Some(false), None);
    assert!(e.loading);
    assert_eq!(e.pictures, 0);
    let one = user_image_group_view(1, Some(true), None);
    assert_eq!((one.additional_participants, one.is_group, one.loading, one.show_more), (-2, false, true, false));
    assert_eq!(one.pictures, 0);
    assert_eq!(plus_badge(2), "+2");
}

#[test]
fn select_box() {
    let opts = vec!["a".to_string(), "b".to_string(), "c".to_string(), "b".to_string()];
    assert_eq!(select_options(&opts, &"b".to_string()), vec!["b", "a", "c"]);
    assert_eq!(select_options(&vec![], &"z".to_string()), vec!["z"]);
}

#[test]
fn message_classes() {
    assert_eq!(Order::First.to_class(), "message-first");
    assert_eq!(message_class(true, false, Some(Order::Last)), "message loading  message-last");
    assert_eq!(message_class(false, true, None), "message  remote message-last");
    assert_eq!(message_class(false, true, None), message_class(false, true, Some(Order::Last)));
    assert_eq!(message_class(false, false, Some(Order::Middle)), "message   message-middle");
}

#[test]
fn attachments() {
    let (name, size) = attachment_details("a.pdf", 1_000_000);
    assert_eq!(name, "a.pdf");
    assert_eq!(size, "1 MB");
}

#[test]
fn lifecycle_runs_cleanup_once() {
    let mut l = LifeCycle::new("create", 42);
    assert_eq!(l.take_create(), Some("create"));
    assert_eq!(l.take_create(), None);
    assert_eq!(l.take_destroy(), Some(42));
    assert_eq!(l.take_destroy(), None);
    assert_eq!(l.take_create(), None);
}

#[test]
fn window_rules() {
    assert!(should_open_overlay(false, true));
    assert!(!should_open_overlay(true, true));
    assert!(is_minimal_view(500, 600));
    assert!(!is_minimal_view(600, 600));
}

#[test]
fn logger_profiles() {
    let d = logger_settings(Some(LogProfile::Debug));
    assert!(d.write_to_stdout && !d.display_trace && d.level == LevelFilter::Debug);
    let t2 = logger_settings(Some(LogProfile::Trace2));
    assert!(t2.display_warp && t2.display_trace && t2.level == LevelFilter::Trace);
    let n = logger_settings(None);
    assert!(!n.write_to_stdout && n.level == LevelFilter::Debug);
    assert!(logger_settings(Some(LogProfile::Normal)) == n);
}

#[test]
fn crash_reports() {
    let r = crash_report(Some("boom \"x\""), Some(("src/main.rs", 12)), "log");
    assert_eq!(r, "panic occurred: \"boom \\\"x\\\"\" at file src/main.rs, line 12\nlog\n");
    assert_eq!(crash_report(None, None, ""), "panic occurred\n\n");
}

#[test]
fn log_lines() {
    let l = parse_log_line("2024-01-01 | INFO | started | extra");
    assert_eq!(l.datetime, "2024-01-01 ");
    assert_eq!(l.level, " INFO ");
    assert_eq!(l.message, " started ");
    assert_eq!(l.level_class, "info");
    let short = parse_log_line("only");
    assert_eq!((short.level.as_str(), short.message.as_str()), ("", ""));
}

#[test]
fn requests_in_progress_disable_buttons() {
    let a = "did:key:alice".to_string();
    let b = "did:key:bob".to_string();
    let mut p = RequestsInProgress::new();
    assert!(!p.any_button_disabled(&a));
    p.start_accept(&a);
    assert!(p.accept_disabled(&a));
    assert!(!p.deny_disabled(&a));
    assert!(p.any_button_disabled(&a));
    assert!(!p.any_button_disabled(&b));
    p.start_deny(&b);
    p.start_deny(&b);
    assert!(p.deny_disabled(&b));
    p.finish_deny(&b);
    assert!(!p.deny_disabled(&b));
    p.finish_accept(&a);
    assert!(!p.any_button_disabled(&a));
}

#[test]
fn picked_friends_for_a_group() {
    let a = "did:key:alice".to_string();
    let b = "did:key:bob".to_string();
    let mut picked = DidSet::new();
    picked.set_selected(&a, true);
    picked.set_selected(&b, true);
    picked.set_selected(&a, true);
    assert!(picked.contains(&a) && picked.contains(&b));
    let mut members = picked.members();
    members.sort();
    assert_eq!(members, vec![a.clone(), b.clone()]);
    picked.set_selected(&a, false);
    assert!(!picked.contains(&a));
    assert_eq!(picked.members(), vec![b.clone()]);
    picked.remove(&b);
    assert!(picked.members().is_empty());
}

#[test]
fn slide_selector_values() {
    let texts = vec!["small".to_string(), "medium".to_string(), "large".to_string()];
    assert_eq!(slide_value_text(&texts, 1), "medium");
    assert_eq!(slide_value_text(&texts, 3), "?");
    assert_eq!(slide_minus_onset(2, 3), Some(1));
    assert_eq!(slide_minus_onset(0, 3), None);
    // the shown index is beyond the values: decreasing to it hands nothing
    assert_eq!(slide_minus_onset(5, 3), None);
    assert_eq!(slide_minus_onset(3, 3), Some(2));
    assert_eq!(slide_plus_onset(1, 3), Some(2));
    assert_eq!(slide_plus_onset(2, 3), None);
    assert_eq!(slide_plus_onset(7, 3), None);
}

#[test]
fn add_friend_form_sends_only_valid_input() {
    let mut f = AddFriendForm::new();
    assert!(f.add_disabled());
    f.edit("bob".into(), false);
    assert_eq!(f.submit(), None);
    assert!(!f.in_progress);
    f.edit("bob#1234abcd".into(), true);
    assert!(!f.add_disabled());
    assert_eq!(f.submit(), Some("bob#1234abcd".to_string()));
    assert!(f.in_progress);
    f.answered();
    assert_eq!((f.input.as_str(), f.input_valid, f.in_progress), ("", false, false));
}
