use uplink::messages::{apply_fetched, ChatBar, FetchedMessages};
use uplink::messages::PendingDownloads;
use uplink::messages::{blocked_view, message_menu, BlockedView, MessageMenu};
use uplink::messages::observer_script;
use uplink::messages::{
    chat_input_lines, chat_subtext, edited_message, fetch_more, initial_scroll, message_is_sendable,
    pin_state, platform_and_status, platform_badge, reaction_state, reaction_state_any,
    reaction_summary, reply_preview, sender_name, sender_status, ChatSubtext, IdentityPlatform,
    InitialScroll, PinState, Platform, Reaction, ReactionState, ScrollTo, Status,
};
use uplink::typing::{refresh_event, TypingIndicator, TypingTracker};

fn r(emoji: &str, users: &[&str]) -> Reaction {
    Reaction { emoji: emoji.to_string(), users: users.iter().map(|u| u.to_string()).collect() }
}

#[test]
fn reacting_twice_takes_back() {
    let me = "did:key:me".to_string();
    let thumbs = "👍".to_string();
    let none: Vec<Reaction> = vec![];
    assert!(reaction_state(&none, &me, &thumbs) == ReactionState::Add);
    let mine = vec![r("🎉", &[]), r("👍", &["did:key:me"])];
    assert!(reaction_state(&mine, &me, &thumbs) == ReactionState::Remove);
    let others = vec![r("👍", &["did:key:other"])];
    assert!(reaction_state(&others, &me, &thumbs) == ReactionState::Add);
}

#[test]
fn reaction_rules_differ_on_repeated_emoji() {
    let me = "did:key:me".to_string();
    let thumbs = "👍".to_string();
    let dup = vec![r("👍", &["did:key:other"]), r("👍", &["did:key:me"])];
    assert!(reaction_state(&dup, &me, &thumbs) == ReactionState::Add);
    assert!(reaction_state_any(&dup, &me, &thumbs) == ReactionState::Remove);
    let unique = vec![r("👍", &["did:key:me"])];
    assert!(reaction_state(&unique, &me, &thumbs) == reaction_state_any(&unique, &me, &thumbs));
}

#[test]
fn reaction_counts() {
    let me = "did:key:me".to_string();
    assert_eq!(reaction_summary(&r("👍", &["did:key:a", "did:key:me"]), &me), (2, true));
    assert_eq!(reaction_summary(&r("👍", &["did:key:a"]), &me), (1, false));
}

#[test]
fn pinning() {
    assert!(pin_state(true) == PinState::Unpin);
    assert!(pin_state(false) == PinState::Pin);
}

#[test]
fn message_validity() {
    assert!(!message_is_sendable(&vec![]));
    assert!(!message_is_sendable(&vec![" ".to_string(), "\t".to_string()]));
    assert!(message_is_sendable(&vec!["".to_string(), " hi".to_string()]));
    assert_eq!(chat_input_lines("a\r\nb\n"), vec!["a", "b"]);
}

#[test]
fn edits() {
    let current = vec!["hello".to_string(), "world".to_string()];
    assert_eq!(edited_message(&current, "hello\nworld"), None);
    assert_eq!(edited_message(&current, "  \n "), None);
    assert_eq!(edited_message(&current, "hello\nthere"), Some(vec!["hello".to_string(), "there".to_string()]));
}

#[test]
fn reply_first_line() {
    assert_eq!(reply_preview(Some(vec!["first".to_string(), "second".to_string()])), Some("first".to_string()));
    assert_eq!(reply_preview(Some(vec![])), None);
    assert_eq!(reply_preview(None), None);
}

#[test]
fn scroll_on_open() {
    let ids = vec![1u128, 2, 3, 4];
    assert!(initial_scroll(ScrollTo::MostRecent, 0, &ids) == (InitialScroll::ToEnd(4), false));
    assert!(initial_scroll(ScrollTo::MostRecent, 2, &ids) == (InitialScroll::ToEnd(2), true));
    assert!(initial_scroll(ScrollTo::MostRecent, 10, &ids) == (InitialScroll::ToEnd(1), true));
    assert!(initial_scroll(ScrollTo::MostRecent, 1, &vec![]) == (InitialScroll::EmptyChat, true));
    assert!(initial_scroll(ScrollTo::ScrollUp { view_top: 9 }, 3, &ids) == (InitialScroll::ToTop(9), false));
    assert!(initial_scroll(ScrollTo::ScrollDown { view_bottom: 8 }, 0, &ids) == (InitialScroll::ToBottom(8), false));
}

#[test]
fn subtexts() {
    let lines = vec!["  ".to_string(), "  hi there ".to_string()];
    match chat_subtext(&lines, &vec![], None) {
        ChatSubtext::Text(t) => assert_eq!(t, "hi there"),
        _ => panic!("expected text"),
    }
    assert!(matches!(chat_subtext(&vec![], &vec![], None), ChatSubtext::NewChat));
    match chat_subtext(&vec![], &vec!["a.png".to_string()], None) {
        ChatSubtext::File(n) => assert_eq!(n, "a.png"),
        _ => panic!("expected file"),
    }
    match chat_subtext(&vec![], &vec!["a".to_string(), "b".to_string()], Some("bob".to_string())) {
        ChatSubtext::SentBy(n) => assert_eq!(n, "bob"),
        _ => panic!("expected sender"),
    }
    assert!(matches!(chat_subtext(&vec![], &vec!["a".to_string(), "b".to_string()], None), ChatSubtext::NewChat));
}

#[test]
fn senders() {
    assert!(sender_status(Status::Offline, false) == Status::Online);
    assert!(sender_status(Status::Offline, true) == Status::Offline);
    assert!(sender_status(Status::Idle, false) == Status::Idle);
    assert_eq!(sender_name(String::new()), None);
    assert_eq!(sender_name("ann".to_string()), Some("ann".to_string()));
    assert!(platform_badge(IdentityPlatform::Web) == Platform::Headless);
    assert!(platform_badge(IdentityPlatform::Mobile) == Platform::Mobile);
    assert!(platform_and_status(None) == (Platform::Desktop, Status::Offline));
}

#[test]
fn fetching_more() {
    let f = fetch_more(true, 5, 20).unwrap();
    assert_eq!((f.conv_id, f.to_fetch, f.current_len), (5, 40, 20));
    assert!(fetch_more(false, 5, 20).is_none());
}

#[test]
fn typing_indicator_once_per_chat() {
    let mut t = TypingTracker::new(5);
    assert_eq!(t.handle(TypingIndicator::Typing(1, 0)), Some(1));
    assert_eq!(t.handle(TypingIndicator::Typing(1, 100)), None);
    assert_eq!(t.handle(TypingIndicator::Typing(2, 200)), Some(2));
    assert_eq!(t.handle(TypingIndicator::Refresh(2, 4700)), Some(2));
    assert_eq!(t.handle(TypingIndicator::Refresh(2, 4701)), None);
    assert_eq!(t.handle(TypingIndicator::NotTyping), None);
    assert_eq!(t.handle(TypingIndicator::Refresh(2, 4702)), None);
}

#[test]
fn refresh_for_other_chat_stops() {
    let mut t = TypingTracker::new(5);
    t.handle(TypingIndicator::Typing(1, 0));
    assert_eq!(t.handle(TypingIndicator::Refresh(2, 10)), None);
    assert!(t.info.is_none());
    assert!(refresh_event(None, 3).is_none());
    assert!(refresh_event(Some(4), 3) == Some(TypingIndicator::Refresh(4, 3)));
}

#[test]
fn observer_script_flags() {
    let t = "a=$SEND_TOP_EVENT;b=$SEND_BOTTOM_EVENT;c=$SEND_TOP_EVENT";
    assert_eq!(observer_script(t, true, false), "a=1;b=0;c=1");
    assert_eq!(observer_script(t, false, true), "a=0;b=1;c=0");
    assert_eq!(observer_script("none", true, true), "none");
}

#[test]
fn message_menus_and_blocked_groups() {
    let m = message_menu(false, Some(7), 7, true);
    assert!(m == MessageMenu { is_editing: true, show_edit: false, show_cancel_edit: true, show_delete: true });
    let m = message_menu(false, Some(8), 7, true);
    assert!(m == MessageMenu { is_editing: false, show_edit: true, show_cancel_edit: false, show_delete: true });
    let m = message_menu(true, Some(7), 7, false);
    assert!(m == MessageMenu { is_editing: false, show_edit: false, show_cancel_edit: false, show_delete: false });
    let m = message_menu(false, None, 7, false);
    assert!(m.show_edit && !m.show_cancel_edit && !m.show_delete);
    assert_eq!(blocked_view(true, true, false), BlockedView::Collapsed);
    assert_eq!(blocked_view(true, true, true), BlockedView::Revealed);
    assert_eq!(blocked_view(false, true, false), BlockedView::NotBlocked);
    assert_eq!(blocked_view(true, false, false), BlockedView::NotBlocked);
}

#[test]
fn typing_sends_on_switch_only() {
    let (a, b) = (1u128, 2u128);
    let mut t = TypingTracker::new(5);
    let mut sent = Vec::new();
    for e in [
        TypingIndicator::Typing(a, 0),
        TypingIndicator::Typing(a, 100),
        TypingIndicator::Typing(b, 200),
        TypingIndicator::NotTyping,
        TypingIndicator::Refresh(b, 300),
    ] {
        if let Some(c) = t.handle(e) {
            sent.push(c);
        }
    }
    assert_eq!(sent, vec![a, b]);
}

#[test]
fn pending_downloads_are_tracked_per_chat() {
    let mut p = PendingDownloads::new();
    p.start(1, 10);
    p.start(1, 11);
    p.start(2, 10);
    p.start(1, 10);
    assert!(p.is_pending(1, 10) && p.is_pending(2, 10));
    let mut in_one = p.pending_in(1);
    in_one.sort();
    assert_eq!(in_one, vec![10, 11]);
    p.finish(1, 10);
    assert!(!p.is_pending(1, 10));
    assert!(p.is_pending(2, 10));
    assert_eq!(p.pending_in(1), vec![11]);
    p.finish(3, 3);
    assert_eq!(p.pending_in(2), vec![10]);
    assert!(p.pending_in(4).is_empty());
}

#[test]
fn chat_bar_sends_once_and_clears() {
    let mut bar = ChatBar::new();
    assert_eq!(bar.change("hello\nworld", Some(5)), Some(5));
    assert_eq!(bar.lines, vec!["hello".to_string(), "world".to_string()]);
    let first = bar.submit(Some(5));
    assert!(first.stop_typing);
    assert_eq!(first.send, Some((vec!["hello".to_string(), "world".to_string()], 5)));
    assert!(bar.lines.is_empty() && bar.should_clear_input);
    let second = bar.submit(Some(5));
    assert!(second.stop_typing);
    assert_eq!(second.send, None);
    bar.change("  ", Some(5));
    assert_eq!(bar.submit(Some(5)).send, None);
    bar.change("hi", None);
    assert_eq!(bar.submit(None).send, None);
}

#[test]
fn fetched_messages_are_applied_once() {
    let mut slot = Some(FetchedMessages { conv_id: 3, messages: vec!["m1", "m2"], has_more: false });
    let u = apply_fetched(&mut slot).unwrap();
    assert_eq!((u.conv_id, u.messages.clone(), u.finished_loading), (3, vec!["m1", "m2"], true));
    assert!(slot.is_none());
    assert!(apply_fetched(&mut slot).is_none());
    let mut more = Some(FetchedMessages { conv_id: 4, messages: Vec::<u8>::new(), has_more: true });
    assert!(!apply_fetched(&mut more).unwrap().finished_loading);
}

#[test]
fn pending_files_are_listed_once() {
    let mut p = PendingDownloads::new();
    p.start(1, 7);
    p.start(1, 7);
    p.start(1, 8);
    let mut v = p.pending_in(1);
    v.sort();
    assert_eq!(v, vec![7, 8]);
}
