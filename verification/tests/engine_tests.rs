//! Scenario tests for the layout engine, the conversation-list
//! reconciliation, and the fetch coordination.

use smcurser::chats_view::ChatsView;
use smcurser::main_app::{AppAction, MainApp};
use smcurser::models::{Attachment, AwaitState, Conversation, Message, MessageLineType, MessageType};
use smcurser::msgs_view::MessagesView;
use smcurser::state::GlobalState;
use smcurser::utilities::date_pad_string;
use smcurser::wrap::wrap_text;

fn msg(guid: &str, date: i64, sender: Option<&str>, body: &str, from_me: bool) -> Message {
    Message {
        guid: guid.to_string(),
        date,
        sender: sender.map(|s| s.to_string()),
        text: body.to_string(),
        attachments: Vec::new(),
        is_from_me: from_me,
        message_type: MessageType::Normal,
        chat_identifier: Some("chat0".to_string()),
    }
}

fn conv(name: &str, id: &str, unread: bool, selected: bool) -> Conversation {
    Conversation {
        display_name: name.to_string(),
        chat_identifier: id.to_string(),
        latest_text: String::new(),
        has_unread: unread,
        addresses: id.to_string(),
        is_selected: selected,
        pinned: false,
        relative_time: String::new(),
    }
}

fn line_texts(view: &MessagesView) -> Vec<String> {
    view.line_list.iter().map(|l| l.text.clone()).collect()
}

fn line_kinds(view: &MessagesView) -> Vec<MessageLineType> {
    view.line_list.iter().map(|l| l.message_type).collect()
}

/// Word-wrap determinism: wrap column 10 splits exactly at the space.
#[test]
fn wrap_is_deterministic_at_column_ten() {
    let chars: Vec<char> = "abcdefghij klmno".chars().collect();
    let lines = wrap_text(&chars, 10);
    let strings: Vec<String> = lines.iter().map(|l| l.iter().collect()).collect();
    assert_eq!(strings, vec!["abcdefghij".to_string(), "klmno".to_string()]);
}

#[test]
fn wrap_keeps_long_word_whole() {
    let chars: Vec<char> = "abcdefghijklmno yes".chars().collect();
    let lines = wrap_text(&chars, 10);
    let strings: Vec<String> = lines.iter().map(|l| l.iter().collect()).collect();
    assert_eq!(strings, vec!["abcdefghijklmno".to_string(), "yes".to_string()]);
}

#[test]
fn wrap_of_empty_body_is_empty() {
    let chars: Vec<char> = Vec::new();
    let lines = wrap_text(&chars, 10);
    assert!(lines.is_empty());
}

/// The time label is centered and rendered from the platform epoch:
/// date 0 is 2001-01-01 00:00 UTC.
#[test]
fn date_label_is_centered_calendar_text() {
    let s = date_pad_string(0, 20);
    assert_eq!(s, "  01/01/2001 00:00  ");
    let hour = date_pad_string(3_600_000_000_000, 16);
    assert_eq!(hour, "01/01/2001 01:00");
}

/// Layout of a short conversation: header block only after a one-hour
/// gap, sender line on sender change, underline as long as the longest
/// line of each message.
#[test]
fn layout_groups_and_underlines() {
    let mut view = MessagesView::new();
    view.messages = vec![
        msg("g1", 0, None, "hi", false),
        msg("g2", 3_600_000_000_000, Some("Ann"), "yo", false),
    ];
    view.rerender_list(12, 5);

    let kinds = line_kinds(&view);
    assert_eq!(
        kinds,
        vec![
            MessageLineType::Text,
            MessageLineType::Underline,
            MessageLineType::Blank,
            MessageLineType::TimeDisplay,
            MessageLineType::Blank,
            MessageLineType::Sender,
            MessageLineType::Text,
            MessageLineType::Underline,
        ]
    );
    let texts = line_texts(&view);
    assert_eq!(texts[0], "hi");
    assert_eq!(texts[1], "\u{2594}\u{2594}");
    // msg_w is 10, the label is 16 wide: too wide to pad
    assert_eq!(texts[3], "01/01/2001 01:00");
    assert_eq!(texts[5], "Ann");
    assert_eq!(texts[6], "yo");
    assert_eq!(texts[7], "\u{2594}\u{2594}");
    let ris: Vec<usize> = view.line_list.iter().map(|l| l.relative_index).collect();
    assert_eq!(ris, vec![0, 0, 1, 1, 1, 1, 1, 1]);
}

/// Own messages are pushed to the right edge of the content area.
#[test]
fn own_messages_are_right_aligned() {
    let mut view = MessagesView::new();
    view.messages = vec![msg("g1", 0, None, "ok", true)];
    view.rerender_list(12, 5);
    let texts = line_texts(&view);
    // content width 10, longest line 2 -> eight leading spaces
    assert_eq!(texts[0], "        ok");
    assert_eq!(texts[1], "        \u{2594}\u{2594}");
}

/// Attachment lines carry a cumulative number and the mime type.
#[test]
fn attachments_are_numbered_cumulatively() {
    let mut m1 = msg("g1", 0, None, "", false);
    m1.attachments.push(Attachment::new("image/png".to_string(), "/a/p1.png".to_string()));
    let mut m2 = msg("g2", 1, None, "", false);
    m2.attachments.push(Attachment::new("image/jpeg".to_string(), "/a/p2.jpg".to_string()));

    let mut view = MessagesView::new();
    view.messages = vec![m1, m2];
    view.rerender_list(40, 5);
    let texts = line_texts(&view);
    assert_eq!(texts[0], "Attachment 0: image/png");
    assert_eq!(texts[2], "Attachment 1: image/jpeg");
    assert_eq!(
        view.attachments,
        vec!["/a/p1.png".to_string(), "/a/p2.jpg".to_string()]
    );
}

/// Layout idempotence: recomputing the full line sequence twice for an
/// unchanged message sequence and width yields identical output.
#[test]
fn rerender_is_idempotent() {
    let mut view = MessagesView::new();
    view.messages = vec![
        msg("g1", 0, Some("Ann"), "one two three four five", false),
        msg("g2", 10, Some("Bob"), "short", true),
    ];
    view.rerender_list(20, 6);
    let first_texts = line_texts(&view);
    let first_kinds = line_kinds(&view);
    view.rerender_list(20, 6);
    assert_eq!(line_texts(&view), first_texts);
    assert_eq!(line_kinds(&view), first_kinds);
}

/// Incremental/full equivalence: appending one message through the
/// incremental path produces the same lines as a full rebuild.
#[test]
fn incremental_extension_matches_full_rebuild() {
    let base = vec![
        msg("g1", 0, Some("Ann"), "hello over there", false),
        msg("g2", 50, Some("Bob"), "aye", true),
    ];
    let fresh = msg("g3", 3_600_000_000_060, Some("Ann"), "late reply arriving now", false);

    let mut incremental = MessagesView::new();
    incremental.messages = base.clone();
    incremental.rerender_list(20, 6);
    incremental.new_text(fresh.clone(), None);

    let mut full = MessagesView::new();
    full.messages = base;
    full.messages.push(fresh);
    full.rerender_list(20, 6);

    assert_eq!(line_texts(&incremental), line_texts(&full));
    assert_eq!(line_kinds(&incremental), line_kinds(&full));
}

/// Typing ephemerality: one typing event inserts exactly one line, and
/// the idle event removes exactly that line and its synthetic message,
/// leaving every other line unchanged.
#[test]
fn typing_indicator_is_ephemeral() {
    let mut view = MessagesView::new();
    view.messages = vec![msg("g1", 0, None, "hi", false)];
    view.rerender_list(12, 5);
    let before_texts = line_texts(&view);
    let before_len = view.messages.len();

    view.set_typing(Message::typing("chat0"));
    assert_eq!(view.line_list.len(), before_texts.len() + 1);
    assert_eq!(view.line_list.last().unwrap().text, "Typing...");
    assert_eq!(
        view.line_list.last().unwrap().message_type,
        MessageLineType::Typing
    );
    assert_eq!(view.messages.len(), before_len + 1);

    // a second typing event changes nothing
    view.set_typing(Message::typing("chat0"));
    assert_eq!(view.line_list.len(), before_texts.len() + 1);

    view.set_idle();
    assert_eq!(line_texts(&view), before_texts);
    assert_eq!(view.messages.len(), before_len);
    assert!(view.typing_idx.is_none());

    // idle without a typing indicator is a no-op
    view.set_idle();
    assert_eq!(line_texts(&view), before_texts);
}

/// Fetch coalescing: three rapid scroll-past-oldest triggers while a
/// pagination fetch is outstanding produce exactly one request, and
/// delivery moves the state back to idle exactly once.
#[test]
fn pagination_requests_coalesce() {
    let mut view = MessagesView::new();
    view.messages = vec![
        msg("g1", 0, None, "a", false),
        msg("g2", 1, None, "b", false),
    ];
    view.rerender_list(12, 5);
    view.selected_msg = 1;

    let mut requests = 0;
    for _ in 0..3 {
        if view.scroll(true, 1).is_some() {
            requests += 1;
        }
    }
    assert_eq!(requests, 1);
    assert_eq!(view.await_state, AwaitState::More);

    view.loaded_in_messages(vec![msg("g0", 0, None, "older", false)]);
    assert_eq!(view.await_state, AwaitState::Not);
    assert_eq!(view.messages.len(), 3);
    assert_eq!(view.messages[0].guid, "g0");
}

#[test]
fn reload_requests_are_refused_while_busy() {
    let mut view = MessagesView::new();
    assert!(view.request_replace());
    assert!(!view.request_replace());
    assert_eq!(view.request_older(), None);
    view.loaded_in_messages(vec![msg("g1", 0, None, "a", false)]);
    assert_eq!(view.await_state, AwaitState::Not);
    // fetched newest-first: delivery reverses into layout order
    assert_eq!(view.messages[0].guid, "g1");
    assert_eq!(view.request_older(), Some(1));
}

/// Selection stability, first example: conversations [A, B, C] with B
/// selected; a message for C moves it to the front and the selection
/// follows B to index 2.
#[test]
fn selection_follows_conversation_on_reorder() {
    let mut view = ChatsView::new();
    view.await_state = AwaitState::Not;
    view.chats = vec![
        conv("A", "a", false, false),
        conv("B", "b", false, true),
        conv("C", "c", false, false),
    ];
    view.last_selected = Some(1);

    let inbound = Message {
        chat_identifier: Some("c".to_string()),
        ..msg("g9", 7, Some("Cat"), "hey", false)
    };
    let past = view.new_text(&inbound, None);

    assert_eq!(past, Some(2));
    let order: Vec<String> = view.chats.iter().map(|c| c.chat_identifier.clone()).collect();
    assert_eq!(order, vec!["c".to_string(), "a".to_string(), "b".to_string()]);
    assert_eq!(view.last_selected, Some(2));
    assert!(view.chats[0].has_unread);
}

/// Selection stability, second example: a message for the selected
/// conversation itself moves it to the front, selected becomes 0 and
/// it stays read.
#[test]
fn selected_conversation_moves_to_front_and_stays_read() {
    let mut view = ChatsView::new();
    view.chats = vec![
        conv("A", "a", false, false),
        conv("B", "b", false, true),
        conv("C", "c", false, false),
    ];
    view.last_selected = Some(1);

    let inbound = Message {
        chat_identifier: Some("b".to_string()),
        ..msg("g9", 7, Some("Bee"), "hey", false)
    };
    let past = view.new_text(&inbound, None);

    assert_eq!(past, Some(1));
    let order: Vec<String> = view.chats.iter().map(|c| c.chat_identifier.clone()).collect();
    assert_eq!(order, vec!["b".to_string(), "a".to_string(), "c".to_string()]);
    assert_eq!(view.last_selected, Some(0));
    assert!(!view.chats[0].has_unread);
}

/// An unseen chat id materializes a new conversation at the front and
/// shifts the selection down one slot.
#[test]
fn unseen_chat_is_materialized_at_front() {
    let mut view = ChatsView::new();
    view.chats = vec![conv("A", "a", false, true)];
    view.last_selected = Some(0);

    let inbound = Message {
        chat_identifier: Some("z".to_string()),
        ..msg("g9", 7, None, "first contact", false)
    };
    let past = view.new_text(&inbound, Some("Zoe".to_string()));

    assert_eq!(past, None);
    assert_eq!(view.chats.len(), 2);
    assert_eq!(view.chats[0].display_name, "Zoe");
    assert_eq!(view.chats[0].chat_identifier, "z");
    assert_eq!(view.chats[0].latest_text, "first contact");
    assert!(view.chats[0].has_unread);
    assert_eq!(view.last_selected, Some(1));
}

/// A message without a chat id is dropped without any state change.
#[test]
fn inbound_without_chat_id_is_ignored() {
    let mut view = ChatsView::new();
    view.chats = vec![conv("A", "a", false, false)];
    let inbound = Message {
        chat_identifier: None,
        ..msg("g9", 7, None, "stray", false)
    };
    assert_eq!(view.new_text(&inbound, None), None);
    assert_eq!(view.chats.len(), 1);
}

#[test]
fn chat_rows_show_index_marker_and_ellipsis() {
    let mut view = ChatsView::new();
    view.chats = vec![
        conv("Alice", "a", false, true),
        conv("Bob", "b", true, false),
        conv("Charlotte Augustina", "c", false, false),
    ];
    view.rerender_list(19, 10);
    assert_eq!(view.chats_list[0], "  0 > Alice");
    assert_eq!(view.chats_list[1], "  1 \u{2022} Bob");
    // the row fits 11 name columns: eight characters plus the ellipsis
    assert_eq!(view.chats_list[2], "  2   Charlott...");
}

#[test]
fn chats_scroll_hits_limit_and_requests_more() {
    let mut view = ChatsView::new();
    view.await_state = AwaitState::Not;
    view.chats = vec![conv("A", "a", false, false), conv("B", "b", false, false)];
    view.rerender_list(19, 2);
    // limit is list length + 2 - height/2 = 3
    assert_eq!(view.scroll(false, 1), None);
    assert_eq!(view.scroll(false, 10), Some(2));
    assert_eq!(view.await_state, AwaitState::More);
    // further scrolls at the limit are refused while the fetch runs
    assert_eq!(view.scroll(false, 1), None);
    view.loaded_in_chats(vec![conv("C", "c", false, false)]);
    assert_eq!(view.await_state, AwaitState::Not);
    assert_eq!(view.chats.len(), 3);
}

/// The single-event selection rule seen from the dispatcher: the open
/// conversation's position shifts exactly as the reconciliation says.
#[test]
fn dispatcher_applies_selection_rule() {
    let mut app = MainApp::new();
    let mut state = GlobalState::new();
    app.chats_view.await_state = AwaitState::Not;
    app.chats_view.chats = vec![
        conv("A", "a", false, false),
        conv("B", "b", false, true),
        conv("C", "c", false, false),
    ];
    app.chats_view.last_selected = Some(1);
    app.selected_chat = Some(1);
    app.msgs_view.rerender_list(20, 6);

    let inbound = Message {
        chat_identifier: Some("c".to_string()),
        ..msg("g9", 7, Some("Cat"), "hey", false)
    };
    let actions = app.load_in_text(inbound, None, true, &mut state);
    assert_eq!(app.selected_chat, Some(2));
    assert!(actions.iter().any(|a| matches!(
        a,
        AppAction::Notify { title, body } if title == "Cat" && body == "hey"
    )));
}

/// A typing event for the open conversation shows the indicator; the
/// idle event removes it again.
#[test]
fn dispatcher_routes_typing_and_idle() {
    let mut app = MainApp::new();
    let mut state = GlobalState::new();
    app.chats_view.chats = vec![conv("A", "a", false, true)];
    app.chats_view.last_selected = Some(0);
    app.selected_chat = Some(0);
    app.msgs_view.messages = vec![msg("g1", 0, None, "hi", false)];
    app.msgs_view.rerender_list(20, 6);
    let baseline = app.msgs_view.line_list.len();

    app.load_in_text(Message::typing("a"), None, false, &mut state);
    assert_eq!(app.msgs_view.line_list.len(), baseline + 1);
    app.load_in_text(Message::idle("a"), None, false, &mut state);
    assert_eq!(app.msgs_view.line_list.len(), baseline);
}

#[test]
fn empty_conversation_renders_no_lines() {
    let mut view = MessagesView::new();
    view.rerender_list(12, 5);
    assert!(view.line_list.is_empty());
    assert!(view.attachments.is_empty());
    assert!(view.typing_idx.is_none());
}

#[test]
fn bad_selection_argument_is_echoed_in_the_hint() {
    let mut app = MainApp::new();
    let mut state = GlobalState::new();
    app.input_view.input = ":c five".to_string();
    app.handle_full_input(&mut state);
    assert_eq!(state.hint_msg, "Cannot convert 'five' to an int");

    app.input_view.input = ":c".to_string();
    app.handle_full_input(&mut state);
    assert_eq!(state.hint_msg, "Please insert an index");
}

#[test]
fn scroll_window_follows_the_selection() {
    let mut view = MessagesView::new();
    view.messages = (0..6).map(|i| msg(&format!("g{}", i), i, None, "abcdefgh", false)).collect();
    view.selected_msg = 5;
    // two lines per message, twelve lines, window of four rows; with
    // the newest message selected the bottom sits one past the end
    view.rerender_list(12, 4);
    assert_eq!(view.y_bounds, (10, 13));
    // moving up to an older message pulls the top up to its first line
    view.await_state = AwaitState::More;  // keep the motion from fetching
    view.scroll(true, 3);
    assert_eq!(view.selected_msg, 2);
    assert_eq!(view.y_bounds, (4, 7));
    // moving back down pulls the bottom past the newest selected line
    view.scroll(false, 3);
    assert_eq!(view.selected_msg, 5);
    assert_eq!(view.y_bounds, (10, 13));
}

#[test]
fn selected_message_getters_check_their_range() {
    let mut view = MessagesView::new();
    let mut m = msg("gid", 0, None, "body text", false);
    m.attachments.push(Attachment::new("text/plain".to_string(), "/p/file.txt".to_string()));
    view.messages = vec![m];
    view.rerender_list(40, 5);
    view.selected_msg = 0;
    assert_eq!(view.current_guid(), Some("gid".to_string()));
    assert_eq!(view.current_text(), Some("body text".to_string()));
    assert_eq!(view.attachment_path(0), Some("/p/file.txt".to_string()));
    assert_eq!(view.attachment_path(1), None);
    view.selected_msg = 9;
    assert_eq!(view.current_guid(), None);
    assert_eq!(view.current_text(), None);
}

/// A fetch outcome arriving with no fetch in flight changes nothing;
/// a failed fetch becomes a hint and leaves the view's data untouched.
#[test]
fn fetch_delivery_is_gated_and_failures_touch_nothing() {
    let mut app = MainApp::new();
    let mut state = GlobalState::new();
    let hint_before = state.hint_msg.clone();
    app.chats_view.await_state = AwaitState::Not;

    app.loaded_in_chats(Ok(vec![conv("A", "a", false, false)]), &mut state);
    assert!(app.chats_view.chats.is_empty());
    assert_eq!(state.hint_msg, hint_before);

    app.msgs_view.messages = vec![msg("g1", 0, None, "hi", false)];
    app.msgs_view.rerender_list(12, 5);
    let lines_before: Vec<String> =
        app.msgs_view.line_list.iter().map(|l| l.text.clone()).collect();
    app.msgs_view.await_state = AwaitState::More;
    app.loaded_in_messages(Err("boom".to_string()), &mut state);
    assert_eq!(state.hint_msg, "failed to load in messages: boom");
    assert_eq!(app.msgs_view.await_state, AwaitState::Not);
    assert_eq!(app.msgs_view.messages.len(), 1);
    let lines_after: Vec<String> =
        app.msgs_view.line_list.iter().map(|l| l.text.clone()).collect();
    assert_eq!(lines_after, lines_before);

    app.msgs_view.await_state = AwaitState::More;
    app.loaded_in_messages(Ok(Vec::new()), &mut state);
    assert_eq!(
        state.hint_msg,
        "you have loaded in all the messages for this conversation"
    );
    assert_eq!(app.msgs_view.messages.len(), 1);
}

/// The event listener's reconnect policy: failures enter Disconnected
/// and ask for one delayed retry, success enters Connected.
#[test]
fn socket_events_drive_reconnection() {
    let mut state = GlobalState::new();
    assert!(state.on_socket_event(smcurser::state::SocketEvent::ConnectFailed));
    assert_eq!(state.websocket_state, smcurser::state::WebSocketState::Disconnected);
    assert_eq!(state.hint_msg, "Websocket disconnected; retrying...");
    assert!(!state.on_socket_event(smcurser::state::SocketEvent::Opened));
    assert_eq!(state.websocket_state, smcurser::state::WebSocketState::Connected);
    assert!(state.on_socket_event(smcurser::state::SocketEvent::ReadError));
    assert_eq!(state.websocket_state, smcurser::state::WebSocketState::Disconnected);
    assert_eq!(smcurser::state::RECONNECT_DELAY_MSECS, 2000);
}

#[test]
fn out_of_range_selection_is_rejected_with_hint() {
    let mut app = MainApp::new();
    let mut state = GlobalState::new();
    app.chats_view.chats = vec![conv("A", "a", false, false)];
    let action = app.load_in_conversation(4, &mut state);
    assert!(action.is_none());
    assert_eq!(state.hint_msg, "4 is out of range for the chats");
    assert_eq!(app.selected_chat, None);
}

/// The compose flow: Enter in the address box opens the typed
/// conversation for the body box; Enter in the body box sends and
/// arms the new-conversation wait.
#[test]
fn compose_flow_sends_and_waits_for_the_new_conversation() {
    let mut app = MainApp::new();
    let mut state = GlobalState::new();
    app.input_view.input = ":n".to_string();
    app.handle_full_input(&mut state);
    assert!(matches!(app.selected_box, smcurser::main_app::DisplayBox::ComposeAddress));

    assert!(app.msgs_view.messages.is_empty());
    assert!(app.msgs_view.line_list.is_empty());

    app.address_view.input = "+15550001111".to_string();
    let actions = app.handle_enter(&mut state);
    assert!(matches!(app.selected_box, smcurser::main_app::DisplayBox::ComposeBody));
    assert!(matches!(
        &actions[0],
        AppAction::FetchMessages { chat, offset: None } if chat == "+15550001111"
    ));

    app.compose_body_view.input = "hello there".to_string();
    let actions = app.handle_enter(&mut state);
    assert!(matches!(app.selected_box, smcurser::main_app::DisplayBox::Messages));
    assert!(state.awaiting_new_convo);
    assert!(actions.iter().any(|a| matches!(
        a,
        AppAction::SendText { chat, body: Some(b), files: None }
            if chat == "+15550001111" && b == "hello there"
    )));
}

#[test]
fn backspace_on_an_emptied_command_sends_idle() {
    let mut app = MainApp::new();
    let mut state = GlobalState::new();
    state.current_chat = Some("chat0".to_string());
    app.input_view.input = ":".to_string();
    let action = app.handle_backspace_key(&state);
    assert_eq!(app.input_view.input, "");
    assert!(matches!(
        action,
        Some(AppAction::SendTyping { ref chat, active: false }) if chat == "chat0"
    ));
}

#[test]
fn loading_a_conversation_requests_its_messages() {
    let mut app = MainApp::new();
    let mut state = GlobalState::new();
    app.chats_view.chats = vec![conv("A", "a", true, false)];
    let action = app.load_in_conversation(0, &mut state);
    match action {
        Some(AppAction::FetchMessages { chat, offset }) => {
            assert_eq!(chat, "a");
            assert_eq!(offset, None);
        }
        other => panic!("expected a message fetch, got {:?}", other.is_some()),
    }
    assert_eq!(app.selected_chat, Some(0));
    assert_eq!(state.current_chat, Some("a".to_string()));
    assert!(!app.chats_view.chats[0].has_unread);
    assert!(app.chats_view.chats[0].is_selected);
}
