//! Tests for the text helpers, the command parser, the input field,
//! and the shared state slots.

use smcurser::command::{parse_command, Command};
use smcurser::input_view::InputView;
use smcurser::main_app::MainApp;
use smcurser::models::{Conversation, Message, MessageType};
use smcurser::state::{BatteryStatus, GlobalState, PendingEvent, WebSocketState};
use smcurser::text::{chars_to_string, dec_digits, parse_usize, str_to_chars};

fn chars(s: &str) -> Vec<char> {
    s.chars().collect()
}

#[test]
fn decimal_digits_render_exactly() {
    assert_eq!(chars_to_string(&dec_digits(0)), "0");
    assert_eq!(chars_to_string(&dec_digits(7)), "7");
    assert_eq!(chars_to_string(&dec_digits(105)), "105");
    assert_eq!(chars_to_string(&dec_digits(usize::MAX)), usize::MAX.to_string());
}

#[test]
fn parse_usize_accepts_exactly_decimal_numbers() {
    assert_eq!(parse_usize(&chars("0")), Some(0));
    assert_eq!(parse_usize(&chars("25")), Some(25));
    assert_eq!(parse_usize(&chars("")), None);
    assert_eq!(parse_usize(&chars("2x")), None);
    assert_eq!(parse_usize(&chars("-3")), None);
    assert_eq!(parse_usize(&chars(&usize::MAX.to_string())), Some(usize::MAX));
    // one past the largest representable value is rejected
    assert_eq!(parse_usize(&chars("18446744073709551616")), None);
}

#[test]
fn str_chars_round_trip() {
    let v = str_to_chars("héllo ▔");
    assert_eq!(chars_to_string(&v), "héllo ▔");
}

#[test]
fn commands_parse_with_case_folded_token() {
    assert!(matches!(parse_command(&":q".to_string()), Command::Quit));
    assert!(matches!(parse_command(&":Q".to_string()), Command::Quit));
    assert!(matches!(parse_command(&":h".to_string()), Command::ShowHelp));
    assert!(matches!(parse_command(&":r".to_string()), Command::Reload));
    assert!(matches!(parse_command(&":n".to_string()), Command::Compose));
    assert!(matches!(parse_command(&":y".to_string()), Command::CopyText));
    assert!(matches!(parse_command(&":dt".to_string()), Command::DeleteText));
}

#[test]
fn select_chat_carries_parsed_index_and_raw_argument() {
    match parse_command(&":c 5".to_string()) {
        Command::SelectChat(idx, raw) => {
            assert_eq!(idx, Some(5));
            assert_eq!(raw, Some("5".to_string()));
        }
        _ => panic!("wrong command"),
    }
    match parse_command(&":c five".to_string()) {
        Command::SelectChat(idx, raw) => {
            assert_eq!(idx, None);
            assert_eq!(raw, Some("five".to_string()));
        }
        _ => panic!("wrong command"),
    }
    match parse_command(&":c".to_string()) {
        Command::SelectChat(idx, raw) => {
            assert_eq!(idx, None);
            assert_eq!(raw, None);
        }
        _ => panic!("wrong command"),
    }
}

#[test]
fn send_text_keeps_the_joined_body() {
    match parse_command(&":s hey there friend".to_string()) {
        Command::SendText(body) => assert_eq!(body, "hey there friend"),
        _ => panic!("wrong command"),
    }
    match parse_command(&":S HEY".to_string()) {
        Command::SendText(body) => assert_eq!(body, "HEY"),
        _ => panic!("wrong command"),
    }
}

#[test]
fn tapback_concatenates_arguments() {
    match parse_command(&":t love".to_string()) {
        Command::Tapback(t) => assert_eq!(t, "love"),
        _ => panic!("wrong command"),
    }
}

#[test]
fn delete_chat_takes_optional_id() {
    match parse_command(&":dc +15550001111".to_string()) {
        Command::DeleteChat(arg) => assert_eq!(arg, Some("+15550001111".to_string())),
        _ => panic!("wrong command"),
    }
    match parse_command(&":dc".to_string()) {
        Command::DeleteChat(arg) => assert_eq!(arg, None),
        _ => panic!("wrong command"),
    }
}

#[test]
fn unknown_commands_are_echoed_lowercased() {
    match parse_command(&":Zz 1".to_string()) {
        Command::Unknown(x) => assert_eq!(x, ":zz"),
        _ => panic!("wrong command"),
    }
}

#[test]
fn typed_attachments_honor_quotes_and_escapes() {
    let view = InputView::new();
    let files = view.get_typed_attachments("\"/a b/c.txt\" /d/e\\ f.png".to_string());
    assert_eq!(files, vec!["/a b/c.txt".to_string(), "/d/e f.png".to_string()]);
    let none = view.get_typed_attachments("   ".to_string());
    assert!(none.is_empty());
    let plain = view.get_typed_attachments("/tmp/x.png".to_string());
    assert_eq!(plain, vec!["/tmp/x.png".to_string()]);
}

#[test]
fn input_editing_round_trip() {
    let mut view = InputView::new();
    view.append_char(':');
    view.append_char('s');
    view.append_char(' ');
    view.append_char('h');
    assert_eq!(view.input, ":s h");
    view.handle_backspace();
    assert_eq!(view.input, ":s ");
    view.handle_escape();
    assert_eq!(view.input, "");
    assert_eq!(view.right_offset, 0);
}

#[test]
fn append_respects_cursor_offset() {
    let mut view = InputView::new();
    view.append_char('a');
    view.append_char('c');
    view.right_offset = 1;
    view.append_char('b');
    assert_eq!(view.input, "abc");
}

#[test]
fn tab_asks_for_completion_only_on_file_command() {
    let mut view = InputView::new();
    view.input = ":f /tm".to_string();
    assert!(view.handle_tab());
    assert_eq!(view.input, ":f /tm");

    let mut other = InputView::new();
    other.input = ":s hi".to_string();
    assert!(!other.handle_tab());
    assert_eq!(other.input, ":s hi\t");
}

#[test]
fn command_history_tabs_up_and_down() {
    let mut view = InputView::new();
    view.push_command(":q".to_string());
    view.push_command(":h".to_string());
    // history holds [":h", ":q"], most recent first
    view.change_command(true);
    assert_eq!(view.tabbed_up, Some(0));
    assert_eq!(view.input, ":h");
    view.change_command(true);
    assert_eq!(view.tabbed_up, Some(1));
    // the recall deliberately lags one entry behind the marker
    assert_eq!(view.input, ":h");
    view.change_command(false);
    assert_eq!(view.tabbed_up, Some(0));
    assert_eq!(view.input, ":h");
    view.change_command(false);
    assert_eq!(view.tabbed_up, None);
    assert_eq!(view.input, "");
}

#[test]
fn input_window_tracks_width_and_cursor() {
    let mut view = InputView::new();
    view.input = "abcdefghij".to_string();
    view.update_width(8);
    assert_eq!(view.last_width, 8);
    assert_eq!(view.bounds, (0, 10));
    // moving the cursor left slides the window's start back to it
    view.scroll(false, 4);
    assert_eq!(view.right_offset, 4);
    assert_eq!(view.bounds.0, 0);
    view.scroll(false, 10);
    assert_eq!(view.right_offset, 10);
    assert_eq!(view.bounds.0, 0);
}

#[test]
fn state_slots_deliver_by_priority_exactly_once() {
    let mut state = GlobalState::new();
    assert!(state.take_next().is_none());

    state.set_new_msgs(Ok(Vec::new()));
    state.set_new_chats(Ok(Vec::new()));
    state.set_new_text(Message::typing("a"));

    match state.take_next() {
        Some(PendingEvent::NewText(m)) => assert_eq!(m.message_type, MessageType::Typing),
        _ => panic!("inbound message should come first"),
    }
    assert!(matches!(state.take_next(), Some(PendingEvent::Chats(Ok(_)))));
    assert!(matches!(state.take_next(), Some(PendingEvent::Msgs(Ok(_)))));
    assert!(state.take_next().is_none());
}

#[test]
fn writers_replace_slot_content() {
    let mut state = GlobalState::new();
    state.set_new_chats(Err("first".to_string()));
    state.set_new_chats(Err("second".to_string()));
    match state.take_next() {
        Some(PendingEvent::Chats(Err(e))) => assert_eq!(e, "second"),
        _ => panic!("expected the replaced value"),
    }
    assert!(state.take_next().is_none());
}

#[test]
fn battery_strings_match_status() {
    let mut state = GlobalState::new();
    assert_eq!(state.battery_string(), "0%, dead");
    state.receive_battery(true, 100);
    assert_eq!(state.battery_status, BatteryStatus::Full);
    assert_eq!(state.battery_string(), "100%, full");
    state.receive_battery(true, 42);
    assert_eq!(state.battery_string(), "42%, charging");
    state.receive_battery(false, 9);
    assert_eq!(state.battery_string(), "9%, unplugged");
    state.receive_battery(true, 0);
    assert_eq!(state.battery_string(), "0%, dead");
}

#[test]
fn typing_notices_become_pending_messages() {
    let mut state = GlobalState::new();
    assert_eq!(state.websocket_state, WebSocketState::Disconnected);
    state.receive_typing("chat9", true);
    match state.take_next() {
        Some(PendingEvent::NewText(m)) => {
            assert_eq!(m.message_type, MessageType::Typing);
            assert_eq!(m.chat_identifier, Some("chat9".to_string()));
        }
        _ => panic!("expected the typing notice"),
    }
    state.receive_typing("chat9", false);
    match state.take_next() {
        Some(PendingEvent::NewText(m)) => assert_eq!(m.message_type, MessageType::Idle),
        _ => panic!("expected the idle notice"),
    }
}

#[test]
fn full_input_quits_helps_and_reloads() {
    let mut app = MainApp::new();
    let mut state = GlobalState::new();

    app.input_view.input = ":q".to_string();
    app.handle_full_input(&mut state);
    assert!(app.quit_app);
    assert_eq!(app.input_view.input, "");
    assert_eq!(app.input_view.last_commands, vec![":q".to_string()]);

    app.input_view.input = ":h".to_string();
    app.handle_full_input(&mut state);
    assert!(matches!(app.selected_box, smcurser::main_app::DisplayBox::Help));

    app.chats_view.await_state = smcurser::models::AwaitState::Not;
    app.input_view.input = ":r".to_string();
    let actions = app.handle_full_input(&mut state);
    assert!(app.redraw_all);
    assert_eq!(actions.len(), 1);
    assert!(matches!(
        actions[0],
        smcurser::main_app::AppAction::FetchChats { offset: None }
    ));

    app.input_view.input = ":zz".to_string();
    app.handle_full_input(&mut state);
    assert_eq!(state.hint_msg, "Command :zz not recognized");
}

#[test]
fn default_paths_join_the_config_directory() {
    assert_eq!(
        smcurser::utilities::default_config("/home/u/.config/smcurser"),
        "/home/u/.config/smcurser/smcurser.toml"
    );
    assert_eq!(
        smcurser::utilities::default_colorschemes("/home/u/.config/smcurser"),
        "/home/u/.config/smcurser/colorschemes.toml"
    );
}

#[test]
fn bind_pairs_name_with_joined_value() {
    let mut app = MainApp::new();
    let mut state = GlobalState::new();
    app.input_view.input = ":b chat-title this is a title".to_string();
    let actions = app.handle_full_input(&mut state);
    assert_eq!(actions.len(), 1);
    match &actions[0] {
        smcurser::main_app::AppAction::UpdateSetting { ops } => {
            assert_eq!(ops, &vec!["chat-title".to_string(), "this is a title".to_string()]);
        }
        _ => panic!("expected a setting update"),
    }

    app.input_view.input = ":b lonely".to_string();
    let actions = app.handle_full_input(&mut state);
    assert!(actions.is_empty());
    assert_eq!(state.hint_msg, "Please enter at least a variable name and value");
}

/// Index hints carry the index and the count; deleting with nothing
/// selected explains itself.
#[test]
fn attachment_and_delete_hints_name_the_problem() {
    let mut app = MainApp::new();
    let mut state = GlobalState::new();

    app.input_view.input = ":a 3".to_string();
    app.handle_full_input(&mut state);
    assert_eq!(state.hint_msg, "cannot get attachment 3 (there are only 0)");

    app.chats_view.chats = vec![Conversation {
        display_name: "A".to_string(),
        chat_identifier: "a".to_string(),
        latest_text: String::new(),
        has_unread: false,
        addresses: "a".to_string(),
        is_selected: true,
        pinned: false,
        relative_time: String::new(),
    }];
    app.selected_chat = Some(0);
    app.input_view.input = ":dt".to_string();
    let actions = app.handle_full_input(&mut state);
    assert!(actions.is_empty());
    assert_eq!(state.hint_msg, "Failed to delete message (not enough messages)");

    app.input_view.input = ":dc".to_string();
    app.handle_full_input(&mut state);
    assert_eq!(
        state.hint_msg,
        "Please enter ':dc a' if you'd like to delete this conversation"
    );
}

#[test]
fn tapbacks_validate_their_kind() {
    let mut app = MainApp::new();
    let mut state = GlobalState::new();
    app.chats_view.chats = vec![Conversation {
        display_name: "A".to_string(),
        chat_identifier: "a".to_string(),
        latest_text: String::new(),
        has_unread: false,
        addresses: "a".to_string(),
        is_selected: true,
        pinned: false,
        relative_time: String::new(),
    }];
    app.chats_view.last_selected = Some(0);
    app.msgs_view.messages = vec![Message {
        guid: "gg".to_string(),
        date: 0,
        sender: None,
        text: "hi".to_string(),
        attachments: Vec::new(),
        is_from_me: false,
        message_type: MessageType::Normal,
        chat_identifier: Some("a".to_string()),
    }];
    app.msgs_view.selected_msg = 0;

    match app.send_tapback(&"laugh".to_string(), &mut state) {
        Some(smcurser::main_app::AppAction::SendTapback { guid, kind }) => {
            assert_eq!(guid, "gg");
            assert_eq!(kind, 3);
        }
        _ => panic!("expected a tapback action"),
    }
    assert!(app.send_tapback(&"sideeye".to_string(), &mut state).is_none());
    assert_eq!(
        state.hint_msg,
        "Did not recognize tapback option sideeye; possible options are: \
         love, like, dislike, laugh, emphasize, question"
    );
}
