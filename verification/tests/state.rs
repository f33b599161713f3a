use chrono::Local;
use termchat::state::progress::ProgressState;
use termchat::state::{
    ChatMessage, CursorMovement, MessageType, ScrollMovement, State, SystemMessageType, Window,
};

fn typed(text: &str) -> State {
    let mut state = State::new();
    for c in text.chars() {
        state.input_write(c);
    }
    state
}

fn input_of(state: &State) -> String {
    state.input().iter().collect()
}

#[test]
fn reset_input_on_empty_buffer_returns_nothing() {
    let mut state = State::new();
    assert_eq!(state.reset_input(), None);
    assert!(state.messages().is_empty());
    assert_eq!(state.input_cursor(), 0);
}

#[test]
fn reset_input_returns_the_text_and_empties_the_buffer() {
    let mut state = typed("hello");
    assert_eq!(state.input_cursor(), 5);
    assert_eq!(state.reset_input(), Some("hello".to_string()));
    assert!(state.input().is_empty());
    assert_eq!(state.input_cursor(), 0);
    assert!(state.messages().is_empty());
    assert_eq!(state.reset_input(), None);
}

#[test]
fn cursor_stays_inside_the_input() {
    let mut state = State::new();
    state.input_move_cursor(CursorMovement::Left);
    assert_eq!(state.input_cursor(), 0);
    state.input_move_cursor(CursorMovement::Right);
    assert_eq!(state.input_cursor(), 0);
    state.input_write('a');
    state.input_move_cursor(CursorMovement::Right);
    assert_eq!(state.input_cursor(), 1);
    state.input_move_cursor(CursorMovement::Start);
    assert_eq!(state.input_cursor(), 0);
    state.input_move_cursor(CursorMovement::End);
    assert_eq!(state.input_cursor(), 1);
}

#[test]
fn characters_go_in_at_the_cursor() {
    let mut state = typed("ac");
    state.input_move_cursor(CursorMovement::Left);
    state.input_write('b');
    assert_eq!(input_of(&state), "abc");
    assert_eq!(state.input_cursor(), 2);
}

#[test]
fn delete_removes_the_character_at_the_cursor() {
    let mut state = typed("abc");
    state.input_remove();
    assert_eq!(input_of(&state), "abc");
    state.input_move_cursor(CursorMovement::Start);
    state.input_remove();
    assert_eq!(input_of(&state), "bc");
    assert_eq!(state.input_cursor(), 0);
}

#[test]
fn backspace_removes_the_character_before_the_cursor() {
    let mut state = typed("abc");
    state.input_remove_previous();
    assert_eq!(input_of(&state), "ab");
    assert_eq!(state.input_cursor(), 2);
    state.input_move_cursor(CursorMovement::Start);
    state.input_remove_previous();
    assert_eq!(input_of(&state), "ab");
    assert_eq!(state.input_cursor(), 0);
}

#[test]
fn cursor_position_counts_columns() {
    let state = typed("hello");
    assert_eq!(state.ui_input_cursor(10), (5, 0));
    assert_eq!(state.ui_input_cursor(5), (0, 1));
    assert_eq!(state.ui_input_cursor(2), (1, 2));
}

#[test]
fn cursor_position_stops_at_the_cursor() {
    let mut state = typed("hello");
    state.input_move_cursor(CursorMovement::Left);
    state.input_move_cursor(CursorMovement::Left);
    assert_eq!(state.ui_input_cursor(10), (3, 0));
}

#[test]
fn wide_characters_take_two_columns() {
    let state = typed("世界");
    assert_eq!(state.ui_input_cursor(10), (4, 0));
    assert_eq!(state.ui_input_cursor(4), (0, 1));
    // The second character does not fit in what is left of the first row.
    assert_eq!(state.ui_input_cursor(3), (2, 1));
}

#[test]
fn control_characters_take_no_column() {
    let state = typed("a\u{7}b");
    assert_eq!(state.ui_input_cursor(10), (2, 0));
}

#[test]
fn connecting_registers_the_peer_and_logs_it() {
    let mut state = State::new();
    state.connected_user(7, "bob");
    assert_eq!(state.user_name(7), Some(&"bob".to_string()));
    assert_eq!(state.all_user_endpoints(), vec![7]);
    assert_eq!(state.messages().len(), 1);
    assert_eq!(state.messages()[0].user, "bob");
    assert_eq!(state.messages()[0].message_type, MessageType::Connection);
}

#[test]
fn the_registry_follows_connections_and_disconnections() {
    let mut state = State::new();
    assert_eq!(state.user_name(1), None);
    state.disconnected_user(1);
    assert_eq!(state.user_name(1), None);
    state.connected_user(1, "a");
    state.connected_user(2, "b");
    let mut endpoints = state.all_user_endpoints();
    endpoints.sort();
    assert_eq!(endpoints, vec![1, 2]);
    state.disconnected_user(1);
    assert_eq!(state.user_name(1), None);
    assert_eq!(state.user_name(2), Some(&"b".to_string()));
    state.connected_user(1, "c");
    assert_eq!(state.user_name(1), Some(&"c".to_string()));
    state.disconnected_user(2);
    state.disconnected_user(1);
    assert!(state.all_user_endpoints().is_empty());
}

#[test]
fn connecting_again_overwrites_the_entry() {
    let mut state = State::new();
    state.connected_user(1, "a");
    state.connected_user(1, "b");
    assert_eq!(state.user_name(1), Some(&"b".to_string()));
    assert_eq!(state.all_user_endpoints(), vec![1]);
}

#[test]
fn disconnecting_logs_only_a_removal() {
    let mut state = State::new();
    state.disconnected_user(3);
    assert!(state.messages().is_empty());
    state.connected_user(3, "bob");
    state.disconnected_user(3);
    assert_eq!(state.messages().len(), 2);
    assert_eq!(state.messages()[1].user, "bob");
    assert_eq!(state.messages()[1].message_type, MessageType::Disconnection);
    state.disconnected_user(3);
    assert_eq!(state.messages().len(), 2);
}

#[test]
fn disconnecting_drops_the_window() {
    let mut state = State::new();
    state.connected_user(3, "bob");
    state.open_window(3, 4, 2);
    assert!(state.windows().contains_key(&3));
    state.disconnected_user(3);
    assert!(state.windows().is_empty());
}

#[test]
fn identity_numbers_are_never_reused() {
    let mut state = State::new();
    state.connected_user(1, "a");
    state.connected_user(2, "b");
    assert_eq!(state.users_id().get("a"), Some(&0));
    assert_eq!(state.users_id().get("b"), Some(&1));
    // A known name keeps its number, also from another endpoint.
    state.connected_user(3, "a");
    assert_eq!(state.users_id().get("a"), Some(&0));
    state.disconnected_user(1);
    state.disconnected_user(3);
    assert_eq!(state.users_id().get("a"), Some(&0));
    state.connected_user(4, "c");
    assert_eq!(state.users_id().get("c"), Some(&3));
    assert_eq!(state.next_user_id(), 4);
    assert_eq!(state.users_id().get("d"), None);
}

#[test]
fn messages_are_appended_in_order() {
    let mut state = State::new();
    let date = Local::now().naive_local();
    let first = ChatMessage { date, user: "a".to_string(), message_type: MessageType::Text("1".to_string()) };
    state.add_message(first.clone());
    state.add_message(ChatMessage::new("b".to_string(), MessageType::Text("2".to_string())));
    assert_eq!(state.messages().len(), 2);
    assert_eq!(state.messages()[0], first);
    assert_eq!(state.messages()[1].user, "b");
    assert_eq!(state.messages()[1].message_type, MessageType::Text("2".to_string()));
}

#[test]
fn system_messages_carry_their_severity() {
    let mut state = State::new();
    state.add_system_info_message("i".to_string());
    state.add_system_warn_message("w".to_string());
    state.add_system_error_message("e".to_string());
    state.add_system_message("x".to_string(), SystemMessageType::Warning);
    let kinds: Vec<MessageType> =
        state.messages().iter().map(|m| m.message_type.clone()).collect();
    assert_eq!(
        kinds,
        vec![
            MessageType::System("i".to_string(), SystemMessageType::Info),
            MessageType::System("w".to_string(), SystemMessageType::Warning),
            MessageType::System("e".to_string(), SystemMessageType::Error),
            MessageType::System("x".to_string(), SystemMessageType::Warning),
        ]
    );
    assert!(state.messages().iter().all(|m| m.user == "Termchat: "));
}

#[test]
fn progress_completes_at_total() {
    let mut state = State::new();
    let id = state.add_progress_message("a.txt", 10);
    assert_eq!(state.messages()[0].user, "Sending 'a.txt'");
    assert_eq!(state.progress_state(id), Some(ProgressState::Started(10)));
    state.progress_message_update(id, 4);
    assert_eq!(state.progress_state(id), Some(ProgressState::Working(10, 4)));
    state.progress_message_update(id, 4);
    assert_eq!(state.progress_state(id), Some(ProgressState::Working(10, 8)));
    state.progress_message_update(id, 2);
    assert_eq!(state.progress_state(id), Some(ProgressState::Completed));
    assert_eq!(state.messages()[0].message_type, MessageType::Progress(ProgressState::Completed));
}

#[test]
fn progress_completes_in_one_update() {
    let mut state = State::new();
    let id = state.add_progress_message("a.txt", 10);
    state.progress_message_update(id, 10);
    assert_eq!(state.progress_state(id), Some(ProgressState::Completed));
    let empty = state.add_progress_message("empty", 0);
    state.progress_message_update(empty, 0);
    assert_eq!(state.progress_state(empty), Some(ProgressState::Completed));
}

#[test]
fn updates_of_a_completed_or_unknown_transfer_change_nothing() {
    let mut state = State::new();
    let id = state.add_progress_message("a.txt", 3);
    state.progress_message_update(id, 3);
    let before = state.messages().clone();
    state.progress_message_update(id, 5);
    assert_eq!(state.messages(), &before);
    state.progress_message_update(id + 1, 5);
    state.progress_message_update(usize::MAX, 5);
    assert_eq!(state.messages(), &before);
    assert_eq!(state.progress_state(id + 1), None);
}

#[test]
fn transfers_of_the_same_name_are_kept_apart() {
    let mut state = State::new();
    let first = state.add_progress_message("a.txt", 10);
    state.add_system_info_message("between".to_string());
    let second = state.add_progress_message("a.txt", 20);
    assert_ne!(first, second);
    state.progress_message_update(second, 5);
    assert_eq!(state.progress_state(first), Some(ProgressState::Started(10)));
    assert_eq!(state.progress_state(second), Some(ProgressState::Working(20, 5)));
    state.progress_message_update(first, 10);
    assert_eq!(state.progress_state(first), Some(ProgressState::Completed));
    assert_eq!(state.progress_state(second), Some(ProgressState::Working(20, 5)));
}

#[test]
fn progress_beyond_total_keeps_counting() {
    let mut state = State::new();
    let id = state.add_progress_message("a.txt", 3);
    state.progress_message_update(id, 2);
    state.progress_message_update(id, 2);
    assert_eq!(state.progress_state(id), Some(ProgressState::Working(3, 4)));
}

#[test]
fn progress_state_steps() {
    assert_eq!(ProgressState::Started(5).advanced(0), ProgressState::Working(5, 0));
    assert_eq!(ProgressState::Started(5).advanced(5), ProgressState::Completed);
    assert_eq!(ProgressState::Working(5, 2).advanced(3), ProgressState::Completed);
    assert_eq!(ProgressState::Working(5, 2).advanced(1), ProgressState::Working(5, 3));
    assert_eq!(ProgressState::Completed.advanced(1), ProgressState::Completed);
    assert!(ProgressState::Working(5, u64::MAX - 1).check_advance(1));
    assert!(!ProgressState::Working(5, u64::MAX - 1).check_advance(2));
    assert!(ProgressState::Started(5).check_advance(u64::MAX));
}

#[test]
fn scrolling_stops_at_the_top() {
    let mut state = State::new();
    state.messages_scroll(ScrollMovement::Up);
    assert_eq!(state.scroll_messages_view(), 0);
    state.messages_scroll(ScrollMovement::Down);
    state.messages_scroll(ScrollMovement::Down);
    assert_eq!(state.scroll_messages_view(), 2);
    state.messages_scroll(ScrollMovement::Start);
    assert_eq!(state.scroll_messages_view(), 2);
    state.messages_scroll(ScrollMovement::Up);
    assert_eq!(state.scroll_messages_view(), 1);
}

#[test]
fn windows_show_the_latest_frame() {
    let mut state = State::new();
    assert_eq!(Window::new(4, 2), Window { data: vec![], width: 4, height: 2 });
    state.open_window(9, 4, 2);
    assert_eq!(state.windows().get(&9), Some(&Window::new(4, 2)));
    state.update_window(9, vec![1, 2, 3, 4], 4, 2);
    state.open_window(9, 8, 8);
    assert_eq!(
        state.windows().get(&9),
        Some(&Window { data: vec![1, 2, 3, 4], width: 4, height: 2 })
    );
    state.close_window(9);
    state.close_window(9);
    assert!(state.windows().is_empty());
}

#[test]
fn stop_requests_are_flags() {
    let mut state = State::new();
    assert!(!state.stop_stream());
    assert!(!state.stop_audio_requested());
    state.set_stop_stream(true);
    state.set_stop_audio(true);
    assert!(state.stop_stream());
    assert!(state.stop_audio_requested());
    state.set_stop_stream(false);
    assert!(!state.stop_stream());
    assert!(state.stop_audio_requested());
}

#[test]
fn playback_runs_while_someone_is_heard() {
    let mut state = State::new();
    assert!(!state.stop_audio(1));
    let first = state.pulse_audio(vec![1, 2], 1);
    assert!(first.start);
    assert_eq!(first.samples, vec![1, 2]);
    let second = state.pulse_audio(vec![3], 2);
    assert!(!second.start);
    assert!(!state.pulse_audio(vec![], 1).start);
    assert!(!state.stop_audio(3));
    assert!(!state.stop_audio(1));
    assert!(state.stop_audio(2));
    assert!(!state.stop_audio(2));
    assert!(state.pulse_audio(vec![4], 2).start);
}

#[test]
fn connected_names_are_known() {
    let mut state = State::new();
    assert!(!state.has_user_named("bob"));
    state.connected_user(1, "bob");
    state.connected_user(2, "eve");
    assert!(state.has_user_named("bob"));
    assert!(state.has_user_named("eve"));
    assert!(!state.has_user_named("bo"));
    state.disconnected_user(1);
    assert!(!state.has_user_named("bob"));
    assert!(state.has_user_named("eve"));
}

#[test]
fn scheduled_streams_are_flags() {
    let mut state = State::new();
    assert!(!state.streaming());
    assert!(!state.recording());
    state.set_streaming(true);
    assert!(state.streaming());
    assert!(!state.recording());
    state.set_recording(true);
    state.set_streaming(false);
    assert!(!state.streaming());
    assert!(state.recording());
}

#[test]
fn the_default_state_is_a_new_session() {
    let state = State::default();
    assert!(state.messages().is_empty());
    assert!(state.input().is_empty());
    assert_eq!(state.input_cursor(), 0);
    assert_eq!(state.scroll_messages_view(), 0);
    assert_eq!(state.next_user_id(), 0);
    assert!(state.all_user_endpoints().is_empty());
    assert!(state.windows().is_empty());
    assert!(!state.stop_stream());
    assert_eq!(state.progress_state(0), None);
    assert_eq!(termchat::state::ProgressState::Completed, ProgressState::Completed);
}

#[test]
fn a_copy_of_an_entry_is_equal_to_it() {
    let entry = ChatMessage::new(
        "bob".to_string(),
        MessageType::System("x".to_string(), SystemMessageType::Warning),
    );
    assert_eq!(entry.clone(), entry);
    let progress = MessageType::Progress(ProgressState::Working(3, 1));
    assert_eq!(progress.clone(), progress);
    assert_eq!(MessageType::Connection.clone(), MessageType::Connection);
    assert_eq!(MessageType::Disconnection.clone(), MessageType::Disconnection);
    assert_eq!(MessageType::Text("t".to_string()).clone(), MessageType::Text("t".to_string()));
}
