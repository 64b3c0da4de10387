use ferris_the_waiter::client::{
    new_commands, terminal_class, visible_after_connect, websocket_url, GlobalState, ServerNotice, StatusMessageType,
};
use ferris_the_waiter::messages::{ClientMessage, CommandId, ServerMessage};

#[test]
fn status_classes() {
    assert_eq!(StatusMessageType::Success.to_class(), "status-message-success");
    assert_eq!(StatusMessageType::Information.to_class(), "status-message-information");
    assert_eq!(StatusMessageType::Error.to_class(), "status-message-error");
    let mut state = GlobalState::default();
    assert_eq!(state.status_class(), "status-message");
    state.display_status_message("working".to_string());
    assert_eq!(state.status_message, Some(("working".to_string(), StatusMessageType::Information)));
    assert_eq!(state.status_class(), "status-message-information");
    state.clear_status_message();
    assert_eq!(state.status_message, None);
}

#[test]
fn terminal_classes() {
    assert_eq!(terminal_class(Some(CommandId(1)), CommandId(1)), "terminal");
    assert_eq!(terminal_class(Some(CommandId(2)), CommandId(1)), "terminal-hidden");
    assert_eq!(terminal_class(None, CommandId(1)), "terminal-hidden");
}

#[test]
fn only_new_commands_are_connected() {
    let ids = vec![CommandId(1), CommandId(2), CommandId(3)];
    let connected = vec![CommandId(2)];
    assert_eq!(new_commands(&ids, &connected), vec![CommandId(1), CommandId(3)]);
    let mut state = GlobalState::new();
    let mut connected = connected;
    state.connect_commands(&ids, &mut connected);
    assert_eq!(connected, vec![CommandId(2), CommandId(1), CommandId(3)]);
    assert_eq!(
        state.message_queue,
        vec![
            ClientMessage::GetCommandOutputStream { command_id: 1 },
            ClientMessage::GetCommandOutputStream { command_id: 3 }
        ]
    );
    state.connect_commands(&ids, &mut connected);
    assert_eq!(connected.len(), 3);
    assert_eq!(state.message_queue.len(), 2);
}

#[test]
fn queue_drained_only_when_open() {
    let mut state = GlobalState::new();
    state.message_queue.push(ClientMessage::GetCommandOutputStream { command_id: 9 });
    assert!(state.drain_message_queue(false).is_empty());
    assert_eq!(state.message_queue.len(), 1);
    assert_eq!(state.drain_message_queue(true), vec![ClientMessage::GetCommandOutputStream { command_id: 9 }]);
    assert!(state.message_queue.is_empty());
}

#[test]
fn output_accumulates_and_is_written_once() {
    let mut state = GlobalState::new();
    state.record_invoked_command(CommandId(5));
    assert_eq!(state.command_outputs.get(&5), Some(&(0, vec![])));
    let notice = state.apply_server_message(ServerMessage::CommandOutput { command_id: CommandId(5), output: b"ab".to_vec() });
    assert_eq!(notice, ServerNotice::OutputReceived);
    state.apply_server_message(ServerMessage::CommandOutput { command_id: CommandId(5), output: b"cd".to_vec() });
    assert_eq!(state.command_outputs.get(&5), Some(&(2, b"abcd".to_vec())));
    assert_eq!(state.take_unwritten_output(CommandId(5)), Some(b"abcd".to_vec()));
    assert_eq!(state.command_outputs.get(&5), Some(&(3, vec![])));
    assert_eq!(state.take_unwritten_output(CommandId(6)), None);
    state.apply_server_message(ServerMessage::CommandOutput { command_id: CommandId(6), output: b"x".to_vec() });
    assert_eq!(state.command_outputs.get(&6), Some(&(1, b"x".to_vec())));
}

#[test]
fn other_server_messages_are_reported() {
    let mut state = GlobalState::new();
    assert_eq!(
        state.apply_server_message(ServerMessage::NoCommandWithId { command_id: 4 }),
        ServerNotice::UnknownCommand { command_id: 4 }
    );
    assert_eq!(state.apply_server_message(ServerMessage::InvalidPassword), ServerNotice::InvalidPassword);
    assert!(state.command_outputs.is_empty());
}

#[test]
fn visible_terminal_follows_connections() {
    assert_eq!(visible_after_connect(&vec![], Some(CommandId(1))), None);
    assert_eq!(visible_after_connect(&vec![CommandId(4)], None), Some(CommandId(4)));
    assert_eq!(visible_after_connect(&vec![CommandId(4), CommandId(5)], Some(CommandId(5))), Some(CommandId(5)));
    let mut state = GlobalState::new();
    state.sync_visible_command(&vec![CommandId(8)]);
    assert_eq!(state.visible_command_id, Some(CommandId(8)));
    state.select_command(CommandId(9));
    assert_eq!(state.visible_command_id, Some(CommandId(9)));
    let ids = state.command_ids();
    assert!(ids.is_empty());
    state.record_invoked_command(CommandId(1));
    state.record_invoked_command(CommandId(2));
    let mut ids: Vec<u32> = state.command_ids().into_iter().map(|id| id.0).collect();
    ids.sort();
    assert_eq!(ids, vec![1, 2]);
    state.set_session_token(Some("t".to_string()));
    assert_eq!(state.session_token, Some("t".to_string()));
}

#[test]
fn websocket_address_carries_token() {
    assert_eq!(websocket_url("123"), "ws://localhost:3000/api/ws?session_token=123");
}

#[test]
fn connections_over_many_rounds_subscribe_once_each() {
    let mut state = GlobalState::new();
    let mut connected: Vec<CommandId> = Vec::new();
    for round in 1..=4u32 {
        state.record_invoked_command(CommandId(round));
        let ids = state.command_ids();
        state.connect_commands(&ids, &mut connected);
        for id in state.command_outputs.keys() {
            assert!(connected.contains(&CommandId(*id)));
        }
    }
    let mut seen: Vec<u32> = connected.iter().map(|id| id.0).collect();
    seen.sort();
    assert_eq!(seen, vec![1, 2, 3, 4]);
    assert_eq!(state.message_queue.len(), 4);
    let mut subscribed: Vec<u32> = state
        .message_queue
        .iter()
        .map(|m| match m {
            ClientMessage::GetCommandOutputStream { command_id } => *command_id,
            ClientMessage::UnsubscribeFromCommandOutput { command_id } => *command_id,
        })
        .collect();
    subscribed.sort();
    assert_eq!(subscribed, vec![1, 2, 3, 4]);
}

#[test]
fn many_chunks_written_once_in_order() {
    let mut state = GlobalState::new();
    let mut written: Vec<u8> = Vec::new();
    let chunks: Vec<&[u8]> = vec![b"a", b"bc", b"", b"def", b"g"];
    for (i, chunk) in chunks.iter().enumerate() {
        state.apply_server_message(ServerMessage::CommandOutput { command_id: CommandId(1), output: chunk.to_vec() });
        if i % 2 == 1 {
            written.extend(state.take_unwritten_output(CommandId(1)).unwrap());
        }
    }
    written.extend(state.take_unwritten_output(CommandId(1)).unwrap());
    assert_eq!(written, b"abcdefg".to_vec());
}
