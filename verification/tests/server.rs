use ferris_the_waiter::auth::{check_rate_limit, finish_login, finish_login_with, verify_password, PasswordHashString, RateLimiting};
use ferris_the_waiter::commands::{
    command_execution_list, command_execution_list_at, command_list, command_list_at, prepare_invocation, prepare_invocation_at, quote_command, register_command, register_command_with_id,
    running_command_ids, shell_command, shell_command_from_words, CommandOutputs, Commands, StreamMode,
};
use ferris_the_waiter::decimal::u64_to_decimal;
use ferris_the_waiter::error::ApiError;
use ferris_the_waiter::messages::{
    authorize_websocket, authorize_websocket_at, command_output_message, handle_client_message, ClientMessage, CommandId, ServerMessage, SocketAction,
    WsAuthQuery,
};
use ferris_the_waiter::session::{check_session_token, check_session_token_at, SessionTokens};
use ferris_the_waiter::streaming::{
    finish_streaming, next_read_step, next_send_step, read_bytes, ReadEvent, ReadStep, SendOutcome, SendStep, StreamEvent,
    StreamProgress,
};
use ferris_the_waiter::time::{session_expired, Timestamp, RATE_LIMIT_WINDOW_NANOS, SESSION_LIFETIME_NANOS};

const WEEK_SECS: i64 = 7 * 24 * 60 * 60;

fn at(secs: i64, nanos: u32) -> Timestamp {
    Timestamp { secs, nanos }
}

fn tokens_with(token: &str, minted: Timestamp) -> SessionTokens {
    let mut tokens = SessionTokens::new();
    tokens.insert(token.to_string(), minted);
    tokens
}

#[test]
fn decimal_tokens_match_to_string() {
    assert_eq!(u64_to_decimal(0), "0");
    assert_eq!(u64_to_decimal(7), "7");
    assert_eq!(u64_to_decimal(10), "10");
    assert_eq!(u64_to_decimal(1234567890), "1234567890");
    assert_eq!(u64_to_decimal(u64::MAX), u64::MAX.to_string());
}

#[test]
fn error_messages() {
    assert_eq!(ApiError::RateLimited.message(), "Rate limited");
    assert_eq!(ApiError::InvalidPassword.message(), "Invalid password");
    assert_eq!(ApiError::InvalidSessionToken.message(), "Invalid session token");
    assert_eq!(ApiError::NoCommandWithName.message(), "No command with that name");
    assert_eq!(ApiError::Server("boom".to_string()).message(), "boom");
}

#[test]
fn session_lifetime_is_seven_days() {
    assert_eq!(SESSION_LIFETIME_NANOS, 604_800_000_000_000);
    let minted = at(1_000, 500);
    assert!(!session_expired(minted, at(1_000 + WEEK_SECS, 500)));
    assert!(session_expired(minted, at(1_000 + WEEK_SECS, 501)));
    assert!(!session_expired(minted, at(999, 0)));
}

#[test]
fn token_accepted_within_lifetime() {
    let mut tokens = tokens_with("42", at(100, 0));
    assert_eq!(check_session_token_at(&mut tokens, "42", at(100 + WEEK_SECS, 0)), Ok(()));
    assert_eq!(tokens.minted_at("42"), Some(at(100, 0)));
    assert_eq!(tokens.len(), 1);
}

#[test]
fn expired_token_refused_and_forgotten() {
    let mut tokens = tokens_with("42", at(100, 0));
    tokens.insert("43".to_string(), at(200, 0));
    let later = at(100 + WEEK_SECS, 1);
    assert_eq!(check_session_token_at(&mut tokens, "42", later), Err(ApiError::InvalidSessionToken));
    assert_eq!(tokens.minted_at("42"), None);
    assert_eq!(tokens.minted_at("43"), Some(at(200, 0)));
    assert_eq!(check_session_token_at(&mut tokens, "42", at(100, 0)), Err(ApiError::InvalidSessionToken));
}

#[test]
fn unknown_token_refused() {
    let mut tokens = tokens_with("42", at(100, 0));
    assert_eq!(check_session_token_at(&mut tokens, "41", at(100, 0)), Err(ApiError::InvalidSessionToken));
    assert_eq!(tokens.len(), 1);
    assert_eq!(check_session_token(&mut tokens, "nope"), Err(ApiError::InvalidSessionToken));
    assert_eq!(tokens.len(), 1);
}

#[test]
fn rate_limit_window() {
    assert_eq!(RATE_LIMIT_WINDOW_NANOS, 500_000_000);
    let fresh = RateLimiting::new();
    assert!(!fresh.is_rate_limited(0));
    let refused = RateLimiting { last_request_time: Some(1_000_000_000) };
    assert!(refused.is_rate_limited(1_000_000_000));
    assert!(refused.is_rate_limited(1_499_999_999));
    assert!(!refused.is_rate_limited(1_500_000_000));
    assert!(refused.is_rate_limited(5));
    assert_eq!(check_rate_limit(&refused, 1_200_000_000), Err(ApiError::RateLimited));
    assert_eq!(check_rate_limit(&refused, 2_000_000_000), Ok(()));
}

#[test]
fn wrong_password_records_refusal() {
    let mut rate = RateLimiting::new();
    let mut tokens = SessionTokens::new();
    let result = finish_login_with(&mut rate, &mut tokens, Ok(false), 77, 5, at(1, 0));
    assert_eq!(result, Err(ApiError::InvalidPassword));
    assert_eq!(rate.last_request_time, Some(77));
    assert_eq!(tokens.len(), 0);
}

#[test]
fn right_password_mints_token() {
    let mut rate = RateLimiting { last_request_time: Some(3) };
    let mut tokens = SessionTokens::new();
    let result = finish_login_with(&mut rate, &mut tokens, Ok(true), 77, 9_876_543_210, at(50, 7));
    assert_eq!(result, Ok("9876543210".to_string()));
    assert_eq!(rate.last_request_time, Some(3));
    assert_eq!(tokens.minted_at("9876543210"), Some(at(50, 7)));
    assert_eq!(check_session_token_at(&mut tokens, "9876543210", at(60, 0)), Ok(()));
}

#[test]
fn server_error_passes_through_login() {
    let mut rate = RateLimiting::new();
    let mut tokens = SessionTokens::new();
    let result = finish_login_with(&mut rate, &mut tokens, Err(ApiError::Server("x".to_string())), 1, 2, at(3, 4));
    assert_eq!(result, Err(ApiError::Server("x".to_string())));
    assert_eq!(rate.last_request_time, None);
    assert_eq!(tokens.len(), 0);
}

#[test]
fn login_with_real_clock_and_token_is_accepted() {
    let mut rate = RateLimiting::new();
    let mut tokens = SessionTokens::new();
    let token = finish_login(&mut rate, &mut tokens, Ok(true), 10).unwrap();
    assert!(!token.is_empty());
    assert!(token.chars().all(|c| c.is_ascii_digit()));
    assert_eq!(token.parse::<u64>().unwrap().to_string(), token);
    assert_eq!(check_session_token(&mut tokens, &token), Ok(()));
    assert_eq!(rate.last_request_time, None);
}

#[test]
fn password_checked_with_bcrypt() {
    let hash = PasswordHashString(bcrypt::hash("hunter2", 4).unwrap());
    assert_eq!(verify_password(&hash, "hunter2"), Ok(true));
    assert_eq!(verify_password(&hash, "hunter3"), Ok(false));
    let broken = PasswordHashString("nope".to_string());
    assert_eq!(verify_password(&broken, "hunter2"), Err(ApiError::Server("Invalid hash: nope".to_string())));
}

fn sample_commands() -> Commands {
    let mut commands = Commands::new();
    commands.insert("uptime".to_string(), "uptime".to_string());
    commands.insert("greet".to_string(), "echo hello world".to_string());
    commands
}

#[test]
fn commands_listed_once_each() {
    let mut commands = sample_commands();
    commands.insert("uptime".to_string(), "uptime -p".to_string());
    assert_eq!(commands.names(), vec!["uptime".to_string(), "greet".to_string()]);
    assert_eq!(commands.get("uptime"), Some(&"uptime -p".to_string()));
    assert_eq!(commands.get("reboot"), None);
}

#[test]
fn command_list_needs_session() {
    let commands = sample_commands();
    let mut tokens = SessionTokens::new();
    assert_eq!(command_list(&commands, &mut tokens, "1"), Err(ApiError::InvalidSessionToken));
    let mut rate = RateLimiting::new();
    let token = finish_login(&mut rate, &mut tokens, Ok(true), 0).unwrap();
    assert_eq!(command_list(&commands, &mut tokens, &token), Ok(vec!["uptime".to_string(), "greet".to_string()]));
}

#[test]
fn quoting_and_shell_words() {
    assert_eq!(quote_command("ls -l"), "\"ls -l\"");
    let shell = shell_command("echo hello world");
    assert_eq!(shell.program, "sh");
    assert_eq!(shell.term, "xterm");
    assert_eq!(shell.args, vec!["-c".to_string(), "echo hello world".to_string()]);
    assert_eq!(shell.stdin, StreamMode::Null);
    assert_eq!(shell.stdout, StreamMode::Piped);
    assert_eq!(shell.stderr, StreamMode::Piped);
    let split = shell_command("echo \"a b\"");
    assert_eq!(split.args, vec!["-c".to_string(), "echo a".to_string(), "b".to_string()]);
    let escaped = shell_command("echo \\$HOME");
    assert_eq!(escaped.args, vec!["-c".to_string(), "echo $HOME".to_string()]);
    let from_words = shell_command_from_words(vec!["x".to_string()]);
    assert_eq!(from_words.args, vec!["-c".to_string(), "x".to_string()]);
}

#[test]
fn prepare_invocation_cases() {
    let commands = sample_commands();
    let mut tokens = SessionTokens::new();
    assert_eq!(prepare_invocation(&commands, &mut tokens, "greet", "1").unwrap_err(), ApiError::InvalidSessionToken);
    let mut rate = RateLimiting::new();
    let token = finish_login(&mut rate, &mut tokens, Ok(true), 0).unwrap();
    assert_eq!(prepare_invocation(&commands, &mut tokens, "reboot", &token).unwrap_err(), ApiError::NoCommandWithName);
    let shell = prepare_invocation(&commands, &mut tokens, "greet", &token).unwrap();
    assert_eq!(shell.args, vec!["-c".to_string(), "echo hello world".to_string()]);
}

#[test]
fn registry_streams_each_command_once() {
    let mut outputs: CommandOutputs<&str> = CommandOutputs::new();
    assert_eq!(register_command_with_id(&mut outputs, 7, "greet".to_string(), "child-7"), CommandId(7));
    match handle_client_message(&mut outputs, ClientMessage::GetCommandOutputStream { command_id: 7 }) {
        SocketAction::StartStreaming { command_id, command_name, child } => {
            assert_eq!(command_id, CommandId(7));
            assert_eq!(command_name, "greet");
            assert_eq!(child, "child-7");
        }
        _ => panic!("expected streaming to start"),
    }
    match handle_client_message(&mut outputs, ClientMessage::GetCommandOutputStream { command_id: 7 }) {
        SocketAction::Reply(ServerMessage::NoCommandWithId { command_id }) => assert_eq!(command_id, 7),
        _ => panic!("expected a reply"),
    }
    assert!(matches!(
        handle_client_message(&mut outputs, ClientMessage::UnsubscribeFromCommandOutput { command_id: 7 }),
        SocketAction::Ignore
    ));
}

#[test]
fn registry_lists_running_ids() {
    let mut outputs: CommandOutputs<u8> = CommandOutputs::new();
    register_command_with_id(&mut outputs, 1, "a".to_string(), 10);
    register_command_with_id(&mut outputs, 2, "b".to_string(), 20);
    register_command_with_id(&mut outputs, 1, "c".to_string(), 30);
    let mut ids: Vec<u32> = running_command_ids(&outputs).into_iter().map(|id| id.0).collect();
    ids.sort();
    assert_eq!(ids, vec![1, 2]);
    assert_eq!(outputs.0.get(&1), Some(&("c".to_string(), 30)));
    let id = register_command(&mut outputs, "d".to_string(), 40);
    assert_eq!(outputs.0.get(&id.0), Some(&("d".to_string(), 40)));
}

#[test]
fn execution_list_needs_session() {
    let mut outputs: CommandOutputs<u8> = CommandOutputs::new();
    register_command_with_id(&mut outputs, 5, "a".to_string(), 1);
    let mut tokens = SessionTokens::new();
    assert_eq!(command_execution_list(&outputs, &mut tokens, "x"), Err(ApiError::InvalidSessionToken));
    let mut rate = RateLimiting::new();
    let token = finish_login(&mut rate, &mut tokens, Ok(true), 0).unwrap();
    assert_eq!(command_execution_list(&outputs, &mut tokens, &token), Ok(vec![CommandId(5)]));
}

#[test]
fn websocket_needs_session() {
    let mut tokens = SessionTokens::new();
    let query = WsAuthQuery { session_token: "x".to_string() };
    assert_eq!(authorize_websocket(&mut tokens, &query), Err(ApiError::InvalidSessionToken));
    let mut rate = RateLimiting::new();
    let token = finish_login(&mut rate, &mut tokens, Ok(true), 0).unwrap();
    assert_eq!(authorize_websocket(&mut tokens, &WsAuthQuery { session_token: token }), Ok(()));
}

#[test]
fn output_message_carries_chunk() {
    match command_output_message(CommandId(3), vec![1, 2]) {
        ServerMessage::CommandOutput { command_id, output } => {
            assert_eq!(command_id, CommandId(3));
            assert_eq!(output, vec![1, 2]);
        }
        _ => panic!("expected output"),
    }
}

#[test]
fn reader_steps() {
    assert_eq!(next_read_step(ReadEvent::Failed, false), ReadStep::Finish);
    assert_eq!(next_read_step(ReadEvent::Read(0), true), ReadStep::Finish);
    assert_eq!(next_read_step(ReadEvent::Read(0), false), ReadStep::Retry);
    assert_eq!(next_read_step(ReadEvent::Read(12), true), ReadStep::Forward(12));
    assert_eq!(read_bytes(&[1, 2, 3, 4], 2), vec![1, 2]);
    assert_eq!(read_bytes(&[1, 2, 3, 4], 0), Vec::<u8>::new());
}

#[test]
fn stream_progress_and_finish() {
    let mut progress = StreamProgress::start(true, false);
    assert!(!progress.is_done());
    progress.record(StreamEvent::StdoutDone);
    assert!(progress.is_done());
    let mut outputs: CommandOutputs<u8> = CommandOutputs::new();
    finish_streaming(&mut outputs, progress, CommandId(4), "a".to_string(), 9);
    assert_eq!(outputs.0.get(&4), Some(&("a".to_string(), 9)));
    progress.record(StreamEvent::ChildExited);
    let mut outputs: CommandOutputs<u8> = CommandOutputs::new();
    finish_streaming(&mut outputs, progress, CommandId(4), "a".to_string(), 9);
    assert!(outputs.0.is_empty());
}

#[test]
fn running_command_can_be_streamed_again() {
    let mut outputs: CommandOutputs<u8> = CommandOutputs::new();
    register_command_with_id(&mut outputs, 11, "tail".to_string(), 1);
    let (id, name, child) = match handle_client_message(&mut outputs, ClientMessage::GetCommandOutputStream { command_id: 11 }) {
        SocketAction::StartStreaming { command_id, command_name, child } => (command_id, command_name, child),
        _ => panic!("expected streaming to start"),
    };
    let progress = StreamProgress::start(false, false);
    finish_streaming(&mut outputs, progress, id, name, child);
    match handle_client_message(&mut outputs, ClientMessage::GetCommandOutputStream { command_id: 11 }) {
        SocketAction::StartStreaming { command_id, command_name, child } => {
            assert_eq!(command_id, CommandId(11));
            assert_eq!(command_name, "tail");
            assert_eq!(child, 1);
        }
        _ => panic!("expected streaming to start again"),
    }
}

#[test]
fn distinct_values_give_distinct_tokens() {
    assert_ne!(u64_to_decimal(12), u64_to_decimal(21));
    assert_ne!(u64_to_decimal(1), u64_to_decimal(10));
    assert_ne!(u64_to_decimal(0), u64_to_decimal(100));
}

#[test]
fn reader_hands_pipe_back_when_nobody_listens() {
    assert_eq!(next_send_step(SendOutcome::Delivered), SendStep::KeepReading);
    assert_eq!(next_send_step(SendOutcome::ChannelClosed), SendStep::HandBackReader);
}

#[test]
fn checks_at_a_given_moment() {
    let commands = sample_commands();
    let minted = at(1_000, 0);
    let valid_at = at(1_000 + WEEK_SECS, 0);
    let expired_at = at(1_000 + WEEK_SECS, 1);

    let mut tokens = tokens_with("7", minted);
    assert_eq!(command_list_at(&commands, &mut tokens, "7", valid_at), Ok(vec!["uptime".to_string(), "greet".to_string()]));
    assert_eq!(command_list_at(&commands, &mut tokens, "7", expired_at), Err(ApiError::InvalidSessionToken));
    assert_eq!(tokens.len(), 0);

    let mut tokens = tokens_with("7", minted);
    assert_eq!(prepare_invocation_at(&commands, &mut tokens, "reboot", "7", valid_at).unwrap_err(), ApiError::NoCommandWithName);
    let shell = prepare_invocation_at(&commands, &mut tokens, "greet", "7", valid_at).unwrap();
    assert_eq!(shell.program, "sh");
    assert_eq!(shell.args, vec!["-c".to_string(), "echo hello world".to_string()]);
    assert_eq!(prepare_invocation_at(&commands, &mut tokens, "greet", "7", expired_at).unwrap_err(), ApiError::InvalidSessionToken);

    let mut outputs: CommandOutputs<u8> = CommandOutputs::new();
    register_command_with_id(&mut outputs, 4, "a".to_string(), 0);
    let mut tokens = tokens_with("7", minted);
    assert_eq!(command_execution_list_at(&outputs, &mut tokens, "7", valid_at), Ok(vec![CommandId(4)]));
    assert_eq!(command_execution_list_at(&outputs, &mut tokens, "7", expired_at), Err(ApiError::InvalidSessionToken));

    let mut tokens = tokens_with("7", minted);
    let query = WsAuthQuery { session_token: "7".to_string() };
    assert_eq!(authorize_websocket_at(&mut tokens, &query, valid_at), Ok(()));
    assert_eq!(authorize_websocket_at(&mut tokens, &query, expired_at), Err(ApiError::InvalidSessionToken));
    assert_eq!(authorize_websocket_at(&mut tokens, &query, valid_at), Err(ApiError::InvalidSessionToken));
}
