use vstd::prelude::*;
use crate::commands::CommandOutputs;
use crate::error::ApiError;
use crate::session::{SessionTokens, check_session_token, check_session_token_at, session_token_valid, tokens_after_check};
use crate::time::{Timestamp, SESSION_LIFETIME_NANOS, nanos_between};
use crate::decimal::decimal_digits;

verus! {

broadcast use vstd::std_specs::hash::group_hash_axioms;

/// Identifies one launched command.
#[derive(Clone, Copy, Debug, PartialEq, Eq, Hash)]
pub struct CommandId(pub u32);

/// What a client asks for over the websocket.
#[derive(Clone, Copy, Debug, PartialEq, Eq)]
pub enum ClientMessage {
    /// Start streaming the output of a launched command.
    GetCommandOutputStream { command_id: u32 },
    /// Stop streaming the output of a command (accepted and ignored).
    UnsubscribeFromCommandOutput { command_id: u32 },
}

/// What the server tells a client over the websocket.
#[derive(Clone, Debug)]
pub enum ServerMessage {
    /// No launched command waits under this identifier.
    NoCommandWithId { command_id: u32 },
    /// The password was wrong.
    InvalidPassword,
    /// A chunk of a command's output.
    CommandOutput { command_id: CommandId, output: Vec<u8> },
}

/// The query string of a websocket upgrade request.
#[derive(Clone, Debug)]
pub struct WsAuthQuery {
    pub session_token: String,
}

/// Accepts a websocket upgrade exactly when the query's session token is
/// valid at the moment `now`; an expired token is forgotten.
pub fn authorize_websocket_at(session_tokens: &mut SessionTokens, query: &WsAuthQuery, now: Timestamp) -> (result: Result<(), ApiError>)
    ensures
        result is Ok <==> session_token_valid(old(session_tokens)@, query.session_token@, now),
        result is Err ==> result == Err::<(), ApiError>(ApiError::InvalidSessionToken),
        final(session_tokens)@ == tokens_after_check(old(session_tokens)@, query.session_token@, now),
{
    check_session_token_at(session_tokens, query.session_token.as_str(), now)
}

/// Accepts a websocket upgrade exactly when the query's session token is
/// valid against the current wall-clock time, as [`authorize_websocket_at`]
/// does for the moment that the clock gave.
pub fn authorize_websocket(session_tokens: &mut SessionTokens, query: &WsAuthQuery) -> (result: Result<(), ApiError>)
    ensures
        exists|now: Timestamp|
            {
                &&& (result is Ok <==> session_token_valid(old(session_tokens)@, query.session_token@, now))
                &&& final(session_tokens)@ == tokens_after_check(old(session_tokens)@, query.session_token@, now)
            },
        result is Err ==> result == Err::<(), ApiError>(ApiError::InvalidSessionToken),
        !old(session_tokens)@.contains_key(query.session_token@) ==> result is Err,
        result is Ok ==> old(session_tokens)@.contains_key(query.session_token@) && final(session_tokens)@ == old(session_tokens)@,
        result is Err ==> final(session_tokens)@ == old(session_tokens)@.remove(query.session_token@),
{
    check_session_token(session_tokens, query.session_token.as_str())
}

/// What the websocket handler does with a client message.
pub enum SocketAction<C> {
    /// Stream the output of this command, taken out of the registry.
    StartStreaming { command_id: CommandId, command_name: String, child: C },
    /// Send this message back.
    Reply(ServerMessage),
    /// Nothing.
    Ignore,
}

/// The registry and the action after handling `message`: a request to
/// stream takes the command out of the registry (or replies that there is no
/// such command); an unsubscribe request does nothing.
pub open spec fn client_message_outcome<C>(running: Map<u32, (String, C)>, message: ClientMessage) -> (Map<u32, (String, C)>, SocketAction<C>) {
    match message {
        ClientMessage::GetCommandOutputStream { command_id } => {
            if running.contains_key(command_id) {
                (running.remove(command_id), SocketAction::StartStreaming {
                    command_id: CommandId(command_id),
                    command_name: running[command_id].0,
                    child: running[command_id].1,
                })
            } else {
                (running, SocketAction::Reply(ServerMessage::NoCommandWithId { command_id }))
            }
        },
        ClientMessage::UnsubscribeFromCommandOutput { .. } => (running, SocketAction::Ignore),
    }
}

/// Handles one client message against the registry of launched commands.
pub fn handle_client_message<C>(outputs: &mut CommandOutputs<C>, message: ClientMessage) -> (action: SocketAction<C>)
    ensures
        (final(outputs).0@, action) == client_message_outcome(old(outputs).0@, message),
{
    match message {
        ClientMessage::GetCommandOutputStream { command_id } => {
            match outputs.0.remove(&command_id) {
                Some((command_name, child)) => SocketAction::StartStreaming {
                    command_id: CommandId(command_id),
                    command_name,
                    child,
                },
                None => SocketAction::Reply(ServerMessage::NoCommandWithId { command_id }),
            }
        },
        ClientMessage::UnsubscribeFromCommandOutput { .. } => SocketAction::Ignore,
    }
}

/// The message that carries a chunk of a command's output to the client.
pub fn command_output_message(command_id: CommandId, output: Vec<u8>) -> (message: ServerMessage)
    ensures
        message == (ServerMessage::CommandOutput { command_id, output }),
{
    ServerMessage::CommandOutput { command_id, output }
}

/// A registered command is streamed once: asking for its output hands out
/// exactly what was registered and takes it out of the registry, so asking
/// again is answered with "no command with this identifier".
pub proof fn lemma_registered_command_streams_once<C>(running: Map<u32, (String, C)>, command_id: u32, command_name: String, child: C)
    ensures
        client_message_outcome(running.insert(command_id, (command_name, child)), ClientMessage::GetCommandOutputStream { command_id })
            == (running.remove(command_id), SocketAction::StartStreaming { command_id: CommandId(command_id), command_name, child }),
        client_message_outcome(running.remove(command_id), ClientMessage::GetCommandOutputStream { command_id }).1
            == SocketAction::<C>::Reply(ServerMessage::NoCommandWithId { command_id }),
{
    assert(running.insert(command_id, (command_name, child)).remove(command_id) =~= running.remove(command_id));
}

/// Asking for a command that is not registered changes nothing and is
/// answered with "no command with this identifier".
pub proof fn lemma_unknown_command_reported<C>(running: Map<u32, (String, C)>, command_id: u32)
    requires
        !running.contains_key(command_id),
    ensures
        client_message_outcome(running, ClientMessage::GetCommandOutputStream { command_id })
            == (running, SocketAction::<C>::Reply(ServerMessage::NoCommandWithId { command_id })),
{
}

/// Unsubscribing changes nothing and sends nothing.
pub proof fn lemma_unsubscribe_changes_nothing<C>(running: Map<u32, (String, C)>, command_id: u32)
    ensures
        client_message_outcome(running, ClientMessage::UnsubscribeFromCommandOutput { command_id })
            == (running, SocketAction::<C>::Ignore),
{
}

/// A session lasts seven days from its login: the websocket of a client
/// that presents the token of a login recorded at `minted` is accepted at
/// every moment from `minted` up to seven days later, without forgetting any
/// token, and refused (the token forgotten) at any moment more than seven
/// days later. `accepted` and `final_tokens` are what
/// [`authorize_websocket_at`] promises for that moment.
pub proof fn lemma_login_then_websocket(
    tokens: Map<Seq<char>, Timestamp>,
    token_value: u64,
    minted: Timestamp,
    now: Timestamp,
    final_tokens: Map<Seq<char>, Timestamp>,
    accepted: bool,
)
    requires
        accepted <==> session_token_valid(tokens.insert(decimal_digits(token_value as nat), minted), decimal_digits(token_value as nat), now),
        final_tokens == tokens_after_check(tokens.insert(decimal_digits(token_value as nat), minted), decimal_digits(token_value as nat), now),
    ensures
        0 <= nanos_between(now, minted) <= SESSION_LIFETIME_NANOS ==> accepted && final_tokens == tokens.insert(decimal_digits(token_value as nat), minted),
        nanos_between(now, minted) > SESSION_LIFETIME_NANOS ==> !accepted && !final_tokens.contains_key(decimal_digits(token_value as nat)),
{
}

} // verus!
