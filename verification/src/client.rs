use vstd::prelude::*;
use std::collections::HashMap;
use vstd::std_specs::iter::IteratorSpec;
use crate::messages::{ClientMessage, CommandId, ServerMessage};

verus! {

broadcast use vstd::std_specs::hash::group_hash_axioms;

/// The kind of a status message shown to the user.
#[derive(Clone, Copy, Debug, PartialEq, Eq)]
pub enum StatusMessageType {
    Success,
    Information,
    Error,
}

impl StatusMessageType {
    /// The CSS class of a status message of this kind.
    pub open spec fn spec_class(self) -> Seq<char> {
        match self {
            StatusMessageType::Success => "status-message-success"@,
            StatusMessageType::Information => "status-message-information"@,
            StatusMessageType::Error => "status-message-error"@,
        }
    }

    /// The CSS class of a status message of this kind.
    pub fn to_class(&self) -> (class: &'static str)
        ensures
            class@ == self.spec_class(),
    {
        match self {
            StatusMessageType::Success => "status-message-success",
            StatusMessageType::Information => "status-message-information",
            StatusMessageType::Error => "status-message-error",
        }
    }
}

/// Everything the browser side keeps: the status line, which command's
/// terminal is shown, per command the number of output chunks received and
/// the output not yet written to its terminal, the messages waiting for the
/// websocket, and the session token once logged in.
#[derive(Clone, Debug)]
pub struct GlobalState {
    pub status_message: Option<(String, StatusMessageType)>,
    pub visible_command_id: Option<CommandId>,
    pub command_outputs: HashMap<u32, (usize, Vec<u8>)>,
    pub message_queue: Vec<ClientMessage>,
    pub session_token: Option<String>,
}

/// The messages that ask for the output of each of `ids`, in order.
pub open spec fn subscription_messages(ids: Seq<CommandId>) -> Seq<ClientMessage> {
    ids.map_values(|id: CommandId| ClientMessage::GetCommandOutputStream { command_id: id.0 })
}

/// The identifiers among `command_ids` that are not connected yet, in order.
pub open spec fn spec_new_commands(command_ids: Seq<CommandId>, connected: Seq<CommandId>) -> Seq<CommandId> {
    command_ids.filter(|id: CommandId| !connected.contains(id))
}

/// The terminal to show after the connected commands changed: none when
/// there is none, the only one when there is one, and otherwise the one
/// shown before.
pub open spec fn spec_visible_after_connect(connected: Seq<CommandId>, current: Option<CommandId>) -> Option<CommandId> {
    if connected.len() == 0 {
        None
    } else if connected.len() == 1 {
        Some(connected[0])
    } else {
        current
    }
}

/// The CSS class of a command's terminal: shown when it is the visible one.
pub open spec fn spec_terminal_class(visible: Option<CommandId>, command_id: CommandId) -> Seq<char> {
    match visible {
        Some(v) => if v == command_id { "terminal"@ } else { "terminal-hidden"@ },
        None => "terminal-hidden"@,
    }
}

/// The CSS class of a command's terminal.
pub fn terminal_class(visible: Option<CommandId>, command_id: CommandId) -> (class: &'static str)
    ensures
        class@ == spec_terminal_class(visible, command_id),
{
    match visible {
        Some(v) => {
            if v.0 == command_id.0 {
                "terminal"
            } else {
                "terminal-hidden"
            }
        },
        None => "terminal-hidden",
    }
}

fn contains_command(ids: &Vec<CommandId>, id: CommandId) -> (found: bool)
    ensures
        found == ids@.contains(id),
{
    let mut i: usize = 0;
    while i < ids.len()
        invariant
            i <= ids@.len(),
            forall|j: int| 0 <= j < i ==> ids@[j] != id,
        decreases ids.len() - i,
    {
        if ids[i].0 == id.0 {
            return true;
        }
        i = i + 1;
    }
    false
}

/// The address of the websocket that streams command output, with the
/// session token in its query.
pub open spec fn spec_websocket_url(session_token: Seq<char>) -> Seq<char> {
    "ws://localhost:3000/api/ws?session_token="@ + session_token
}

/// The address of the websocket that streams command output.
pub fn websocket_url(session_token: &str) -> (url: String)
    ensures
        url@ == spec_websocket_url(session_token@),
{
    let mut url = String::from_str("ws://localhost:3000/api/ws?session_token=");
    url.append(session_token);
    url
}

/// The identifiers among `command_ids` that are not connected yet, in order.
pub fn new_commands(command_ids: &Vec<CommandId>, connected: &Vec<CommandId>) -> (fresh: Vec<CommandId>)
    ensures
        fresh@ == spec_new_commands(command_ids@, connected@),
{
    let mut fresh: Vec<CommandId> = Vec::new();
    let mut i: usize = 0;
    while i < command_ids.len()
        invariant
            i <= command_ids@.len(),
            fresh@ == spec_new_commands(command_ids@.subrange(0, i as int), connected@),
        decreases command_ids.len() - i,
    {
        let id = command_ids[i];
        let is_connected = contains_command(connected, id);
        if !is_connected {
            fresh.push(id);
        }
        proof {
            let prefix = command_ids@.subrange(0, i as int);
            let next = command_ids@.subrange(0, i + 1);
            assert(next.drop_last() =~= prefix);
            assert(next.last() == id);
            reveal(Seq::filter);
        }
        i = i + 1;
    }
    assert(command_ids@.subrange(0, command_ids@.len() as int) =~= command_ids@);
    fresh
}

/// The terminal to show after the connected commands changed.
pub fn visible_after_connect(connected: &Vec<CommandId>, current: Option<CommandId>) -> (visible: Option<CommandId>)
    ensures
        visible == spec_visible_after_connect(connected@, current),
{
    if connected.len() == 0 {
        None
    } else if connected.len() == 1 {
        Some(connected[0])
    } else {
        current
    }
}

/// What the browser makes of a message from the server.
#[derive(Clone, Copy, Debug, PartialEq, Eq)]
pub enum ServerNotice {
    /// Output was added to a command's buffer.
    OutputReceived,
    /// The server knows no command under this identifier.
    UnknownCommand { command_id: u32 },
    /// The server refused the password.
    InvalidPassword,
}

/// The number of chunks received for a command and its unwritten output,
/// as if an absent command had an empty entry.
pub open spec fn output_entry(outputs: Map<u32, (usize, Vec<u8>)>, command_id: u32) -> (int, Seq<u8>) {
    if outputs.contains_key(command_id) {
        (outputs[command_id].0 as int, outputs[command_id].1@)
    } else {
        (0, Seq::empty())
    }
}

/// `after` is `before` with one chunk of output for `command_id` taken in:
/// the chunk is appended to the command's buffer (an absent command starts
/// empty), its counter goes up by one, and no other command changes.
pub open spec fn chunk_received(before: Map<u32, (usize, Vec<u8>)>, after: Map<u32, (usize, Vec<u8>)>, command_id: u32, output: Seq<u8>) -> bool {
    &&& after.dom() == before.dom().insert(command_id)
    &&& after[command_id].0 == output_entry(before, command_id).0 + 1
    &&& after[command_id].1@ == output_entry(before, command_id).1 + output
    &&& forall|k: u32| k != command_id && before.contains_key(k) ==> #[trigger] after[k] == before[k]
}

/// `after` is `before` with the unwritten output `bytes` of `command_id`
/// taken out: the buffer is empty, the counter goes up by one, and no other
/// command changes.
pub open spec fn output_taken(before: Map<u32, (usize, Vec<u8>)>, after: Map<u32, (usize, Vec<u8>)>, command_id: u32, bytes: Seq<u8>) -> bool {
    &&& before.contains_key(command_id)
    &&& bytes == before[command_id].1@
    &&& after.dom() == before.dom()
    &&& after[command_id].0 == before[command_id].0 + 1
    &&& after[command_id].1@ == Seq::<u8>::empty()
    &&& forall|k: u32| k != command_id && before.contains_key(k) ==> #[trigger] after[k] == before[k]
}

/// Whether the entry of `command_id` can take one more chunk without its
/// counter overflowing.
pub open spec fn can_count_chunk(outputs: Map<u32, (usize, Vec<u8>)>, command_id: u32) -> bool {
    outputs.contains_key(command_id) ==> outputs[command_id].0 < usize::MAX
}

impl GlobalState {
    /// The state of a fresh page: nothing shown, nothing received, not
    /// logged in.
    pub fn new() -> (state: Self)
        ensures
            state.status_message is None,
            state.visible_command_id is None,
            state.command_outputs@ == Map::<u32, (usize, Vec<u8>)>::empty(),
            state.message_queue@ == Seq::<ClientMessage>::empty(),
            state.session_token is None,
    {
        GlobalState {
            status_message: None,
            visible_command_id: None,
            command_outputs: HashMap::new(),
            message_queue: Vec::new(),
            session_token: None,
        }
    }

    /// Shows `message` as information; nothing else changes.
    pub fn display_status_message(&mut self, message: String)
        ensures
            final(self).status_message matches Some((text, kind)) && text@ == message@ && kind == StatusMessageType::Information,
            final(self).visible_command_id == old(self).visible_command_id,
            final(self).command_outputs@ == old(self).command_outputs@,
            final(self).message_queue@ == old(self).message_queue@,
            final(self).session_token == old(self).session_token,
    {
        self.status_message = Some((message, StatusMessageType::Information));
    }

    /// Clears the status line; nothing else changes.
    pub fn clear_status_message(&mut self)
        ensures
            final(self).status_message is None,
            final(self).visible_command_id == old(self).visible_command_id,
            final(self).command_outputs@ == old(self).command_outputs@,
            final(self).message_queue@ == old(self).message_queue@,
            final(self).session_token == old(self).session_token,
    {
        self.status_message = None;
    }

    /// The CSS class of the status line: that of the message's kind, or the
    /// plain class when there is no message.
    pub fn status_class(&self) -> (class: &'static str)
        ensures
            class@ == match self.status_message {
                Some((_, kind)) => kind.spec_class(),
                None => "status-message"@,
            },
    {
        match &self.status_message {
            Some((_, kind)) => kind.to_class(),
            None => "status-message",
        }
    }

    /// The commands that output is collected for, each once, in the order
    /// the map hands them out.
    pub fn command_ids(&self) -> (ids: Vec<CommandId>)
        ensures
            ids@.no_duplicates(),
            ids@.map_values(|id: CommandId| id.0).no_duplicates(),
            ids@.map_values(|id: CommandId| id.0).to_set() == self.command_outputs@.dom(),
    {
        let ghost all_keys = vstd::std_specs::hash::spec_keys_iter(&self.command_outputs).remaining().unref();
        let mut ids: Vec<CommandId> = Vec::new();
        for key in it: self.command_outputs.keys()
            invariant
                it.seq().unref() == all_keys,
                ids@.len() == it.index(),
                forall|i: int| 0 <= i < it.index() ==> ids@[i].0 == all_keys[i],
        {
            ids.push(CommandId(*key));
        }
        assert(ids@.map_values(|id: CommandId| id.0) =~= all_keys);
        assert forall|i: int, j: int| 0 <= i < ids@.len() && 0 <= j < ids@.len() && i != j implies ids@[i] != ids@[j] by {
            assert(ids@.map_values(|id: CommandId| id.0)[i] != ids@.map_values(|id: CommandId| id.0)[j]);
        }
        ids
    }

    /// Subscribes to the commands among `command_ids` that are not connected
    /// yet: each gets a request for its output queued and joins `connected`,
    /// in order.
    pub fn connect_commands(&mut self, command_ids: &Vec<CommandId>, connected: &mut Vec<CommandId>)
        ensures
            final(connected)@ == old(connected)@ + spec_new_commands(command_ids@, old(connected)@),
            final(self).message_queue@ == old(self).message_queue@ + subscription_messages(spec_new_commands(command_ids@, old(connected)@)),
            final(self).status_message == old(self).status_message,
            final(self).visible_command_id == old(self).visible_command_id,
            final(self).command_outputs@ == old(self).command_outputs@,
            final(self).session_token == old(self).session_token,
    {
        let fresh = new_commands(command_ids, connected);
        let mut i: usize = 0;
        while i < fresh.len()
            invariant
                i <= fresh@.len(),
                fresh@ == spec_new_commands(command_ids@, old(connected)@),
                connected@ == old(connected)@ + fresh@.subrange(0, i as int),
                self.message_queue@ == old(self).message_queue@ + subscription_messages(fresh@.subrange(0, i as int)),
                self.status_message == old(self).status_message,
                self.visible_command_id == old(self).visible_command_id,
                self.command_outputs@ == old(self).command_outputs@,
                self.session_token == old(self).session_token,
            decreases fresh.len() - i,
        {
            let id = fresh[i];
            self.message_queue.push(ClientMessage::GetCommandOutputStream { command_id: id.0 });
            connected.push(id);
            proof {
                let before = fresh@.subrange(0, i as int);
                let after = fresh@.subrange(0, i + 1);
                assert(after =~= before.push(id));
                assert(subscription_messages(after) =~= subscription_messages(before).push(
                    ClientMessage::GetCommandOutputStream { command_id: id.0 },
                ));
            }
            i = i + 1;
        }
        assert(fresh@.subrange(0, fresh@.len() as int) =~= fresh@);
    }

    /// Hands out the queued messages to send when the websocket is open,
    /// leaving the queue empty; while it is not open, nothing is handed out
    /// and the queue stays.
    pub fn drain_message_queue(&mut self, socket_open: bool) -> (to_send: Vec<ClientMessage>)
        ensures
            socket_open ==> to_send@ == old(self).message_queue@ && final(self).message_queue@ == Seq::<ClientMessage>::empty(),
            !socket_open ==> to_send@ == Seq::<ClientMessage>::empty() && final(self).message_queue@ == old(self).message_queue@,
            final(self).status_message == old(self).status_message,
            final(self).visible_command_id == old(self).visible_command_id,
            final(self).command_outputs@ == old(self).command_outputs@,
            final(self).session_token == old(self).session_token,
    {
        if socket_open {
            let mut to_send: Vec<ClientMessage> = Vec::new();
            std::mem::swap(&mut to_send, &mut self.message_queue);
            to_send
        } else {
            Vec::new()
        }
    }

    /// Takes in a message from the server: output is appended to the
    /// command's buffer (created empty when absent) and its chunk counter
    /// goes up by one; other messages change nothing and are reported.
    pub fn apply_server_message(&mut self, message: ServerMessage) -> (notice: ServerNotice)
        requires
            message matches ServerMessage::CommandOutput { command_id, .. } ==> can_count_chunk(old(self).command_outputs@, command_id.0),
        ensures
            match message {
                ServerMessage::CommandOutput { command_id, output } => {
                    &&& notice == ServerNotice::OutputReceived
                    &&& chunk_received(old(self).command_outputs@, final(self).command_outputs@, command_id.0, output@)
                },
                ServerMessage::NoCommandWithId { command_id } => {
                    &&& notice == (ServerNotice::UnknownCommand { command_id })
                    &&& final(self).command_outputs@ == old(self).command_outputs@
                },
                ServerMessage::InvalidPassword => {
                    &&& notice == ServerNotice::InvalidPassword
                    &&& final(self).command_outputs@ == old(self).command_outputs@
                },
            },
            final(self).status_message == old(self).status_message,
            final(self).visible_command_id == old(self).visible_command_id,
            final(self).message_queue@ == old(self).message_queue@,
            final(self).session_token == old(self).session_token,
    {
        match message {
            ServerMessage::CommandOutput { command_id, output } => {
                let id = command_id.0;
                let (count, mut bytes) = match self.command_outputs.remove(&id) {
                    Some(entry) => entry,
                    None => (0, Vec::new()),
                };
                let mut output = output;
                let ghost output_view = output@;
                bytes.append(&mut output);
                self.command_outputs.insert(id, (count + 1, bytes));
                assert(self.command_outputs@.dom() =~= old(self).command_outputs@.dom().insert(id));
                assert(self.command_outputs@[id].1@ =~= output_entry(old(self).command_outputs@, id).1 + output_view);
                ServerNotice::OutputReceived
            },
            ServerMessage::NoCommandWithId { command_id } => ServerNotice::UnknownCommand { command_id },
            ServerMessage::InvalidPassword => ServerNotice::InvalidPassword,
        }
    }

    /// Shows the terminal that fits the connected commands: none when there
    /// are none, the only one when there is one, the same as before otherwise.
    pub fn sync_visible_command(&mut self, connected: &Vec<CommandId>)
        ensures
            final(self).visible_command_id == spec_visible_after_connect(connected@, old(self).visible_command_id),
            final(self).status_message == old(self).status_message,
            final(self).command_outputs@ == old(self).command_outputs@,
            final(self).message_queue@ == old(self).message_queue@,
            final(self).session_token == old(self).session_token,
    {
        self.visible_command_id = visible_after_connect(connected, self.visible_command_id);
    }

    /// Shows the terminal of `command_id`.
    pub fn select_command(&mut self, command_id: CommandId)
        ensures
            final(self).visible_command_id == Some(command_id),
            final(self).status_message == old(self).status_message,
            final(self).command_outputs@ == old(self).command_outputs@,
            final(self).message_queue@ == old(self).message_queue@,
            final(self).session_token == old(self).session_token,
    {
        self.visible_command_id = Some(command_id);
    }

    /// Starts collecting output for a command that was just launched, with
    /// no chunks and no output (replacing what was there).
    pub fn record_invoked_command(&mut self, command_id: CommandId)
        ensures
            final(self).command_outputs@.dom() == old(self).command_outputs@.dom().insert(command_id.0),
            final(self).command_outputs@[command_id.0].0 == 0,
            final(self).command_outputs@[command_id.0].1@ == Seq::<u8>::empty(),
            forall|k: u32| k != command_id.0 && old(self).command_outputs@.contains_key(k)
                ==> #[trigger] final(self).command_outputs@[k] == old(self).command_outputs@[k],
            final(self).status_message == old(self).status_message,
            final(self).visible_command_id == old(self).visible_command_id,
            final(self).message_queue@ == old(self).message_queue@,
            final(self).session_token == old(self).session_token,
    {
        self.command_outputs.insert(command_id.0, (0, Vec::new()));
    }

    /// Takes the output of `command_id` that is not written to its terminal
    /// yet: the buffer is emptied and the counter goes up by one. Nothing
    /// happens for a command without an entry.
    pub fn take_unwritten_output(&mut self, command_id: CommandId) -> (unwritten: Option<Vec<u8>>)
        requires
            can_count_chunk(old(self).command_outputs@, command_id.0),
        ensures
            match unwritten {
                Some(bytes) => output_taken(old(self).command_outputs@, final(self).command_outputs@, command_id.0, bytes@),
                None => {
                    &&& !old(self).command_outputs@.contains_key(command_id.0)
                    &&& final(self).command_outputs@ == old(self).command_outputs@
                },
            },
            final(self).status_message == old(self).status_message,
            final(self).visible_command_id == old(self).visible_command_id,
            final(self).message_queue@ == old(self).message_queue@,
            final(self).session_token == old(self).session_token,
    {
        let id = command_id.0;
        match self.command_outputs.remove(&id) {
            Some((count, bytes)) => {
                self.command_outputs.insert(id, (count + 1, Vec::new()));
                assert(self.command_outputs@.dom() =~= old(self).command_outputs@.dom());
                Some(bytes)
            },
            None => None,
        }
    }

    /// Records the session token after a login, or forgets it.
    pub fn set_session_token(&mut self, session_token: Option<String>)
        ensures
            final(self).session_token == session_token,
            final(self).status_message == old(self).status_message,
            final(self).visible_command_id == old(self).visible_command_id,
            final(self).command_outputs@ == old(self).command_outputs@,
            final(self).message_queue@ == old(self).message_queue@,
    {
        self.session_token = session_token;
    }
}

impl Default for GlobalState {
    fn default() -> (state: Self)
        ensures
            state.status_message is None,
            state.visible_command_id is None,
            state.command_outputs@ == Map::<u32, (usize, Vec<u8>)>::empty(),
            state.message_queue@ == Seq::<ClientMessage>::empty(),
            state.session_token is None,
    {
        GlobalState::new()
    }
}

/// Connecting is idempotent: after the new commands among `command_ids`
/// have joined `connected`, none of `command_ids` is new any more, so no
/// command is subscribed to twice; and no command that was connected
/// already is among the new ones.
pub proof fn lemma_connect_is_idempotent(command_ids: Seq<CommandId>, connected: Seq<CommandId>)
    ensures
        spec_new_commands(command_ids, connected + spec_new_commands(command_ids, connected)) == Seq::<CommandId>::empty(),
        forall|i: int| 0 <= i < command_ids.len() ==> (connected + spec_new_commands(command_ids, connected)).contains(#[trigger] command_ids[i]),
        forall|i: int| 0 <= i < spec_new_commands(command_ids, connected).len()
            ==> !connected.contains(#[trigger] spec_new_commands(command_ids, connected)[i]),
{
    let fresh = spec_new_commands(command_ids, connected);
    let pred = |id: CommandId| !connected.contains(id);
    let joined = connected + fresh;
    assert forall|i: int| 0 <= i < command_ids.len() implies joined.contains(#[trigger] command_ids[i]) by {
        let id = command_ids[i];
        if connected.contains(id) {
            let j = choose|j: int| 0 <= j < connected.len() && connected[j] == id;
            assert(joined[j] == id);
        } else {
            command_ids.lemma_filter_contains(pred, i);
            assert(fresh.contains(id));
            let j = choose|j: int| 0 <= j < fresh.len() && fresh[j] == id;
            assert(joined[connected.len() + j] == id);
        }
    }
    assert forall|i: int| 0 <= i < fresh.len() implies !connected.contains(#[trigger] fresh[i]) by {
        command_ids.lemma_filter_pred(pred, i);
    }
    let pred2 = |id: CommandId| !joined.contains(id);
    let again = spec_new_commands(command_ids, joined);
    if again.len() > 0 {
        command_ids.lemma_filter_pred(pred2, 0);
        assert(again.contains(again[0]));
        command_ids.lemma_filter_contains_rev(pred2, again[0]);
        let k = choose|k: int| 0 <= k < command_ids.len() && command_ids[k] == again[0];
        assert(joined.contains(command_ids[k]));
    }
    assert(again =~= Seq::<CommandId>::empty());
}

/// The new commands among identifiers that are all distinct are distinct.
proof fn lemma_new_commands_distinct(command_ids: Seq<CommandId>, connected: Seq<CommandId>)
    requires
        command_ids.no_duplicates(),
    ensures
        spec_new_commands(command_ids, connected).no_duplicates(),
    decreases command_ids.len(),
{
    reveal(Seq::filter);
    if command_ids.len() > 0 {
        let rest = command_ids.drop_last();
        let last = command_ids.last();
        assert(rest.no_duplicates());
        lemma_new_commands_distinct(rest, connected);
        let fresh_rest = spec_new_commands(rest, connected);
        assert(command_ids.drop_last() == rest);
        if !connected.contains(last) {
            if fresh_rest.contains(last) {
                rest.lemma_filter_contains_rev(|id: CommandId| !connected.contains(id), last);
                let k = choose|k: int| 0 <= k < rest.len() && rest[k] == last;
                assert(command_ids[k] == command_ids[command_ids.len() - 1]);
            }
            assert(spec_new_commands(command_ids, connected) == fresh_rest.push(last));
        } else {
            assert(spec_new_commands(command_ids, connected) == fresh_rest);
        }
    }
}

/// Subscription messages of distinct commands are distinct.
proof fn lemma_subscriptions_distinct(ids: Seq<CommandId>)
    requires
        ids.no_duplicates(),
    ensures
        subscription_messages(ids).no_duplicates(),
{
    let messages = subscription_messages(ids);
    assert forall|i: int, j: int| 0 <= i < messages.len() && 0 <= j < messages.len() && i != j implies messages[i] != messages[j] by {
        assert(ids[i] != ids[j]);
    }
}

/// One round of connecting: the connected commands stay distinct and grow
/// by the new ones only, every identifier offered is connected afterwards,
/// and the subscriptions queued so far are still exactly one per connected
/// command, in the order they were connected.
pub proof fn lemma_connect_step(command_ids: Seq<CommandId>, connected: Seq<CommandId>, subscribed: Seq<ClientMessage>)
    requires
        command_ids.no_duplicates(),
        connected.no_duplicates(),
        subscribed == subscription_messages(connected),
    ensures
        ({
            let fresh = spec_new_commands(command_ids, connected);
            let next = connected + fresh;
            &&& next.no_duplicates()
            &&& connected.is_prefix_of(next)
            &&& subscribed + subscription_messages(fresh) == subscription_messages(next)
            &&& subscription_messages(next).no_duplicates()
            &&& forall|k: int| 0 <= k < command_ids.len() ==> next.contains(#[trigger] command_ids[k])
        }),
{
    let fresh = spec_new_commands(command_ids, connected);
    let next = connected + fresh;
    lemma_new_commands_distinct(command_ids, connected);
    lemma_connect_is_idempotent(command_ids, connected);
    assert forall|i: int, j: int| 0 <= i < connected.len() && 0 <= j < fresh.len() implies connected[i] != fresh[j] by {
        assert(!connected.contains(fresh[j]));
    }
    vstd::seq_lib::lemma_no_dup_in_concat(connected, fresh);
    assert(connected =~= next.subrange(0, connected.len() as int));
    assert(subscribed + subscription_messages(fresh) =~= subscription_messages(next));
    lemma_subscriptions_distinct(next);
}

/// The requirements of a run of connecting rounds: starting with nothing
/// connected and nothing subscribed, round `i` offers the distinct
/// identifiers `id_history[i]`, connects the new ones and queues their
/// subscriptions.
pub open spec fn connection_history(
    id_history: Seq<Seq<CommandId>>,
    connected: Seq<Seq<CommandId>>,
    subscribed: Seq<Seq<ClientMessage>>,
) -> bool {
    &&& connected.len() == id_history.len() + 1
    &&& subscribed.len() == connected.len()
    &&& connected[0] == Seq::<CommandId>::empty()
    &&& subscribed[0] == Seq::<ClientMessage>::empty()
    &&& forall|i: int| 0 <= i < id_history.len() ==> (#[trigger] id_history[i]).no_duplicates()
    &&& forall|i: int| 0 <= i < id_history.len() ==> #[trigger] connection_round(id_history, connected, subscribed, i)
}

/// Round `i` connects the new commands among `id_history[i]` and queues
/// their subscriptions.
pub open spec fn connection_round(
    id_history: Seq<Seq<CommandId>>,
    connected: Seq<Seq<CommandId>>,
    subscribed: Seq<Seq<ClientMessage>>,
    i: int,
) -> bool {
    &&& connected[i + 1] == connected[i] + spec_new_commands(id_history[i], connected[i])
    &&& subscribed[i + 1] == subscribed[i] + subscription_messages(spec_new_commands(id_history[i], connected[i]))
}

proof fn lemma_connection_round(
    id_history: Seq<Seq<CommandId>>,
    connected: Seq<Seq<CommandId>>,
    subscribed: Seq<Seq<ClientMessage>>,
    n: int,
)
    requires
        connection_history(id_history, connected, subscribed),
        0 <= n < connected.len(),
    ensures
        connected[n].no_duplicates(),
        subscribed[n] == subscription_messages(connected[n]),
        subscribed[n].no_duplicates(),
    decreases n,
{
    if n == 0 {
        assert(subscription_messages(connected[0]) =~= Seq::<ClientMessage>::empty());
    } else {
        lemma_connection_round(id_history, connected, subscribed, n - 1);
        assert(connection_round(id_history, connected, subscribed, n - 1));
        lemma_connect_step(id_history[n - 1], connected[n - 1], subscribed[n - 1]);
    }
}

proof fn lemma_connection_grows(
    id_history: Seq<Seq<CommandId>>,
    connected: Seq<Seq<CommandId>>,
    subscribed: Seq<Seq<ClientMessage>>,
    i: int,
    j: int,
)
    requires
        connection_history(id_history, connected, subscribed),
        0 <= i <= j < connected.len(),
    ensures
        connected[i].is_prefix_of(connected[j]),
    decreases j - i,
{
    if i < j {
        lemma_connection_grows(id_history, connected, subscribed, i, j - 1);
        assert(connection_round(id_history, connected, subscribed, j - 1));
        lemma_connection_round(id_history, connected, subscribed, j - 1);
        lemma_connect_step(id_history[j - 1], connected[j - 1], subscribed[j - 1]);
        assert(connected[i] =~= connected[j].subrange(0, connected[i].len() as int));
    } else {
        assert(connected[i] =~= connected[j].subrange(0, connected[i].len() as int));
    }
}

/// Over any run of connecting rounds, the connected commands never hold a
/// duplicate and only ever grow; every identifier offered in a round is
/// connected from then on; and each connected command has been subscribed
/// to exactly once: the subscriptions queued over the whole run are one per
/// connected command, in the order of connecting, and no two are alike.
pub proof fn lemma_connections_over_time(
    id_history: Seq<Seq<CommandId>>,
    connected: Seq<Seq<CommandId>>,
    subscribed: Seq<Seq<ClientMessage>>,
)
    requires
        connection_history(id_history, connected, subscribed),
    ensures
        forall|i: int| 0 <= i < connected.len() ==> (#[trigger] connected[i]).no_duplicates(),
        forall|i: int| 0 <= i < connected.len() ==> #[trigger] subscribed[i] == subscription_messages(connected[i]),
        forall|i: int| 0 <= i < connected.len() ==> (#[trigger] subscribed[i]).no_duplicates(),
        forall|i: int, j: int| 0 <= i <= j < connected.len() ==> (#[trigger] connected[i]).is_prefix_of(#[trigger] connected[j]),
        forall|i: int, j: int, k: int| 0 <= i < j < connected.len() && 0 <= k < id_history[i].len()
            ==> (#[trigger] connected[j]).contains(#[trigger] id_history[i][k]),
{
    assert forall|i: int| 0 <= i < connected.len() implies (#[trigger] connected[i]).no_duplicates() by {
        lemma_connection_round(id_history, connected, subscribed, i);
    }
    assert forall|i: int| 0 <= i < connected.len() implies #[trigger] subscribed[i] == subscription_messages(connected[i]) by {
        lemma_connection_round(id_history, connected, subscribed, i);
    }
    assert forall|i: int| 0 <= i < connected.len() implies (#[trigger] subscribed[i]).no_duplicates() by {
        lemma_connection_round(id_history, connected, subscribed, i);
    }
    assert forall|i: int, j: int| 0 <= i <= j < connected.len() implies (#[trigger] connected[i]).is_prefix_of(#[trigger] connected[j]) by {
        lemma_connection_grows(id_history, connected, subscribed, i, j);
    }
    assert forall|i: int, j: int, k: int| 0 <= i < j < connected.len() && 0 <= k < id_history[i].len()
        implies (#[trigger] connected[j]).contains(#[trigger] id_history[i][k]) by {
        lemma_connection_round(id_history, connected, subscribed, i);
        lemma_connect_step(id_history[i], connected[i], subscribed[i]);
        assert(connection_round(id_history, connected, subscribed, i));
        let id = id_history[i][k];
        assert(connected[i + 1].contains(id));
        lemma_connection_grows(id_history, connected, subscribed, i + 1, j);
        let round = connected[i + 1];
        let p = choose|p: int| 0 <= p < round.len() && round[p] == id;
        assert(connected[j].subrange(0, connected[i + 1].len() as int)[p] == id);
        assert(connected[j][p] == id);
    }
}

/// Once connecting has run on the identifiers that `command_ids` hands out
/// for the collected outputs, every command that output is collected for is
/// connected.
pub proof fn lemma_connect_covers_outputs(outputs: Map<u32, (usize, Vec<u8>)>, command_ids: Seq<CommandId>, connected: Seq<CommandId>)
    requires
        command_ids.map_values(|id: CommandId| id.0).to_set() == outputs.dom(),
    ensures
        forall|k: u32| #[trigger] outputs.contains_key(k) ==> (connected + spec_new_commands(command_ids, connected)).contains(CommandId(k)),
{
    lemma_connect_is_idempotent(command_ids, connected);
    assert forall|k: u32| #[trigger] outputs.contains_key(k) implies (connected + spec_new_commands(command_ids, connected)).contains(CommandId(k)) by {
        let keys = command_ids.map_values(|id: CommandId| id.0);
        assert(keys.to_set().contains(k));
        assert(keys.contains(k));
        let p = choose|p: int| 0 <= p < keys.len() && keys[p] == k;
        assert(command_ids[p] == CommandId(k));
    }
}

/// With exactly one connected command, its terminal is the one shown,
/// whatever was shown before.
pub proof fn lemma_single_command_is_shown(command_id: CommandId, current: Option<CommandId>)
    ensures
        spec_visible_after_connect(seq![command_id], current) == Some(command_id),
{
}

/// One change of a command's output entry: a chunk arrives from the server,
/// or the unwritten output is taken to be written to the terminal.
pub enum OutputStep {
    Received(Seq<u8>),
    Written(Seq<u8>),
}

/// `after` follows from `before` by `step` for the entry of `command_id`.
pub open spec fn output_step_holds(before: Map<u32, (usize, Vec<u8>)>, after: Map<u32, (usize, Vec<u8>)>, command_id: u32, step: OutputStep) -> bool {
    match step {
        OutputStep::Received(chunk) => chunk_received(before, after, command_id, chunk),
        OutputStep::Written(bytes) => output_taken(before, after, command_id, bytes),
    }
}

/// All chunks received over `steps`, in order.
pub open spec fn all_received(steps: Seq<OutputStep>) -> Seq<u8>
    decreases steps.len(),
{
    if steps.len() == 0 {
        Seq::empty()
    } else {
        all_received(steps.drop_last()) + match steps.last() {
            OutputStep::Received(chunk) => chunk,
            OutputStep::Written(_) => Seq::empty(),
        }
    }
}

/// All bytes written to the terminal over `steps`, in order.
pub open spec fn all_written(steps: Seq<OutputStep>) -> Seq<u8>
    decreases steps.len(),
{
    if steps.len() == 0 {
        Seq::empty()
    } else {
        all_written(steps.drop_last()) + match steps.last() {
            OutputStep::Received(_) => Seq::empty(),
            OutputStep::Written(bytes) => bytes,
        }
    }
}

/// Every received byte reaches the terminal exactly once and in order, over
/// any number of chunks and writes: along a run of states where each step
/// is a chunk arriving or the unwritten output being taken, what was written
/// followed by what still waits equals the initial buffer followed by every
/// chunk received. So once the last step is a write, everything written is
/// exactly the initial buffer and all chunks, in order.
pub proof fn lemma_output_written_exactly_once(states: Seq<Map<u32, (usize, Vec<u8>)>>, steps: Seq<OutputStep>, command_id: u32)
    requires
        states.len() == steps.len() + 1,
        forall|i: int| 0 <= i < steps.len() ==> output_step_holds(#[trigger] states[i], states[i + 1], command_id, steps[i]),
    ensures
        all_written(steps) + output_entry(states.last(), command_id).1
            == output_entry(states[0], command_id).1 + all_received(steps),
        steps.len() > 0 && steps.last() is Written ==> all_written(steps)
            == output_entry(states[0], command_id).1 + all_received(steps),
    decreases steps.len(),
{
    if steps.len() == 0 {
        assert(all_written(steps) + output_entry(states.last(), command_id).1
            =~= output_entry(states[0], command_id).1 + all_received(steps));
    } else {
        let n = steps.len() - 1;
        let prefix_states = states.subrange(0, n + 1);
        let prefix_steps = steps.drop_last();
        assert forall|i: int| 0 <= i < prefix_steps.len() implies output_step_holds(#[trigger] prefix_states[i], prefix_states[i + 1], command_id, prefix_steps[i]) by {
            assert(output_step_holds(states[i], states[i + 1], command_id, steps[i]));
        }
        lemma_output_written_exactly_once(prefix_states, prefix_steps, command_id);
        assert(prefix_states.last() == states[n]);
        assert(prefix_states[0] == states[0]);
        assert(output_step_holds(states[n], states[n + 1], command_id, steps[n]));
        assert(states.last() == states[n + 1]);
        let before = output_entry(states[n], command_id).1;
        let after = output_entry(states[n + 1], command_id).1;
        match steps[n] {
            OutputStep::Received(chunk) => {
                assert(after == before + chunk);
                assert(all_written(steps) =~= all_written(prefix_steps));
                assert(all_received(steps) =~= all_received(prefix_steps) + chunk);
                assert(all_written(steps) + after =~= (all_written(prefix_steps) + before) + chunk);
                assert((output_entry(states[0], command_id).1 + all_received(prefix_steps)) + chunk
                    =~= output_entry(states[0], command_id).1 + all_received(steps));
                assert(all_written(steps) + after =~= output_entry(states[0], command_id).1 + all_received(steps));
            },
            OutputStep::Written(bytes) => {
                assert(bytes == before);
                assert(after =~= Seq::<u8>::empty());
                assert(all_written(steps) =~= all_written(prefix_steps) + bytes);
                assert(all_received(steps) =~= all_received(prefix_steps));
                assert(all_written(steps) + after =~= all_written(prefix_steps) + before);
                assert(all_written(steps) + after =~= output_entry(states[0], command_id).1 + all_received(steps));
            },
        }
        if steps.last() is Written {
            assert(all_written(steps) + Seq::<u8>::empty() =~= all_written(steps));
        }
    }
}

} // verus!
