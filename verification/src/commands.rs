use vstd::prelude::*;
use vstd::hash_map::StringHashMap;
use std::collections::HashMap;
use vstd::std_specs::iter::IteratorSpec;
use crate::error::ApiError;
use crate::messages::CommandId;
use crate::session::{SessionTokens, check_session_token_at, session_token_valid, tokens_after_check};
use crate::time::{Timestamp, SESSION_LIFETIME_NANOS, nanos_between, utc_now};
use crate::decimal::decimal_digits;

verus! {

broadcast use vstd::std_specs::hash::group_hash_axioms;

/// The list of names holds each configured name once.
spec fn names_match(names: Seq<String>, by_name: Map<Seq<char>, String>) -> bool {
    &&& names.map_values(|n: String| n@).no_duplicates()
    &&& names.map_values(|n: String| n@).to_set() == by_name.dom()
}

/// The commands that may be run, each a shell command line under a name.
pub struct Commands {
    by_name: StringHashMap<String>,
    names: Vec<String>,
}

impl Commands {
    /// Every listed name is configured, every configured name is listed,
    /// and no name is listed twice.
    #[verifier::type_invariant]
    closed spec fn well_formed(self) -> bool {
        names_match(self.names@, self.by_name@)
    }

    /// The names in the order they were configured.
    pub closed spec fn name_list(self) -> Seq<Seq<char>> {
        self.names@.map_values(|n: String| n@)
    }
}

impl View for Commands {
    type V = Map<Seq<char>, Seq<char>>;

    closed spec fn view(&self) -> Map<Seq<char>, Seq<char>> {
        self.by_name@.map_values(|c: String| c@)
    }
}

impl Commands {
    /// No commands.
    pub fn new() -> (commands: Self)
        ensures
            commands@ == Map::<Seq<char>, Seq<char>>::empty(),
            commands.name_list() == Seq::<Seq<char>>::empty(),
    {
        let by_name = StringHashMap::new();
        let names: Vec<String> = Vec::new();
        assert(names@.map_values(|n: String| n@).to_set() =~= by_name@.dom());
        let commands = Commands { by_name, names };
        assert(commands@ =~= Map::<Seq<char>, Seq<char>>::empty());
        assert(commands.name_list() =~= Seq::<Seq<char>>::empty());
        commands
    }

    /// Configures `command` under `name`, replacing what was configured there
    /// before; a new name goes to the end of the list.
    pub fn insert(&mut self, name: String, command: String)
        ensures
            final(self)@ == old(self)@.insert(name@, command@),
            final(self).name_list() == if old(self)@.contains_key(name@) {
                old(self).name_list()
            } else {
                old(self).name_list().push(name@)
            },
    {
        let mut table = Commands::new();
        std::mem::swap(&mut table, self);
        proof { use_type_invariant(&table); }
        let Commands { mut by_name, mut names } = table;
        let ghost old_names = names@.map_values(|n: String| n@);
        let ghost old_map = by_name@;
        if by_name.contains_key(name.as_str()) {
            by_name.insert(name, command);
            proof {
                assert(by_name@.dom() =~= old_map.dom());
            }
        } else {
            let key = name.clone();
            names.push(name);
            by_name.insert(key, command);
            proof {
                let new_names = names@.map_values(|n: String| n@);
                assert(new_names =~= old_names.push(key@));
                old_names.lemma_push_to_set_commute(key@);
                assert(!old_names.contains(key@));
                assert forall|i: int, j: int| 0 <= i < new_names.len() && 0 <= j < new_names.len() && i != j implies new_names[i] != new_names[j] by {
                    if i == new_names.len() - 1 {
                        assert(old_names.contains(new_names[j]));
                    } else if j == new_names.len() - 1 {
                        assert(old_names.contains(new_names[i]));
                    }
                }
            }
        }
        *self = Commands { by_name, names };
        proof {
            assert(self@ =~= old(self)@.insert(name@, command@));
        }
    }

    /// The command line configured under `name`.
    pub fn get(&self, name: &str) -> (command: Option<&String>)
        ensures
            match command {
                Some(c) => self@.contains_key(name@) && self@[name@] == c@,
                None => !self@.contains_key(name@),
            },
    {
        self.by_name.get(name)
    }

    /// The configured names, each once.
    pub fn names(&self) -> (names: Vec<String>)
        ensures
            names@.map_values(|n: String| n@) == self.name_list(),
            self.name_list().no_duplicates(),
            self.name_list().to_set() == self@.dom(),
    {
        proof { use_type_invariant(self); }
        let names = self.names.clone();
        assert(names@.map_values(|n: String| n@) =~= self.name_list());
        names
    }
}

/// What listing the commands with `session_token` at the moment `now`
/// yields: the configured names, in order, exactly when the token is valid
/// then, and the refusal otherwise; the tokens change as the check changes
/// them.
pub open spec fn command_list_outcome(
    commands: Commands,
    tokens: Map<Seq<char>, Timestamp>,
    session_token: Seq<char>,
    now: Timestamp,
    final_tokens: Map<Seq<char>, Timestamp>,
    result: Result<Vec<String>, ApiError>,
) -> bool {
    &&& final_tokens == tokens_after_check(tokens, session_token, now)
    &&& match result {
        Ok(names) => {
            &&& session_token_valid(tokens, session_token, now)
            &&& names@.map_values(|n: String| n@) == commands.name_list()
        },
        Err(e) => {
            &&& !session_token_valid(tokens, session_token, now)
            &&& e == ApiError::InvalidSessionToken
        },
    }
}

/// Lists the names of the configured commands, once the session token has
/// been accepted at the moment `now`.
pub fn command_list_at(commands: &Commands, session_tokens: &mut SessionTokens, session_token: &str, now: Timestamp) -> (result: Result<Vec<String>, ApiError>)
    ensures
        command_list_outcome(*commands, old(session_tokens)@, session_token@, now, final(session_tokens)@, result),
        commands.name_list().no_duplicates(),
        commands.name_list().to_set() == commands@.dom(),
{
    let names = commands.names();
    match check_session_token_at(session_tokens, session_token, now) {
        Err(e) => Err(e),
        Ok(()) => Ok(names),
    }
}

/// Lists the names of the configured commands, once the session token has
/// been accepted against the current wall-clock time, as
/// [`command_list_at`] does for the moment that the clock gave.
pub fn command_list(commands: &Commands, session_tokens: &mut SessionTokens, session_token: &str) -> (result: Result<Vec<String>, ApiError>)
    ensures
        exists|now: Timestamp| #[trigger] command_list_outcome(*commands, old(session_tokens)@, session_token@, now, final(session_tokens)@, result),
        commands.name_list().no_duplicates(),
        commands.name_list().to_set() == commands@.dom(),
        !old(session_tokens)@.contains_key(session_token@) ==> result == Err::<Vec<String>, ApiError>(ApiError::InvalidSessionToken),
        match result {
            Ok(names) => {
                &&& old(session_tokens)@.contains_key(session_token@)
                &&& final(session_tokens)@ == old(session_tokens)@
                &&& names@.map_values(|n: String| n@) == commands.name_list()
            },
            Err(e) => {
                &&& e == ApiError::InvalidSessionToken
                &&& final(session_tokens)@ == old(session_tokens)@.remove(session_token@)
            },
        },
{
    let now = utc_now();
    let result = command_list_at(commands, session_tokens, session_token, now);
    proof {
        assert(command_list_outcome(*commands, old(session_tokens)@, session_token@, now, final(session_tokens)@, result));
        if !old(session_tokens)@.contains_key(session_token@) {
            assert(old(session_tokens)@.remove(session_token@) =~= old(session_tokens)@);
        }
    }
    result
}

/// The words that `shlex::Shlex` splits `input` into, as a shell would,
/// ending where it meets malformed quoting.
pub uninterp spec fn shlex_words(input: Seq<char>) -> Seq<Seq<char>>;

/// Splits `input` into words by iterating `shlex::Shlex::new(input)`. The
/// contract only names the words: they are whatever shlex computes from the
/// input (its source reads nothing else).
#[verifier::external_body]
fn shlex_split(input: &str) -> (words: Vec<String>)
    ensures
        words@.map_values(|w: String| w@) == shlex_words(input@),
{
    shlex::Shlex::new(input).collect()
}

/// A command line wrapped in double quotes, so that the shell sees it as one
/// word.
pub open spec fn quoted(command: Seq<char>) -> Seq<char> {
    seq!['"'] + command + seq!['"']
}

/// The arguments that hand the words to `sh`: `-c`, then the words.
pub open spec fn shell_arguments(words: Seq<Seq<char>>) -> Seq<Seq<char>> {
    seq!["-c"@] + words
}

/// What a standard stream of a started command is connected to.
#[derive(Clone, Copy, Debug, PartialEq, Eq)]
pub enum StreamMode {
    /// A pipe to the server.
    Piped,
    /// Nothing (the null device).
    Null,
}

/// How to start a configured command: the program, the terminal type put in
/// its environment as `TERM`, its arguments, and where its standard input,
/// output and error go.
#[derive(Clone, Debug)]
pub struct ShellCommand {
    pub program: String,
    pub term: String,
    pub args: Vec<String>,
    pub stdin: StreamMode,
    pub stdout: StreamMode,
    pub stderr: StreamMode,
}

impl ShellCommand {
    /// `sh` with `TERM=xterm`, running the given shell words, reading
    /// nothing and with its output and errors piped back to the server.
    pub open spec fn runs(self, words: Seq<Seq<char>>) -> bool {
        &&& self.program@ == "sh"@
        &&& self.term@ == "xterm"@
        &&& self.args@.map_values(|a: String| a@) == shell_arguments(words)
        &&& self.stdin == StreamMode::Null
        &&& self.stdout == StreamMode::Piped
        &&& self.stderr == StreamMode::Piped
    }
}

/// Wraps `command` in double quotes.
pub fn quote_command(command: &str) -> (line: String)
    ensures
        line@ == quoted(command@),
{
    proof { reveal_strlit("\""); }
    let mut line = String::from_str("\"");
    line.append(command);
    line.append("\"");
    assert(line@ =~= quoted(command@));
    line
}

/// The way to start `sh` so that it runs the given words.
pub fn shell_command_from_words(words: Vec<String>) -> (shell: ShellCommand)
    ensures
        shell.runs(words@.map_values(|w: String| w@)),
{
    proof {
        reveal_strlit("sh");
        reveal_strlit("xterm");
        reveal_strlit("-c");
    }
    let mut words = words;
    let ghost word_views = words@.map_values(|w: String| w@);
    let mut args: Vec<String> = Vec::new();
    args.push(String::from_str("-c"));
    args.append(&mut words);
    assert(args@.map_values(|a: String| a@) =~= shell_arguments(word_views));
    ShellCommand {
        program: String::from_str("sh"),
        term: String::from_str("xterm"),
        args,
        stdin: StreamMode::Null,
        stdout: StreamMode::Piped,
        stderr: StreamMode::Piped,
    }
}

/// The way to start a configured command line: `sh -c` with the words that
/// shlex finds in the quoted line.
pub fn shell_command(command: &str) -> (shell: ShellCommand)
    ensures
        shell.runs(shlex_words(quoted(command@))),
{
    let line = quote_command(command);
    let words = shlex_split(line.as_str());
    shell_command_from_words(words)
}

/// What preparing to run `command_name` with `session_token` at the moment
/// `now` yields: the refusal of the token exactly when it is not valid then;
/// for a valid token, "no such command" exactly when the name is not
/// configured, and otherwise how to start the configured command line. The
/// tokens change as the check changes them.
pub open spec fn invocation_outcome(
    commands: Map<Seq<char>, Seq<char>>,
    tokens: Map<Seq<char>, Timestamp>,
    session_token: Seq<char>,
    command_name: Seq<char>,
    now: Timestamp,
    final_tokens: Map<Seq<char>, Timestamp>,
    result: Result<ShellCommand, ApiError>,
) -> bool {
    &&& final_tokens == tokens_after_check(tokens, session_token, now)
    &&& match result {
        Ok(shell) => {
            &&& session_token_valid(tokens, session_token, now)
            &&& commands.contains_key(command_name)
            &&& shell.runs(shlex_words(quoted(commands[command_name])))
        },
        Err(ApiError::InvalidSessionToken) => !session_token_valid(tokens, session_token, now),
        Err(ApiError::NoCommandWithName) => {
            &&& session_token_valid(tokens, session_token, now)
            &&& !commands.contains_key(command_name)
        },
        Err(_) => false,
    }
}

/// Checks the session token at the moment `now`, then looks up the command
/// configured under `command_name` and says how to start it.
pub fn prepare_invocation_at(
    commands: &Commands,
    session_tokens: &mut SessionTokens,
    command_name: &str,
    session_token: &str,
    now: Timestamp,
) -> (result: Result<ShellCommand, ApiError>)
    ensures
        invocation_outcome(commands@, old(session_tokens)@, session_token@, command_name@, now, final(session_tokens)@, result),
{
    match check_session_token_at(session_tokens, session_token, now) {
        Err(e) => Err(e),
        Ok(()) => match commands.get(command_name) {
            None => Err(ApiError::NoCommandWithName),
            Some(command) => Ok(shell_command(command.as_str())),
        },
    }
}

/// Checks the session token against the current wall-clock time, then
/// looks up the command configured under `command_name` and says how to
/// start it, as [`prepare_invocation_at`] does for the moment that the clock
/// gave.
pub fn prepare_invocation(
    commands: &Commands,
    session_tokens: &mut SessionTokens,
    command_name: &str,
    session_token: &str,
) -> (result: Result<ShellCommand, ApiError>)
    ensures
        exists|now: Timestamp| #[trigger] invocation_outcome(commands@, old(session_tokens)@, session_token@, command_name@, now, final(session_tokens)@, result),
        !old(session_tokens)@.contains_key(session_token@) ==> result == Err::<ShellCommand, ApiError>(ApiError::InvalidSessionToken),
        match result {
            Ok(shell) => {
                &&& old(session_tokens)@.contains_key(session_token@)
                &&& final(session_tokens)@ == old(session_tokens)@
                &&& commands@.contains_key(command_name@)
                &&& shell.runs(shlex_words(quoted(commands@[command_name@])))
            },
            Err(ApiError::InvalidSessionToken) => final(session_tokens)@ == old(session_tokens)@.remove(session_token@),
            Err(ApiError::NoCommandWithName) => {
                &&& old(session_tokens)@.contains_key(session_token@)
                &&& final(session_tokens)@ == old(session_tokens)@
                &&& !commands@.contains_key(command_name@)
            },
            Err(_) => false,
        },
{
    let now = utc_now();
    let result = prepare_invocation_at(commands, session_tokens, command_name, session_token, now);
    proof {
        assert(invocation_outcome(commands@, old(session_tokens)@, session_token@, command_name@, now, final(session_tokens)@, result));
        if !old(session_tokens)@.contains_key(session_token@) {
            assert(old(session_tokens)@.remove(session_token@) =~= old(session_tokens)@);
        }
    }
    result
}

/// The launched commands whose output nobody streams yet, each with its name
/// and the handle `C` of its running process.
pub struct CommandOutputs<C>(pub HashMap<u32, (String, C)>);

impl<C> CommandOutputs<C> {
    /// No launched commands.
    pub fn new() -> (outputs: Self)
        ensures
            outputs.0@ == Map::<u32, (String, C)>::empty(),
    {
        CommandOutputs(HashMap::new())
    }
}

/// Records a launched command under the identifier `command_id`, replacing
/// an earlier one with the same identifier.
pub fn register_command_with_id<C>(outputs: &mut CommandOutputs<C>, command_id: u32, command_name: String, child: C) -> (id: CommandId)
    ensures
        id == CommandId(command_id),
        final(outputs).0@ == old(outputs).0@.insert(command_id, (command_name, child)),
{
    outputs.0.insert(command_id, (command_name, child));
    CommandId(command_id)
}

/// Draws a random `u32` with `rand::random`. Nothing is stated of the value.
#[verifier::external_body]
fn random_u32() -> u32 {
    rand::random::<u32>()
}

/// Records a launched command under a freshly drawn random identifier and
/// hands that identifier back.
pub fn register_command<C>(outputs: &mut CommandOutputs<C>, command_name: String, child: C) -> (id: CommandId)
    ensures
        final(outputs).0@ == old(outputs).0@.insert(id.0, (command_name, child)),
{
    let command_id = random_u32();
    register_command_with_id(outputs, command_id, command_name, child)
}

/// The identifiers of the launched commands, each once, in the order the
/// map hands them out.
pub fn running_command_ids<C>(outputs: &CommandOutputs<C>) -> (ids: Vec<CommandId>)
    ensures
        ids@.map_values(|id: CommandId| id.0).no_duplicates(),
        ids@.map_values(|id: CommandId| id.0).to_set() == outputs.0@.dom(),
{
    let ghost all_keys = vstd::std_specs::hash::spec_keys_iter(&outputs.0).remaining().unref();
    let mut ids: Vec<CommandId> = Vec::new();
    for key in it: outputs.0.keys()
        invariant
            it.seq().unref() == all_keys,
            ids@.len() == it.index(),
            forall|i: int| 0 <= i < it.index() ==> ids@[i].0 == all_keys[i],
    {
        ids.push(CommandId(*key));
    }
    assert(ids@.map_values(|id: CommandId| id.0) =~= all_keys);
    ids
}

/// What listing the launched commands with `session_token` at the moment
/// `now` yields: every registered identifier once, exactly when the token is
/// valid then, and the refusal otherwise; the tokens change as the check
/// changes them.
pub open spec fn execution_list_outcome<C>(
    running: Map<u32, (String, C)>,
    tokens: Map<Seq<char>, Timestamp>,
    session_token: Seq<char>,
    now: Timestamp,
    final_tokens: Map<Seq<char>, Timestamp>,
    result: Result<Vec<CommandId>, ApiError>,
) -> bool {
    &&& final_tokens == tokens_after_check(tokens, session_token, now)
    &&& match result {
        Ok(ids) => {
            &&& session_token_valid(tokens, session_token, now)
            &&& ids@.map_values(|id: CommandId| id.0).no_duplicates()
            &&& ids@.map_values(|id: CommandId| id.0).to_set() == running.dom()
        },
        Err(e) => {
            &&& !session_token_valid(tokens, session_token, now)
            &&& e == ApiError::InvalidSessionToken
        },
    }
}

/// Lists the identifiers of the launched commands whose output nobody
/// streams yet, once the session token has been accepted at the moment
/// `now`.
pub fn command_execution_list_at<C>(
    outputs: &CommandOutputs<C>,
    session_tokens: &mut SessionTokens,
    session_token: &str,
    now: Timestamp,
) -> (result: Result<Vec<CommandId>, ApiError>)
    ensures
        execution_list_outcome(outputs.0@, old(session_tokens)@, session_token@, now, final(session_tokens)@, result),
{
    match check_session_token_at(session_tokens, session_token, now) {
        Err(e) => Err(e),
        Ok(()) => Ok(running_command_ids(outputs)),
    }
}

/// Lists the identifiers of the launched commands whose output nobody
/// streams yet, once the session token has been accepted against the
/// current wall-clock time, as [`command_execution_list_at`] does for the
/// moment that the clock gave.
pub fn command_execution_list<C>(
    outputs: &CommandOutputs<C>,
    session_tokens: &mut SessionTokens,
    session_token: &str,
) -> (result: Result<Vec<CommandId>, ApiError>)
    ensures
        exists|now: Timestamp| #[trigger] execution_list_outcome(outputs.0@, old(session_tokens)@, session_token@, now, final(session_tokens)@, result),
        !old(session_tokens)@.contains_key(session_token@) ==> result == Err::<Vec<CommandId>, ApiError>(ApiError::InvalidSessionToken),
        match result {
            Ok(ids) => {
                &&& old(session_tokens)@.contains_key(session_token@)
                &&& final(session_tokens)@ == old(session_tokens)@
                &&& ids@.map_values(|id: CommandId| id.0).no_duplicates()
                &&& ids@.map_values(|id: CommandId| id.0).to_set() == outputs.0@.dom()
            },
            Err(e) => {
                &&& e == ApiError::InvalidSessionToken
                &&& final(session_tokens)@ == old(session_tokens)@.remove(session_token@)
            },
        },
{
    let now = utc_now();
    let result = command_execution_list_at(outputs, session_tokens, session_token, now);
    proof {
        assert(execution_list_outcome(outputs.0@, old(session_tokens)@, session_token@, now, final(session_tokens)@, result));
        if !old(session_tokens)@.contains_key(session_token@) {
            assert(old(session_tokens)@.remove(session_token@) =~= old(session_tokens)@);
        }
    }
    result
}

/// A session lasts seven days from its login: the token handed out by a
/// login with the right password, recorded with the reading `minted`, lets
/// the configured names be listed at every moment from `minted` up to seven
/// days later, and no token is forgotten; from any moment more than seven
/// days later it is refused and forgotten.
pub proof fn lemma_login_then_list(
    commands: Commands,
    tokens: Map<Seq<char>, Timestamp>,
    token_value: u64,
    minted: Timestamp,
    now: Timestamp,
    final_tokens: Map<Seq<char>, Timestamp>,
    result: Result<Vec<String>, ApiError>,
)
    requires
        command_list_outcome(commands, tokens.insert(decimal_digits(token_value as nat), minted), decimal_digits(token_value as nat), now, final_tokens, result),
    ensures
        0 <= nanos_between(now, minted) <= SESSION_LIFETIME_NANOS ==> {
            &&& result is Ok
            &&& result->Ok_0@.map_values(|n: String| n@) == commands.name_list()
            &&& final_tokens == tokens.insert(decimal_digits(token_value as nat), minted)
        },
        nanos_between(now, minted) > SESSION_LIFETIME_NANOS ==> {
            &&& result == Err::<Vec<String>, ApiError>(ApiError::InvalidSessionToken)
            &&& !final_tokens.contains_key(decimal_digits(token_value as nat))
        },
{
}

/// A session lasts seven days from its login: with the token of a login
/// recorded at `minted`, at every moment from `minted` up to seven days
/// later a configured command is prepared as `sh -c` with the shlex words of
/// its quoted command line, an unconfigured name is reported as such, and no
/// token is forgotten; from any moment more than seven days later the token
/// is refused and forgotten, whatever the name.
pub proof fn lemma_login_then_invoke(
    commands: Map<Seq<char>, Seq<char>>,
    tokens: Map<Seq<char>, Timestamp>,
    token_value: u64,
    command_name: Seq<char>,
    minted: Timestamp,
    now: Timestamp,
    final_tokens: Map<Seq<char>, Timestamp>,
    result: Result<ShellCommand, ApiError>,
)
    requires
        invocation_outcome(commands, tokens.insert(decimal_digits(token_value as nat), minted), decimal_digits(token_value as nat), command_name, now, final_tokens, result),
    ensures
        0 <= nanos_between(now, minted) <= SESSION_LIFETIME_NANOS ==> {
            &&& final_tokens == tokens.insert(decimal_digits(token_value as nat), minted)
            &&& commands.contains_key(command_name) ==> result is Ok && result->Ok_0.runs(shlex_words(quoted(commands[command_name])))
            &&& !commands.contains_key(command_name) ==> result == Err::<ShellCommand, ApiError>(ApiError::NoCommandWithName)
        },
        nanos_between(now, minted) > SESSION_LIFETIME_NANOS ==> {
            &&& result == Err::<ShellCommand, ApiError>(ApiError::InvalidSessionToken)
            &&& !final_tokens.contains_key(decimal_digits(token_value as nat))
        },
{
}

/// A session lasts seven days from its login: with the token of a login
/// recorded at `minted`, at every moment from `minted` up to seven days
/// later every registered command is listed once and no token is
/// forgotten; from any moment more than seven days later the token is
/// refused and forgotten.
pub proof fn lemma_login_then_execution_list<C>(
    running: Map<u32, (String, C)>,
    tokens: Map<Seq<char>, Timestamp>,
    token_value: u64,
    minted: Timestamp,
    now: Timestamp,
    final_tokens: Map<Seq<char>, Timestamp>,
    result: Result<Vec<CommandId>, ApiError>,
)
    requires
        execution_list_outcome(running, tokens.insert(decimal_digits(token_value as nat), minted), decimal_digits(token_value as nat), now, final_tokens, result),
    ensures
        0 <= nanos_between(now, minted) <= SESSION_LIFETIME_NANOS ==> {
            &&& result is Ok
            &&& result->Ok_0@.map_values(|id: CommandId| id.0).no_duplicates()
            &&& result->Ok_0@.map_values(|id: CommandId| id.0).to_set() == running.dom()
            &&& final_tokens == tokens.insert(decimal_digits(token_value as nat), minted)
        },
        nanos_between(now, minted) > SESSION_LIFETIME_NANOS ==> {
            &&& result == Err::<Vec<CommandId>, ApiError>(ApiError::InvalidSessionToken)
            &&& !final_tokens.contains_key(decimal_digits(token_value as nat))
        },
{
}

} // verus!
