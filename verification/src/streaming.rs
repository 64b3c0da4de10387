use vstd::prelude::*;
use crate::commands::CommandOutputs;
use crate::messages::{ClientMessage, CommandId, ServerMessage, SocketAction, client_message_outcome};

verus! {

broadcast use vstd::std_specs::hash::group_hash_axioms;

/// What one read from a command's output pipe gave.
#[derive(Clone, Copy, Debug, PartialEq, Eq)]
pub enum ReadEvent {
    /// This many bytes were read (zero at the end of the pipe).
    Read(usize),
    /// The read failed.
    Failed,
}

/// What the reader of an output pipe does next.
#[derive(Clone, Copy, Debug, PartialEq, Eq)]
pub enum ReadStep {
    /// Stop reading.
    Finish,
    /// Nothing was read; read again.
    Retry,
    /// Forward the first this many bytes of the buffer to the client.
    Forward(usize),
}

/// The reader stops on a failed read, and on an empty read once the command
/// has exited; it reads again after any other empty read, and forwards what
/// it read otherwise.
pub open spec fn spec_next_read_step(event: ReadEvent, child_finished: bool) -> ReadStep {
    match event {
        ReadEvent::Failed => ReadStep::Finish,
        ReadEvent::Read(n) => if n == 0 {
            if child_finished { ReadStep::Finish } else { ReadStep::Retry }
        } else {
            ReadStep::Forward(n)
        },
    }
}

/// Decides what the reader of an output pipe does after a read.
pub fn next_read_step(event: ReadEvent, child_finished: bool) -> (step: ReadStep)
    ensures
        step == spec_next_read_step(event, child_finished),
{
    match event {
        ReadEvent::Failed => ReadStep::Finish,
        ReadEvent::Read(n) => {
            if n == 0 {
                if child_finished {
                    ReadStep::Finish
                } else {
                    ReadStep::Retry
                }
            } else {
                ReadStep::Forward(n)
            }
        },
    }
}

/// How handing a chunk of output to the websocket task went.
#[derive(Clone, Copy, Debug, PartialEq, Eq)]
pub enum SendOutcome {
    /// The chunk was handed over.
    Delivered,
    /// The websocket task is gone.
    ChannelClosed,
}

/// What the reader of an output pipe does after handing over a chunk.
#[derive(Clone, Copy, Debug, PartialEq, Eq)]
pub enum SendStep {
    /// Read on.
    KeepReading,
    /// Stop and hand the pipe back, so that its output can be streamed again.
    HandBackReader,
}

/// The reader reads on after a delivered chunk, and stops and hands its
/// pipe back once nobody takes the chunks any more.
pub open spec fn spec_next_send_step(outcome: SendOutcome) -> SendStep {
    match outcome {
        SendOutcome::Delivered => SendStep::KeepReading,
        SendOutcome::ChannelClosed => SendStep::HandBackReader,
    }
}

/// Decides what the reader of an output pipe does after handing over a chunk.
pub fn next_send_step(outcome: SendOutcome) -> (step: SendStep)
    ensures
        step == spec_next_send_step(outcome),
{
    match outcome {
        SendOutcome::Delivered => SendStep::KeepReading,
        SendOutcome::ChannelClosed => SendStep::HandBackReader,
    }
}

/// The bytes that a read of `n` bytes into `buffer` produced.
pub fn read_bytes(buffer: &[u8], n: usize) -> (bytes: Vec<u8>)
    requires
        n <= buffer@.len(),
    ensures
        bytes@ == buffer@.subrange(0, n as int),
{
    let mut bytes: Vec<u8> = Vec::new();
    let mut i: usize = 0;
    while i < n
        invariant
            i <= n <= buffer@.len(),
            bytes@ == buffer@.subrange(0, i as int),
        decreases n - i,
    {
        bytes.push(buffer[i]);
        i = i + 1;
        assert(bytes@ =~= buffer@.subrange(0, i as int));
    }
    bytes
}

/// Which parts of a streamed command have come to an end: its standard
/// output, its standard error, and the process itself.
#[derive(Clone, Copy, Debug, PartialEq, Eq)]
pub struct StreamProgress {
    pub stdout_finished: bool,
    pub stderr_finished: bool,
    pub child_finished: bool,
}

/// Something that ended while a command's output was streamed.
#[derive(Clone, Copy, Debug, PartialEq, Eq)]
pub enum StreamEvent {
    ChildExited,
    StdoutDone,
    StderrDone,
}

impl StreamProgress {
    /// The progress at the start: a pipe that the process does not have
    /// counts as finished already.
    pub fn start(has_stdout: bool, has_stderr: bool) -> (progress: Self)
        ensures
            progress.stdout_finished == !has_stdout,
            progress.stderr_finished == !has_stderr,
            !progress.child_finished,
    {
        StreamProgress { stdout_finished: !has_stdout, stderr_finished: !has_stderr, child_finished: false }
    }

    /// Records that something ended; nothing else changes.
    pub fn record(&mut self, event: StreamEvent)
        ensures
            final(self).stdout_finished == (old(self).stdout_finished || event == StreamEvent::StdoutDone),
            final(self).stderr_finished == (old(self).stderr_finished || event == StreamEvent::StderrDone),
            final(self).child_finished == (old(self).child_finished || event == StreamEvent::ChildExited),
    {
        match event {
            StreamEvent::ChildExited => self.child_finished = true,
            StreamEvent::StdoutDone => self.stdout_finished = true,
            StreamEvent::StderrDone => self.stderr_finished = true,
        }
    }

    /// Streaming ends once both pipes are finished.
    pub fn is_done(&self) -> (done: bool)
        ensures
            done == (self.stdout_finished && self.stderr_finished),
    {
        self.stdout_finished && self.stderr_finished
    }
}

/// Ends the streaming of a command: a process that is still running goes
/// back into the registry, so that its output can be asked for again; one
/// that has exited is dropped.
pub fn finish_streaming<C>(
    outputs: &mut CommandOutputs<C>,
    progress: StreamProgress,
    command_id: CommandId,
    command_name: String,
    child: C,
)
    ensures
        final(outputs).0@ == if progress.child_finished {
            old(outputs).0@
        } else {
            old(outputs).0@.insert(command_id.0, (command_name, child))
        },
{
    if !progress.child_finished {
        outputs.0.insert(command_id.0, (command_name, child));
    }
}

/// A command whose process outlives the streaming of its output goes back
/// into the registry, so that a later request streams it again; one whose
/// process has exited cannot be asked for again unless it was registered anew.
pub proof fn lemma_running_command_streams_again<C>(
    running: Map<u32, (String, C)>,
    progress: StreamProgress,
    command_id: CommandId,
    command_name: String,
    child: C,
)
    requires
        !running.contains_key(command_id.0),
    ensures
        !progress.child_finished ==> client_message_outcome(
            running.insert(command_id.0, (command_name, child)),
            ClientMessage::GetCommandOutputStream { command_id: command_id.0 },
        ).1 == (SocketAction::StartStreaming { command_id, command_name, child }),
        progress.child_finished ==> client_message_outcome(
            running,
            ClientMessage::GetCommandOutputStream { command_id: command_id.0 },
        ).1 == SocketAction::<C>::Reply(ServerMessage::NoCommandWithId { command_id: command_id.0 }),
{
}

/// The reader never stops while the process runs and the pipe merely had
/// nothing to give, and it forwards exactly the number of bytes it read.
pub proof fn lemma_reader_waits_for_running_process(n: usize)
    ensures
        spec_next_read_step(ReadEvent::Read(0), false) == ReadStep::Retry,
        n > 0 ==> spec_next_read_step(ReadEvent::Read(n), false) == ReadStep::Forward(n),
        n > 0 ==> spec_next_read_step(ReadEvent::Read(n), true) == ReadStep::Forward(n),
{
}

} // verus!
