//! The client's side of a connection, decided one event at a time.
//!
//! A client sends its command ([`command_as_chunks`]), then follows what the server writes
//! ([`StdioTask`]) until the server tells with what code the command ended. Beside that it sends
//! standard input once the server asks for it ([`stdin_sender`]), and heartbeats where they are
//! configured ([`heartbeat_sender`]).
use std::time::Duration;

use vstd::prelude::*;
use vstd::string::*;

use crate::chunk::{InputChunk, InputChunkView, OutputChunk, OutputChunkView, Received};
use crate::config::{divide_duration, nanos};
use crate::error::{err, other_error, Error, ErrorKind, ErrorView, Failure, FailureView};
use crate::execution::{
    ChildInput, ChildInputView, ChildOutput, ChildOutputView, Command, CommandView, ExitCode,
};
use crate::server::{lemma_filter_first, stdin_chunks, stdin_inputs};

verus! {

/// The chunks in which arguments travel.
pub open spec fn argument_chunks(args: Seq<Seq<char>>) -> Seq<InputChunkView> {
    args.map_values(|arg: Seq<char>| InputChunkView::Argument(arg))
}

/// The chunks in which an environment travels.
pub open spec fn environment_chunks(env: Seq<(Seq<char>, Seq<char>)>) -> Seq<InputChunkView> {
    env.map_values(
        |pair: (Seq<char>, Seq<char>)|
            InputChunkView::Environment { key: pair.0, val: pair.1 },
    )
}

/// The chunks in which a command travels. The order matters: a server launches the command when its
/// name arrives.
pub open spec fn command_chunks(cmd: CommandView) -> Seq<InputChunkView> {
    argument_chunks(cmd.args) + environment_chunks(cmd.env) + seq![
        InputChunkView::WorkingDir(cmd.working_dir),
        InputChunkView::Command(cmd.command),
    ]
}

/// Converts a command into the chunks that open a connection.
pub fn command_as_chunks(cmd: Command) -> (chunks: Vec<InputChunk>)
    ensures
        chunks.deep_view() == command_chunks(cmd@),
{
    let Command { command, args, env, working_dir } = cmd;
    let mut chunks: Vec<InputChunk> = Vec::new();
    for arg in iter: args
        invariant
            iter.seq() == args@,
            chunks@.len() == iter.index(),
            forall|i: int|
                0 <= i < chunks@.len() ==> #[trigger] chunks@[i]@ == InputChunkView::Argument(
                    args@[i]@,
                ),
    {
        chunks.push(InputChunk::Argument(arg));
    }
    for pair in iter: env
        invariant
            iter.seq() == env@,
            chunks@.len() == args@.len() + iter.index(),
            forall|i: int|
                0 <= i < args@.len() ==> #[trigger] chunks@[i]@ == InputChunkView::Argument(
                    args@[i]@,
                ),
            forall|i: int|
                args@.len() <= i < chunks@.len() ==> #[trigger] chunks@[i]@
                    == (InputChunkView::Environment {
                    key: env@[i - args@.len()].0@,
                    val: env@[i - args@.len()].1@,
                }),
    {
        let (key, val) = pair;
        chunks.push(InputChunk::Environment { key, val });
    }
    chunks.push(InputChunk::WorkingDir(working_dir));
    chunks.push(InputChunk::Command(command));
    assert(chunks.deep_view() =~= command_chunks(cmd@));
    chunks
}

/// What a client says where its command could not be sent, given what the transport says.
pub open spec fn not_sent(reason: Seq<char>) -> ErrorView {
    other_error("Could not send initial chunks to the server. Got: "@ + reason)
}

/// How long a client that is to be heard at the given frequency pauses between heartbeats, both in
/// nanoseconds: a fraction of it, since more frequent is fine.
pub open spec fn pause_between(frequency: nat) -> nat {
    frequency / 4
}

/// A client that pauses so is heard four times or more within the time in which it must be heard.
pub proof fn law_heartbeats_come_in_time(frequency: nat)
    ensures
        4 * pause_between(frequency) <= frequency,
        frequency > 0 ==> pause_between(frequency) < frequency,
{
}

/// How long to pause before each heartbeat.
pub fn heartbeat_pause(frequency: Duration) -> (pause: Duration)
    ensures
        nanos(pause) == pause_between(nanos(frequency)),
{
    divide_duration(frequency, 4)
}

/// What follows once the command was sent, or was not: the connection goes on, with heartbeats at the
/// pause given where a frequency is configured, or it has failed.
pub fn opened(
    heartbeat_frequency: Option<Duration>,
    sent: Result<(), String>,
) -> (result: Result<Option<Duration>, Error>)
    ensures
        match sent {
            Ok(_) => match heartbeat_frequency {
                Some(frequency) => result matches Ok(Some(pause)) && nanos(pause) == pause_between(
                    nanos(frequency),
                ),
                None => result matches Ok(None),
            },
            Err(reason) => result matches Err(e) && e@ == not_sent(reason@),
        },
{
    match sent {
        Ok(_) => match heartbeat_frequency {
            Some(frequency) => Ok(Some(heartbeat_pause(frequency))),
            None => Ok(None),
        },
        Err(reason) => {
            let mut message = "Could not send initial chunks to the server. Got: ".to_owned();
            message.append(reason.as_str());
            Err(io_err(message.as_str()))
        },
    }
}

/// The task that follows what the server writes.
#[derive(Clone, Copy, Debug, PartialEq, Eq, Structural)]
pub struct StdioTask {
    /// Whether standard input has yet to be started.
    pub stdin_pending: bool,
}

/// What the task that follows the server does next.
#[derive(Debug, PartialEq, Eq)]
pub enum StdioStep<E> {
    /// Hand this to whoever reads the output, and follow on.
    Forward { output: ChildOutput, next: StdioTask },
    /// Open the standard input and start to send it, and follow on.
    StartStdin(StdioTask),
    /// Follow on.
    Follow(StdioTask),
    /// End with this result.
    Finish(Result<ExitCode, Failure<E>>),
}

/// A [`StdioStep`] as a mathematical value.
pub enum StdioStepView<E> {
    /// Hand this to whoever reads the output, and follow on.
    Forward { output: ChildOutputView, next: StdioTask },
    /// Open the standard input and start to send it, and follow on.
    StartStdin(StdioTask),
    /// Follow on.
    Follow(StdioTask),
    /// End with this result.
    Finish(Result<ExitCode, FailureView<E>>),
}

impl<E> View for StdioStep<E> {
    type V = StdioStepView<E>;

    open spec fn view(&self) -> StdioStepView<E> {
        match *self {
            StdioStep::Forward { output, next } => StdioStepView::Forward {
                output: output@,
                next,
            },
            StdioStep::StartStdin(next) => StdioStepView::StartStdin(next),
            StdioStep::Follow(next) => StdioStepView::Follow(next),
            StdioStep::Finish(Ok(code)) => StdioStepView::Finish(Ok(code)),
            StdioStep::Finish(Err(e)) => StdioStepView::Finish(Err(e@)),
        }
    }
}

/// What a client says where the server closed the connection before it told an exit code.
pub open spec fn no_result() -> ErrorView {
    other_error("Client exited before the server's result could be returned."@)
}

/// What a chunk makes the task that follows the server do. Standard input is started once, however
/// often the server asks for it.
pub open spec fn stdio_chunk_step<E>(
    task: StdioTask,
    chunk: OutputChunkView,
) -> StdioStepView<E> {
    match chunk {
        OutputChunkView::Stderr(bytes) => StdioStepView::Forward {
            output: ChildOutputView::Stderr(bytes),
            next: task,
        },
        OutputChunkView::Stdout(bytes) => StdioStepView::Forward {
            output: ChildOutputView::Stdout(bytes),
            next: task,
        },
        OutputChunkView::StartReadingStdin => if task.stdin_pending {
            StdioStepView::StartStdin(StdioTask { stdin_pending: false })
        } else {
            StdioStepView::Follow(task)
        },
        OutputChunkView::Exit(code) => StdioStepView::Finish(Ok(ExitCode(code))),
    }
}

/// What an event makes the task that follows the server do.
pub open spec fn stdio_step<E>(
    task: StdioTask,
    event: Received<OutputChunkView, FailureView<E>>,
) -> StdioStepView<E> {
    match event {
        Received::Chunk(chunk) => stdio_chunk_step(task, chunk),
        Received::Failed(e) => StdioStepView::Finish(Err(e)),
        Received::Closed => StdioStepView::Finish(Err(FailureView::Protocol(no_result()))),
    }
}

impl StdioTask {
    /// Begins to follow the server.
    pub fn new() -> (task: StdioTask)
        ensures
            task == (StdioTask { stdin_pending: true }),
    {
        StdioTask { stdin_pending: true }
    }

    /// Takes in what was received from the server.
    pub fn step<E>(self, event: Received<OutputChunk, Failure<E>>) -> (next: StdioStep<E>)
        ensures
            next@ == stdio_step(self, event@),
    {
        let chunk = match event {
            Received::Chunk(chunk) => chunk,
            Received::Failed(e) => return StdioStep::Finish(Err(e)),
            Received::Closed => return StdioStep::Finish(
                Err(
                    Failure::Protocol(
                        io_err("Client exited before the server's result could be returned."),
                    ),
                ),
            ),
        };
        match chunk {
            OutputChunk::Stderr(bytes) => StdioStep::Forward {
                output: ChildOutput::Stderr(bytes),
                next: self,
            },
            OutputChunk::Stdout(bytes) => StdioStep::Forward {
                output: ChildOutput::Stdout(bytes),
                next: self,
            },
            OutputChunk::StartReadingStdin => {
                if self.stdin_pending {
                    StdioStep::StartStdin(StdioTask { stdin_pending: false })
                } else {
                    StdioStep::Follow(self)
                }
            },
            OutputChunk::Exit(code) => StdioStep::Finish(Ok(ExitCode(code))),
        }
    }
}

/// How the task that follows the server ended.
#[derive(Debug, PartialEq, Eq)]
pub enum StdioEnd<E> {
    /// With this result.
    Completed(Result<ExitCode, Failure<E>>),
    /// It was given up because nobody waits for it any more.
    Aborted,
}

/// What a client says where it gave up the connection.
pub open spec fn canceled() -> ErrorView {
    ErrorView {
        kind: ErrorKind::ConnectionAborted,
        message: "The connection was canceled because the Child was dropped"@,
    }
}

/// What whoever waits for the remote command is told.
pub fn exit_result<E>(end: StdioEnd<E>) -> (result: Result<ExitCode, Failure<E>>)
    ensures
        match end {
            StdioEnd::Completed(completed) => result == completed,
            StdioEnd::Aborted => result matches Err(e) && e@ == FailureView::<E>::Protocol(
                canceled(),
            ),
        },
{
    match end {
        StdioEnd::Completed(result) => result,
        StdioEnd::Aborted => Err(
            Failure::Protocol(
                Error {
                    kind: ErrorKind::ConnectionAborted,
                    message: "The connection was canceled because the Child was dropped".to_owned(),
                },
            ),
        ),
    }
}

/// What the task that sends standard input does next.
#[derive(Debug, PartialEq, Eq)]
pub enum StdinStep {
    /// Send this, and read on.
    Send(InputChunk),
    /// Send no more input.
    End,
}

/// A [`StdinStep`] as a mathematical value.
pub enum StdinStepView {
    /// Send this, and read on.
    Send(InputChunkView),
    /// Send no more input.
    End,
}

impl View for StdinStep {
    type V = StdinStepView;

    open spec fn view(&self) -> StdinStepView {
        match *self {
            StdinStep::Send(chunk) => StdinStepView::Send(chunk@),
            StdinStep::End => StdinStepView::End,
        }
    }
}

/// What the task that sends standard input does with some of it, given whether the connection can
/// still be written to.
pub open spec fn stdin_step(input: Option<ChildInputView>, connected: bool) -> StdinStepView {
    match input {
        Some(ChildInputView::Stdin(bytes)) if connected => StdinStepView::Send(
            InputChunkView::Stdin(bytes),
        ),
        _ => StdinStepView::End,
    }
}

/// Decides what to do with some standard input, or with its end.
pub fn stdin_sender(input: Option<ChildInput>, connected: bool) -> (next: StdinStep)
    ensures
        next@ == stdin_step(
            match input {
                Some(i) => Some(i@),
                None => None,
            },
            connected,
        ),
{
    match input {
        Some(ChildInput::Stdin(bytes)) => {
            if connected {
                StdinStep::Send(InputChunk::Stdin(bytes))
            } else {
                StdinStep::End
            }
        },
        _ => StdinStep::End,
    }
}

/// What is sent when no more standard input is: its end, where the connection can still be written
/// to.
pub fn stdin_end(connected: bool) -> (chunk: Option<InputChunk>)
    ensures
        chunk == (if connected {
            Some(InputChunk::StdinEof)
        } else {
            None
        }),
{
    if connected {
        Some(InputChunk::StdinEof)
    } else {
        None
    }
}

/// The half of a connection that a client writes to, as the heartbeat finds it.
#[derive(Clone, Copy, Debug, PartialEq, Eq, Structural)]
pub enum WriteHalf {
    /// It can be written to.
    Open,
    /// It was shut down.
    ShutDown,
    /// The whole connection is gone.
    Gone,
}

/// What is sent after each pause: a heartbeat while the connection may still be alive, else nothing,
/// now or later.
pub fn heartbeat_sender(half: WriteHalf) -> (chunk: Option<InputChunk>)
    ensures
        chunk == (if half is Open {
            Some(InputChunk::Heartbeat)
        } else {
            None
        }),
{
    match half {
        WriteHalf::Open => Some(InputChunk::Heartbeat),
        WriteHalf::ShutDown => None,
        WriteHalf::Gone => None,
    }
}

/// An error of class `Other` that says `e`.
pub fn io_err(e: &str) -> (error: Error)
    ensures
        error@ == other_error(e@),
{
    err(e)
}

/// What the task that follows the server hands on over some chunks.
pub open spec fn followed(task: StdioTask, chunks: Seq<OutputChunkView>) -> Seq<ChildOutputView>
    decreases chunks.len(),
{
    if chunks.len() == 0 {
        seq![]
    } else {
        let rest = chunks.drop_first();
        match stdio_chunk_step::<()>(task, chunks[0]) {
            StdioStepView::Forward { output, next } => seq![output] + followed(next, rest),
            StdioStepView::StartStdin(next) => followed(next, rest),
            StdioStepView::Follow(next) => followed(next, rest),
            StdioStepView::Finish(_) => seq![],
        }
    }
}

/// The code with which the task that follows the server ends over some chunks, where it does.
pub open spec fn code_heard(task: StdioTask, chunks: Seq<OutputChunkView>) -> Option<ExitCode>
    decreases chunks.len(),
{
    if chunks.len() == 0 {
        None
    } else {
        let rest = chunks.drop_first();
        match stdio_chunk_step::<()>(task, chunks[0]) {
            StdioStepView::Forward { next, .. } => code_heard(next, rest),
            StdioStepView::StartStdin(next) => code_heard(next, rest),
            StdioStepView::Follow(next) => code_heard(next, rest),
            StdioStepView::Finish(Ok(code)) => Some(code),
            StdioStepView::Finish(Err(_)) => None,
        }
    }
}

/// How often the task that follows the server starts standard input over some chunks.
pub open spec fn stdin_starts(task: StdioTask, chunks: Seq<OutputChunkView>) -> nat
    decreases chunks.len(),
{
    if chunks.len() == 0 {
        0
    } else {
        let rest = chunks.drop_first();
        match stdio_chunk_step::<()>(task, chunks[0]) {
            StdioStepView::Forward { next, .. } => stdin_starts(next, rest),
            StdioStepView::StartStdin(next) => 1 + stdin_starts(next, rest),
            StdioStepView::Follow(next) => stdin_starts(next, rest),
            StdioStepView::Finish(_) => 0,
        }
    }
}

/// Standard input is started once at most, however often the server asks for it, and never where the
/// server does not ask.
pub proof fn law_stdin_starts_once(task: StdioTask, chunks: Seq<OutputChunkView>)
    ensures
        stdin_starts(task, chunks) <= 1,
        !task.stdin_pending ==> stdin_starts(task, chunks) == 0,
        !chunks.contains(OutputChunkView::StartReadingStdin) ==> stdin_starts(task, chunks) == 0,
    decreases chunks.len(),
{
    if chunks.len() > 0 {
        let rest = chunks.drop_first();
        law_stdin_starts_once(task, rest);
        law_stdin_starts_once(StdioTask { stdin_pending: false }, rest);
        assert(chunks.contains(chunks[0]));
        if rest.contains(OutputChunkView::StartReadingStdin) {
            let i = choose|i: int|
                0 <= i < rest.len() && rest[i] == OutputChunkView::StartReadingStdin;
            assert(chunks[i + 1] == OutputChunkView::StartReadingStdin);
        }
    }
}

/// Requests for standard input change nothing about the output and the code that a client hears.
pub proof fn law_requests_beside_output(task: StdioTask, chunks: Seq<OutputChunkView>)
    ensures
        followed(task, chunks) == followed(
            task,
            chunks.filter(|c: OutputChunkView| !(c is StartReadingStdin)),
        ),
        code_heard(task, chunks) == code_heard(
            task,
            chunks.filter(|c: OutputChunkView| !(c is StartReadingStdin)),
        ),
    decreases chunks.len(),
{
    let keep = |c: OutputChunkView| !(c is StartReadingStdin);
    if chunks.len() == 0 {
        assert(chunks.filter(keep) =~= chunks);
    } else {
        let rest = chunks.drop_first();
        let started = StdioTask { stdin_pending: false };
        lemma_filter_first(chunks, keep);
        law_requests_beside_output(task, rest);
        law_requests_beside_output(started, rest);
        lemma_task_beside_output(task, started, rest.filter(keep));
        if keep(chunks[0]) {
            assert((seq![chunks[0]] + rest.filter(keep)).drop_first() =~= rest.filter(keep));
        }
    }
}

/// Whether standard input was started makes no difference to the output and the code.
proof fn lemma_task_beside_output(a: StdioTask, b: StdioTask, chunks: Seq<OutputChunkView>)
    ensures
        followed(a, chunks) == followed(b, chunks),
        code_heard(a, chunks) == code_heard(b, chunks),
    decreases chunks.len(),
{
    if chunks.len() > 0 {
        let rest = chunks.drop_first();
        let started = StdioTask { stdin_pending: false };
        lemma_task_beside_output(a, b, rest);
        lemma_task_beside_output(a, started, rest);
        lemma_task_beside_output(b, started, rest);
    }
}

/// What is sent of some standard input and of its end, where so many more chunks can be written before
/// the half of the connection that is written to is shut down.
pub open spec fn stdin_sent(inputs: Seq<ChildInputView>, open_for: nat) -> Seq<InputChunkView>
    decreases inputs.len(),
{
    let connected = open_for > 0;
    let next = if inputs.len() > 0 {
        Some(inputs[0])
    } else {
        None
    };
    match stdin_step(next, connected) {
        StdinStepView::Send(chunk) if inputs.len() > 0 => seq![chunk] + stdin_sent(
            inputs.drop_first(),
            (open_for - 1) as nat,
        ),
        _ => if connected {
            seq![InputChunkView::StdinEof]
        } else {
            seq![]
        },
    }
}

/// All of the standard input is sent, in order, and then its end, once; and nothing on a half of the
/// connection that was shut down.
pub proof fn law_stdin_sent(input: Seq<Seq<u8>>, open_for: nat)
    ensures
        stdin_sent(stdin_inputs(input), open_for) == (if open_for > input.len() {
            stdin_chunks(input).push(InputChunkView::StdinEof)
        } else {
            stdin_chunks(input).take(open_for as int)
        }),
    decreases input.len(),
{
    let inputs = stdin_inputs(input);
    if input.len() > 0 && open_for > 0 {
        let rest = input.drop_first();
        law_stdin_sent(rest, (open_for - 1) as nat);
        assert(inputs.drop_first() =~= stdin_inputs(rest));
    }
    assert(stdin_sent(inputs, open_for) =~= (if open_for > input.len() {
        stdin_chunks(input).push(InputChunkView::StdinEof)
    } else {
        stdin_chunks(input).take(open_for as int)
    }));
}

/// The chunks of a command are its arguments, then its variables, each in order and none left out, then
/// its directory, and its name last.
pub proof fn law_chunks_of_a_command(cmd: CommandView, i: int)
    ensures
        command_chunks(cmd).len() == cmd.args.len() + cmd.env.len() + 2,
        0 <= i < cmd.args.len() ==> command_chunks(cmd)[i] == InputChunkView::Argument(cmd.args[i]),
        0 <= i < cmd.env.len() ==> command_chunks(cmd)[cmd.args.len() + i]
            == (InputChunkView::Environment { key: cmd.env[i].0, val: cmd.env[i].1 }),
        command_chunks(cmd)[(cmd.args.len() + cmd.env.len()) as int] == InputChunkView::WorkingDir(
            cmd.working_dir,
        ),
        command_chunks(cmd)[(cmd.args.len() + cmd.env.len() + 1) as int] == InputChunkView::Command(
            cmd.command,
        ),
{
}

/// The pause between heartbeats is a quarter of the frequency, up to a nanosecond.
pub proof fn law_pause_is_a_quarter(frequency: nat)
    ensures
        4 * pause_between(frequency) <= frequency < 4 * pause_between(frequency) + 4,
{
}

/// Output is handed on as what it is, at once and with the very bytes; the code that ends it is the very
/// code that the server told, for every code; standard input is started on the first request alone.
pub proof fn law_following<E>(pending: bool, bytes: Seq<u8>, code: i32)
    ensures
        stdio_chunk_step::<E>(
            StdioTask { stdin_pending: pending },
            OutputChunkView::Stdout(bytes),
        ) == (StdioStepView::<E>::Forward {
            output: ChildOutputView::Stdout(bytes),
            next: StdioTask { stdin_pending: pending },
        }),
        stdio_chunk_step::<E>(
            StdioTask { stdin_pending: pending },
            OutputChunkView::Stderr(bytes),
        ) == (StdioStepView::<E>::Forward {
            output: ChildOutputView::Stderr(bytes),
            next: StdioTask { stdin_pending: pending },
        }),
        stdio_chunk_step::<E>(StdioTask { stdin_pending: pending }, OutputChunkView::Exit(code))
            == StdioStepView::<E>::Finish(Ok(ExitCode(code))),
        stdio_chunk_step::<E>(
            StdioTask { stdin_pending: true },
            OutputChunkView::StartReadingStdin,
        ) == StdioStepView::<E>::StartStdin(StdioTask { stdin_pending: false }),
        stdio_chunk_step::<E>(
            StdioTask { stdin_pending: false },
            OutputChunkView::StartReadingStdin,
        ) == StdioStepView::<E>::Follow(StdioTask { stdin_pending: false }),
{
}

/// A chunk that was read is acted on; a server that is gone, or cannot be read from, ends the task with
/// the very error.
pub proof fn law_following_events<E>(
    task: StdioTask,
    chunk: OutputChunkView,
    e: FailureView<E>,
    reason: Seq<char>,
)
    ensures
        stdio_step::<E>(task, Received::Chunk(chunk)) == stdio_chunk_step::<E>(task, chunk),
        stdio_step::<E>(task, Received::Failed(e)) == StdioStepView::<E>::Finish(Err(e)),
        stdio_step::<E>(task, Received::Closed) matches StdioStepView::Finish(
            Err(FailureView::Protocol(error)),
        ) && error.kind == ErrorKind::Other && error.message
            == "Client exited before the server's result could be returned."@,
        not_sent(reason).kind == ErrorKind::Other,
        not_sent(reason).message == "Could not send initial chunks to the server. Got: "@ + reason,
        no_result().kind == ErrorKind::Other,
        no_result().message == "Client exited before the server's result could be returned."@,
        canceled().kind == ErrorKind::ConnectionAborted,
        canceled().message == "The connection was canceled because the Child was dropped"@,
{
}

/// Standard input is sent with the very bytes while the connection can be written to; nothing is sent
/// where it cannot, or where there is no more input.
pub proof fn law_sending_stdin(bytes: Seq<u8>, input: Option<ChildInputView>, connected: bool)
    ensures
        stdin_step(Some(ChildInputView::Stdin(bytes)), true) == StdinStepView::Send(
            InputChunkView::Stdin(bytes),
        ),
        stdin_step(input, false) == StdinStepView::End,
        stdin_step(Some(ChildInputView::StdinEOF), connected) == StdinStepView::End,
        stdin_step(None, connected) == StdinStepView::End,
{
}

/// What the tasks of a client do is known whole.
pub proof fn law_client_steps_are_seen_whole<E>(
    output: ChildOutput,
    task: StdioTask,
    code: ExitCode,
    failure: Failure<E>,
    chunk: InputChunk,
)
    ensures
        (StdioStep::<E>::Forward { output, next: task })@ == (StdioStepView::<E>::Forward {
            output: output@,
            next: task,
        }),
        StdioStep::<E>::StartStdin(task)@ == StdioStepView::<E>::StartStdin(task),
        StdioStep::<E>::Follow(task)@ == StdioStepView::<E>::Follow(task),
        StdioStep::<E>::Finish(Ok(code))@ == StdioStepView::<E>::Finish(Ok(code)),
        StdioStep::<E>::Finish(Err(failure))@ == StdioStepView::<E>::Finish(Err(failure@)),
        StdinStep::Send(chunk)@ == StdinStepView::Send(chunk@),
        StdinStep::End@ == StdinStepView::End,
{
}

} // verus!
