//! The server's side of a connection, decided one event at a time.
//!
//! A connection is served by a main task ([`step`]) and, once the command runs, by a task beside it
//! that listens to the client ([`InputTask`]).
use std::path::PathBuf;
use std::time::Duration;

use vstd::prelude::*;
use vstd::string::*;
use vstd::utf8::*;

pub use crate::error::err;

use crate::buffers::{bytes_from_string, contents};
use crate::chunk::{input_text, InputChunk, InputChunkView, OutputChunk, OutputChunkView, Received};
use crate::config::{describe_duration, duration_text, nanos};
use crate::error::{other_error, Error, ErrorKind, ErrorView, Failure, FailureView};
use crate::execution::{
    output_chunk, Args, ChildInput, ChildInputView, ChildOutput, ChildOutputView, Command,
    CommandView, Env, ExitCode,
};
use crate::nail::Nail;
use crate::paths::path_bytes;

verus! {

/// The code that stands for a command that was given up.
pub const ABORTED: i32 = -1;

/// What has arrived of a command.
#[derive(Debug, PartialEq, Eq)]
pub struct Initializer {
    /// The arguments so far.
    pub args: Args,
    /// The environment so far.
    pub env: Env,
    /// The directory to run in, as last told.
    pub working_dir: Option<PathBuf>,
}

/// An [`Initializer`] as a mathematical value.
pub struct InitializerView {
    /// The arguments so far.
    pub args: Seq<Seq<char>>,
    /// The environment so far.
    pub env: Seq<(Seq<char>, Seq<char>)>,
    /// The directory to run in, as last told.
    pub working_dir: Option<Seq<u8>>,
}

impl View for Initializer {
    type V = InitializerView;

    open spec fn view(&self) -> InitializerView {
        InitializerView {
            args: self.args.deep_view(),
            env: self.env.deep_view(),
            working_dir: match self.working_dir {
                Some(path) => Some(path_bytes(path)),
                None => None,
            },
        }
    }
}

/// What an event makes of an [`Initializer`].
#[derive(Debug, PartialEq, Eq)]
pub enum Initialized {
    /// The command is not complete yet.
    More(Initializer),
    /// The command is complete.
    Ready(Command),
    /// There will be no command, for this reason.
    Refused(String),
}

/// An [`Initialized`] as a mathematical value.
pub enum InitializedView {
    /// The command is not complete yet.
    More(InitializerView),
    /// The command is complete.
    Ready(CommandView),
    /// There will be no command, for this reason.
    Refused(Seq<char>),
}

impl View for Initialized {
    type V = InitializedView;

    open spec fn view(&self) -> InitializedView {
        match *self {
            Initialized::More(i) => InitializedView::More(i@),
            Initialized::Ready(command) => InitializedView::Ready(command@),
            Initialized::Refused(reason) => InitializedView::Refused(reason@),
        }
    }
}

/// Nothing has arrived yet.
pub open spec fn nothing_yet() -> InitializerView {
    InitializerView { args: seq![], env: seq![], working_dir: None }
}

/// Why a chunk is refused while a command is being received, given how a message shows the chunk.
pub open spec fn unexpected_before(description: Seq<char>) -> Seq<char> {
    "The client sent an unexpected chunk during initialization: "@ + description
}

/// What a chunk makes of what has arrived of a command.
pub open spec fn initialize_chunk(
    state: InitializerView,
    chunk: InputChunkView,
) -> InitializedView {
    match chunk {
        InputChunkView::Argument(arg) => InitializedView::More(
            InitializerView { args: state.args.push(arg), ..state },
        ),
        InputChunkView::Environment { key, val } => InitializedView::More(
            InitializerView { env: state.env.push((key, val)), ..state },
        ),
        InputChunkView::WorkingDir(path) => InitializedView::More(
            InitializerView { working_dir: Some(path), ..state },
        ),
        InputChunkView::Command(command) => match state.working_dir {
            Some(working_dir) => InitializedView::Ready(
                CommandView { command, args: state.args, env: state.env, working_dir },
            ),
            None => InitializedView::Refused("Did not receive the required working_dir chunk."@),
        },
        InputChunkView::Heartbeat => InitializedView::More(state),
        _ => InitializedView::Refused(unexpected_before(input_text(chunk))),
    }
}

/// What an event makes of what has arrived of a command. A failure to read comes with its text.
pub open spec fn initialize_step(
    state: InitializerView,
    event: Received<InputChunkView, Seq<char>>,
) -> InitializedView {
    match event {
        Received::Chunk(chunk) => initialize_chunk(state, chunk),
        Received::Failed(e) => InitializedView::Refused(
            "Client error while receiving command: "@ + e,
        ),
        Received::Closed => InitializedView::Refused(
            "Client exited before a complete command could be received."@,
        ),
    }
}

/// The refusal of a chunk while a command is being received, given how a message shows the chunk.
pub fn unexpected_during_initialization(description: &str) -> (reason: String)
    ensures
        reason@ == unexpected_before(description@),
{
    let mut reason = "The client sent an unexpected chunk during initialization: ".to_owned();
    reason.append(description);
    reason
}

impl Initializer {
    /// An initializer before anything arrived.
    pub fn new() -> (state: Initializer)
        ensures
            state@ == nothing_yet(),
    {
        let state = Initializer { args: Vec::new(), env: Vec::new(), working_dir: None };
        assert(state@.args =~= seq![]);
        assert(state@.env =~= seq![]);
        state
    }

    /// Takes in what was received before the command is complete.
    pub fn step(self, event: Received<InputChunk, String>) -> (next: Initialized)
        ensures
            next@ == initialize_step(self@, event@),
    {
        let mut state = self;
        let chunk = match event {
            Received::Chunk(chunk) => chunk,
            Received::Failed(e) => {
                let mut reason = "Client error while receiving command: ".to_owned();
                reason.append(e.as_str());
                return Initialized::Refused(reason);
            },
            Received::Closed => return Initialized::Refused(
                "Client exited before a complete command could be received.".to_owned(),
            ),
        };
        match chunk {
            InputChunk::Argument(arg) => {
                state.args.push(arg);
                assert(state@.args =~= self@.args.push(arg@));
                Initialized::More(state)
            },
            InputChunk::Environment { key, val } => {
                state.env.push((key, val));
                assert(state@.env =~= self@.env.push((key@, val@)));
                Initialized::More(state)
            },
            InputChunk::WorkingDir(path) => {
                state.working_dir = Some(path);
                Initialized::More(state)
            },
            InputChunk::Command(command) => match state.working_dir {
                Some(working_dir) => Initialized::Ready(
                    Command { command, args: state.args, env: state.env, working_dir },
                ),
                None => Initialized::Refused(
                    "Did not receive the required working_dir chunk.".to_owned(),
                ),
            },
            InputChunk::Heartbeat => Initialized::More(state),
            c => Initialized::Refused(unexpected_during_initialization(c.describe().as_str())),
        }
    }
}

/// What a sequence of chunks makes of what has arrived of a command; what comes after the end of
/// initialization is not looked at.
pub open spec fn initialize_all(
    state: InitializerView,
    chunks: Seq<InputChunkView>,
) -> InitializedView
    decreases chunks.len(),
{
    if chunks.len() == 0 {
        InitializedView::More(state)
    } else {
        match initialize_chunk(state, chunks[0]) {
            InitializedView::More(next) => initialize_all(next, chunks.drop_first()),
            ended => ended,
        }
    }
}

/// Heartbeats change nothing about the command that arrives.
pub proof fn law_heartbeats_before_command(state: InitializerView, chunks: Seq<InputChunkView>)
    ensures
        initialize_all(state, chunks) == initialize_all(
            state,
            chunks.filter(|c: InputChunkView| !(c is Heartbeat)),
        ),
    decreases chunks.len(),
{
    let keep = |c: InputChunkView| !(c is Heartbeat);
    if chunks.len() == 0 {
        assert(chunks.filter(keep) =~= chunks);
    } else {
        let rest = chunks.drop_first();
        lemma_filter_first(chunks, keep);
        match initialize_chunk(state, chunks[0]) {
            InitializedView::More(next) => {
                law_heartbeats_before_command(next, rest);
                if keep(chunks[0]) {
                    assert((seq![chunks[0]] + rest.filter(keep)).drop_first() =~= rest.filter(keep));
                }
            },
            _ => {},
        }
    }
}

/// Filtering a sequence looks at its first element, then filters the rest.
pub(crate) proof fn lemma_filter_first<A>(s: Seq<A>, keep: spec_fn(A) -> bool)
    requires
        s.len() > 0,
    ensures
        s.filter(keep) == (if keep(s[0]) {
            seq![s[0]] + s.drop_first().filter(keep)
        } else {
            s.drop_first().filter(keep)
        }),
    decreases s.len(),
{
    reveal(Seq::filter);
    let rest = s.drop_first();
    if s.len() == 1 {
        assert(s.drop_last() =~= seq![]);
        assert(rest =~= seq![]);
        assert(s.filter(keep) =~= (if keep(s[0]) {
            seq![s[0]] + rest.filter(keep)
        } else {
            rest.filter(keep)
        }));
    } else {
        lemma_filter_first(s.drop_last(), keep);
        assert(s.drop_last().drop_first() =~= rest.drop_last());
        assert(s.filter(keep) =~= (if keep(s[0]) {
            seq![s[0]] + rest.filter(keep)
        } else {
            rest.filter(keep)
        }));
    }
}

/// What waiting for the client gave.
#[derive(Debug, PartialEq, Eq)]
pub enum Waited<E> {
    /// Something arrived in time. What could not be read as a chunk is a failure of the protocol.
    Arrived(Received<InputChunk, Failure<E>>),
    /// Nothing arrived for this long, which is as long as the server waits.
    TimedOut(Duration),
}

/// What the server says where nothing arrived in time, given how a message shows the time.
pub open spec fn silent_for(duration: Seq<char>) -> ErrorView {
    other_error("Did not receive a heartbeat (or any other message) within "@ + duration)
}

/// What was read from a client by waiting for it.
pub open spec fn client_chunk<E>(waited: Waited<E>) -> Received<InputChunkView, FailureView<E>> {
    match waited {
        Waited::Arrived(received) => received@,
        Waited::TimedOut(duration) => Received::Failed(
            FailureView::Protocol(silent_for(duration_text(nanos(duration)))),
        ),
    }
}

/// The error of a server to which nothing arrived in time, given how a message shows the time.
pub fn missed_heartbeat(duration: &str) -> (error: Error)
    ensures
        error@ == silent_for(duration@),
{
    let mut message = "Did not receive a heartbeat (or any other message) within ".to_owned();
    message.append(duration);
    err(message.as_str())
}

/// Reads a single chunk from the client. Any message at all is enough for the server to wait anew;
/// silence for too long is a failure. A closed connection is none.
pub fn read_client_chunk<E>(waited: Waited<E>) -> (received: Received<InputChunk, Failure<E>>)
    ensures
        received@ == client_chunk(waited),
        waited matches Waited::Arrived(arrived) ==> received == arrived,
{
    match waited {
        Waited::Arrived(received) => received,
        Waited::TimedOut(duration) => Received::Failed(
            Failure::Protocol(missed_heartbeat(describe_duration(duration).as_str())),
        ),
    }
}

/// The task that listens to the client while the command runs.
#[derive(Clone, Copy, Debug, PartialEq, Eq, Structural)]
pub struct InputTask {
    /// Whether the command still takes standard input.
    pub stdin_open: bool,
}

/// What the task that listens to the client does next.
#[derive(Debug, PartialEq, Eq)]
pub enum InputStep<E> {
    /// Listen on.
    Listen(InputTask),
    /// Hand this to the command; then answer the client, where there is an answer; then listen on.
    Forward { input: ChildInput, reply: Option<OutputChunk>, next: InputTask },
    /// Close the command's standard input, and listen on.
    CloseStdin(InputTask),
    /// Ask the command to shut down, and end with this result.
    Shutdown(Result<(), Failure<E>>),
    /// End with this error at once.
    Fail(Error),
}

/// An [`InputStep`] as a mathematical value.
pub enum InputStepView<E> {
    /// Listen on.
    Listen(InputTask),
    /// Hand this to the command; then answer the client, where there is an answer; then listen on.
    Forward { input: ChildInputView, reply: Option<OutputChunkView>, next: InputTask },
    /// Close the command's standard input, and listen on.
    CloseStdin(InputTask),
    /// Ask the command to shut down, and end with this result.
    Shutdown(Result<(), FailureView<E>>),
    /// End with this error at once.
    Fail(ErrorView),
}

impl<E> View for InputStep<E> {
    type V = InputStepView<E>;

    open spec fn view(&self) -> InputStepView<E> {
        match *self {
            InputStep::Listen(next) => InputStepView::Listen(next),
            InputStep::Forward { input, reply, next } => InputStepView::Forward {
                input: input@,
                reply: match reply {
                    Some(chunk) => Some(chunk@),
                    None => None,
                },
                next,
            },
            InputStep::CloseStdin(next) => InputStepView::CloseStdin(next),
            InputStep::Shutdown(Ok(_)) => InputStepView::Shutdown(Ok(())),
            InputStep::Shutdown(Err(e)) => InputStepView::Shutdown(Err(e@)),
            InputStep::Fail(e) => InputStepView::Fail(e@),
        }
    }
}

/// Why a chunk is refused while the command runs, given how a message shows the chunk.
pub open spec fn unexpected_after(description: Seq<char>) -> ErrorView {
    other_error("The client sent an unexpected chunk after initialization: "@ + description)
}

/// What a chunk makes the task that listens to the client do.
pub open spec fn input_chunk_step<E>(
    task: InputTask,
    noisy_stdin: bool,
    chunk: InputChunkView,
) -> InputStepView<E> {
    match chunk {
        InputChunkView::Stdin(bytes) => if task.stdin_open {
            InputStepView::Forward {
                input: ChildInputView::Stdin(bytes),
                reply: if noisy_stdin {
                    Some(OutputChunkView::StartReadingStdin)
                } else {
                    None
                },
                next: task,
            }
        } else {
            InputStepView::Fail(
                other_error(
                    "The StartReadingStdin chunk was not sent, or Stdin was already closed."@,
                ),
            )
        },
        InputChunkView::StdinEof => if task.stdin_open {
            InputStepView::CloseStdin(InputTask { stdin_open: false })
        } else {
            InputStepView::Fail(
                other_error(
                    "The StartReadingStdin chunk was not sent: did not expect to receive stdin."@,
                ),
            )
        },
        InputChunkView::Heartbeat => InputStepView::Listen(task),
        _ => InputStepView::Fail(unexpected_after(input_text(chunk))),
    }
}

/// What an event makes the task that listens to the client do.
pub open spec fn input_step<E>(
    task: InputTask,
    noisy_stdin: bool,
    event: Received<InputChunkView, FailureView<E>>,
) -> InputStepView<E> {
    match event {
        Received::Chunk(chunk) => input_chunk_step(task, noisy_stdin, chunk),
        Received::Failed(e) => InputStepView::Shutdown(Err(e)),
        Received::Closed => InputStepView::Shutdown(Ok(())),
    }
}

/// The refusal of a chunk while the command runs, given how a message shows the chunk.
pub fn unexpected_after_initialization(description: &str) -> (error: Error)
    ensures
        error@ == unexpected_after(description@),
{
    let mut message = "The client sent an unexpected chunk after initialization: ".to_owned();
    message.append(description);
    err(message.as_str())
}

impl InputTask {
    /// Begins to listen on behalf of a command that takes standard input or does not.
    pub fn start(accepts_stdin: bool) -> (task: InputTask)
        ensures
            task == (InputTask { stdin_open: accepts_stdin }),
    {
        InputTask { stdin_open: accepts_stdin }
    }

    /// Takes in what was received while the command runs.
    pub fn step<E>(
        self,
        noisy_stdin: bool,
        event: Received<InputChunk, Failure<E>>,
    ) -> (next: InputStep<E>)
        ensures
            next@ == input_step(self, noisy_stdin, event@),
    {
        let chunk = match event {
            Received::Chunk(chunk) => chunk,
            Received::Failed(e) => return InputStep::Shutdown(Err(e)),
            Received::Closed => return InputStep::Shutdown(Ok(())),
        };
        match chunk {
            InputChunk::Stdin(bytes) => {
                if self.stdin_open {
                    let reply = if noisy_stdin {
                        Some(OutputChunk::StartReadingStdin)
                    } else {
                        None
                    };
                    InputStep::Forward { input: ChildInput::Stdin(bytes), reply, next: self }
                } else {
                    InputStep::Fail(
                        err(
                            "The StartReadingStdin chunk was not sent, or Stdin was already closed.",
                        ),
                    )
                }
            },
            InputChunk::StdinEof => {
                if self.stdin_open {
                    InputStep::CloseStdin(InputTask { stdin_open: false })
                } else {
                    InputStep::Fail(
                        err(
                            "The StartReadingStdin chunk was not sent: did not expect to receive stdin.",
                        ),
                    )
                }
            },
            InputChunk::Heartbeat => InputStep::Listen(self),
            c => InputStep::Fail(unexpected_after_initialization(c.describe().as_str())),
        }
    }
}

/// A command is asked to shut down when its client closes the connection, cannot be read from, or falls
/// silent for too long, and only then.
pub proof fn law_shutdown_when_client_is_gone<E>(
    task: InputTask,
    noisy_stdin: bool,
    waited: Waited<E>,
)
    ensures
        input_step(task, noisy_stdin, client_chunk(waited)) is Shutdown <==> !(waited is Arrived
            && waited->Arrived_0 is Chunk),
        waited matches Waited::TimedOut(duration) ==> input_step(
            task,
            noisy_stdin,
            client_chunk(waited),
        ) == InputStepView::<E>::Shutdown(
            Err(FailureView::Protocol(silent_for(duration_text(nanos(duration))))),
        ),
{
}

/// With what the task that listens to the client listens on after a step, where it does.
pub open spec fn listens_on<E>(step: InputStepView<E>) -> Option<InputTask> {
    match step {
        InputStepView::Listen(next) => Some(next),
        InputStepView::Forward { next, .. } => Some(next),
        InputStepView::CloseStdin(next) => Some(next),
        _ => None,
    }
}

/// What the task that listens to the client hands to the command over some chunks.
pub open spec fn forwarded(task: InputTask, noisy_stdin: bool, chunks: Seq<InputChunkView>) -> Seq<
    ChildInputView,
>
    decreases chunks.len(),
{
    if chunks.len() == 0 {
        seq![]
    } else {
        let step = input_chunk_step::<()>(task, noisy_stdin, chunks[0]);
        let now = match step {
            InputStepView::Forward { input, .. } => seq![input],
            _ => seq![],
        };
        match listens_on(step) {
            Some(next) => now + forwarded(next, noisy_stdin, chunks.drop_first()),
            None => now,
        }
    }
}

/// What the task that listens to the client answers over some chunks.
pub open spec fn replies(task: InputTask, noisy_stdin: bool, chunks: Seq<InputChunkView>) -> Seq<
    OutputChunkView,
>
    decreases chunks.len(),
{
    if chunks.len() == 0 {
        seq![]
    } else {
        let step = input_chunk_step::<()>(task, noisy_stdin, chunks[0]);
        let now = match step {
            InputStepView::Forward { reply: Some(chunk), .. } => seq![chunk],
            _ => seq![],
        };
        match listens_on(step) {
            Some(next) => now + replies(next, noisy_stdin, chunks.drop_first()),
            None => now,
        }
    }
}

/// A client that requires it hears one request for more for every chunk of standard input that the
/// command was handed; any other client hears none.
pub proof fn law_noisy_replies(task: InputTask, noisy_stdin: bool, chunks: Seq<InputChunkView>)
    ensures
        replies(task, noisy_stdin, chunks).len() == (if noisy_stdin {
            forwarded(task, noisy_stdin, chunks).len()
        } else {
            0
        }),
        forall|i: int|
            0 <= i < replies(task, noisy_stdin, chunks).len() ==> #[trigger] replies(
                task,
                noisy_stdin,
                chunks,
            )[i] is StartReadingStdin,
    decreases chunks.len(),
{
    if chunks.len() > 0 {
        match listens_on(input_chunk_step::<()>(task, noisy_stdin, chunks[0])) {
            Some(next) => law_noisy_replies(next, noisy_stdin, chunks.drop_first()),
            None => {},
        }
    }
}

/// A command that takes no standard input, or whose standard input was closed, is handed none.
pub proof fn law_closed_stdin(noisy_stdin: bool, chunks: Seq<InputChunkView>)
    ensures
        forwarded(InputTask { stdin_open: false }, noisy_stdin, chunks) == Seq::<
            ChildInputView,
        >::empty(),
    decreases chunks.len(),
{
    let task = InputTask { stdin_open: false };
    if chunks.len() > 0 {
        law_closed_stdin(noisy_stdin, chunks.drop_first());
        assert(forwarded(task, noisy_stdin, chunks) =~= seq![]);
    }
}

/// Heartbeats change nothing about what the command is handed.
pub proof fn law_heartbeats_beside_stdin(
    task: InputTask,
    noisy_stdin: bool,
    chunks: Seq<InputChunkView>,
)
    ensures
        forwarded(task, noisy_stdin, chunks) == forwarded(
            task,
            noisy_stdin,
            chunks.filter(|c: InputChunkView| !(c is Heartbeat)),
        ),
    decreases chunks.len(),
{
    let keep = |c: InputChunkView| !(c is Heartbeat);
    if chunks.len() == 0 {
        assert(chunks.filter(keep) =~= chunks);
    } else {
        let rest = chunks.drop_first();
        lemma_filter_first(chunks, keep);
        if keep(chunks[0]) {
            assert((seq![chunks[0]] + rest.filter(keep)).drop_first() =~= rest.filter(keep));
        }
        match listens_on(input_chunk_step::<()>(task, noisy_stdin, chunks[0])) {
            Some(next) => law_heartbeats_beside_stdin(next, noisy_stdin, rest),
            None => {},
        }
        if !keep(chunks[0]) {
            assert(forwarded(task, noisy_stdin, chunks) =~= forwarded(task, noisy_stdin, rest));
        }
    }
}

/// Standard input as a client sends it.
pub open spec fn stdin_chunks(input: Seq<Seq<u8>>) -> Seq<InputChunkView> {
    input.map_values(|bytes: Seq<u8>| InputChunkView::Stdin(bytes))
}

/// Standard input as a command is handed it.
pub open spec fn stdin_inputs(input: Seq<Seq<u8>>) -> Seq<ChildInputView> {
    input.map_values(|bytes: Seq<u8>| ChildInputView::Stdin(bytes))
}

/// A command that takes standard input is handed all of it, in order, up to its end.
pub proof fn law_stdin_in_order(
    noisy_stdin: bool,
    input: Seq<Seq<u8>>,
    later: Seq<InputChunkView>,
)
    ensures
        forwarded(
            InputTask { stdin_open: true },
            noisy_stdin,
            stdin_chunks(input) + seq![InputChunkView::StdinEof] + later,
        ) == stdin_inputs(input),
    decreases input.len(),
{
    let task = InputTask { stdin_open: true };
    let chunks = stdin_chunks(input) + seq![InputChunkView::StdinEof] + later;
    if input.len() == 0 {
        law_closed_stdin(noisy_stdin, chunks.drop_first());
        assert(forwarded(task, noisy_stdin, chunks) =~= stdin_inputs(input));
    } else {
        let rest = input.drop_first();
        law_stdin_in_order(noisy_stdin, rest, later);
        assert(chunks.drop_first() =~= stdin_chunks(rest) + seq![InputChunkView::StdinEof] + later);
        assert(forwarded(task, noisy_stdin, chunks) =~= stdin_inputs(input));
    }
}

/// What the main task does with something from the command's output.
#[derive(Debug, PartialEq, Eq)]
pub enum OutputStep<E> {
    /// Write this to the client, and read on.
    Send(OutputChunk),
    /// The output has ended.
    Done,
    /// Reading the output failed.
    Failed(E),
}

/// An [`OutputStep`] as a mathematical value.
pub enum OutputStepView<E> {
    /// Write this to the client, and read on.
    Send(OutputChunkView),
    /// The output has ended.
    Done,
    /// Reading the output failed.
    Failed(E),
}

impl<E> View for OutputStep<E> {
    type V = OutputStepView<E>;

    open spec fn view(&self) -> OutputStepView<E> {
        match *self {
            OutputStep::Send(chunk) => OutputStepView::Send(chunk@),
            OutputStep::Done => OutputStepView::Done,
            OutputStep::Failed(e) => OutputStepView::Failed(e),
        }
    }
}

/// What came out of the command, or that nothing more will.
pub type FromChild<E> = Option<Result<ChildOutput, E>>;

/// What the main task does with something from the command's output.
pub open spec fn output_step<E>(event: FromChild<E>) -> OutputStepView<E> {
    match event {
        Some(Ok(output)) => OutputStepView::Send(output_chunk(output@)),
        Some(Err(e)) => OutputStepView::Failed(e),
        None => OutputStepView::Done,
    }
}

/// Handles something from the command's output.
pub fn output<E>(event: FromChild<E>) -> (next: OutputStep<E>)
    ensures
        next@ == output_step(event),
{
    match event {
        Some(Ok(output)) => OutputStep::Send(OutputChunk::from(output)),
        Some(Err(e)) => OutputStep::Failed(e),
        None => OutputStep::Done,
    }
}

/// Why a command was not launched, given what the nail says of it.
pub open spec fn launch_failure(command: Seq<char>, reason: Seq<char>) -> Seq<char> {
    "Failed to launch child `"@ + command + "`: "@ + reason + "\n"@
}

/// The message about a command that was not launched, given what the nail says of it.
pub fn launch_failure_text(command: &str, reason: &str) -> (text: String)
    ensures
        text@ == launch_failure(command@, reason@),
{
    let mut text = "Failed to launch child `".to_owned();
    text.append(command);
    text.append("`: ");
    text.append(reason);
    text.append("\n");
    text
}

/// A result with its error as a mathematical value.
pub open spec fn with_text<C>(result: Result<C, String>) -> Result<C, Seq<char>> {
    match result {
        Ok(child) => Ok(child),
        Err(text) => Err(text@),
    }
}

/// What became of a command, given what the nail made of it.
pub open spec fn launch_outcome<C>(
    command: Seq<char>,
    spawned: Result<C, Seq<char>>,
) -> Result<C, Seq<char>> {
    match spawned {
        Ok(child) => Ok(child),
        Err(reason) => Err(launch_failure(command, reason)),
    }
}

/// What became of a command, given what the nail made of it: the child, or a message for the client.
pub fn launched<C>(command: &str, spawned: Result<C, String>) -> (result: Result<C, String>)
    ensures
        with_text(result) == launch_outcome(command@, with_text(spawned)),
{
    match spawned {
        Ok(child) => Ok(child),
        Err(reason) => Err(launch_failure_text(command, reason.as_str())),
    }
}

/// Launches a command on a nail. Whether it is launched, the nail decides.
pub fn launch<N: Nail>(nail: &N, command: Command) -> (result: Result<N::Child, String>)
    ensures
        exists|spawned: Result<N::Child, String>|
            {
                &&& #[trigger] call_ensures(N::spawn, (nail, command), spawned)
                &&& with_text(result) == launch_outcome(command.command@, with_text(spawned))
            },
{
    let command_desc = command.command.clone();
    let spawned = nail.spawn(command);
    launched(command_desc.as_str(), spawned)
}

/// Where the main task of a connection stands.
#[derive(Debug, PartialEq, Eq)]
pub enum Phase {
    /// The command is being received.
    Initializing(Initializer),
    /// The command is being launched.
    Launching,
    /// The command runs, and its output is being relayed.
    Relaying,
    /// The output has ended, and the command is to end.
    Awaiting,
    /// The command has ended, with this code, and the task that listens to the client is to end.
    Stopping(i32),
    /// All is done.
    Finished,
}

/// A [`Phase`] as a mathematical value.
pub enum PhaseView {
    /// The command is being received.
    Initializing(InitializerView),
    /// The command is being launched.
    Launching,
    /// The command runs, and its output is being relayed.
    Relaying,
    /// The output has ended, and the command is to end.
    Awaiting,
    /// The command has ended, with this code, and the task that listens to the client is to end.
    Stopping(i32),
    /// All is done.
    Finished,
}

impl View for Phase {
    type V = PhaseView;

    open spec fn view(&self) -> PhaseView {
        match *self {
            Phase::Initializing(state) => PhaseView::Initializing(state@),
            Phase::Launching => PhaseView::Launching,
            Phase::Relaying => PhaseView::Relaying,
            Phase::Awaiting => PhaseView::Awaiting,
            Phase::Stopping(code) => PhaseView::Stopping(code),
            Phase::Finished => PhaseView::Finished,
        }
    }
}

/// How a command ended.
#[derive(Debug, PartialEq, Eq)]
pub enum NailOutcome<E> {
    /// With this code.
    Exited(ExitCode),
    /// It was given up.
    Aborted,
    /// It could not be waited for.
    Failed(E),
}

/// What the main task of a connection hears.
#[derive(Debug, PartialEq, Eq)]
pub enum Event<E> {
    /// Something from the client, before the command is complete.
    Client(Received<InputChunk, String>),
    /// The command was launched, and takes standard input or does not; or it was not launched, for
    /// this reason.
    Launched(Result<bool, String>),
    /// Something from the command's output.
    Output(FromChild<E>),
    /// The command has ended.
    NailEnded(NailOutcome<E>),
    /// The task that listens to the client has ended, by itself or because it was told to.
    InputEnded(Result<(), Failure<E>>),
}

/// An [`Event`] as a mathematical value.
pub enum EventView<E> {
    /// Something from the client, before the command is complete.
    Client(Received<InputChunkView, Seq<char>>),
    /// The command was launched, and takes standard input or does not; or it was not launched, for
    /// this reason.
    Launched(Result<bool, Seq<char>>),
    /// Something from the command's output.
    Output(Option<Result<ChildOutputView, E>>),
    /// The command has ended.
    NailEnded(NailOutcome<E>),
    /// The task that listens to the client has ended, by itself or because it was told to.
    InputEnded(Result<(), FailureView<E>>),
}

impl<E> View for Event<E> {
    type V = EventView<E>;

    open spec fn view(&self) -> EventView<E> {
        match *self {
            Event::Client(received) => EventView::Client(received@),
            Event::Launched(result) => EventView::Launched(with_text(result)),
            Event::Output(Some(Ok(output))) => EventView::Output(Some(Ok(output@))),
            Event::Output(Some(Err(e))) => EventView::Output(Some(Err(e))),
            Event::Output(None) => EventView::Output(None),
            Event::NailEnded(outcome) => EventView::NailEnded(outcome),
            Event::InputEnded(Ok(_)) => EventView::InputEnded(Ok(())),
            Event::InputEnded(Err(e)) => EventView::InputEnded(Err(e@)),
        }
    }
}

/// What the main task of a connection does next.
#[derive(Debug, PartialEq, Eq)]
pub enum Action<E> {
    /// Nothing.
    Wait,
    /// Read from the client.
    ReadClient,
    /// Launch this command.
    Launch(Command),
    /// Start the command; write the request to the client, where there is one; then start the task
    /// that listens to the client, and read the command's output.
    Start { request: Option<OutputChunk>, listener: InputTask },
    /// Write this to the client, then read the command's output.
    Send(OutputChunk),
    /// Wait for the command.
    AwaitNail,
    /// Give up the command, and wait for it.
    AbortNail,
    /// End the task that listens to the client, where it has not ended, and wait for it.
    StopListening,
    /// Write these to the client, and end well.
    Close(Vec<OutputChunk>),
    /// End with this error.
    Fail(E),
}

/// An [`Action`] as a mathematical value.
pub enum ActionView<E> {
    /// Nothing.
    Wait,
    /// Read from the client.
    ReadClient,
    /// Launch this command.
    Launch(CommandView),
    /// Start the command; write the request to the client, where there is one; then start the task
    /// that listens to the client, and read the command's output.
    Start { request: Option<OutputChunkView>, listener: InputTask },
    /// Write this to the client, then read the command's output.
    Send(OutputChunkView),
    /// Wait for the command.
    AwaitNail,
    /// Give up the command, and wait for it.
    AbortNail,
    /// End the task that listens to the client, where it has not ended, and wait for it.
    StopListening,
    /// Write these to the client, and end well.
    Close(Seq<OutputChunkView>),
    /// End with this error.
    Fail(E),
}

impl<E> View for Action<E> {
    type V = ActionView<E>;

    open spec fn view(&self) -> ActionView<E> {
        match *self {
            Action::Wait => ActionView::Wait,
            Action::ReadClient => ActionView::ReadClient,
            Action::Launch(command) => ActionView::Launch(command@),
            Action::Start { request, listener } => ActionView::Start {
                request: match request {
                    Some(chunk) => Some(chunk@),
                    None => None,
                },
                listener,
            },
            Action::Send(chunk) => ActionView::Send(chunk@),
            Action::AwaitNail => ActionView::AwaitNail,
            Action::AbortNail => ActionView::AbortNail,
            Action::StopListening => ActionView::StopListening,
            Action::Close(chunks) => ActionView::Close(chunks.deep_view()),
            Action::Fail(e) => ActionView::Fail(e),
        }
    }
}

/// How a client is told that its command will not run: why, and a code that stands for failure.
pub open spec fn refusal_chunks(reason: Seq<char>) -> Seq<OutputChunkView> {
    seq![OutputChunkView::Stderr(encode_utf8(reason)), OutputChunkView::Exit(1)]
}

/// What the main task of a connection does when it hears something. What does not belong to the
/// phase it is in changes nothing.
///
/// The client is told the code of its command last of all, when nothing listens to it any more. It is
/// told the code whether it broke the protocol, fell silent or neither; and where the output of the
/// command cannot be read, or the command cannot be waited for, it is told the code that stands for a
/// command that was given up. Only a failure of the transport is an error of the connection.
pub open spec fn connection_step<E>(phase: PhaseView, event: EventView<E>) -> (
    PhaseView,
    ActionView<E>,
) {
    match (phase, event) {
        (PhaseView::Initializing(state), EventView::Client(received)) => match initialize_step(
            state,
            received,
        ) {
            InitializedView::More(next) => (PhaseView::Initializing(next), ActionView::ReadClient),
            InitializedView::Ready(command) => (PhaseView::Launching, ActionView::Launch(command)),
            InitializedView::Refused(reason) => (
                PhaseView::Finished,
                ActionView::Close(refusal_chunks(reason)),
            ),
        },
        (PhaseView::Launching, EventView::Launched(Ok(accepts_stdin))) => (
            PhaseView::Relaying,
            ActionView::Start {
                request: if accepts_stdin {
                    Some(OutputChunkView::StartReadingStdin)
                } else {
                    None
                },
                listener: InputTask { stdin_open: accepts_stdin },
            },
        ),
        (PhaseView::Launching, EventView::Launched(Err(reason))) => (
            PhaseView::Finished,
            ActionView::Close(refusal_chunks(reason)),
        ),
        (PhaseView::Relaying, EventView::Output(Some(Ok(output)))) => (
            PhaseView::Relaying,
            ActionView::Send(output_chunk(output)),
        ),
        (PhaseView::Relaying, EventView::Output(Some(Err(_)))) => (
            PhaseView::Awaiting,
            ActionView::AbortNail,
        ),
        (PhaseView::Relaying, EventView::Output(None)) => (
            PhaseView::Awaiting,
            ActionView::AwaitNail,
        ),
        (PhaseView::Awaiting, EventView::NailEnded(outcome)) => (
            PhaseView::Stopping(
                match outcome {
                    NailOutcome::Exited(code) => code.0,
                    _ => ABORTED,
                },
            ),
            ActionView::StopListening,
        ),
        (PhaseView::Stopping(_), EventView::InputEnded(Err(FailureView::Transport(e)))) => (
            PhaseView::Finished,
            ActionView::Fail(e),
        ),
        (PhaseView::Stopping(code), EventView::InputEnded(_)) => (
            PhaseView::Finished,
            ActionView::Close(seq![OutputChunkView::Exit(code)]),
        ),
        _ => (phase, ActionView::Wait),
    }
}

/// The chunks that tell a client that its command will not run.
pub fn refusal(reason: String) -> (chunks: Vec<OutputChunk>)
    ensures
        chunks.deep_view() == refusal_chunks(reason@),
{
    let mut chunks: Vec<OutputChunk> = Vec::new();
    chunks.push(OutputChunk::Stderr(bytes_from_string(reason)));
    chunks.push(OutputChunk::Exit(1));
    assert(chunks.deep_view() =~= refusal_chunks(reason@));
    chunks
}

/// The chunk that tells a client with what code its command ended.
fn exit_chunk(code: i32) -> (chunks: Vec<OutputChunk>)
    ensures
        chunks.deep_view() == seq![OutputChunkView::Exit(code)],
{
    let mut chunks: Vec<OutputChunk> = Vec::new();
    chunks.push(OutputChunk::Exit(code));
    assert(chunks.deep_view() =~= seq![OutputChunkView::Exit(code)]);
    chunks
}

/// The phase in which a connection begins.
pub fn start() -> (phase: Phase)
    ensures
        phase@ == PhaseView::Initializing(nothing_yet()),
{
    Phase::Initializing(Initializer::new())
}

/// Decides what the main task of a connection does when it hears something.
pub fn step<E>(phase: Phase, event: Event<E>) -> (next: (Phase, Action<E>))
    ensures
        (next.0@, next.1@) == connection_step(phase@, event@),
{
    match (phase, event) {
        (Phase::Initializing(state), Event::Client(received)) => match state.step(received) {
            Initialized::More(next) => (Phase::Initializing(next), Action::ReadClient),
            Initialized::Ready(command) => (Phase::Launching, Action::Launch(command)),
            Initialized::Refused(reason) => (Phase::Finished, Action::Close(refusal(reason))),
        },
        (Phase::Launching, Event::Launched(Ok(accepts_stdin))) => {
            let request = if accepts_stdin {
                Some(OutputChunk::StartReadingStdin)
            } else {
                None
            };
            let listener = InputTask::start(accepts_stdin);
            (Phase::Relaying, Action::Start { request, listener })
        },
        (Phase::Launching, Event::Launched(Err(reason))) => (
            Phase::Finished,
            Action::Close(refusal(reason)),
        ),
        (Phase::Relaying, Event::Output(event)) => match output(event) {
            OutputStep::Send(chunk) => (Phase::Relaying, Action::Send(chunk)),
            OutputStep::Failed(_) => (Phase::Awaiting, Action::AbortNail),
            OutputStep::Done => (Phase::Awaiting, Action::AwaitNail),
        },
        (Phase::Awaiting, Event::NailEnded(outcome)) => {
            let code: i32 = match outcome {
                NailOutcome::Exited(code) => code.0,
                NailOutcome::Aborted => ABORTED,
                NailOutcome::Failed(_) => ABORTED,
            };
            (Phase::Stopping(code), Action::StopListening)
        },
        (Phase::Stopping(code), Event::InputEnded(result)) => match result {
            Err(Failure::Transport(e)) => (Phase::Finished, Action::Fail(e)),
            _ => (Phase::Finished, Action::Close(exit_chunk(code))),
        },
        (phase, _) => (phase, Action::Wait),
    }
}

/// The chunks that an action writes to the client.
pub open spec fn chunks_written<E>(action: ActionView<E>) -> Seq<OutputChunkView> {
    match action {
        ActionView::Send(chunk) => seq![chunk],
        ActionView::Start { request: Some(chunk), .. } => seq![chunk],
        ActionView::Close(chunks) => chunks,
        _ => seq![],
    }
}

/// The phase in which some events leave the main task of a connection.
pub open spec fn phase_after<E>(phase: PhaseView, events: Seq<EventView<E>>) -> PhaseView
    decreases events.len(),
{
    if events.len() == 0 {
        phase
    } else {
        phase_after(connection_step(phase, events[0]).0, events.drop_first())
    }
}

/// The chunks that the main task of a connection writes to the client over some events.
pub open spec fn written<E>(phase: PhaseView, events: Seq<EventView<E>>) -> Seq<OutputChunkView>
    decreases events.len(),
{
    if events.len() == 0 {
        seq![]
    } else {
        let (next, action) = connection_step(phase, events[0]);
        chunks_written(action) + written(next, events.drop_first())
    }
}

/// Whether the main task of a connection ends with an error over some events.
pub open spec fn fails<E>(phase: PhaseView, events: Seq<EventView<E>>) -> bool
    decreases events.len(),
{
    events.len() > 0 && {
        let (next, action) = connection_step(phase, events[0]);
        action is Fail || fails(next, events.drop_first())
    }
}

/// Whether an event is output of the command that tells an exit code by itself.
pub open spec fn tells_exit<E>(event: EventView<E>) -> bool {
    event matches EventView::Output(Some(Ok(output))) && output is Exit
}

/// What is done is done: a connection that has finished does nothing more and writes nothing more.
pub proof fn law_finished_is_final<E>(events: Seq<EventView<E>>)
    ensures
        phase_after(PhaseView::Finished, events) == PhaseView::Finished,
        written(PhaseView::Finished, events) == Seq::<OutputChunkView>::empty(),
        !fails(PhaseView::Finished, events),
    decreases events.len(),
{
    if events.len() > 0 {
        law_finished_is_final(events.drop_first());
        assert(written(PhaseView::Finished, events) =~= seq![]);
    }
}

/// A connection that does not fail, whatever came of the command, ends by telling the client a code.
pub proof fn law_ends_with_exit<E>(phase: PhaseView, events: Seq<EventView<E>>)
    requires
        !(phase is Finished),
        phase_after(phase, events) is Finished,
        !fails(phase, events),
    ensures
        written(phase, events).len() > 0,
        written(phase, events).last() is Exit,
    decreases events.len(),
{
    let (next, action) = connection_step(phase, events[0]);
    let rest = events.drop_first();
    if next is Finished {
        law_finished_is_final(rest);
        assert(written(phase, events) =~= chunks_written(action));
    } else {
        law_ends_with_exit(next, rest);
        assert(written(phase, events).last() == written(next, rest).last());
    }
}

/// Whether an event is a failure of the transport.
pub open spec fn carries_error<E>(event: EventView<E>) -> bool {
    event matches EventView::InputEnded(Err(FailureView::Transport(_)))
}

/// Everything but a failure of the transport ends well: a client that sends nonsense, that goes away
/// or that falls silent, a command that cannot be launched, read from or waited for.
pub proof fn law_fails_only_on_errors<E>(phase: PhaseView, events: Seq<EventView<E>>)
    requires
        forall|i: int| 0 <= i < events.len() ==> !carries_error(#[trigger] events[i]),
    ensures
        !fails(phase, events),
    decreases events.len(),
{
    if events.len() > 0 {
        let rest = events.drop_first();
        assert(!carries_error(events[0]));
        assert forall|i: int| 0 <= i < rest.len() implies !carries_error(#[trigger] rest[i]) by {
            assert(rest[i] == events[i + 1]);
        }
        law_fails_only_on_errors(connection_step(phase, events[0]).0, rest);
    }
}

/// How many commands the main task of a connection launches over some events.
pub open spec fn launches<E>(phase: PhaseView, events: Seq<EventView<E>>) -> nat
    decreases events.len(),
{
    if events.len() == 0 {
        0
    } else {
        let (next, action) = connection_step(phase, events[0]);
        let now: nat = if action is Launch {
            1
        } else {
            0
        };
        now + launches(next, events.drop_first())
    }
}

/// A connection launches one command at most, and none once its command is complete.
pub proof fn law_one_launch<E>(phase: PhaseView, events: Seq<EventView<E>>)
    ensures
        launches(phase, events) <= 1,
        !(phase is Initializing) ==> launches(phase, events) == 0,
    decreases events.len(),
{
    if events.len() > 0 {
        law_one_launch(connection_step(phase, events[0]).0, events.drop_first());
    }
}

/// Where both tasks of a connection stand: the main task, and the task that listens to the client
/// while there is one.
pub struct Both {
    /// Where the main task stands.
    pub phase: PhaseView,
    /// The task that listens to the client.
    pub listener: Option<InputTask>,
}

/// One of the two tasks hears something.
pub enum Turn<E> {
    /// The main task does.
    Main(EventView<E>),
    /// The task that listens to the client does.
    Listener(Received<InputChunkView, FailureView<E>>),
}

/// What the task that listens to the client writes in a step.
pub open spec fn reply_of<E>(step: InputStepView<E>) -> Seq<OutputChunkView> {
    match step {
        InputStepView::Forward { reply: Some(chunk), .. } => seq![chunk],
        _ => seq![],
    }
}

/// What a turn makes of both tasks, and what is written to the client in it. The main task starts the
/// one that listens, and that it has ended is what the main task hears of it.
pub open spec fn both_step<E>(noisy_stdin: bool, both: Both, turn: Turn<E>) -> (
    Both,
    Seq<OutputChunkView>,
) {
    match turn {
        Turn::Main(event) => {
            let (phase, action) = connection_step(both.phase, event);
            let listener = match action {
                ActionView::Start { listener, .. } => Some(listener),
                _ => if event is InputEnded {
                    None
                } else {
                    both.listener
                },
            };
            (Both { phase, listener }, chunks_written(action))
        },
        Turn::Listener(received) => match both.listener {
            Some(task) => {
                let step = input_step(task, noisy_stdin, received);
                (Both { listener: listens_on(step), ..both }, reply_of(step))
            },
            None => (both, seq![]),
        },
    }
}

/// All that both tasks write to the client, in whatever order they take turns.
pub open spec fn both_written<E>(noisy_stdin: bool, both: Both, turns: Seq<Turn<E>>) -> Seq<
    OutputChunkView,
>
    decreases turns.len(),
{
    if turns.len() == 0 {
        seq![]
    } else {
        let (next, now) = both_step(noisy_stdin, both, turns[0]);
        now + both_written(noisy_stdin, next, turns.drop_first())
    }
}

/// Nothing listens to the client before its command was launched, nor when all is done.
pub open spec fn in_step(both: Both) -> bool {
    both.phase is Initializing || both.phase is Launching || both.phase is Finished
        ==> both.listener is None
}

/// A connection begins so, and no turn changes it.
pub proof fn law_in_step<E>(noisy_stdin: bool, both: Both, turn: Turn<E>)
    ensures
        in_step(Both { phase: PhaseView::Initializing(nothing_yet()), listener: None }),
        in_step(both) ==> in_step(both_step(noisy_stdin, both, turn).0),
{
}

proof fn lemma_both_finished<E>(noisy_stdin: bool, both: Both, turns: Seq<Turn<E>>)
    requires
        both.phase is Finished,
        both.listener is None,
    ensures
        both_written(noisy_stdin, both, turns) == Seq::<OutputChunkView>::empty(),
    decreases turns.len(),
{
    if turns.len() > 0 {
        lemma_both_finished(noisy_stdin, both_step(noisy_stdin, both, turns[0]).0, turns.drop_first());
        assert(both_written(noisy_stdin, both, turns) =~= seq![]);
    }
}

/// An exit code is the last that a client hears of either task, in whatever order they take turns: no
/// output and no request follows it. (Unless the command's own output told one before.)
pub proof fn law_exit_is_last<E>(noisy_stdin: bool, both: Both, turns: Seq<Turn<E>>, i: int)
    requires
        in_step(both),
        forall|j: int|
            0 <= j < turns.len() ==> !(#[trigger] turns[j] matches Turn::Main(event) && tells_exit(
                event,
            )),
        0 <= i < both_written(noisy_stdin, both, turns).len(),
        both_written(noisy_stdin, both, turns)[i] is Exit,
    ensures
        i == both_written(noisy_stdin, both, turns).len() - 1,
    decreases turns.len(),
{
    let (next, now) = both_step(noisy_stdin, both, turns[0]);
    let rest = turns.drop_first();
    let all = both_written(noisy_stdin, both, turns);
    assert forall|j: int| 0 <= j < rest.len() implies !(#[trigger] rest[j] matches Turn::Main(
        event,
    ) && tells_exit(event)) by {
        assert(rest[j] == turns[j + 1]);
    }
    assert(!(turns[0] matches Turn::Main(event) && tells_exit(event)));
    law_in_step(noisy_stdin, both, turns[0]);
    if i < now.len() {
        assert(all[i] == now[i]);
        lemma_both_finished(noisy_stdin, next, rest);
    } else {
        assert(all[i] == both_written(noisy_stdin, next, rest)[i - now.len()]);
        law_exit_is_last(noisy_stdin, next, rest, i - now.len());
    }
}

/// What the main task hears over some turns.
pub open spec fn heard_by_main<E>(turns: Seq<Turn<E>>) -> Seq<EventView<E>>
    decreases turns.len(),
{
    if turns.len() == 0 {
        seq![]
    } else {
        let later = heard_by_main(turns.drop_first());
        match turns[0] {
            Turn::Main(event) => seq![event] + later,
            Turn::Listener(_) => later,
        }
    }
}

/// The task that listens to the client adds nothing but requests for standard input to what the main
/// task writes.
pub proof fn law_listener_only_asks<E>(noisy_stdin: bool, both: Both, turns: Seq<Turn<E>>)
    ensures
        both_written(noisy_stdin, both, turns).filter(
            |c: OutputChunkView| !(c is StartReadingStdin),
        ) == written(both.phase, heard_by_main(turns)).filter(
            |c: OutputChunkView| !(c is StartReadingStdin),
        ),
    decreases turns.len(),
{
    let keep = |c: OutputChunkView| !(c is StartReadingStdin);
    if turns.len() > 0 {
        let (next, now) = both_step(noisy_stdin, both, turns[0]);
        let rest = turns.drop_first();
        let later = both_written(noisy_stdin, next, rest);
        law_listener_only_asks(noisy_stdin, next, rest);
        Seq::filter_distributes_over_add(now, later, keep);
        match turns[0] {
            Turn::Main(event) => {
                let events = heard_by_main(turns);
                assert(events.drop_first() =~= heard_by_main(rest));
                Seq::filter_distributes_over_add(
                    now,
                    written(next.phase, heard_by_main(rest)),
                    keep,
                );
            },
            Turn::Listener(_) => {
                lemma_requests_filtered(now);
                assert(now.filter(keep) + later.filter(keep) =~= later.filter(keep));
            },
        }
    }
}

/// Of requests for standard input nothing is left without them.
proof fn lemma_requests_filtered(chunks: Seq<OutputChunkView>)
    requires
        forall|i: int| 0 <= i < chunks.len() ==> #[trigger] chunks[i] is StartReadingStdin,
    ensures
        chunks.filter(|c: OutputChunkView| !(c is StartReadingStdin)) == Seq::<
            OutputChunkView,
        >::empty(),
    decreases chunks.len(),
{
    let keep = |c: OutputChunkView| !(c is StartReadingStdin);
    reveal(Seq::filter);
    if chunks.len() > 0 {
        lemma_requests_filtered(chunks.drop_last());
        assert(chunks.last() is StartReadingStdin);
    }
}

/// All but requests for standard input are left without them.
pub(crate) proof fn lemma_no_requests_filtered(chunks: Seq<OutputChunkView>)
    requires
        forall|i: int| 0 <= i < chunks.len() ==> !(#[trigger] chunks[i] is StartReadingStdin),
    ensures
        chunks.filter(|c: OutputChunkView| !(c is StartReadingStdin)) == chunks,
    decreases chunks.len(),
{
    reveal(Seq::filter);
    if chunks.len() > 0 {
        lemma_no_requests_filtered(chunks.drop_last());
        assert(!(chunks.last() is StartReadingStdin));
        assert(chunks.drop_last().push(chunks.last()) =~= chunks);
    }
}

/// Chunks as the main task hears them.
pub open spec fn as_events<E>(chunks: Seq<InputChunkView>) -> Seq<EventView<E>> {
    chunks.map_values(|chunk: InputChunkView| EventView::<E>::Client(Received::Chunk(chunk)))
}

/// A refused request is answered with the reason and a code that stands for failure, and with nothing
/// else, whatever the client sends after that.
pub proof fn law_refused<E>(
    state: InitializerView,
    chunks: Seq<InputChunkView>,
    reason: Seq<char>,
)
    requires
        initialize_all(state, chunks) == InitializedView::Refused(reason),
    ensures
        written::<E>(PhaseView::Initializing(state), as_events(chunks)) == refusal_chunks(reason),
        phase_after::<E>(PhaseView::Initializing(state), as_events(chunks)) is Finished,
        !fails::<E>(PhaseView::Initializing(state), as_events(chunks)),
    decreases chunks.len(),
{
    let events = as_events::<E>(chunks);
    let rest = as_events::<E>(chunks.drop_first());
    assert(events.drop_first() =~= rest);
    match initialize_chunk(state, chunks[0]) {
        InitializedView::More(next) => {
            law_refused::<E>(next, chunks.drop_first(), reason);
            assert(written(PhaseView::Initializing(state), events) =~= refusal_chunks(reason));
        },
        _ => {
            law_finished_is_final(rest);
            assert(written(PhaseView::Initializing(state), events) =~= refusal_chunks(reason));
        },
    }
}

/// A connection that is lost or closed before the command is complete is answered in the same way.
pub proof fn law_lost_before_command<E>(
    state: InitializerView,
    received: Received<InputChunkView, Seq<char>>,
)
    requires
        !(received is Chunk),
    ensures
        connection_step::<E>(PhaseView::Initializing(state), EventView::Client(received)) == (
            PhaseView::Finished,
            ActionView::<E>::Close(
                refusal_chunks(
                    match received {
                        Received::Failed(e) => "Client error while receiving command: "@ + e,
                        _ => "Client exited before a complete command could be received."@,
                    },
                ),
            ),
        ),
{
}

/// A command that its nail did not launch is answered in the same way, with what the nail says of it.
pub proof fn law_failed_launch_is_told<E>(command: Seq<char>, reason: Seq<char>)
    ensures
        connection_step::<E>(
            PhaseView::Launching,
            EventView::Launched(launch_outcome(command, Err(reason))),
        ) == (
            PhaseView::Finished,
            ActionView::<E>::Close(refusal_chunks(launch_failure(command, reason))),
        ),
{
}

/// Events that follow one another act as one sequence of events.
proof fn lemma_written_in_parts<E>(
    phase: PhaseView,
    first: Seq<EventView<E>>,
    second: Seq<EventView<E>>,
)
    ensures
        written(phase, first + second) == written(phase, first) + written(
            phase_after(phase, first),
            second,
        ),
        phase_after(phase, first + second) == phase_after(phase_after(phase, first), second),
        fails(phase, first + second) == (fails(phase, first) || fails(
            phase_after(phase, first),
            second,
        )),
    decreases first.len(),
{
    if first.len() == 0 {
        assert(first + second =~= second);
        assert(written(phase, first) + written(phase, second) =~= written(phase, second));
    } else {
        let (next, action) = connection_step(phase, first[0]);
        lemma_written_in_parts(next, first.drop_first(), second);
        assert((first + second).drop_first() =~= first.drop_first() + second);
        assert(written(phase, first + second) =~= written(phase, first) + written(
            phase_after(phase, first),
            second,
        ));
    }
}

/// The chunks of a complete command bring the main task to launch that command.
pub proof fn law_command_is_launched<E>(
    state: InitializerView,
    chunks: Seq<InputChunkView>,
    last: InputChunkView,
    command: CommandView,
)
    requires
        initialize_all(state, chunks) is More,
        initialize_all(state, chunks.push(last)) == InitializedView::Ready(command),
    ensures
        written::<E>(PhaseView::Initializing(state), as_events(chunks)) == Seq::<
            OutputChunkView,
        >::empty(),
        connection_step::<E>(
            phase_after::<E>(PhaseView::Initializing(state), as_events(chunks)),
            EventView::Client(Received::Chunk(last)),
        ) == (PhaseView::Launching, ActionView::<E>::Launch(command)),
    decreases chunks.len(),
{
    let events = as_events::<E>(chunks);
    if chunks.len() == 0 {
        assert(chunks.push(last).drop_first() =~= seq![]);
        reveal_with_fuel(initialize_all, 2);
        assert(written(PhaseView::Initializing(state), events) =~= seq![]);
    } else {
        let rest = chunks.drop_first();
        assert(events.drop_first() =~= as_events::<E>(rest));
        assert(chunks.push(last).drop_first() =~= rest.push(last));
        match initialize_chunk(state, chunks[0]) {
            InitializedView::More(next) => {
                law_command_is_launched::<E>(next, rest, last, command);
                assert(written(PhaseView::Initializing(state), events) =~= seq![]);
            },
            _ => {},
        }
    }
}

/// Output of a command as the main task hears it.
pub open spec fn as_output<E>(outputs: Seq<ChildOutputView>) -> Seq<EventView<E>> {
    outputs.map_values(|output: ChildOutputView| EventView::<E>::Output(Some(Ok(output))))
}

/// The chunks in which some output travels.
pub open spec fn output_chunks(outputs: Seq<ChildOutputView>) -> Seq<OutputChunkView> {
    outputs.map_values(|output: ChildOutputView| output_chunk(output))
}

/// How a run of a command looks to the main task once it was launched: some output, its end, an exit
/// code, the end of the task that listens to the client.
pub open spec fn whole_run<E>(
    outputs: Seq<ChildOutputView>,
    code: ExitCode,
    input_ended: Result<(), FailureView<E>>,
) -> Seq<EventView<E>> {
    as_output::<E>(outputs) + seq![
        EventView::Output(None),
        EventView::NailEnded(NailOutcome::Exited(code)),
        EventView::InputEnded(input_ended),
    ]
}

proof fn lemma_relayed<E>(outputs: Seq<ChildOutputView>)
    ensures
        written::<E>(PhaseView::Relaying, as_output(outputs)) == output_chunks(outputs),
        phase_after::<E>(PhaseView::Relaying, as_output(outputs)) == PhaseView::Relaying,
        !fails::<E>(PhaseView::Relaying, as_output(outputs)),
    decreases outputs.len(),
{
    if outputs.len() > 0 {
        let rest = outputs.drop_first();
        lemma_relayed::<E>(rest);
        assert(as_output::<E>(outputs).drop_first() =~= as_output::<E>(rest));
    }
    assert(written::<E>(PhaseView::Relaying, as_output(outputs)) =~= output_chunks(outputs));
}

/// A client hears all of the output of its command, in order, and then the code with which it ended;
/// the code is left out only where the transport failed.
pub proof fn law_output_then_exit<E>(
    outputs: Seq<ChildOutputView>,
    code: ExitCode,
    input_ended: Result<(), FailureView<E>>,
)
    ensures
        ({
            let run = whole_run(outputs, code, input_ended);
            let lost = input_ended is Err && input_ended->Err_0 is Transport;
            &&& written(PhaseView::Relaying, run) == (if lost {
                output_chunks(outputs)
            } else {
                output_chunks(outputs).push(OutputChunkView::Exit(code.0))
            })
            &&& phase_after(PhaseView::Relaying, run) is Finished
            &&& fails(PhaseView::Relaying, run) <==> lost
        }),
{
    let end: Seq<EventView<E>> = seq![
        EventView::Output(None),
        EventView::NailEnded(NailOutcome::Exited(code)),
        EventView::InputEnded(input_ended),
    ];
    let lost = input_ended is Err && input_ended->Err_0 is Transport;
    lemma_relayed::<E>(outputs);
    lemma_written_in_parts(PhaseView::Relaying, as_output::<E>(outputs), end);
    reveal_with_fuel(written, 4);
    reveal_with_fuel(phase_after, 4);
    reveal_with_fuel(fails, 4);
    assert(end.drop_first().drop_first().drop_first() =~= seq![]);
    if lost {
        assert(written(PhaseView::Relaying, end) =~= seq![]);
        assert(output_chunks(outputs) + seq![] =~= output_chunks(outputs));
    } else {
        assert(written(PhaseView::Relaying, end) =~= seq![OutputChunkView::Exit(code.0)]);
        assert(output_chunks(outputs) + seq![OutputChunkView::Exit(code.0)] =~= output_chunks(
            outputs,
        ).push(OutputChunkView::Exit(code.0)));
    }
}

/// A command whose output cannot be read, or that cannot be waited for, is given up, and its client is
/// told the code that stands for that.
pub proof fn law_given_up<E>(reason: E, outcome: NailOutcome<E>, input_ended: Result<(), FailureView<E>>)
    requires
        !(outcome is Exited),
        !(input_ended is Err && input_ended->Err_0 is Transport),
    ensures
        ({
            let run = seq![
                EventView::Output(Some(Err(reason))),
                EventView::NailEnded(outcome),
                EventView::InputEnded(input_ended),
            ];
            &&& connection_step(PhaseView::Relaying, run[0]).1 is AbortNail
            &&& written(PhaseView::Relaying, run) == seq![OutputChunkView::Exit(ABORTED)]
            &&& !fails(PhaseView::Relaying, run)
        }),
{
    let run = seq![
        EventView::Output(Some(Err(reason))),
        EventView::NailEnded(outcome),
        EventView::InputEnded(input_ended),
    ];
    reveal_with_fuel(written, 4);
    reveal_with_fuel(fails, 4);
    assert(run.drop_first().drop_first().drop_first() =~= seq![]);
    assert(written(PhaseView::Relaying, run) =~= seq![OutputChunkView::Exit(ABORTED)]);
}

/// What arrives of a command is added to what has arrived, and to nothing else: an argument after the
/// arguments, a variable after the variables, a directory in place of the one before.
pub proof fn law_gathering(
    state: InitializerView,
    s: Seq<char>,
    t: Seq<char>,
    path: Seq<u8>,
)
    ensures
        initialize_chunk(state, InputChunkView::Argument(s)) == InitializedView::More(
            InitializerView {
                args: state.args.push(s),
                env: state.env,
                working_dir: state.working_dir,
            },
        ),
        initialize_chunk(state, InputChunkView::Environment { key: s, val: t })
            == InitializedView::More(
            InitializerView {
                args: state.args,
                env: state.env.push((s, t)),
                working_dir: state.working_dir,
            },
        ),
        initialize_chunk(state, InputChunkView::WorkingDir(path)) == InitializedView::More(
            InitializerView { args: state.args, env: state.env, working_dir: Some(path) },
        ),
        initialize_chunk(state, InputChunkView::Heartbeat) == InitializedView::More(state),
        nothing_yet().args.len() == 0,
        nothing_yet().env.len() == 0,
        nothing_yet().working_dir is None,
{
}

/// A command is complete with its name, and is all that has arrived; without a directory it is refused,
/// and so is standard input before it.
pub proof fn law_command_complete(
    state: InitializerView,
    name: Seq<char>,
    bytes: Seq<u8>,
    path: Seq<u8>,
)
    ensures
        state.working_dir == Some(path) ==> initialize_chunk(state, InputChunkView::Command(name))
            == InitializedView::Ready(
            CommandView { command: name, args: state.args, env: state.env, working_dir: path },
        ),
        state.working_dir is None ==> initialize_chunk(state, InputChunkView::Command(name))
            == InitializedView::Refused("Did not receive the required working_dir chunk."@),
        initialize_chunk(state, InputChunkView::Stdin(bytes)) == InitializedView::Refused(
            "The client sent an unexpected chunk during initialization: "@ + input_text(
                InputChunkView::Stdin(bytes),
            ),
        ),
        initialize_chunk(state, InputChunkView::StdinEof) == InitializedView::Refused(
            "The client sent an unexpected chunk during initialization: "@ + input_text(
                InputChunkView::StdinEof,
            ),
        ),
{
}

/// Every chunk is taken in; an error and an early end refuse the command, and say which it was.
pub proof fn law_initialization_events(
    state: InitializerView,
    chunk: InputChunkView,
    e: Seq<char>,
)
    ensures
        initialize_step(state, Received::Chunk(chunk)) == initialize_chunk(state, chunk),
        initialize_step(state, Received::Failed(e)) == InitializedView::Refused(
            "Client error while receiving command: "@ + e,
        ),
        initialize_step(state, Received::Closed) == InitializedView::Refused(
            "Client exited before a complete command could be received."@,
        ),
{
}

/// The reason that a description stands in.
pub proof fn law_reasons_keep_descriptions(description: Seq<char>)
    ensures
        unexpected_before(description)
            == "The client sent an unexpected chunk during initialization: "@ + description,
        unexpected_after(description).kind == ErrorKind::Other,
        unexpected_after(description).message
            == "The client sent an unexpected chunk after initialization: "@ + description,
        silent_for(description).kind == ErrorKind::Other,
        silent_for(description).message
            == "Did not receive a heartbeat (or any other message) within "@ + description,
{
}

/// As long as the command is not complete the main task reads on, whatever has arrived so far: the
/// connection never stalls before its command was launched or refused.
pub proof fn law_initialization_reads_on<E>(
    state: InitializerView,
    received: Received<InputChunkView, Seq<char>>,
)
    ensures
        initialize_step(state, received) matches InitializedView::More(next) ==> connection_step::<
            E,
        >(PhaseView::Initializing(state), EventView::Client(received)) == (
            PhaseView::Initializing(next),
            ActionView::<E>::ReadClient,
        ),
        initialize_step(state, received) matches InitializedView::Ready(command)
            ==> connection_step::<E>(
            PhaseView::Initializing(state),
            EventView::Client(received),
        ) == (PhaseView::Launching, ActionView::<E>::Launch(command)),
        initialize_step(state, received) matches InitializedView::Refused(reason)
            ==> connection_step::<E>(
            PhaseView::Initializing(state),
            EventView::Client(received),
        ) == (
            PhaseView::Finished,
            ActionView::<E>::Close(
                seq![OutputChunkView::Stderr(encode_utf8(reason)), OutputChunkView::Exit(1)],
            ),
        ),
{
}

/// The main task is never idle: in every phase but the last, each event that belongs to the phase makes
/// it do something. What does not belong changes nothing.
pub proof fn law_never_idle<E>(phase: PhaseView, event: EventView<E>)
    ensures
        ({
            let belongs = {
                ||| phase is Initializing && event is Client
                ||| phase is Launching && event is Launched
                ||| phase is Relaying && event is Output
                ||| phase is Awaiting && event is NailEnded
                ||| phase is Stopping && event is InputEnded
            };
            &&& belongs ==> !(connection_step(phase, event).1 is Wait)
            &&& !belongs ==> connection_step(phase, event) == (phase, ActionView::<E>::Wait)
        }),
{
}

/// A command that was launched is started, and its client is asked for standard input exactly where the
/// command takes any; a command that was not launched is answered with the reason.
pub proof fn law_launched_is_started<E>(accepts_stdin: bool, reason: Seq<char>)
    ensures
        ({
            let (phase, action) = connection_step::<E>(
                PhaseView::Launching,
                EventView::Launched(Ok(accepts_stdin)),
            );
            &&& phase == PhaseView::Relaying
            &&& action matches ActionView::Start { request, listener } && {
                &&& listener.stdin_open == accepts_stdin
                &&& accepts_stdin ==> request == Some(OutputChunkView::StartReadingStdin)
                &&& !accepts_stdin ==> request is None
            }
        }),
        connection_step::<E>(PhaseView::Launching, EventView::Launched(Err(reason))) == (
            PhaseView::Finished,
            ActionView::<E>::Close(
                seq![OutputChunkView::Stderr(encode_utf8(reason)), OutputChunkView::Exit(1)],
            ),
        ),
{
}

/// Each piece of output is written as it is, at once, and the next is read; after the end of the output
/// the command is waited for, and where the output cannot be read it is given up.
pub proof fn law_output_is_written_at_once<E>(bytes: Seq<u8>, code: i32, e: E)
    ensures
        connection_step(
            PhaseView::Relaying,
            EventView::<E>::Output(Some(Ok(ChildOutputView::Stdout(bytes)))),
        ) == (PhaseView::Relaying, ActionView::<E>::Send(OutputChunkView::Stdout(bytes))),
        connection_step(
            PhaseView::Relaying,
            EventView::<E>::Output(Some(Ok(ChildOutputView::Stderr(bytes)))),
        ) == (PhaseView::Relaying, ActionView::<E>::Send(OutputChunkView::Stderr(bytes))),
        connection_step(
            PhaseView::Relaying,
            EventView::<E>::Output(Some(Ok(ChildOutputView::Exit(ExitCode(code))))),
        ) == (PhaseView::Relaying, ActionView::<E>::Send(OutputChunkView::Exit(code))),
        connection_step(PhaseView::Relaying, EventView::<E>::Output(None)) == (
            PhaseView::Awaiting,
            ActionView::<E>::AwaitNail,
        ),
        connection_step(PhaseView::Relaying, EventView::Output(Some(Err(e)))) == (
            PhaseView::Awaiting,
            ActionView::<E>::AbortNail,
        ),
{
}

/// The code that a client is told is the very code with which its command ended, for every code; it is
/// -1 for a command that was given up or could not be waited for. It is told when listening has ended,
/// unless the transport failed, and then that failure is the error.
pub proof fn law_the_very_code_is_told<E>(
    code: i32,
    e: E,
    outcome: NailOutcome<E>,
    input_ended: Result<(), FailureView<E>>,
)
    ensures
        connection_step(
            PhaseView::Awaiting,
            EventView::NailEnded(NailOutcome::<E>::Exited(ExitCode(code))),
        ) == (PhaseView::Stopping(code), ActionView::<E>::StopListening),
        !(outcome is Exited) ==> {
            let (phase, action) = connection_step(
                PhaseView::Awaiting,
                EventView::NailEnded(outcome),
            );
            &&& phase matches PhaseView::Stopping(told) && told as int == -1
            &&& action is StopListening
        },
        input_ended == Err::<(), FailureView<E>>(FailureView::Transport(e)) ==> connection_step(
            PhaseView::Stopping(code),
            EventView::InputEnded(input_ended),
        ) == (PhaseView::Finished, ActionView::Fail(e)),
        !(input_ended is Err && input_ended->Err_0 is Transport) ==> connection_step(
            PhaseView::Stopping(code),
            EventView::InputEnded(input_ended),
        ) == (PhaseView::Finished, ActionView::<E>::Close(seq![OutputChunkView::Exit(code)])),
{
}

/// What is said of a command that was not launched: its name and what the nail says of it, whole. A
/// command that was launched is handed on.
pub proof fn law_launch_outcomes<C>(child: C, command: Seq<char>, reason: Seq<char>, text: String)
    ensures
        launch_outcome::<C>(command, Ok(child)) == Ok::<C, Seq<char>>(child),
        launch_outcome::<C>(command, Err(reason)) == Err::<C, Seq<char>>(
            "Failed to launch child `"@ + command + "`: "@ + reason + "\n"@,
        ),
        launch_failure(command, reason) == "Failed to launch child `"@ + command + "`: "@ + reason
            + "\n"@,
        with_text::<C>(Ok(child)) == Ok::<C, Seq<char>>(child),
        with_text::<C>(Err(text)) == Err::<C, Seq<char>>(text@),
        refusal_chunks(reason).len() == 2,
        refusal_chunks(reason)[0] == OutputChunkView::Stderr(encode_utf8(reason)),
        refusal_chunks(reason)[1] == OutputChunkView::Exit(1),
{
}

/// Whatever arrives in time is handed on unchanged; silence is told with the time that it lasted.
pub proof fn law_arrivals_are_handed_on<E>(
    received: Received<InputChunk, Failure<E>>,
    chunk: InputChunk,
    e: Failure<E>,
    duration: Duration,
)
    ensures
        client_chunk(Waited::Arrived(received)) == received@,
        client_chunk(Waited::Arrived(Received::<InputChunk, Failure<E>>::Chunk(chunk)))
            == Received::<InputChunkView, FailureView<E>>::Chunk(chunk@),
        client_chunk(Waited::Arrived(Received::<InputChunk, Failure<E>>::Failed(e)))
            == Received::<InputChunkView, FailureView<E>>::Failed(e@),
        client_chunk(Waited::Arrived(Received::<InputChunk, Failure<E>>::Closed)) == Received::<
            InputChunkView,
            FailureView<E>,
        >::Closed,
        client_chunk::<E>(Waited::TimedOut(duration)) matches Received::Failed(
            FailureView::Protocol(error),
        ) && error.kind == ErrorKind::Other && error.message
            == "Did not receive a heartbeat (or any other message) within "@ + duration_text(
            nanos(duration),
        ),
{
}

/// What the task that listens to the client hands to the command over what it reads by waiting.
pub open spec fn forwarded_by_waiting<E>(
    task: InputTask,
    noisy_stdin: bool,
    waits: Seq<Waited<E>>,
) -> Seq<ChildInputView>
    decreases waits.len(),
{
    if waits.len() == 0 {
        seq![]
    } else {
        let step = input_step(task, noisy_stdin, client_chunk(waits[0]));
        let now = match step {
            InputStepView::Forward { input, .. } => seq![input],
            _ => seq![],
        };
        match listens_on(step) {
            Some(next) => now + forwarded_by_waiting(next, noisy_stdin, waits.drop_first()),
            None => now,
        }
    }
}

/// Standard input reaches the command as it is read by waiting for it: every chunk, in order, with the
/// very bytes that the client sent, however many.
pub proof fn law_stdin_reaches_the_command<E>(noisy_stdin: bool, waits: Seq<Waited<E>>)
    requires
        forall|i: int|
            0 <= i < waits.len() ==> (#[trigger] waits[i] matches Waited::Arrived(
                Received::Chunk(InputChunk::Stdin(_)),
            )),
    ensures
        ({
            let handed = forwarded_by_waiting(InputTask { stdin_open: true }, noisy_stdin, waits);
            &&& handed.len() == waits.len()
            &&& forall|i: int|
                0 <= i < waits.len() ==> (waits[i] matches Waited::Arrived(
                    Received::Chunk(InputChunk::Stdin(bytes)),
                ) && #[trigger] handed[i] == ChildInputView::Stdin(contents(bytes)))
        }),
    decreases waits.len(),
{
    let task = InputTask { stdin_open: true };
    if waits.len() > 0 {
        let rest = waits.drop_first();
        assert forall|i: int| 0 <= i < rest.len() implies (#[trigger] rest[i] matches Waited::Arrived(
            Received::Chunk(InputChunk::Stdin(_)),
        )) by {
            assert(rest[i] == waits[i + 1]);
        }
        law_stdin_reaches_the_command(noisy_stdin, rest);
        let handed = forwarded_by_waiting(task, noisy_stdin, waits);
        let later = forwarded_by_waiting(task, noisy_stdin, rest);
        assert(waits[0] matches Waited::Arrived(Received::Chunk(InputChunk::Stdin(_))));
        assert forall|i: int| 0 <= i < waits.len() implies (waits[i] matches Waited::Arrived(
            Received::Chunk(InputChunk::Stdin(bytes)),
        ) && #[trigger] handed[i] == ChildInputView::Stdin(contents(bytes))) by {
            if i > 0 {
                assert(rest[i - 1] == waits[i]);
                assert(handed[i] == later[i - 1]);
            }
        }
    }
}

/// Standard input is handed to a command that takes it with the very bytes, and with a request for more
/// exactly where the client requires that; its end closes it, once; a heartbeat changes nothing.
pub proof fn law_listening<E>(noisy_stdin: bool, open: bool, bytes: Seq<u8>)
    ensures
        input_chunk_step::<E>(
            InputTask { stdin_open: true },
            noisy_stdin,
            InputChunkView::Stdin(bytes),
        ) matches InputStepView::Forward { input, reply, next } && {
            &&& input == ChildInputView::Stdin(bytes)
            &&& noisy_stdin ==> reply == Some(OutputChunkView::StartReadingStdin)
            &&& !noisy_stdin ==> reply is None
            &&& next.stdin_open
        },
        input_chunk_step::<E>(
            InputTask { stdin_open: true },
            noisy_stdin,
            InputChunkView::StdinEof,
        ) == InputStepView::<E>::CloseStdin(InputTask { stdin_open: false }),
        input_chunk_step::<E>(
            InputTask { stdin_open: open },
            noisy_stdin,
            InputChunkView::Heartbeat,
        ) == InputStepView::<E>::Listen(InputTask { stdin_open: open }),
{
}

/// Standard input that a command does not take, or no longer takes, and all that belongs before a
/// command, is an error, and says which it was.
pub proof fn law_listening_refuses<E>(
    task: InputTask,
    noisy_stdin: bool,
    bytes: Seq<u8>,
    chunk: InputChunkView,
)
    ensures
        input_chunk_step::<E>(
            InputTask { stdin_open: false },
            noisy_stdin,
            InputChunkView::Stdin(bytes),
        ) matches InputStepView::Fail(e) && e.kind == ErrorKind::Other && e.message
            == "The StartReadingStdin chunk was not sent, or Stdin was already closed."@,
        input_chunk_step::<E>(
            InputTask { stdin_open: false },
            noisy_stdin,
            InputChunkView::StdinEof,
        ) matches InputStepView::Fail(e) && e.kind == ErrorKind::Other && e.message
            == "The StartReadingStdin chunk was not sent: did not expect to receive stdin."@,
        chunk is Argument || chunk is Environment || chunk is WorkingDir || chunk is Command ==> (
        input_chunk_step::<E>(task, noisy_stdin, chunk) matches InputStepView::Fail(e) && e.kind
            == ErrorKind::Other && e.message
            == "The client sent an unexpected chunk after initialization: "@ + input_text(chunk)),
{
}

/// A chunk that was read is acted on; a client that is gone, or cannot be read from, shuts the command
/// down, with the very error.
pub proof fn law_listening_events<E>(
    task: InputTask,
    noisy_stdin: bool,
    chunk: InputChunkView,
    e: FailureView<E>,
)
    ensures
        input_step::<E>(task, noisy_stdin, Received::Chunk(chunk)) == input_chunk_step::<E>(
            task,
            noisy_stdin,
            chunk,
        ),
        input_step::<E>(task, noisy_stdin, Received::Failed(e)) == InputStepView::<E>::Shutdown(
            Err(e),
        ),
        input_step::<E>(task, noisy_stdin, Received::Closed) == InputStepView::<E>::Shutdown(
            Ok(()),
        ),
{
}

/// What came out of a command is told apart: output, its end, and a failure to read it.
pub proof fn law_output_events<E>(output: ChildOutput, e: E)
    ensures
        output_step::<E>(Some(Ok(output))) == OutputStepView::<E>::Send(output_chunk(output@)),
        output_step::<E>(Some(Err(e))) == OutputStepView::<E>::Failed(e),
        output_step::<E>(None) == OutputStepView::<E>::Done,
{
}

/// What was gathered of a command, and what became of it, are known whole.
pub proof fn law_initializers_are_seen_whole(
    state: Initializer,
    command: Command,
    reason: String,
    path: PathBuf,
    i: int,
)
    ensures
        state@.args.len() == state.args@.len(),
        0 <= i < state.args@.len() ==> state@.args[i] == state.args@[i]@,
        state@.env.len() == state.env@.len(),
        0 <= i < state.env@.len() ==> state@.env[i].0 == state.env@[i].0@ && state@.env[i].1
            == state.env@[i].1@,
        state.working_dir == Some(path) ==> state@.working_dir == Some(path_bytes(path)),
        state.working_dir is None ==> state@.working_dir is None,
        Initialized::More(state)@ == InitializedView::More(state@),
        Initialized::Ready(command)@ == InitializedView::Ready(command@),
        Initialized::Refused(reason)@ == InitializedView::Refused(reason@),
{
}

/// What the task that listens to the client does is known whole.
pub proof fn law_input_steps_are_seen_whole<E>(
    task: InputTask,
    input: ChildInput,
    chunk: OutputChunk,
    failure: Failure<E>,
    error: Error,
)
    ensures
        InputStep::<E>::Listen(task)@ == InputStepView::<E>::Listen(task),
        (InputStep::<E>::Forward { input, reply: Some(chunk), next: task })@
            == (InputStepView::<E>::Forward { input: input@, reply: Some(chunk@), next: task }),
        (InputStep::<E>::Forward { input, reply: None, next: task })@
            == (InputStepView::<E>::Forward { input: input@, reply: None, next: task }),
        InputStep::<E>::CloseStdin(task)@ == InputStepView::<E>::CloseStdin(task),
        InputStep::<E>::Shutdown(Ok(()))@ == InputStepView::<E>::Shutdown(Ok(())),
        InputStep::<E>::Shutdown(Err(failure))@ == InputStepView::<E>::Shutdown(Err(failure@)),
        InputStep::<E>::Fail(error)@ == InputStepView::<E>::Fail(error@),
{
}

/// What the main task does with output, and where it stands, are known whole.
pub proof fn law_phases_are_seen_whole<E>(
    state: Initializer,
    code: i32,
    chunk: OutputChunk,
    e: E,
)
    ensures
        Phase::Initializing(state)@ == PhaseView::Initializing(state@),
        Phase::Launching@ == PhaseView::Launching,
        Phase::Relaying@ == PhaseView::Relaying,
        Phase::Awaiting@ == PhaseView::Awaiting,
        Phase::Stopping(code)@ == PhaseView::Stopping(code),
        Phase::Finished@ == PhaseView::Finished,
        OutputStep::<E>::Send(chunk)@ == OutputStepView::<E>::Send(chunk@),
        OutputStep::<E>::Done@ == OutputStepView::<E>::Done,
        OutputStep::<E>::Failed(e)@ == OutputStepView::<E>::Failed(e),
{
}

/// What the main task hears is known whole.
pub proof fn law_events_are_seen_whole<E>(
    received: Received<InputChunk, String>,
    launched: Result<bool, String>,
    output: ChildOutput,
    e: E,
    outcome: NailOutcome<E>,
    failure: Failure<E>,
)
    ensures
        Event::<E>::Client(received)@ == EventView::<E>::Client(received@),
        Event::<E>::Launched(launched)@ == EventView::<E>::Launched(with_text(launched)),
        Event::<E>::Output(Some(Ok(output)))@ == EventView::<E>::Output(Some(Ok(output@))),
        Event::<E>::Output(Some(Err(e)))@ == EventView::<E>::Output(Some(Err(e))),
        Event::<E>::Output(None)@ == EventView::<E>::Output(None),
        Event::<E>::NailEnded(outcome)@ == EventView::<E>::NailEnded(outcome),
        Event::<E>::InputEnded(Ok(()))@ == EventView::<E>::InputEnded(Ok(())),
        Event::<E>::InputEnded(Err(failure))@ == EventView::<E>::InputEnded(Err(failure@)),
{
}

/// What the main task does is known whole.
pub proof fn law_actions_are_seen_whole<E>(
    command: Command,
    chunk: OutputChunk,
    listener: InputTask,
    chunks: Vec<OutputChunk>,
    e: E,
    i: int,
)
    ensures
        Action::<E>::Wait@ == ActionView::<E>::Wait,
        Action::<E>::ReadClient@ == ActionView::<E>::ReadClient,
        Action::<E>::Launch(command)@ == ActionView::<E>::Launch(command@),
        (Action::<E>::Start { request: Some(chunk), listener })@ == (ActionView::<E>::Start {
            request: Some(chunk@),
            listener,
        }),
        (Action::<E>::Start { request: None, listener })@ == (ActionView::<E>::Start {
            request: None,
            listener,
        }),
        Action::<E>::Send(chunk)@ == ActionView::<E>::Send(chunk@),
        Action::<E>::AwaitNail@ == ActionView::<E>::AwaitNail,
        Action::<E>::AbortNail@ == ActionView::<E>::AbortNail,
        Action::<E>::StopListening@ == ActionView::<E>::StopListening,
        Action::<E>::Close(chunks)@ matches ActionView::Close(told) && told.len() == chunks@.len()
            && (0 <= i < chunks@.len() ==> told[i] == chunks@[i]@),
        Action::<E>::Fail(e)@ == ActionView::<E>::Fail(e),
{
}

} // verus!
