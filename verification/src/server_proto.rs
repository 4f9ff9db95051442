//! A server's side of a connection in which the command tells its exit code as the last of its output,
//! and in which heartbeats have no place.
//!
//! A connection is served by a main task ([`step`]) and, where the command takes standard input, by a
//! task beside it that listens to the client ([`stdio_input`]).
use vstd::prelude::*;
use vstd::string::*;
use vstd::utf8::*;

pub use crate::error::err;

use crate::chunk::{input_text, InputChunk, InputChunkView, OutputChunk, OutputChunkView, Received};
use crate::error::{Error, ErrorKind, ErrorView};
use crate::execution::{
    output_chunk, ChildInput, ChildInputView, ChildOutput, ChildOutputView, Command, CommandView,
    ExitCode,
};
use crate::server::{
    initialize_all, initialize_chunk, initialize_step, nothing_yet, output_chunks, refusal,
    refusal_chunks, stdin_chunks, stdin_inputs, unexpected_after, unexpected_after_initialization, unexpected_before,
    unexpected_during_initialization, with_text, Initialized, InitializedView, Initializer,
    InitializerView,
};

verus! {

/// What an event makes of what has arrived of a command: a heartbeat is refused.
pub open spec fn strict_step(
    state: InitializerView,
    event: Received<InputChunkView, Seq<char>>,
) -> InitializedView {
    match event {
        Received::Chunk(InputChunkView::Heartbeat) => InitializedView::Refused(
            unexpected_before(input_text(InputChunkView::Heartbeat)),
        ),
        _ => initialize_step(state, event),
    }
}

/// Takes in what was received before the command is complete.
pub fn initialize(state: Initializer, event: Received<InputChunk, String>) -> (next: Initialized)
    ensures
        next@ == strict_step(state@, event@),
{
    match event {
        Received::Chunk(InputChunk::Heartbeat) => Initialized::Refused(
            unexpected_during_initialization(InputChunk::Heartbeat.describe().as_str()),
        ),
        event => state.step(event),
    }
}

/// What the main task does with some output of the command.
#[derive(Debug, PartialEq, Eq)]
pub enum OutputStep {
    /// Write this to the client, and read on.
    Send(OutputChunk),
    /// Write this to the client, and read no more.
    SendLast(OutputChunk),
    /// There is no more output.
    Done,
}

/// An [`OutputStep`] as a mathematical value.
pub enum OutputStepView {
    /// Write this to the client, and read on.
    Send(OutputChunkView),
    /// Write this to the client, and read no more.
    SendLast(OutputChunkView),
    /// There is no more output.
    Done,
}

impl View for OutputStep {
    type V = OutputStepView;

    open spec fn view(&self) -> OutputStepView {
        match *self {
            OutputStep::Send(chunk) => OutputStepView::Send(chunk@),
            OutputStep::SendLast(chunk) => OutputStepView::SendLast(chunk@),
            OutputStep::Done => OutputStepView::Done,
        }
    }
}

/// What the main task does with some output of the command. The command is done with its exit code;
/// that its output ends without one is strange, but not fatal.
pub open spec fn output_step(output: Option<ChildOutputView>) -> OutputStepView {
    match output {
        Some(ChildOutputView::Exit(code)) => OutputStepView::SendLast(OutputChunkView::Exit(code.0)),
        Some(output) => OutputStepView::Send(output_chunk(output)),
        None => OutputStepView::Done,
    }
}

/// Some output as a mathematical value.
pub open spec fn output_view(output: Option<ChildOutput>) -> Option<ChildOutputView> {
    match output {
        Some(output) => Some(output@),
        None => None,
    }
}

/// Handles some output of the command, or its end.
pub fn stdio_output(output: Option<ChildOutput>) -> (next: OutputStep)
    ensures
        next@ == output_step(output_view(output)),
{
    let output = match output {
        Some(output) => output,
        None => return OutputStep::Done,
    };
    let exited = match &output {
        ChildOutput::Exit(_) => true,
        _ => false,
    };
    let chunk = OutputChunk::from(output);
    if exited {
        OutputStep::SendLast(chunk)
    } else {
        OutputStep::Send(chunk)
    }
}

/// What the task that listens to the client does next.
#[derive(Debug, PartialEq, Eq)]
pub enum InputStep<E> {
    /// Hand this to the command; then answer the client, where there is an answer; then listen on.
    Forward { input: ChildInput, reply: Option<OutputChunk> },
    /// Hand this to the command, and end well.
    ForwardLast(ChildInput),
    /// End well.
    Done,
    /// End with this error.
    Fail(Error),
    /// End with this error of the transport.
    Failed(E),
}

/// An [`InputStep`] as a mathematical value.
pub enum InputStepView<E> {
    /// Hand this to the command; then answer the client, where there is an answer; then listen on.
    Forward { input: ChildInputView, reply: Option<OutputChunkView> },
    /// Hand this to the command, and end well.
    ForwardLast(ChildInputView),
    /// End well.
    Done,
    /// End with this error.
    Fail(ErrorView),
    /// End with this error of the transport.
    Failed(E),
}

impl<E> View for InputStep<E> {
    type V = InputStepView<E>;

    open spec fn view(&self) -> InputStepView<E> {
        match *self {
            InputStep::Forward { input, reply } => InputStepView::Forward {
                input: input@,
                reply: match reply {
                    Some(chunk) => Some(chunk@),
                    None => None,
                },
            },
            InputStep::ForwardLast(input) => InputStepView::ForwardLast(input@),
            InputStep::Done => InputStepView::Done,
            InputStep::Fail(e) => InputStepView::Fail(e@),
            InputStep::Failed(e) => InputStepView::Failed(e),
        }
    }
}

/// What the task that listens to the client does with a chunk.
pub open spec fn input_step<E>(noisy_stdin: bool, chunk: InputChunkView) -> InputStepView<E> {
    match chunk {
        InputChunkView::Stdin(bytes) => InputStepView::Forward {
            input: ChildInputView::Stdin(bytes),
            reply: if noisy_stdin {
                Some(OutputChunkView::StartReadingStdin)
            } else {
                None
            },
        },
        InputChunkView::StdinEof => InputStepView::ForwardLast(ChildInputView::StdinEOF),
        _ => InputStepView::Fail(unexpected_after(input_text(chunk))),
    }
}

/// Decides what the task that listens to the client does with what was received.
pub fn stdio_input<E>(noisy_stdin: bool, event: Received<InputChunk, E>) -> (next: InputStep<E>)
    ensures
        next@ == (match event {
            Received::Chunk(chunk) => input_step(noisy_stdin, chunk@),
            Received::Failed(e) => InputStepView::Failed(e),
            Received::Closed => InputStepView::Done,
        }),
{
    let chunk = match event {
        Received::Chunk(chunk) => chunk,
        Received::Failed(e) => return InputStep::Failed(e),
        Received::Closed => return InputStep::Done,
    };
    match chunk {
        InputChunk::Stdin(bytes) => {
            let reply = if noisy_stdin {
                Some(OutputChunk::StartReadingStdin)
            } else {
                None
            };
            InputStep::Forward { input: ChildInput::Stdin(bytes), reply }
        },
        InputChunk::StdinEof => InputStep::ForwardLast(ChildInput::StdinEOF),
        c => InputStep::Fail(unexpected_after_initialization(c.describe().as_str())),
    }
}

/// Where the main task of a connection stands.
#[derive(Debug, PartialEq, Eq)]
pub enum Phase {
    /// The command is being received.
    Initializing(Initializer),
    /// The command is being launched.
    Launching,
    /// The command runs, and its output is being relayed.
    Relaying,
    /// All is done.
    Finished,
}

/// A [`Phase`] as a mathematical value.
pub enum PhaseView {
    /// The command is being received.
    Initializing(InitializerView),
    /// The command is being launched.
    Launching,
    /// The command runs, and its output is being relayed.
    Relaying,
    /// All is done.
    Finished,
}

impl View for Phase {
    type V = PhaseView;

    open spec fn view(&self) -> PhaseView {
        match *self {
            Phase::Initializing(state) => PhaseView::Initializing(state@),
            Phase::Launching => PhaseView::Launching,
            Phase::Relaying => PhaseView::Relaying,
            Phase::Finished => PhaseView::Finished,
        }
    }
}

/// What the main task of a connection hears.
#[derive(Debug, PartialEq, Eq)]
pub enum Event {
    /// Something from the client, before the command is complete.
    Client(Received<InputChunk, String>),
    /// The command was launched, and takes standard input or does not; or it was not launched, for
    /// this reason.
    Launched(Result<bool, String>),
    /// Some output of the command, or its end.
    Output(Option<ChildOutput>),
}

/// An [`Event`] as a mathematical value.
pub enum EventView {
    /// Something from the client, before the command is complete.
    Client(Received<InputChunkView, Seq<char>>),
    /// The command was launched, and takes standard input or does not; or it was not launched, for
    /// this reason.
    Launched(Result<bool, Seq<char>>),
    /// Some output of the command, or its end.
    Output(Option<ChildOutputView>),
}

impl View for Event {
    type V = EventView;

    open spec fn view(&self) -> EventView {
        match *self {
            Event::Client(received) => EventView::Client(received@),
            Event::Launched(result) => EventView::Launched(with_text(result)),
            Event::Output(output) => EventView::Output(output_view(output)),
        }
    }
}

/// What the main task of a connection does next.
#[derive(Debug, PartialEq, Eq)]
pub enum Action {
    /// Nothing.
    Wait,
    /// Read from the client.
    ReadClient,
    /// Launch this command.
    Launch(Command),
    /// Start the task that listens to the client, where the command takes standard input, then read
    /// the command's output.
    Start { stdin: bool },
    /// Write this to the client, then read the command's output.
    Send(OutputChunk),
    /// Write these to the client, and end well.
    Close(Vec<OutputChunk>),
}

/// An [`Action`] as a mathematical value.
pub enum ActionView {
    /// Nothing.
    Wait,
    /// Read from the client.
    ReadClient,
    /// Launch this command.
    Launch(CommandView),
    /// Start the task that listens to the client, where the command takes standard input, then read
    /// the command's output.
    Start { stdin: bool },
    /// Write this to the client, then read the command's output.
    Send(OutputChunkView),
    /// Write these to the client, and end well.
    Close(Seq<OutputChunkView>),
}

impl View for Action {
    type V = ActionView;

    open spec fn view(&self) -> ActionView {
        match *self {
            Action::Wait => ActionView::Wait,
            Action::ReadClient => ActionView::ReadClient,
            Action::Launch(command) => ActionView::Launch(command@),
            Action::Start { stdin } => ActionView::Start { stdin },
            Action::Send(chunk) => ActionView::Send(chunk@),
            Action::Close(chunks) => ActionView::Close(chunks.deep_view()),
        }
    }
}

/// What the main task of a connection does when it hears something. What does not belong to the
/// phase it is in changes nothing.
pub open spec fn connection_step(phase: PhaseView, event: EventView) -> (PhaseView, ActionView) {
    match (phase, event) {
        (PhaseView::Initializing(state), EventView::Client(received)) => match strict_step(
            state,
            received,
        ) {
            InitializedView::More(next) => (PhaseView::Initializing(next), ActionView::ReadClient),
            InitializedView::Ready(command) => (PhaseView::Launching, ActionView::Launch(command)),
            InitializedView::Refused(reason) => (
                PhaseView::Finished,
                ActionView::Close(refusal_chunks(reason)),
            ),
        },
        (PhaseView::Launching, EventView::Launched(Ok(stdin))) => (
            PhaseView::Relaying,
            ActionView::Start { stdin },
        ),
        (PhaseView::Launching, EventView::Launched(Err(reason))) => (
            PhaseView::Finished,
            ActionView::Close(refusal_chunks(reason)),
        ),
        (PhaseView::Relaying, EventView::Output(output)) => match output_step(output) {
            OutputStepView::Send(chunk) => (PhaseView::Relaying, ActionView::Send(chunk)),
            OutputStepView::SendLast(chunk) => (
                PhaseView::Finished,
                ActionView::Close(seq![chunk]),
            ),
            OutputStepView::Done => (PhaseView::Finished, ActionView::Close(seq![])),
        },
        _ => (phase, ActionView::Wait),
    }
}

/// The phase in which a connection begins.
pub fn start() -> (phase: Phase)
    ensures
        phase@ == PhaseView::Initializing(nothing_yet()),
{
    Phase::Initializing(Initializer::new())
}

/// Decides what the main task of a connection does when it hears something.
pub fn step(phase: Phase, event: Event) -> (next: (Phase, Action))
    ensures
        (next.0@, next.1@) == connection_step(phase@, event@),
{
    match (phase, event) {
        (Phase::Initializing(state), Event::Client(received)) => match initialize(state, received) {
            Initialized::More(next) => (Phase::Initializing(next), Action::ReadClient),
            Initialized::Ready(command) => (Phase::Launching, Action::Launch(command)),
            Initialized::Refused(reason) => (Phase::Finished, Action::Close(refusal(reason))),
        },
        (Phase::Launching, Event::Launched(Ok(stdin))) => (
            Phase::Relaying,
            Action::Start { stdin },
        ),
        (Phase::Launching, Event::Launched(Err(reason))) => (
            Phase::Finished,
            Action::Close(refusal(reason)),
        ),
        (Phase::Relaying, Event::Output(output)) => match stdio_output(output) {
            OutputStep::Send(chunk) => (Phase::Relaying, Action::Send(chunk)),
            OutputStep::SendLast(chunk) => {
                let mut chunks: Vec<OutputChunk> = Vec::new();
                chunks.push(chunk);
                assert(chunks.deep_view() =~= seq![chunk@]);
                (Phase::Finished, Action::Close(chunks))
            },
            OutputStep::Done => {
                let chunks: Vec<OutputChunk> = Vec::new();
                assert(chunks.deep_view() =~= seq![]);
                (Phase::Finished, Action::Close(chunks))
            },
        },
        (phase, _) => (phase, Action::Wait),
    }
}

/// The chunks that an action writes to the client.
pub open spec fn chunks_written(action: ActionView) -> Seq<OutputChunkView> {
    match action {
        ActionView::Send(chunk) => seq![chunk],
        ActionView::Close(chunks) => chunks,
        _ => seq![],
    }
}

/// The chunks that the main task of a connection writes to the client over some events.
pub open spec fn written(phase: PhaseView, events: Seq<EventView>) -> Seq<OutputChunkView>
    decreases events.len(),
{
    if events.len() == 0 {
        seq![]
    } else {
        let (next, action) = connection_step(phase, events[0]);
        chunks_written(action) + written(next, events.drop_first())
    }
}

/// What is done is done: a connection that has finished writes nothing more.
pub proof fn law_finished_is_final(events: Seq<EventView>)
    ensures
        written(PhaseView::Finished, events) == Seq::<OutputChunkView>::empty(),
    decreases events.len(),
{
    if events.len() > 0 {
        law_finished_is_final(events.drop_first());
        assert(written(PhaseView::Finished, events) =~= seq![]);
    }
}

/// An exit code is the last that a client hears.
pub proof fn law_exit_is_last(phase: PhaseView, events: Seq<EventView>, i: int)
    requires
        0 <= i < written(phase, events).len(),
        written(phase, events)[i] is Exit,
    ensures
        i == written(phase, events).len() - 1,
    decreases events.len(),
{
    let (next, action) = connection_step(phase, events[0]);
    let rest = events.drop_first();
    let now = chunks_written(action);
    if i < now.len() {
        assert(written(phase, events)[i] == now[i]);
        law_finished_is_final(rest);
    } else {
        assert(written(phase, events)[i] == written(next, rest)[i - now.len()]);
        law_exit_is_last(next, rest, i - now.len());
    }
}

/// How the output of a command looks to the main task, up to the code with which it ended.
pub open spec fn ended_run(outputs: Seq<ChildOutputView>, code: ExitCode) -> Seq<EventView> {
    outputs.push(ChildOutputView::Exit(code)).map_values(
        |output: ChildOutputView| EventView::Output(Some(output)),
    )
}

/// A client hears all of the output of its command, in order, and then the code with which it ended;
/// nothing that the command puts out after that.
pub proof fn law_output_then_exit(
    outputs: Seq<ChildOutputView>,
    code: ExitCode,
    later: Seq<EventView>,
)
    requires
        forall|i: int| 0 <= i < outputs.len() ==> !(#[trigger] outputs[i] is Exit),
    ensures
        written(PhaseView::Relaying, ended_run(outputs, code) + later) == output_chunks(
            outputs,
        ).push(OutputChunkView::Exit(code.0)),
    decreases outputs.len(),
{
    let events = ended_run(outputs, code) + later;
    let told = output_chunks(outputs).push(OutputChunkView::Exit(code.0));
    if outputs.len() == 0 {
        assert(events.drop_first() =~= later);
        law_finished_is_final(later);
        assert(written(PhaseView::Relaying, events) =~= told);
    } else {
        let rest = outputs.drop_first();
        assert forall|i: int| 0 <= i < rest.len() implies !(#[trigger] rest[i] is Exit) by {
            assert(rest[i] == outputs[i + 1]);
        }
        assert(!(outputs[0] is Exit));
        law_output_then_exit(rest, code, later);
        assert(events.drop_first() =~= ended_run(rest, code) + later);
        assert(written(PhaseView::Relaying, events) =~= told);
    }
}

/// What the chunks of a client make of what has arrived of a command, where heartbeats are refused.
pub open spec fn strict_all(state: InitializerView, chunks: Seq<InputChunkView>) -> InitializedView
    decreases chunks.len(),
{
    if chunks.len() == 0 {
        InitializedView::More(state)
    } else {
        match strict_step(state, Received::Chunk(chunks[0])) {
            InitializedView::More(next) => strict_all(next, chunks.drop_first()),
            ended => ended,
        }
    }
}

/// From a client that sends no heartbeats, the same command arrives as where they are ignored.
pub proof fn law_without_heartbeats(state: InitializerView, chunks: Seq<InputChunkView>)
    requires
        !chunks.contains(InputChunkView::Heartbeat),
    ensures
        strict_all(state, chunks) == initialize_all(state, chunks),
    decreases chunks.len(),
{
    if chunks.len() > 0 {
        let rest = chunks.drop_first();
        assert(chunks.contains(chunks[0]));
        assert forall|i: int| 0 <= i < rest.len() implies rest[i] != InputChunkView::Heartbeat by {
            assert(rest[i] == chunks[i + 1]);
            assert(chunks.contains(chunks[i + 1]));
        }
        match initialize_chunk(state, chunks[0]) {
            InitializedView::More(next) => law_without_heartbeats(next, rest),
            _ => {},
        }
    }
}

/// How many commands the main task of a connection launches over some events.
pub open spec fn launches(phase: PhaseView, events: Seq<EventView>) -> nat
    decreases events.len(),
{
    if events.len() == 0 {
        0
    } else {
        let (next, action) = connection_step(phase, events[0]);
        let now: nat = if action is Launch {
            1
        } else {
            0
        };
        now + launches(next, events.drop_first())
    }
}

/// A connection launches one command at most, and none once its command is complete.
pub proof fn law_one_launch(phase: PhaseView, events: Seq<EventView>)
    ensures
        launches(phase, events) <= 1,
        !(phase is Initializing) ==> launches(phase, events) == 0,
    decreases events.len(),
{
    if events.len() > 0 {
        law_one_launch(connection_step(phase, events[0]).0, events.drop_first());
    }
}

/// What the task that listens to the client hands to the command over some chunks.
pub open spec fn forwarded(noisy_stdin: bool, chunks: Seq<InputChunkView>) -> Seq<ChildInputView>
    decreases chunks.len(),
{
    if chunks.len() == 0 {
        seq![]
    } else {
        match input_step::<()>(noisy_stdin, chunks[0]) {
            InputStepView::Forward { input, .. } => seq![input] + forwarded(
                noisy_stdin,
                chunks.drop_first(),
            ),
            InputStepView::ForwardLast(input) => seq![input],
            _ => seq![],
        }
    }
}

/// What the task that listens to the client answers over some chunks.
pub open spec fn replies(noisy_stdin: bool, chunks: Seq<InputChunkView>) -> Seq<OutputChunkView>
    decreases chunks.len(),
{
    if chunks.len() == 0 {
        seq![]
    } else {
        match input_step::<()>(noisy_stdin, chunks[0]) {
            InputStepView::Forward { reply: Some(chunk), .. } => seq![chunk] + replies(
                noisy_stdin,
                chunks.drop_first(),
            ),
            InputStepView::Forward { reply: None, .. } => replies(noisy_stdin, chunks.drop_first()),
            _ => seq![],
        }
    }
}

/// A command is handed all of the standard input, in order, and its end, and nothing that the client
/// sends after that. A client that requires it is asked for more after every chunk.
pub proof fn law_stdin_in_order(
    noisy_stdin: bool,
    input: Seq<Seq<u8>>,
    later: Seq<InputChunkView>,
)
    ensures
        ({
            let chunks = stdin_chunks(input) + seq![InputChunkView::StdinEof] + later;
            &&& forwarded(noisy_stdin, chunks) == stdin_inputs(input).push(ChildInputView::StdinEOF)
            &&& replies(noisy_stdin, chunks) == (if noisy_stdin {
                Seq::new(input.len(), |i: int| OutputChunkView::StartReadingStdin)
            } else {
                seq![]
            })
        }),
    decreases input.len(),
{
    let chunks = stdin_chunks(input) + seq![InputChunkView::StdinEof] + later;
    if input.len() > 0 {
        let rest = input.drop_first();
        law_stdin_in_order(noisy_stdin, rest, later);
        assert(chunks.drop_first() =~= stdin_chunks(rest) + seq![InputChunkView::StdinEof] + later);
    }
    assert(forwarded(noisy_stdin, chunks) =~= stdin_inputs(input).push(ChildInputView::StdinEOF));
    assert(replies(noisy_stdin, chunks) =~= (if noisy_stdin {
        Seq::new(input.len(), |i: int| OutputChunkView::StartReadingStdin)
    } else {
        seq![]
    }));
}

/// A heartbeat before the command is refused; all else is taken in as where heartbeats are ignored.
pub proof fn law_strict_initialization(
    state: InitializerView,
    event: Received<InputChunkView, Seq<char>>,
)
    ensures
        event == Received::<InputChunkView, Seq<char>>::Chunk(InputChunkView::Heartbeat)
            ==> strict_step(state, event) == InitializedView::Refused(
            "The client sent an unexpected chunk during initialization: "@ + "Heartbeat"@,
        ),
        event != Received::<InputChunkView, Seq<char>>::Chunk(InputChunkView::Heartbeat)
            ==> strict_step(state, event) == initialize_step(state, event),
{
}

/// As long as the command is not complete the main task reads on, whatever has arrived so far.
pub proof fn law_initialization_reads_on(
    state: InitializerView,
    received: Received<InputChunkView, Seq<char>>,
)
    ensures
        strict_step(state, received) matches InitializedView::More(next) ==> connection_step(
            PhaseView::Initializing(state),
            EventView::Client(received),
        ) == (PhaseView::Initializing(next), ActionView::ReadClient),
        strict_step(state, received) matches InitializedView::Ready(command) ==> connection_step(
            PhaseView::Initializing(state),
            EventView::Client(received),
        ) == (PhaseView::Launching, ActionView::Launch(command)),
        strict_step(state, received) matches InitializedView::Refused(reason) ==> connection_step(
            PhaseView::Initializing(state),
            EventView::Client(received),
        ) == (
            PhaseView::Finished,
            ActionView::Close(
                seq![OutputChunkView::Stderr(encode_utf8(reason)), OutputChunkView::Exit(1)],
            ),
        ),
{
}

/// The main task is never idle: in every phase but the last, each event that belongs to the phase makes
/// it do something. What does not belong changes nothing.
pub proof fn law_never_idle(phase: PhaseView, event: EventView)
    ensures
        ({
            let belongs = {
                ||| phase is Initializing && event is Client
                ||| phase is Launching && event is Launched
                ||| phase is Relaying && event is Output
            };
            &&& belongs ==> !(connection_step(phase, event).1 is Wait)
            &&& !belongs ==> connection_step(phase, event) == (phase, ActionView::Wait)
        }),
{
}

/// A command that was launched is started, with standard input exactly where it takes any; one that was
/// not launched is answered with the reason. Output is written as it is, at once, and the very code ends
/// the connection.
pub proof fn law_serving(stdin: bool, reason: Seq<char>, bytes: Seq<u8>, code: i32)
    ensures
        connection_step(PhaseView::Launching, EventView::Launched(Ok(stdin))) == (
            PhaseView::Relaying,
            (ActionView::Start { stdin }),
        ),
        connection_step(PhaseView::Launching, EventView::Launched(Err(reason))) == (
            PhaseView::Finished,
            ActionView::Close(
                seq![OutputChunkView::Stderr(encode_utf8(reason)), OutputChunkView::Exit(1)],
            ),
        ),
        connection_step(
            PhaseView::Relaying,
            EventView::Output(Some(ChildOutputView::Stdout(bytes))),
        ) == (PhaseView::Relaying, ActionView::Send(OutputChunkView::Stdout(bytes))),
        connection_step(
            PhaseView::Relaying,
            EventView::Output(Some(ChildOutputView::Stderr(bytes))),
        ) == (PhaseView::Relaying, ActionView::Send(OutputChunkView::Stderr(bytes))),
        connection_step(
            PhaseView::Relaying,
            EventView::Output(Some(ChildOutputView::Exit(ExitCode(code)))),
        ) == (PhaseView::Finished, ActionView::Close(seq![OutputChunkView::Exit(code)])),
        connection_step(PhaseView::Relaying, EventView::Output(None)) == (
            PhaseView::Finished,
            ActionView::Close(Seq::<OutputChunkView>::empty()),
        ),
{
}

/// Output is told apart from the end of the command: the one is written and reading goes on, the other
/// is the last.
pub proof fn law_output_events(bytes: Seq<u8>, code: i32, output: ChildOutput)
    ensures
        output_step(Some(ChildOutputView::Stdout(bytes))) == OutputStepView::Send(
            OutputChunkView::Stdout(bytes),
        ),
        output_step(Some(ChildOutputView::Stderr(bytes))) == OutputStepView::Send(
            OutputChunkView::Stderr(bytes),
        ),
        output_step(Some(ChildOutputView::Exit(ExitCode(code)))) == OutputStepView::SendLast(
            OutputChunkView::Exit(code),
        ),
        output_step(None) == OutputStepView::Done,
        output_view(Some(output)) == Some(output@),
        output_view(None) is None,
{
}

/// Standard input is handed to the command with the very bytes, and with a request for more exactly
/// where the client requires that; its end is handed on last; all else is an error that shows it.
pub proof fn law_listening<E>(noisy_stdin: bool, bytes: Seq<u8>, chunk: InputChunkView)
    ensures
        input_step::<E>(
            noisy_stdin,
            InputChunkView::Stdin(bytes),
        ) matches InputStepView::Forward { input, reply } && {
            &&& input == ChildInputView::Stdin(bytes)
            &&& noisy_stdin ==> reply == Some(OutputChunkView::StartReadingStdin)
            &&& !noisy_stdin ==> reply is None
        },
        input_step::<E>(noisy_stdin, InputChunkView::StdinEof) == InputStepView::<E>::ForwardLast(
            ChildInputView::StdinEOF,
        ),
        !(chunk is Stdin) && !(chunk is StdinEof) ==> (input_step::<E>(
            noisy_stdin,
            chunk,
        ) matches InputStepView::Fail(e) && e.kind == ErrorKind::Other && e.message
            == "The client sent an unexpected chunk after initialization: "@ + input_text(chunk)),
{
}

/// What the tasks of a server do is known whole.
pub proof fn law_steps_are_seen_whole<E>(
    chunk: OutputChunk,
    input: ChildInput,
    error: Error,
    e: E,
)
    ensures
        OutputStep::Send(chunk)@ == OutputStepView::Send(chunk@),
        OutputStep::SendLast(chunk)@ == OutputStepView::SendLast(chunk@),
        OutputStep::Done@ == OutputStepView::Done,
        (InputStep::<E>::Forward { input, reply: Some(chunk) })@ == (InputStepView::<E>::Forward {
            input: input@,
            reply: Some(chunk@),
        }),
        (InputStep::<E>::Forward { input, reply: None })@ == (InputStepView::<E>::Forward {
            input: input@,
            reply: None,
        }),
        InputStep::<E>::ForwardLast(input)@ == InputStepView::<E>::ForwardLast(input@),
        InputStep::<E>::Done@ == InputStepView::<E>::Done,
        InputStep::<E>::Fail(error)@ == InputStepView::<E>::Fail(error@),
        InputStep::<E>::Failed(e)@ == InputStepView::<E>::Failed(e),
{
}

/// Where the main task stands, what it hears and what it does are known whole.
pub proof fn law_main_task_is_seen_whole(
    state: Initializer,
    received: Received<InputChunk, String>,
    launched: Result<bool, String>,
    output: ChildOutput,
    command: Command,
    stdin: bool,
    chunk: OutputChunk,
    chunks: Vec<OutputChunk>,
    i: int,
)
    ensures
        Phase::Initializing(state)@ == PhaseView::Initializing(state@),
        Phase::Launching@ == PhaseView::Launching,
        Phase::Relaying@ == PhaseView::Relaying,
        Phase::Finished@ == PhaseView::Finished,
        Event::Client(received)@ == EventView::Client(received@),
        Event::Launched(launched)@ == EventView::Launched(with_text(launched)),
        Event::Output(Some(output))@ == EventView::Output(Some(output@)),
        Event::Output(None)@ == EventView::Output(None),
        Action::Wait@ == ActionView::Wait,
        Action::ReadClient@ == ActionView::ReadClient,
        Action::Launch(command)@ == ActionView::Launch(command@),
        (Action::Start { stdin })@ == (ActionView::Start { stdin }),
        Action::Send(chunk)@ == ActionView::Send(chunk@),
        Action::Close(chunks)@ matches ActionView::Close(told) && told.len() == chunks@.len() && (0
            <= i < chunks@.len() ==> told[i] == chunks@[i]@),
{
}

} // verus!
