//! A client's side of a connection in which whoever reads the output is told the exit code with it, and
//! whoever gives the input tells its end.
use vstd::prelude::*;

use crate::chunk::{InputChunk, InputChunkView, OutputChunk, OutputChunkView, Received};
use crate::client::{
    code_heard, followed, io_err, law_requests_beside_output, law_stdin_starts_once, no_result,
    stdin_starts, StdioTask,
};
use crate::error::{ErrorKind, Failure, FailureView};
use crate::execution::{ChildInput, ChildInputView, ChildOutput, ChildOutputView, ExitCode};
use crate::server::{output_chunks, stdin_chunks, stdin_inputs};
use crate::session::lemma_output_followed;

verus! {

/// What the task that follows the server does next.
#[derive(Debug, PartialEq, Eq)]
pub enum StdioStep<E> {
    /// Hand this to whoever reads the output, and follow on.
    Forward { output: ChildOutput, next: StdioTask },
    /// Start to send standard input, and follow on.
    StartStdin(StdioTask),
    /// Follow on.
    Follow(StdioTask),
    /// Hand this code to whoever reads the output, and end with it.
    Conclude(ExitCode),
    /// End with this error.
    Fail(Failure<E>),
}

/// A [`StdioStep`] as a mathematical value.
pub enum StdioStepView<E> {
    /// Hand this to whoever reads the output, and follow on.
    Forward { output: ChildOutputView, next: StdioTask },
    /// Start to send standard input, and follow on.
    StartStdin(StdioTask),
    /// Follow on.
    Follow(StdioTask),
    /// Hand this code to whoever reads the output, and end with it.
    Conclude(ExitCode),
    /// End with this error.
    Fail(FailureView<E>),
}

impl<E> View for StdioStep<E> {
    type V = StdioStepView<E>;

    open spec fn view(&self) -> StdioStepView<E> {
        match *self {
            StdioStep::Forward { output, next } => StdioStepView::Forward {
                output: output@,
                next,
            },
            StdioStep::StartStdin(next) => StdioStepView::StartStdin(next),
            StdioStep::Follow(next) => StdioStepView::Follow(next),
            StdioStep::Conclude(code) => StdioStepView::Conclude(code),
            StdioStep::Fail(e) => StdioStepView::Fail(e@),
        }
    }
}

/// What an event makes the task that follows the server do. Standard input is started once, however
/// often the server asks for it.
pub open spec fn stdio_step<E>(
    task: StdioTask,
    event: Received<OutputChunkView, FailureView<E>>,
) -> StdioStepView<E> {
    match event {
        Received::Chunk(OutputChunkView::Stderr(bytes)) => StdioStepView::Forward {
            output: ChildOutputView::Stderr(bytes),
            next: task,
        },
        Received::Chunk(OutputChunkView::Stdout(bytes)) => StdioStepView::Forward {
            output: ChildOutputView::Stdout(bytes),
            next: task,
        },
        Received::Chunk(OutputChunkView::StartReadingStdin) => if task.stdin_pending {
            StdioStepView::StartStdin(StdioTask { stdin_pending: false })
        } else {
            StdioStepView::Follow(task)
        },
        Received::Chunk(OutputChunkView::Exit(code)) => StdioStepView::Conclude(ExitCode(code)),
        Received::Failed(e) => StdioStepView::Fail(e),
        Received::Closed => StdioStepView::Fail(FailureView::Protocol(no_result())),
    }
}

/// Decides what the task that follows the server does with what was received.
pub fn handle_stdio<E>(
    task: StdioTask,
    event: Received<OutputChunk, Failure<E>>,
) -> (next: StdioStep<E>)
    ensures
        next@ == stdio_step(task, event@),
{
    let chunk = match event {
        Received::Chunk(chunk) => chunk,
        Received::Failed(e) => return StdioStep::Fail(e),
        Received::Closed => return StdioStep::Fail(
            Failure::Protocol(
                io_err("Client exited before the server's result could be returned."),
            ),
        ),
    };
    match chunk {
        OutputChunk::Stderr(bytes) => StdioStep::Forward {
            output: ChildOutput::Stderr(bytes),
            next: task,
        },
        OutputChunk::Stdout(bytes) => StdioStep::Forward {
            output: ChildOutput::Stdout(bytes),
            next: task,
        },
        OutputChunk::StartReadingStdin => {
            if task.stdin_pending {
                StdioStep::StartStdin(StdioTask { stdin_pending: false })
            } else {
                StdioStep::Follow(task)
            }
        },
        OutputChunk::Exit(code) => StdioStep::Conclude(ExitCode(code)),
    }
}

/// What the task that sends standard input does next.
#[derive(Debug, PartialEq, Eq)]
pub enum StdinStep {
    /// Send this, and read on.
    Send(InputChunk),
    /// Send this, and end.
    SendLast(InputChunk),
    /// End.
    Done,
}

/// A [`StdinStep`] as a mathematical value.
pub enum StdinStepView {
    /// Send this, and read on.
    Send(InputChunkView),
    /// Send this, and end.
    SendLast(InputChunkView),
    /// End.
    Done,
}

impl View for StdinStep {
    type V = StdinStepView;

    open spec fn view(&self) -> StdinStepView {
        match *self {
            StdinStep::Send(chunk) => StdinStepView::Send(chunk@),
            StdinStep::SendLast(chunk) => StdinStepView::SendLast(chunk@),
            StdinStep::Done => StdinStepView::Done,
        }
    }
}

/// What the task that sends standard input does with some of it. The server is told the end of the
/// input where whoever gives the input tells it, and not otherwise.
pub open spec fn stdin_step(input: Option<ChildInputView>) -> StdinStepView {
    match input {
        Some(ChildInputView::Stdin(bytes)) => StdinStepView::Send(InputChunkView::Stdin(bytes)),
        Some(ChildInputView::StdinEOF) => StdinStepView::SendLast(InputChunkView::StdinEof),
        None => StdinStepView::Done,
    }
}

/// Decides what to do with some standard input, or where there is no more.
pub fn stdin_sender(input: Option<ChildInput>) -> (next: StdinStep)
    ensures
        next@ == stdin_step(
            match input {
                Some(i) => Some(i@),
                None => None,
            },
        ),
{
    match input {
        Some(ChildInput::Stdin(bytes)) => StdinStep::Send(InputChunk::Stdin(bytes)),
        Some(ChildInput::StdinEOF) => StdinStep::SendLast(InputChunk::StdinEof),
        None => StdinStep::Done,
    }
}

/// What the task that follows the server hands on over some chunks.
pub open spec fn handed_on(task: StdioTask, chunks: Seq<OutputChunkView>) -> Seq<ChildOutputView>
    decreases chunks.len(),
{
    if chunks.len() == 0 {
        seq![]
    } else {
        let rest = chunks.drop_first();
        match stdio_step::<()>(task, Received::Chunk(chunks[0])) {
            StdioStepView::Forward { output, next } => seq![output] + handed_on(next, rest),
            StdioStepView::StartStdin(next) => handed_on(next, rest),
            StdioStepView::Follow(next) => handed_on(next, rest),
            StdioStepView::Conclude(code) => seq![ChildOutputView::Exit(code)],
            StdioStepView::Fail(_) => seq![],
        }
    }
}

/// The code with which the task that follows the server ends over some chunks, where it does.
pub open spec fn concluded_with(task: StdioTask, chunks: Seq<OutputChunkView>) -> Option<ExitCode>
    decreases chunks.len(),
{
    if chunks.len() == 0 {
        None
    } else {
        let rest = chunks.drop_first();
        match stdio_step::<()>(task, Received::Chunk(chunks[0])) {
            StdioStepView::Forward { next, .. } => concluded_with(next, rest),
            StdioStepView::StartStdin(next) => concluded_with(next, rest),
            StdioStepView::Follow(next) => concluded_with(next, rest),
            StdioStepView::Conclude(code) => Some(code),
            StdioStepView::Fail(_) => None,
        }
    }
}

/// How often the task that follows the server starts standard input over some chunks.
pub open spec fn starts(task: StdioTask, chunks: Seq<OutputChunkView>) -> nat
    decreases chunks.len(),
{
    if chunks.len() == 0 {
        0
    } else {
        let rest = chunks.drop_first();
        match stdio_step::<()>(task, Received::Chunk(chunks[0])) {
            StdioStepView::Forward { next, .. } => starts(next, rest),
            StdioStepView::StartStdin(next) => 1 + starts(next, rest),
            StdioStepView::Follow(next) => starts(next, rest),
            _ => 0,
        }
    }
}

/// The code comes with the output, after all of it, and nothing else sets this client apart from one
/// that tells the code alone. In particular it starts standard input once at most.
pub proof fn law_code_with_output(task: StdioTask, chunks: Seq<OutputChunkView>)
    ensures
        concluded_with(task, chunks) == code_heard(task, chunks),
        handed_on(task, chunks) == (match code_heard(task, chunks) {
            Some(code) => followed(task, chunks).push(ChildOutputView::Exit(code)),
            None => followed(task, chunks),
        }),
        starts(task, chunks) == stdin_starts(task, chunks),
        starts(task, chunks) <= 1,
    decreases chunks.len(),
{
    law_stdin_starts_once(task, chunks);
    if chunks.len() > 0 {
        let rest = chunks.drop_first();
        law_code_with_output(task, rest);
        law_code_with_output(StdioTask { stdin_pending: false }, rest);
        assert(handed_on(task, chunks) =~= (match code_heard(task, chunks) {
            Some(code) => followed(task, chunks).push(ChildOutputView::Exit(code)),
            None => followed(task, chunks),
        }));
    }
}

/// Whoever reads the output is handed all of it, in order, and then the code, wherever among them the
/// server asks for standard input; nothing that the server sends after that.
pub proof fn law_output_then_code(
    task: StdioTask,
    outputs: Seq<ChildOutputView>,
    code: ExitCode,
    heard: Seq<OutputChunkView>,
    later: Seq<OutputChunkView>,
)
    requires
        forall|i: int| 0 <= i < outputs.len() ==> !(#[trigger] outputs[i] is Exit),
        heard.filter(|c: OutputChunkView| !(c is StartReadingStdin)) == output_chunks(outputs).push(
            OutputChunkView::Exit(code.0),
        ),
    ensures
        handed_on(task, heard + later) == outputs.push(ChildOutputView::Exit(code)),
        concluded_with(task, heard + later) == Some(code),
{
    law_requests_beside_output(task, heard);
    lemma_output_followed(task, outputs, code);
    law_code_with_output(task, heard);
    lemma_nothing_after_code(task, heard, later);
}

/// Nothing that follows the code is looked at.
proof fn lemma_nothing_after_code(
    task: StdioTask,
    chunks: Seq<OutputChunkView>,
    later: Seq<OutputChunkView>,
)
    requires
        concluded_with(task, chunks) is Some,
    ensures
        handed_on(task, chunks + later) == handed_on(task, chunks),
        concluded_with(task, chunks + later) == concluded_with(task, chunks),
    decreases chunks.len(),
{
    let rest = chunks.drop_first();
    assert((chunks + later).drop_first() =~= rest + later);
    match stdio_step::<()>(task, Received::Chunk(chunks[0])) {
        StdioStepView::Forward { next, .. } => lemma_nothing_after_code(next, rest, later),
        StdioStepView::StartStdin(next) => lemma_nothing_after_code(next, rest, later),
        StdioStepView::Follow(next) => lemma_nothing_after_code(next, rest, later),
        _ => {},
    }
}

/// What is sent of some standard input.
pub open spec fn stdin_sent(inputs: Seq<ChildInputView>) -> Seq<InputChunkView>
    decreases inputs.len(),
{
    if inputs.len() == 0 {
        seq![]
    } else {
        match stdin_step(Some(inputs[0])) {
            StdinStepView::Send(chunk) => seq![chunk] + stdin_sent(inputs.drop_first()),
            StdinStepView::SendLast(chunk) => seq![chunk],
            StdinStepView::Done => seq![],
        }
    }
}

/// All of the standard input is sent, in order, and then its end where that is told, and nothing that
/// is given after its end.
pub proof fn law_stdin_sent(input: Seq<Seq<u8>>, later: Seq<ChildInputView>)
    ensures
        stdin_sent(stdin_inputs(input)) == stdin_chunks(input),
        stdin_sent(stdin_inputs(input) + seq![ChildInputView::StdinEOF] + later) == stdin_chunks(
            input,
        ).push(InputChunkView::StdinEof),
    decreases input.len(),
{
    let inputs = stdin_inputs(input);
    let ended = inputs + seq![ChildInputView::StdinEOF] + later;
    if input.len() > 0 {
        let rest = input.drop_first();
        law_stdin_sent(rest, later);
        assert(inputs.drop_first() =~= stdin_inputs(rest));
        assert(ended.drop_first() =~= stdin_inputs(rest) + seq![ChildInputView::StdinEOF] + later);
    }
    assert(stdin_sent(inputs) =~= stdin_chunks(input));
    assert(stdin_sent(ended) =~= stdin_chunks(input).push(InputChunkView::StdinEof));
}

/// Output is handed on as what it is, at once and with the very bytes; the code that ends it is the very
/// code that the server told, for every code; standard input is started on the first request alone.
pub proof fn law_following<E>(pending: bool, bytes: Seq<u8>, code: i32)
    ensures
        stdio_step::<E>(
            StdioTask { stdin_pending: pending },
            Received::Chunk(OutputChunkView::Stdout(bytes)),
        ) == (StdioStepView::<E>::Forward {
            output: ChildOutputView::Stdout(bytes),
            next: StdioTask { stdin_pending: pending },
        }),
        stdio_step::<E>(
            StdioTask { stdin_pending: pending },
            Received::Chunk(OutputChunkView::Stderr(bytes)),
        ) == (StdioStepView::<E>::Forward {
            output: ChildOutputView::Stderr(bytes),
            next: StdioTask { stdin_pending: pending },
        }),
        stdio_step::<E>(
            StdioTask { stdin_pending: pending },
            Received::Chunk(OutputChunkView::Exit(code)),
        ) == StdioStepView::<E>::Conclude(ExitCode(code)),
        stdio_step::<E>(
            StdioTask { stdin_pending: true },
            Received::Chunk(OutputChunkView::StartReadingStdin),
        ) == StdioStepView::<E>::StartStdin(StdioTask { stdin_pending: false }),
        stdio_step::<E>(
            StdioTask { stdin_pending: false },
            Received::Chunk(OutputChunkView::StartReadingStdin),
        ) == StdioStepView::<E>::Follow(StdioTask { stdin_pending: false }),
{
}

/// A server that is gone, or cannot be read from, ends the task with the very error.
pub proof fn law_lost_server<E>(task: StdioTask, e: FailureView<E>)
    ensures
        stdio_step::<E>(task, Received::Failed(e)) == StdioStepView::<E>::Fail(e),
        stdio_step::<E>(task, Received::Closed) matches StdioStepView::Fail(
            FailureView::Protocol(error),
        ) && error.kind == ErrorKind::Other && error.message
            == "Client exited before the server's result could be returned."@,
{
}

/// Standard input is sent with the very bytes, and its end where that is told.
pub proof fn law_sending_stdin(bytes: Seq<u8>)
    ensures
        stdin_step(Some(ChildInputView::Stdin(bytes))) == StdinStepView::Send(
            InputChunkView::Stdin(bytes),
        ),
        stdin_step(Some(ChildInputView::StdinEOF)) == StdinStepView::SendLast(
            InputChunkView::StdinEof,
        ),
        stdin_step(None) == StdinStepView::Done,
{
}

/// What the tasks of a client do is known whole.
pub proof fn law_client_steps_are_seen_whole<E>(
    output: ChildOutput,
    task: StdioTask,
    code: ExitCode,
    failure: Failure<E>,
    chunk: InputChunk,
)
    ensures
        (StdioStep::<E>::Forward { output, next: task })@ == (StdioStepView::<E>::Forward {
            output: output@,
            next: task,
        }),
        StdioStep::<E>::StartStdin(task)@ == StdioStepView::<E>::StartStdin(task),
        StdioStep::<E>::Follow(task)@ == StdioStepView::<E>::Follow(task),
        StdioStep::<E>::Conclude(code)@ == StdioStepView::<E>::Conclude(code),
        StdioStep::<E>::Fail(failure)@ == StdioStepView::<E>::Fail(failure@),
        StdinStep::Send(chunk)@ == StdinStepView::Send(chunk@),
        StdinStep::SendLast(chunk)@ == StdinStepView::SendLast(chunk@),
        StdinStep::Done@ == StdinStepView::Done,
{
}

} // verus!
