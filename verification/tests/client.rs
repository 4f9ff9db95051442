//! The client's side of a connection, and the arguments of the client program.
use std::path::PathBuf;
use std::time::Duration;

use bytes::Bytes;
use nails::args::{parse_args, request};
use nails::chunk::{InputChunk, OutputChunk, Received};
use nails::client::{
    command_as_chunks, exit_result, heartbeat_sender, io_err, opened, stdin_end, stdin_sender,
    StdinStep, StdioEnd, StdioStep, StdioTask, WriteHalf,
};
use nails::client_proto;
use nails::error::{Error, ErrorKind, Failure};
use nails::execution::{ChildInput, ChildOutput, Command, ExitCode};

fn other(message: &str) -> Error {
    Error { kind: ErrorKind::Other, message: message.to_owned() }
}

#[test]
fn client_errors_are_of_class_other() {
    assert_eq!(io_err("x"), other("x"));
}

#[test]
fn a_command_is_sent_in_order() {
    let chunks = command_as_chunks(Command {
        command: "go".to_owned(),
        args: vec!["1".to_owned(), "2".to_owned()],
        env: vec![("A".to_owned(), "b".to_owned())],
        working_dir: PathBuf::from("/w"),
    });
    assert_eq!(
        chunks,
        vec![
            InputChunk::Argument("1".to_owned()),
            InputChunk::Argument("2".to_owned()),
            InputChunk::Environment { key: "A".to_owned(), val: "b".to_owned() },
            InputChunk::WorkingDir(PathBuf::from("/w")),
            InputChunk::Command("go".to_owned()),
        ]
    );
}

#[test]
fn a_command_that_was_not_sent() {
    assert_eq!(
        opened(Some(Duration::from_secs(1)), Err("reset".to_owned())),
        Err(other("Could not send initial chunks to the server. Got: reset"))
    );
    assert_eq!(
        opened(Some(Duration::from_secs(1)), Ok(())),
        Ok(Some(Duration::from_millis(250)))
    );
    assert_eq!(opened(None, Ok(())), Ok(None));
}

#[test]
fn stdin_is_started_once() {
    let task = StdioTask::new();
    let ask = || Received::<OutputChunk, Failure<()>>::Chunk(OutputChunk::StartReadingStdin);
    let started = StdioTask { stdin_pending: false };
    assert_eq!(task.step(ask()), StdioStep::StartStdin(started));
    assert_eq!(started.step(ask()), StdioStep::Follow(started));
}

#[test]
fn output_is_handed_on() {
    let task = StdioTask::new();
    let out = Received::<_, Failure<()>>::Chunk(OutputChunk::Stdout(Bytes::from("o")));
    assert_eq!(
        task.step(out),
        StdioStep::Forward { output: ChildOutput::Stdout(Bytes::from("o")), next: task }
    );
    let error = Received::<_, Failure<()>>::Chunk(OutputChunk::Stderr(Bytes::from("e")));
    assert_eq!(
        task.step(error),
        StdioStep::Forward { output: ChildOutput::Stderr(Bytes::from("e")), next: task }
    );
    let exit = Received::<_, Failure<()>>::Chunk(OutputChunk::Exit(5));
    assert_eq!(task.step(exit), StdioStep::Finish(Ok(ExitCode(5))));
}

#[test]
fn a_lost_server_is_an_error() {
    let task = StdioTask::new();
    assert_eq!(
        task.step::<()>(Received::Closed),
        StdioStep::Finish(Err(Failure::Protocol(other(
            "Client exited before the server's result could be returned."
        ))))
    );
    assert_eq!(
        task.step(Received::Failed(Failure::Transport("reset"))),
        StdioStep::Finish(Err(Failure::Transport("reset")))
    );
}

#[test]
fn a_dropped_child_is_a_canceled_connection() {
    assert_eq!(
        exit_result::<()>(StdioEnd::Aborted),
        Err(Failure::Protocol(Error {
            kind: ErrorKind::ConnectionAborted,
            message: "The connection was canceled because the Child was dropped".to_owned(),
        }))
    );
    assert_eq!(exit_result::<()>(StdioEnd::Completed(Ok(ExitCode(2)))), Ok(ExitCode(2)));
}

#[test]
fn stdin_is_sent_while_connected() {
    let input = || Some(ChildInput::Stdin(Bytes::from("in")));
    assert_eq!(
        stdin_sender(input(), true),
        StdinStep::Send(InputChunk::Stdin(Bytes::from("in")))
    );
    assert_eq!(stdin_sender(input(), false), StdinStep::End);
    assert_eq!(stdin_sender(Some(ChildInput::StdinEOF), true), StdinStep::End);
    assert_eq!(stdin_sender(None, true), StdinStep::End);
    assert_eq!(stdin_end(true), Some(InputChunk::StdinEof));
    assert_eq!(stdin_end(false), None);
}

/// What is sent of some input, where so many chunks can be written before the half is shut down.
fn sent(input: &[&'static str], open_for: usize) -> Vec<InputChunk> {
    let mut sent = Vec::new();
    let mut input = input.iter().map(|s| ChildInput::Stdin(Bytes::from(*s)));
    while let StdinStep::Send(chunk) = stdin_sender(input.next(), sent.len() < open_for) {
        sent.push(chunk);
    }
    sent.extend(stdin_end(sent.len() < open_for));
    sent
}

#[test]
fn stdin_is_sent_in_order_and_then_its_end() {
    let one = InputChunk::Stdin(Bytes::from("1"));
    let two = InputChunk::Stdin(Bytes::from("2"));
    assert_eq!(sent(&["1", "2"], 9), vec![one.clone(), two.clone(), InputChunk::StdinEof]);
    assert_eq!(sent(&["1", "2"], 2), vec![one.clone(), two]);
    assert_eq!(sent(&["1", "2"], 1), vec![one]);
    assert_eq!(sent(&["1", "2"], 0), vec![]);
    assert_eq!(sent(&[], 1), vec![InputChunk::StdinEof]);
}

#[test]
fn heartbeats_are_sent_while_connected() {
    assert_eq!(heartbeat_sender(WriteHalf::Open), Some(InputChunk::Heartbeat));
    assert_eq!(heartbeat_sender(WriteHalf::ShutDown), None);
    assert_eq!(heartbeat_sender(WriteHalf::Gone), None);
}

#[test]
fn the_code_may_come_with_the_output() {
    let task = StdioTask::new();
    assert_eq!(
        client_proto::handle_stdio::<()>(task, Received::Chunk(OutputChunk::Exit(5))),
        client_proto::StdioStep::Conclude(ExitCode(5))
    );
    assert_eq!(
        client_proto::handle_stdio::<()>(task, Received::Chunk(OutputChunk::StartReadingStdin)),
        client_proto::StdioStep::StartStdin(StdioTask { stdin_pending: false })
    );
    assert_eq!(
        client_proto::handle_stdio::<()>(
            task,
            Received::Chunk(OutputChunk::Stdout(Bytes::from("o")))
        ),
        client_proto::StdioStep::Forward {
            output: ChildOutput::Stdout(Bytes::from("o")),
            next: task,
        }
    );
    assert_eq!(
        client_proto::handle_stdio::<()>(task, Received::Closed),
        client_proto::StdioStep::Fail(Failure::Protocol(other(
            "Client exited before the server's result could be returned."
        )))
    );
}

#[test]
fn the_end_of_input_may_come_with_the_input() {
    assert_eq!(
        client_proto::stdin_sender(Some(ChildInput::StdinEOF)),
        client_proto::StdinStep::SendLast(InputChunk::StdinEof)
    );
    assert_eq!(
        client_proto::stdin_sender(Some(ChildInput::Stdin(Bytes::from("in")))),
        client_proto::StdinStep::Send(InputChunk::Stdin(Bytes::from("in")))
    );
    assert_eq!(client_proto::stdin_sender(None), client_proto::StdinStep::Done);
}

fn strings(args: &[&str]) -> Vec<String> {
    args.iter().map(|s| s.to_string()).collect()
}

fn port(s: &str) -> Result<u16, String> {
    s.parse::<u16>().map_err(|e| e.to_string())
}

#[test]
fn arguments_are_split() {
    assert_eq!(
        parse_args(strings(&["nails", "2113", "run", "a", "b"]), port),
        Ok((2113, "run".to_owned(), strings(&["a", "b"])))
    );
    assert_eq!(
        parse_args(strings(&["nails", "2113", "run"]), port),
        Ok((2113, "run".to_owned(), vec![]))
    );
}

#[test]
fn arguments_that_are_missing_or_wrong() {
    let no_server =
        Err("Expected a leading argument representing a nailgun server hostname and port."
            .to_owned());
    assert_eq!(parse_args(strings(&[]), port), no_server);
    assert_eq!(parse_args(strings(&["nails"]), port), no_server);
    assert_eq!(
        parse_args(strings(&["nails", "here"]), port),
        Err("Failed to parse here: invalid digit found in string".to_owned())
    );
    assert_eq!(
        parse_args(strings(&["nails", "2113"]), port),
        Err("Needed at least one trailing argument for the command to run.".to_owned())
    );
    assert_eq!(
        request::<u16>(&strings(&["nails", "x", "run"]), Err("bad".to_owned())),
        Err("Failed to parse x: bad".to_owned())
    );
}
