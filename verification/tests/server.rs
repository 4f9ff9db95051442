//! The server's side of a connection.
use std::path::PathBuf;
use std::time::Duration;

use bytes::Bytes;
use nails::chunk::{InputChunk, OutputChunk, Received};
use nails::error::{Error, ErrorKind, Failure};
use nails::execution::{ChildInput, ChildOutput, Command, ExitCode};
use nails::server::{
    err, launch, launched, read_client_chunk, refusal, start, step, Action, Event, Initialized,
    Initializer, InputStep, InputTask, NailOutcome, Phase, Waited,
};
use nails::server_proto;
use nails::Nail;

fn other(message: &str) -> Error {
    Error { kind: ErrorKind::Other, message: message.to_owned() }
}

fn initialize(chunks: Vec<InputChunk>) -> Initialized {
    let mut state = Initializer::new();
    for chunk in chunks {
        match state.step(Received::Chunk(chunk)) {
            Initialized::More(next) => state = next,
            ended => return ended,
        }
    }
    Initialized::More(state)
}

fn refused(reason: &str) -> Initialized {
    Initialized::Refused(reason.to_owned())
}

#[test]
fn server_errors_are_of_class_other() {
    assert_eq!(err("x"), other("x"));
    assert_eq!(server_proto::err("x"), other("x"));
}

#[test]
fn a_command_is_gathered_in_order() {
    let ready = initialize(vec![
        InputChunk::Argument("one".to_owned()),
        InputChunk::Heartbeat,
        InputChunk::Environment { key: "K".to_owned(), val: "v".to_owned() },
        InputChunk::WorkingDir(PathBuf::from("/first")),
        InputChunk::Argument("two".to_owned()),
        InputChunk::WorkingDir(PathBuf::from("/second")),
        InputChunk::Environment { key: "K".to_owned(), val: "w".to_owned() },
        InputChunk::Command("go".to_owned()),
    ]);
    assert_eq!(
        ready,
        Initialized::Ready(Command {
            command: "go".to_owned(),
            args: vec!["one".to_owned(), "two".to_owned()],
            env: vec![("K".to_owned(), "v".to_owned()), ("K".to_owned(), "w".to_owned())],
            working_dir: PathBuf::from("/second"),
        })
    );
}

#[test]
fn a_command_needs_a_directory() {
    assert_eq!(
        initialize(vec![InputChunk::Command("go".to_owned())]),
        refused("Did not receive the required working_dir chunk.")
    );
}

#[test]
fn stdin_before_the_command_is_refused() {
    assert_eq!(
        initialize(vec![InputChunk::Stdin(Bytes::from("x\n"))]),
        refused("The client sent an unexpected chunk during initialization: Stdin(b\"x\\n\")")
    );
    assert_eq!(
        initialize(vec![InputChunk::StdinEof]),
        refused("The client sent an unexpected chunk during initialization: StdinEof")
    );
}

#[test]
fn a_lost_client_is_refused() {
    assert_eq!(
        Initializer::new().step(Received::Closed),
        refused("Client exited before a complete command could be received.")
    );
    assert_eq!(
        Initializer::new().step(Received::Failed("reset".to_owned())),
        refused("Client error while receiving command: reset")
    );
}

#[test]
fn a_refusal_is_told_and_ends_the_connection() {
    let event: Event<()> = Event::Client(Received::Chunk(InputChunk::StdinEof));
    let (phase, action) = step(start(), event);
    assert_eq!(phase, Phase::Finished);
    assert_eq!(
        action,
        Action::Close(vec![
            OutputChunk::Stderr(Bytes::from(
                "The client sent an unexpected chunk during initialization: StdinEof"
            )),
            OutputChunk::Exit(1),
        ])
    );
    // Nothing follows.
    let event: Event<()> = Event::Client(Received::Chunk(InputChunk::Heartbeat));
    assert_eq!(step(phase, event), (Phase::Finished, Action::Wait));
    assert_eq!(
        refusal("\u{e9}".to_owned()),
        vec![OutputChunk::Stderr(Bytes::from(vec![0xc3, 0xa9])), OutputChunk::Exit(1)]
    );
}

#[test]
fn a_failed_launch_is_told() {
    let message = launched::<()>("go", Err("NotFound".to_owned())).unwrap_err();
    assert_eq!(message, "Failed to launch child `go`: NotFound\n");
    assert_eq!(launched("go", Ok(5)), Ok(5));
    let (phase, action) = step::<()>(Phase::Launching, Event::Launched(Err(message)));
    assert_eq!(phase, Phase::Finished);
    assert_eq!(
        action,
        Action::Close(vec![
            OutputChunk::Stderr(Bytes::from("Failed to launch child `go`: NotFound\n")),
            OutputChunk::Exit(1),
        ])
    );
}

#[derive(Clone)]
struct Picky;

impl Nail for Picky {
    type Child = String;

    fn spawn(&self, cmd: Command) -> Result<String, String> {
        if cmd.command == "good" {
            Ok(cmd.args.concat())
        } else {
            Err("no".to_owned())
        }
    }
}

#[test]
fn nails_launch_commands() {
    let mut good = Command::default();
    good.command = "good".to_owned();
    good.args = vec!["a".to_owned(), "b".to_owned()];
    assert_eq!(launch(&Picky, good), Ok("ab".to_owned()));
    let mut bad = Command::default();
    bad.command = "bad".to_owned();
    assert_eq!(launch(&Picky, bad), Err("Failed to launch child `bad`: no\n".to_owned()));
}

/// What a connection writes over some events, and where they leave it.
fn told(phase: Phase, events: Vec<Event<&'static str>>) -> (Phase, Vec<OutputChunk>) {
    let mut phase = phase;
    let mut told = Vec::new();
    for event in events {
        let (next, action) = step(phase, event);
        phase = next;
        match action {
            Action::Start { request, .. } => told.extend(request),
            Action::Send(chunk) => told.push(chunk),
            Action::Close(chunks) => told.extend(chunks),
            _ => {}
        }
    }
    (phase, told)
}

#[test]
fn output_is_relayed_in_order_and_then_the_code() {
    let events = vec![
        Event::Launched(Ok(true)),
        Event::Output(Some(Ok(ChildOutput::Stdout(Bytes::from("1"))))),
        Event::Output(Some(Ok(ChildOutput::Stderr(Bytes::from("2"))))),
        Event::Output(Some(Ok(ChildOutput::Stdout(Bytes::from("3"))))),
        Event::Output(None),
        Event::NailEnded(NailOutcome::Exited(ExitCode(9))),
        Event::InputEnded(Err(Failure::Protocol(err("broken")))),
    ];
    assert_eq!(
        told(Phase::Launching, events),
        (
            Phase::Finished,
            vec![
                OutputChunk::StartReadingStdin,
                OutputChunk::Stdout(Bytes::from("1")),
                OutputChunk::Stderr(Bytes::from("2")),
                OutputChunk::Stdout(Bytes::from("3")),
                OutputChunk::Exit(9),
            ]
        )
    );
}

#[test]
fn the_code_waits_until_nothing_listens() {
    let ended: Event<()> = Event::NailEnded(NailOutcome::Exited(ExitCode(9)));
    let (phase, action) = step(Phase::Awaiting, ended);
    assert_eq!(phase, Phase::Stopping(9));
    assert_eq!(action, Action::StopListening);
    assert_eq!(
        step::<()>(phase, Event::InputEnded(Ok(()))),
        (Phase::Finished, Action::Close(vec![OutputChunk::Exit(9)]))
    );
}

#[test]
fn a_command_that_is_given_up_has_a_code() {
    let ended = || Event::InputEnded(Ok(()));
    assert_eq!(
        told(Phase::Awaiting, vec![Event::NailEnded(NailOutcome::Aborted), ended()]),
        (Phase::Finished, vec![OutputChunk::Exit(-1)])
    );
    assert_eq!(
        told(Phase::Awaiting, vec![Event::NailEnded(NailOutcome::Failed("panic")), ended()]),
        (Phase::Finished, vec![OutputChunk::Exit(-1)])
    );
    // So has one whose output cannot be read.
    assert_eq!(
        step(Phase::Relaying, Event::Output(Some(Err("read")))),
        (Phase::Awaiting, Action::AbortNail)
    );
    assert_eq!(
        told(
            Phase::Relaying,
            vec![
                Event::Output(Some(Ok(ChildOutput::Stdout(Bytes::from("1"))))),
                Event::Output(Some(Err("read"))),
                Event::NailEnded(NailOutcome::Aborted),
                ended(),
            ]
        ),
        (
            Phase::Finished,
            vec![OutputChunk::Stdout(Bytes::from("1")), OutputChunk::Exit(-1)]
        )
    );
}

#[test]
fn failures_of_the_transport_end_the_connection() {
    assert_eq!(
        step(Phase::Stopping(3), Event::InputEnded(Err(Failure::Transport("reset")))),
        (Phase::Finished, Action::Fail("reset"))
    );
}

#[test]
fn events_out_of_place_change_nothing() {
    assert_eq!(
        step::<()>(Phase::Launching, Event::Output(None)),
        (Phase::Launching, Action::Wait)
    );
    assert_eq!(
        step::<()>(Phase::Relaying, Event::InputEnded(Ok(()))),
        (Phase::Relaying, Action::Wait)
    );
}

fn heard(chunk: InputChunk) -> Received<InputChunk, Failure<()>> {
    read_client_chunk(Waited::Arrived(Received::Chunk(chunk)))
}

#[test]
fn stdin_is_asked_for_where_it_is_taken() {
    assert_eq!(
        step::<()>(Phase::Launching, Event::Launched(Ok(true))).1,
        Action::Start {
            request: Some(OutputChunk::StartReadingStdin),
            listener: InputTask { stdin_open: true },
        }
    );
    assert_eq!(
        step::<()>(Phase::Launching, Event::Launched(Ok(false))).1,
        Action::Start { request: None, listener: InputTask::start(false) }
    );
}

#[test]
fn noisy_stdin_is_answered() {
    let open = InputTask { stdin_open: true };
    for (noisy, reply) in [(true, Some(OutputChunk::StartReadingStdin)), (false, None)] {
        assert_eq!(
            open.step(noisy, heard(InputChunk::Stdin(Bytes::from("in")))),
            InputStep::Forward {
                input: ChildInput::Stdin(Bytes::from("in")),
                reply,
                next: open,
            }
        );
    }
}

#[test]
fn closed_stdin_takes_no_more() {
    let open = InputTask { stdin_open: true };
    let closed = InputTask { stdin_open: false };
    assert_eq!(open.step(true, heard(InputChunk::StdinEof)), InputStep::CloseStdin(closed));
    assert_eq!(
        closed.step(true, heard(InputChunk::Stdin(Bytes::from("in")))),
        InputStep::Fail(other(
            "The StartReadingStdin chunk was not sent, or Stdin was already closed."
        ))
    );
    assert_eq!(
        closed.step(true, heard(InputChunk::StdinEof)),
        InputStep::Fail(other(
            "The StartReadingStdin chunk was not sent: did not expect to receive stdin."
        ))
    );
    assert_eq!(closed.step(true, heard(InputChunk::Heartbeat)), InputStep::Listen(closed));
}

#[test]
fn other_chunks_beside_the_command_are_refused() {
    assert_eq!(
        InputTask { stdin_open: true }.step(false, heard(InputChunk::Command("x".to_owned()))),
        InputStep::Fail(other(
            "The client sent an unexpected chunk after initialization: Command(\"x\")"
        ))
    );
}

#[test]
fn a_client_that_is_gone_shuts_the_command_down() {
    let task = InputTask { stdin_open: false };
    let closed = read_client_chunk::<&str>(Waited::Arrived(Received::Closed));
    assert_eq!(task.step(false, closed), InputStep::Shutdown(Ok(())));
    let failed = read_client_chunk(Waited::Arrived(Received::Failed(Failure::Transport("reset"))));
    assert_eq!(
        task.step(false, failed),
        InputStep::Shutdown(Err(Failure::Transport("reset")))
    );
    let garbled = read_client_chunk::<()>(Waited::Arrived(Received::Failed(Failure::Protocol(err(
        "garbled",
    )))));
    assert_eq!(
        task.step(false, garbled),
        InputStep::Shutdown(Err(Failure::Protocol(other("garbled"))))
    );
    let silent = read_client_chunk::<()>(Waited::TimedOut(Duration::from_micros(1500)));
    assert_eq!(
        task.step(false, silent),
        InputStep::Shutdown(Err(Failure::Protocol(other(
            "Did not receive a heartbeat (or any other message) within 1.5ms"
        ))))
    );
}

#[test]
fn strict_servers_refuse_heartbeats() {
    let (phase, action) = server_proto::step(
        server_proto::start(),
        server_proto::Event::Client(Received::Chunk(InputChunk::Heartbeat)),
    );
    assert_eq!(phase, server_proto::Phase::Finished);
    assert_eq!(
        action,
        server_proto::Action::Close(vec![
            OutputChunk::Stderr(Bytes::from(
                "The client sent an unexpected chunk during initialization: Heartbeat"
            )),
            OutputChunk::Exit(1),
        ])
    );
    assert_eq!(
        server_proto::stdio_input::<()>(true, Received::Chunk(InputChunk::Heartbeat)),
        server_proto::InputStep::Fail(other(
            "The client sent an unexpected chunk after initialization: Heartbeat"
        ))
    );
}

#[test]
fn strict_servers_end_with_the_code_in_the_output() {
    let mut told = Vec::new();
    let mut phase = server_proto::start();
    let events = vec![
        server_proto::Event::Client(Received::Chunk(InputChunk::WorkingDir(PathBuf::from("/")))),
        server_proto::Event::Client(Received::Chunk(InputChunk::Command("go".to_owned()))),
        server_proto::Event::Launched(Ok(true)),
        server_proto::Event::Output(Some(ChildOutput::Stdout(Bytes::from("1")))),
        server_proto::Event::Output(Some(ChildOutput::Exit(ExitCode(3)))),
        server_proto::Event::Output(Some(ChildOutput::Stdout(Bytes::from("late")))),
    ];
    let mut actions = Vec::new();
    for event in events {
        let (next, action) = server_proto::step(phase, event);
        phase = next;
        match action {
            server_proto::Action::Send(chunk) => told.push(chunk),
            server_proto::Action::Close(chunks) => told.extend(chunks),
            other => actions.push(other),
        }
    }
    assert_eq!(told, vec![OutputChunk::Stdout(Bytes::from("1")), OutputChunk::Exit(3)]);
    assert_eq!(
        actions,
        vec![
            server_proto::Action::ReadClient,
            server_proto::Action::Launch(Command {
                command: "go".to_owned(),
                args: vec![],
                env: vec![],
                working_dir: PathBuf::from("/"),
            }),
            server_proto::Action::Start { stdin: true },
            server_proto::Action::Wait,
        ]
    );
    // Output without a code is strange, but not fatal.
    assert_eq!(
        server_proto::step(server_proto::Phase::Relaying, server_proto::Event::Output(None)),
        (server_proto::Phase::Finished, server_proto::Action::Close(vec![]))
    );
    assert_eq!(
        server_proto::step(
            server_proto::Phase::Launching,
            server_proto::Event::Launched(Err("no".to_owned()))
        ),
        (
            server_proto::Phase::Finished,
            server_proto::Action::Close(vec![
                OutputChunk::Stderr(Bytes::from("no")),
                OutputChunk::Exit(1)
            ])
        )
    );
}

#[test]
fn strict_servers_hand_on_stdin_and_its_end() {
    assert_eq!(
        server_proto::stdio_input::<()>(
            true,
            Received::Chunk(InputChunk::Stdin(Bytes::from("in")))
        ),
        server_proto::InputStep::Forward {
            input: ChildInput::Stdin(Bytes::from("in")),
            reply: Some(OutputChunk::StartReadingStdin),
        }
    );
    assert_eq!(
        server_proto::stdio_input::<()>(false, Received::Chunk(InputChunk::StdinEof)),
        server_proto::InputStep::ForwardLast(ChildInput::StdinEOF)
    );
    assert_eq!(
        server_proto::stdio_input::<&str>(false, Received::Failed("reset")),
        server_proto::InputStep::Failed("reset")
    );
    assert_eq!(
        server_proto::stdio_input::<()>(false, Received::Closed),
        server_proto::InputStep::Done
    );
}
