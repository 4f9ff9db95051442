//! Whole connections: both ends, and the bytes between them.
use std::path::PathBuf;
use std::time::Duration;

use bytes::{Bytes, BytesMut};
use nails::chunk::{InputChunk, OutputChunk, Received};
use nails::client::{
    command_as_chunks, exit_result, heartbeat_pause, heartbeat_sender, opened, stdin_end,
    stdin_sender, StdinStep, StdioEnd, StdioStep, StdioTask, WriteHalf,
};
use nails::codec::{Chunk, ClientCodec, ServerCodec};
use nails::error::Failure;
use nails::execution::{ChildInput, ChildOutput, Command, ExitCode};
use nails::server::{self, Action, Event, InputStep, InputTask, NailOutcome, Phase, Waited};
use nails::{Config, Nail};

/// The bytes on their way.
struct Wire {
    to_server: BytesMut,
    to_client: BytesMut,
}

impl Wire {
    fn new() -> Wire {
        Wire { to_server: BytesMut::new(), to_client: BytesMut::new() }
    }

    fn client_sends(&mut self, chunk: InputChunk) {
        ClientCodec.encode(chunk, &mut self.to_server).unwrap();
    }

    fn server_sends(&mut self, chunk: OutputChunk) {
        ServerCodec.encode(chunk, &mut self.to_client).unwrap();
    }

    fn server_reads(&mut self) -> InputChunk {
        ServerCodec.decode(&mut self.to_server).unwrap().unwrap()
    }

    fn client_reads(&mut self) -> OutputChunk {
        ClientCodec.decode(&mut self.to_client).unwrap().unwrap()
    }
}

/// A nail that takes so long and then tells the given code, or another when it is shut down before.
#[derive(Clone)]
struct ConstantNail {
    accepts_stdin: bool,
    delay: Option<Duration>,
    code: ExitCode,
}

impl ConstantNail {
    fn exit_code(&self, shut_down_after: Option<Duration>) -> ExitCode {
        match (self.delay, shut_down_after) {
            (Some(delay), Some(after)) if after < delay => ExitCode(-2),
            _ => self.code,
        }
    }
}

impl Nail for ConstantNail {
    type Child = ConstantNail;

    fn spawn(&self, _: Command) -> Result<ConstantNail, String> {
        Ok(self.clone())
    }
}

fn nothing() -> Command {
    Command {
        command: "nothing".to_owned(),
        args: vec![],
        env: vec![],
        working_dir: PathBuf::from("/dev/null"),
    }
}

/// A connection on which a command was sent and launched.
struct Launched {
    wire: Wire,
    phase: Phase,
    listener: InputTask,
    child: ConstantNail,
}

fn launch(client_config: &Config, nail: &ConstantNail) -> Launched {
    let mut wire = Wire::new();
    for chunk in command_as_chunks(nothing()) {
        wire.client_sends(chunk);
    }
    let pause = opened(client_config.heartbeat_frequency, Ok(())).unwrap();
    assert_eq!(pause, client_config.heartbeat_frequency.map(|f| f / 4));

    let mut phase = server::start();
    let child = loop {
        let event: Event<String> = Event::Client(Received::Chunk(wire.server_reads()));
        let (next, action) = server::step(phase, event);
        phase = next;
        match action {
            Action::ReadClient => {}
            Action::Launch(command) => {
                assert_eq!(command, nothing());
                break server::launch(nail, command).unwrap();
            }
            other => panic!("{:?}", other),
        }
    };
    assert_eq!(wire.to_server.len(), 0);
    match server::step::<String>(phase, Event::Launched(Ok(child.accepts_stdin))) {
        (phase, Action::Start { request, listener }) => {
            // The request comes before any output.
            if let Some(chunk) = request {
                wire.server_sends(chunk);
            }
            Launched { wire, phase, listener, child }
        }
        other => panic!("{:?}", other),
    }
}

/// The command's output ends and then the command; nothing listens to the client any more, and it
/// hears the code, which is the last of all.
fn finish(
    mut connection: Launched,
    stdio: StdioTask,
    code: ExitCode,
    input_ended: Result<(), Failure<String>>,
) -> ExitCode {
    let (phase, action) = server::step::<String>(connection.phase, Event::Output(None));
    assert_eq!(action, Action::AwaitNail);
    let (phase, action) =
        server::step::<String>(phase, Event::NailEnded(NailOutcome::Exited(code)));
    assert_eq!(action, Action::StopListening);
    let (phase, action) = server::step::<String>(phase, Event::InputEnded(input_ended));
    assert_eq!(phase, Phase::Finished);
    match action {
        Action::Close(chunks) => {
            for chunk in chunks {
                connection.wire.server_sends(chunk);
            }
        }
        other => panic!("{:?}", other),
    }
    let end = match stdio.step::<String>(Received::Chunk(connection.wire.client_reads())) {
        StdioStep::Finish(result) => StdioEnd::Completed(result),
        other => panic!("{:?}", other),
    };
    assert_eq!(connection.wire.to_client.len(), 0);
    exit_result(end).unwrap()
}

#[test]
fn roundtrip_noop() {
    let expected_exit_code = ExitCode(67);
    let nail = ConstantNail { accepts_stdin: false, delay: None, code: expected_exit_code };
    let connection = launch(&Config::default(), &nail);
    let code = connection.child.exit_code(None);

    // The code is told while the client still holds the connection open.
    let exit_code = finish(connection, StdioTask::new(), code, Ok(()));
    assert_eq!(expected_exit_code, exit_code);
}

#[test]
fn roundtrip_echo() {
    let expected_bytes = Bytes::from("some bytes");
    let nail = ConstantNail { accepts_stdin: true, delay: None, code: ExitCode(0) };
    let mut connection = launch(&Config::default(), &nail);

    // The client is asked for standard input, and sends it and its end.
    let asked = Received::Chunk(connection.wire.client_reads());
    let stdio = match StdioTask::new().step::<String>(asked) {
        StdioStep::StartStdin(task) => task,
        other => panic!("{:?}", other),
    };
    match stdin_sender(Some(ChildInput::Stdin(expected_bytes.clone())), true) {
        StdinStep::Send(chunk) => connection.wire.client_sends(chunk),
        other => panic!("{:?}", other),
    }
    assert_eq!(stdin_sender(None, true), StdinStep::End);
    connection.wire.client_sends(stdin_end(true).unwrap());

    // The command is handed the one and sees the other.
    let arrived = Received::Chunk(connection.wire.server_reads());
    let input_bytes = match connection.listener.step::<String>(false, arrived) {
        InputStep::Forward { input: ChildInput::Stdin(bytes), reply: None, next } => {
            connection.listener = next;
            bytes
        }
        other => panic!("{:?}", other),
    };
    let arrived = Received::Chunk(connection.wire.server_reads());
    match connection.listener.step::<String>(false, arrived) {
        InputStep::CloseStdin(next) => connection.listener = next,
        other => panic!("{:?}", other),
    };

    // It puts out what it was handed.
    let echoed = Event::<String>::Output(Some(Ok(ChildOutput::Stdout(input_bytes))));
    let (phase, action) = server::step(connection.phase, echoed);
    connection.phase = phase;
    match action {
        Action::Send(chunk) => connection.wire.server_sends(chunk),
        other => panic!("{:?}", other),
    }
    let stdio = match stdio.step::<String>(Received::Chunk(connection.wire.client_reads())) {
        StdioStep::Forward { output, next } => {
            assert_eq!(ChildOutput::Stdout(expected_bytes), output);
            next
        }
        other => panic!("{:?}", other),
    };
    let code = connection.child.exit_code(None);
    assert_eq!(ExitCode(0), finish(connection, stdio, code, Ok(())));
}

#[test]
fn roundtrip_cancellation() {
    let full_wait = Duration::from_secs(30);
    let expected_exit_code = ExitCode(123);
    let nail = ConstantNail {
        accepts_stdin: false,
        delay: Some(full_wait),
        code: expected_exit_code,
    };
    let connection = launch(&Config::default(), &nail);

    // The client shuts down its half: it sends no more, and the command is asked to shut down.
    assert_eq!(heartbeat_sender(WriteHalf::ShutDown), None);
    assert_eq!(stdin_sender(Some(ChildInput::Stdin(Bytes::new())), false), StdinStep::End);
    assert_eq!(stdin_end(false), None);
    let ended = match connection.listener.step::<String>(false, Received::Closed) {
        InputStep::Shutdown(result) => result,
        other => panic!("{:?}", other),
    };
    assert_eq!(ended, Ok(()));

    // The client and the server both end before the full wait.
    let code = connection.child.exit_code(Some(Duration::from_secs(0)));
    assert_eq!(ExitCode(-2), finish(connection, StdioTask::new(), code, ended));
}

#[test]
fn roundtrip_heartbeat_success() {
    let config = Config::default().heartbeat_frequency(Duration::from_millis(100));
    let frequency = config.heartbeat_frequency.unwrap();
    let success_exit_code = ExitCode(67);
    let nail = ConstantNail {
        accepts_stdin: false,
        delay: Some(frequency * 4),
        code: success_exit_code,
    };
    let mut connection = launch(&config, &nail);

    // The nail runs for a multiple of the frequency, and every heartbeat comes in time.
    let pause = heartbeat_pause(frequency);
    assert!(pause < frequency);
    let mut elapsed = Duration::from_millis(0);
    let mut heartbeats = 0;
    while elapsed + pause < frequency * 4 {
        elapsed += pause;
        connection.wire.client_sends(heartbeat_sender(WriteHalf::Open).unwrap());
        let chunk = connection.wire.server_reads();
        let waited: Waited<String> = Waited::Arrived(Received::Chunk(chunk));
        match connection.listener.step(false, server::read_client_chunk(waited)) {
            InputStep::Listen(next) => connection.listener = next,
            other => panic!("{:?}", other),
        }
        heartbeats += 1;
    }
    assert_eq!(heartbeats, 15);
    let code = connection.child.exit_code(None);
    assert_eq!(success_exit_code, finish(connection, StdioTask::new(), code, Ok(())));
}

#[test]
fn roundtrip_heartbeat_failure() {
    let client_config = Config::default();
    let server_config = Config::default().heartbeat_frequency(Duration::from_millis(100));
    let frequency = server_config.heartbeat_frequency.unwrap();
    let nail = ConstantNail {
        accepts_stdin: false,
        delay: Some(frequency * 4),
        code: ExitCode(67),
    };
    let connection = launch(&client_config, &nail);

    // Nothing arrives: the command is asked to shut down, and the client is still told the code.
    let waited: Waited<String> = Waited::TimedOut(frequency);
    let ended = match connection.listener.step(false, server::read_client_chunk(waited)) {
        InputStep::Shutdown(result) => result,
        other => panic!("{:?}", other),
    };
    match &ended {
        Err(Failure::Protocol(e)) => assert_eq!(
            e.message,
            "Did not receive a heartbeat (or any other message) within 100ms",
        ),
        other => panic!("{:?}", other),
    }
    let code = connection.child.exit_code(Some(frequency));
    assert_eq!(ExitCode(-2), finish(connection, StdioTask::new(), code, ended));
}

/// Encodes chunks and decodes them again.
fn rt(chunks: Vec<Chunk>) {
    let mut buf = {
        let mut buf = BytesMut::with_capacity(1024);
        for chunk in chunks.clone() {
            nails::codec::encode(chunk, &mut buf);
        }
        buf.split()
    };

    let mut decoded_chunks = Vec::new();
    loop {
        match nails::codec::decode(&mut buf) {
            Ok(Some(decoded_chunk)) => decoded_chunks.push(decoded_chunk),
            Ok(None) => break,
            Err(e) => panic!("Failed to decode: {:?}", e),
        }
    }
    assert_eq!(decoded_chunks, chunks);
}

#[test]
fn roundtrip_chunks() {
    rt(vec![
        Chunk::Input(InputChunk::Argument("Hello".to_owned())),
        Chunk::Input(InputChunk::Environment {
            key: "USER".to_owned(),
            val: "example".to_owned(),
        }),
    ]);
}

#[test]
fn every_chunk_survives_the_wire() {
    rt(vec![
        Chunk::Input(InputChunk::Argument("h\u{e9}llo \u{1f528}".to_owned())),
        Chunk::Input(InputChunk::Argument(String::new())),
        Chunk::Input(InputChunk::Environment { key: "A".to_owned(), val: "b=c=d".to_owned() }),
        Chunk::Input(InputChunk::Environment { key: String::new(), val: String::new() }),
        Chunk::Input(InputChunk::WorkingDir(PathBuf::from("/tmp/\u{e9}"))),
        Chunk::Input(InputChunk::Command("run".to_owned())),
        Chunk::Input(InputChunk::Heartbeat),
        Chunk::Input(InputChunk::Stdin(Bytes::from(vec![0, 255, 61]))),
        Chunk::Input(InputChunk::StdinEof),
        Chunk::Output(OutputChunk::StartReadingStdin),
        Chunk::Output(OutputChunk::Stdout(Bytes::from("out"))),
        Chunk::Output(OutputChunk::Stderr(Bytes::from("err"))),
        Chunk::Output(OutputChunk::Exit(0)),
        Chunk::Output(OutputChunk::Exit(i32::MIN)),
        Chunk::Output(OutputChunk::Exit(i32::MAX)),
    ]);
}

#[test]
fn a_refused_request_is_answered_over_the_wire() {
    let mut wire = Wire::new();
    wire.client_sends(InputChunk::Command("go".to_owned()));
    let event: Event<String> = Event::Client(Received::Chunk(wire.server_reads()));
    let (phase, action) = server::step(server::start(), event);
    assert_eq!(phase, Phase::Finished);
    match action {
        Action::Close(chunks) => {
            for chunk in chunks {
                wire.server_sends(chunk);
            }
        }
        other => panic!("{:?}", other),
    }
    let task = match StdioTask::new().step::<String>(Received::Chunk(wire.client_reads())) {
        StdioStep::Forward { output, next } => {
            let reason = Bytes::from("Did not receive the required working_dir chunk.");
            assert_eq!(output, ChildOutput::Stderr(reason));
            next
        }
        other => panic!("{:?}", other),
    };
    assert_eq!(
        task.step::<String>(Received::Chunk(wire.client_reads())),
        StdioStep::Finish(Ok(ExitCode(1)))
    );
}

#[test]
fn requests_for_input_do_not_disturb_the_output() {
    let mut task = StdioTask::new();
    let mut outputs = Vec::new();
    let mut starts = 0;
    for chunk in [
        OutputChunk::StartReadingStdin,
        OutputChunk::Stdout(Bytes::from("1")),
        OutputChunk::StartReadingStdin,
        OutputChunk::Stderr(Bytes::from("2")),
        OutputChunk::StartReadingStdin,
    ] {
        task = match task.step::<String>(Received::Chunk(chunk)) {
            StdioStep::Forward { output, next } => {
                outputs.push(output);
                next
            }
            StdioStep::StartStdin(next) => {
                starts += 1;
                next
            }
            StdioStep::Follow(next) => next,
            other => panic!("{:?}", other),
        };
    }
    assert_eq!(starts, 1);
    assert_eq!(
        outputs,
        vec![ChildOutput::Stdout(Bytes::from("1")), ChildOutput::Stderr(Bytes::from("2"))]
    );
}
