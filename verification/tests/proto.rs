//! The connection that one task serves, and the nail that forks.
use std::path::PathBuf;

use bytes::Bytes;
use nails::chunk::{InputChunk, OutputChunk};
use nails::client::command_as_chunks;
use nails::error::{Error, ErrorKind};
use nails::execution::{ChildInput, ChildOutput, Command, ExitCode};
use nails::fork::{
    exit_code, feed, ForkNail, Plan, ProcessAction, ProcessEnd, ProcessEvent, Relay, RelayAction,
    RelayEvent, Supervision,
};
use nails::proto::{err, start, step, Args, Effect, Event, Handles, Refused, State};
use nails::Config;

fn command() -> Command {
    Command {
        command: "go".to_owned(),
        args: vec!["a".to_owned()],
        env: vec![("K".to_owned(), "v".to_owned())],
        working_dir: PathBuf::from("/w"),
    }
}

fn run(
    config: &Config,
    state: State,
    events: Vec<Event>,
) -> Result<(State, Vec<Effect>), Refused> {
    let mut state = state;
    let mut all = Vec::new();
    for event in events {
        let (next, effects) = step(config, state, event)?;
        state = next;
        all.extend(effects);
    }
    Ok((state, all))
}

#[test]
fn proto_errors_are_of_class_other() {
    assert_eq!(err("x"), Error { kind: ErrorKind::Other, message: "x".to_owned() });
}

#[test]
fn the_chunks_of_a_command_launch_it() {
    let events = command_as_chunks(command()).into_iter().map(Event::Client).collect();
    assert_eq!(
        run(&Config::default(), start(), events),
        Ok((State::Launching("go".to_owned()), vec![Effect::Launch(command())]))
    );
}

#[test]
fn a_launched_command_is_fed_and_heard() {
    let events = vec![
        Event::Launched(Ok(())),
        Event::Client(InputChunk::Stdin(Bytes::from("in"))),
        Event::Client(InputChunk::Heartbeat),
        Event::Process(ChildOutput::Stdout(Bytes::from("out"))),
        Event::Client(InputChunk::StdinEof),
        Event::Process(ChildOutput::Stderr(Bytes::from("err"))),
        Event::Process(ChildOutput::Exit(ExitCode(4))),
    ];
    let config = Config::default().noisy_stdin(true);
    assert_eq!(
        run(&config, State::Launching("go".to_owned()), events),
        Ok((
            State::Exited(4),
            vec![
                Effect::ToClient(OutputChunk::StartReadingStdin),
                Effect::ToChild(ChildInput::Stdin(Bytes::from("in"))),
                Effect::ToClient(OutputChunk::StartReadingStdin),
                Effect::ToClient(OutputChunk::Stdout(Bytes::from("out"))),
                Effect::ToChild(ChildInput::StdinEOF),
                Effect::ToClient(OutputChunk::Stderr(Bytes::from("err"))),
                Effect::ToClient(OutputChunk::Exit(4)),
            ]
        ))
    );
    assert_eq!(
        run(
            &Config::default(),
            State::Executing,
            vec![Event::Client(InputChunk::Stdin(Bytes::from("in")))]
        ),
        Ok((State::Executing, vec![Effect::ToChild(ChildInput::Stdin(Bytes::from("in")))]))
    );
}

#[test]
fn a_command_that_was_not_launched_exits() {
    assert_eq!(
        run(
            &Config::default(),
            State::Launching("go".to_owned()),
            vec![Event::Launched(Err("no such file".to_owned()))]
        ),
        Ok((
            State::Exited(1),
            vec![
                Effect::ToClient(OutputChunk::Stderr(Bytes::from(
                    "Failed to launch child `go`: no such file\n"
                ))),
                Effect::ToClient(OutputChunk::Exit(1)),
            ]
        ))
    );
}

fn handles() -> Handles {
    Handles { client: "FramedWrite".to_owned(), channel: "Sender".to_owned() }
}

fn complaint(state: State, event: Event) -> String {
    step(&Config::default(), state, event).unwrap_err().error(&handles()).message
}

#[test]
fn events_without_a_place_are_errors() {
    let (state, _) = run(
        &Config::default(),
        start(),
        vec![
            Event::Client(InputChunk::Argument("a".to_owned())),
            Event::Client(InputChunk::Argument("b".to_owned())),
            Event::Client(InputChunk::Environment { key: "K".to_owned(), val: "v".to_owned() }),
        ],
    )
    .unwrap();
    assert_eq!(
        complaint(state, Event::Client(InputChunk::Command("go".to_owned()))),
        "Invalid event Client(Command(\"go\")) during phase \
         Initializing(FramedWrite, Sender, Args { args: [\"a\", \"b\"], env: [(\"K\", \"v\")] })"
    );
    assert_eq!(
        complaint(
            State::PreCommand(Args::default(), PathBuf::from("/w")),
            Event::Client(InputChunk::WorkingDir(PathBuf::from("/x")))
        ),
        "Invalid event Client(WorkingDir(\"/x\")) during phase \
         PreCommand(FramedWrite, Sender, Args { args: [], env: [] }, \"/w\")"
    );
    assert_eq!(
        complaint(State::Exited(2), Event::Process(ChildOutput::Stdout(Bytes::from("late")))),
        "Invalid event Process(Stdout(b\"late\")) during phase Exited(2)"
    );
    assert_eq!(
        complaint(State::Executing, Event::Launched(Ok(()))),
        "Invalid event Launched(Ok(())) during phase Executing(FramedWrite, Sender)"
    );
    assert_eq!(
        complaint(State::Executing, Event::Launched(Err("x".to_owned()))),
        "Invalid event Launched(Err(\"x\")) during phase Executing(FramedWrite, Sender)"
    );
    assert_eq!(
        complaint(
            State::Launching("go".to_owned()),
            Event::Process(ChildOutput::Exit(ExitCode(-1)))
        ),
        "Invalid event Process(Exit(-1)) during phase Launching(\"go\")"
    );
}

#[test]
fn descriptions_of_events_are_debug_forms() {
    for event in [
        Event::Client(InputChunk::Command("go".to_owned())),
        Event::Process(ChildOutput::Stderr(Bytes::from("e"))),
        Event::Launched(Ok(())),
        Event::Launched(Err("why\n".to_owned())),
    ] {
        assert_eq!(event.describe(), format!("{:?}", event));
    }
    assert_eq!(Event::Client(InputChunk::StdinEof).describe(), "Client(StdinEOF)");
    assert_eq!(Event::Process(ChildOutput::Exit(ExitCode(5))).describe(), "Process(Exit(5))");
    let mut args = Args::default();
    assert_eq!(args.describe(), format!("{:?}", args));
    args.args = vec!["x".to_owned(), "y".to_owned(), "z".to_owned()];
    args.env = vec![("a".to_owned(), "b".to_owned()), ("c".to_owned(), "d".to_owned())];
    assert_eq!(args.describe(), format!("{:?}", args));
    let state = State::Exited(-5);
    assert_eq!(state.describe(&handles()), format!("{:?}", state));
}

#[test]
fn heartbeats_are_always_in_place() {
    for state in [start(), State::Executing, State::Exited(0)] {
        let before = state.describe(&handles());
        let (after, effects) =
            step(&Config::default(), state, Event::Client(InputChunk::Heartbeat)).unwrap();
        assert_eq!(after.describe(&handles()), before);
        assert_eq!(effects, vec![]);
    }
}

#[test]
fn a_forked_process_sees_the_command_alone() {
    let plan = ForkNail.plan(command());
    assert_eq!(
        plan,
        Plan {
            program: "go".to_owned(),
            args: vec!["a".to_owned()],
            inherit_env: false,
            env: vec![("K".to_owned(), "v".to_owned())],
            working_dir: PathBuf::from("/w"),
            kill_on_drop: true,
        }
    );
}

#[test]
fn a_forked_process_is_fed_until_the_end() {
    assert_eq!(feed(Some(ChildInput::Stdin(Bytes::from("x")))), Some(Bytes::from("x")));
    assert_eq!(feed(Some(ChildInput::StdinEOF)), None);
    assert_eq!(feed(None), None);
}

#[test]
fn exit_codes_of_processes() {
    assert_eq!(exit_code(ProcessEnd::Ended(Some(3))), ExitCode(3));
    assert_eq!(exit_code(ProcessEnd::Ended(None)), ExitCode(-1));
    assert_eq!(exit_code(ProcessEnd::Unknown), ExitCode(-1));
}

#[test]
fn a_process_that_is_shut_down_is_killed_and_reaped() {
    let (state, action) = Supervision::Waiting.step(ProcessEvent::ShutdownRequested);
    assert_eq!(action, ProcessAction::Kill);
    let (state, action) = state.step(ProcessEvent::Killed);
    assert_eq!(action, ProcessAction::Reap);
    let (state, action) = state.step(ProcessEvent::Ended(ProcessEnd::Ended(None)));
    assert_eq!(action, ProcessAction::Tell(ExitCode(-1)));
    assert_eq!(state.step(ProcessEvent::ShutdownRequested), (state, ProcessAction::Wait));
    assert_eq!(
        Supervision::Killing.step(ProcessEvent::NotKilled),
        (Supervision::Done, ProcessAction::Tell(ExitCode(-1)))
    );
    assert_eq!(
        Supervision::Waiting.step(ProcessEvent::Ended(ProcessEnd::Ended(Some(0)))),
        (Supervision::Done, ProcessAction::Tell(ExitCode(0)))
    );
}

/// What is handed on over some events.
fn relayed(events: Vec<RelayEvent<()>>) -> Vec<ChildOutput> {
    let mut state = Relay::Draining;
    let mut relayed = Vec::new();
    for event in events {
        let (next, action) = state.step(event);
        state = next;
        match action {
            RelayAction::Send(output) | RelayAction::SendLast(output) => relayed.push(output),
            _ => {}
        }
    }
    relayed
}

#[test]
fn the_exit_code_comes_after_all_output() {
    let out = || ChildOutput::Stdout(Bytes::from("1"));
    let error = || ChildOutput::Stderr(Bytes::from("2"));
    let exit = |code| ChildOutput::Exit(ExitCode(code));
    assert_eq!(
        relayed(vec![
            RelayEvent::Output(Some(Ok(out()))),
            RelayEvent::Ended(ProcessEnd::Ended(Some(3))),
            RelayEvent::Output(Some(Ok(error()))),
            RelayEvent::Output(None),
            RelayEvent::Ended(ProcessEnd::Ended(Some(3))),
            RelayEvent::Output(Some(Ok(out()))),
        ]),
        vec![out(), error(), exit(3)]
    );
    assert_eq!(
        relayed(vec![RelayEvent::Output(None), RelayEvent::Ended(ProcessEnd::Ended(None))]),
        vec![exit(-1)]
    );
    // No code is told where the output cannot be read, or the process cannot be waited for.
    assert_eq!(
        relayed(vec![
            RelayEvent::Output(Some(Ok(out()))),
            RelayEvent::Output(Some(Err(()))),
            RelayEvent::Ended(ProcessEnd::Ended(Some(3))),
        ]),
        vec![out()]
    );
    assert_eq!(
        relayed(vec![RelayEvent::Output(None), RelayEvent::Ended(ProcessEnd::Unknown)]),
        vec![]
    );
}
