//! A server's side of a connection in which one task hears both the client and the command.
//!
//! The task is a machine ([`step`]): what it hears moves it from one state to another and tells it
//! what to do. The command tells its exit code as the last of its output.
use std::path::PathBuf;

use vstd::prelude::*;
use vstd::string::*;
use vstd::utf8::*;

pub use crate::error::err;

use crate::buffers::contents;
use crate::chunk::{
    input_text, wrapped, InputChunk, InputChunkView, OutputChunk, OutputChunkView,
};
use crate::client::{argument_chunks, command_chunks, environment_chunks};
use crate::config::Config;
use crate::error::{other_error, Error, ErrorKind, ErrorView};
use crate::execution::{
    output_chunk, ChildInput, ChildInputView, ChildOutput, ChildOutputView, Command, CommandView,
    ExitCode,
};
use crate::paths::{describe_path, path_bytes, path_text};
use crate::server::{
    launch_failure, launch_failure_text, lemma_filter_first, output_chunks, refusal,
    refusal_chunks, with_text,
};
use crate::text::{byte_string, decimal, decimal_text, quote, quote_bytes, quoted};

verus! {

/// What is gathered of a command before its working directory arrives.
#[derive(Debug, PartialEq, Eq)]
pub struct Args {
    /// The arguments.
    pub args: Vec<String>,
    /// The environment: names and values.
    pub env: Vec<(String, String)>,
}

/// An [`Args`] as a mathematical value.
pub struct ArgsView {
    /// The arguments.
    pub args: Seq<Seq<char>>,
    /// The environment: names and values.
    pub env: Seq<(Seq<char>, Seq<char>)>,
}

impl View for Args {
    type V = ArgsView;

    open spec fn view(&self) -> ArgsView {
        ArgsView { args: self.args.deep_view(), env: self.env.deep_view() }
    }
}

/// No arguments, and an empty environment.
pub open spec fn no_args() -> ArgsView {
    ArgsView { args: seq![], env: seq![] }
}

impl Default for Args {
    fn default() -> (args: Args)
        ensures
            args@ == no_args(),
    {
        let args = Args { args: Vec::new(), env: Vec::new() };
        assert(args@.args =~= seq![]);
        assert(args@.env =~= seq![]);
        args
    }
}

/// Where a connection stands.
#[derive(Debug, PartialEq, Eq)]
pub enum State {
    /// Arguments and environment are being gathered; the working directory has not arrived.
    Initializing(Args),
    /// The working directory has arrived, and the command is to arrive.
    PreCommand(Args, PathBuf),
    /// The command of this name is being launched. Nothing else is heard until it was, or was not.
    Launching(String),
    /// The command runs, and can be handed standard input.
    Executing,
    /// The command has ended, with this code.
    Exited(i32),
}

/// A [`State`] as a mathematical value.
pub enum StateView {
    /// Arguments and environment are being gathered; the working directory has not arrived.
    Initializing(ArgsView),
    /// The working directory has arrived, and the command is to arrive.
    PreCommand(ArgsView, Seq<u8>),
    /// The command of this name is being launched.
    Launching(Seq<char>),
    /// The command runs, and can be handed standard input.
    Executing,
    /// The command has ended, with this code.
    Exited(i32),
}

impl View for State {
    type V = StateView;

    open spec fn view(&self) -> StateView {
        match *self {
            State::Initializing(args) => StateView::Initializing(args@),
            State::PreCommand(args, working_dir) => StateView::PreCommand(
                args@,
                path_bytes(working_dir),
            ),
            State::Launching(name) => StateView::Launching(name@),
            State::Executing => StateView::Executing,
            State::Exited(code) => StateView::Exited(code),
        }
    }
}

/// What a connection hears.
#[derive(Debug, PartialEq, Eq)]
pub enum Event {
    /// A chunk from the client.
    Client(InputChunk),
    /// Some output of the command.
    Process(ChildOutput),
    /// The command was launched, or was not, for this reason.
    Launched(Result<(), String>),
}

/// An [`Event`] as a mathematical value.
pub enum EventView {
    /// A chunk from the client.
    Client(InputChunkView),
    /// Some output of the command.
    Process(ChildOutputView),
    /// The command was launched, or was not, for this reason.
    Launched(Result<(), Seq<char>>),
}

impl View for Event {
    type V = EventView;

    open spec fn view(&self) -> EventView {
        match *self {
            Event::Client(chunk) => EventView::Client(chunk@),
            Event::Process(output) => EventView::Process(output@),
            Event::Launched(result) => EventView::Launched(with_text(result)),
        }
    }
}

/// What a connection does. Effects are carried out in order; the connection ends at the first that
/// fails.
#[derive(Debug, PartialEq, Eq)]
pub enum Effect {
    /// Launch this command.
    Launch(Command),
    /// Write this to the client.
    ToClient(OutputChunk),
    /// Hand this to the command.
    ToChild(ChildInput),
}

/// An [`Effect`] as a mathematical value.
pub enum EffectView {
    /// Launch this command.
    Launch(CommandView),
    /// Write this to the client.
    ToClient(OutputChunkView),
    /// Hand this to the command.
    ToChild(ChildInputView),
}

impl View for Effect {
    type V = EffectView;

    open spec fn view(&self) -> EffectView {
        match *self {
            Effect::Launch(command) => EffectView::Launch(command@),
            Effect::ToClient(chunk) => EffectView::ToClient(chunk@),
            Effect::ToChild(input) => EffectView::ToChild(input@),
        }
    }
}

impl DeepView for Effect {
    type V = EffectView;

    open spec fn deep_view(&self) -> EffectView {
        self@
    }
}

/// Effects that write chunks to the client.
pub open spec fn to_client(chunks: Seq<OutputChunkView>) -> Seq<EffectView> {
    chunks.map_values(|chunk: OutputChunkView| EffectView::ToClient(chunk))
}

/// What a connection hears makes of its state, and what it then does; `None` where what it hears has
/// no place in the state. A heartbeat has a place in every state, and changes nothing.
pub open spec fn transition(
    noisy_stdin: bool,
    state: StateView,
    event: EventView,
) -> Option<(StateView, Seq<EffectView>)> {
    match (state, event) {
        (StateView::Initializing(args), EventView::Client(InputChunkView::Argument(arg))) => Some(
            (StateView::Initializing(ArgsView { args: args.args.push(arg), ..args }), seq![]),
        ),
        (
            StateView::Initializing(args),
            EventView::Client(InputChunkView::Environment { key, val }),
        ) => Some(
            (StateView::Initializing(ArgsView { env: args.env.push((key, val)), ..args }), seq![]),
        ),
        (StateView::Initializing(args), EventView::Client(InputChunkView::WorkingDir(path))) => Some(
            (StateView::PreCommand(args, path), seq![]),
        ),
        (
            StateView::PreCommand(args, working_dir),
            EventView::Client(InputChunkView::Command(command)),
        ) => Some(
            (
                StateView::Launching(command),
                seq![
                    EffectView::Launch(
                        CommandView { command, args: args.args, env: args.env, working_dir },
                    ),
                ],
            ),
        ),
        (StateView::Launching(_), EventView::Launched(Ok(_))) => Some(
            (StateView::Executing, to_client(seq![OutputChunkView::StartReadingStdin])),
        ),
        (StateView::Launching(command), EventView::Launched(Err(reason))) => Some(
            (StateView::Exited(1), to_client(refusal_chunks(launch_failure(command, reason)))),
        ),
        (StateView::Executing, EventView::Client(InputChunkView::Stdin(bytes))) => Some(
            (
                StateView::Executing,
                if noisy_stdin {
                    seq![
                        EffectView::ToChild(ChildInputView::Stdin(bytes)),
                        EffectView::ToClient(OutputChunkView::StartReadingStdin),
                    ]
                } else {
                    seq![EffectView::ToChild(ChildInputView::Stdin(bytes))]
                },
            ),
        ),
        (StateView::Executing, EventView::Client(InputChunkView::StdinEof)) => Some(
            (StateView::Executing, seq![EffectView::ToChild(ChildInputView::StdinEOF)]),
        ),
        (StateView::Executing, EventView::Process(output)) => Some(
            (
                match output {
                    ChildOutputView::Exit(code) => StateView::Exited(code.0),
                    _ => StateView::Executing,
                },
                to_client(seq![output_chunk(output)]),
            ),
        ),
        (_, EventView::Client(InputChunkView::Heartbeat)) => Some((state, seq![])),
        _ => None,
    }
}

/// How a message shows a list, given how it shows each item.
pub open spec fn list_text(items: Seq<Seq<char>>) -> Seq<char>
    decreases items.len(),
{
    if items.len() == 0 {
        seq![]
    } else if items.len() == 1 {
        items[0]
    } else {
        list_text(items.drop_last()) + ", "@ + items.last()
    }
}

/// How a message shows a variable.
pub open spec fn pair_text(pair: (Seq<char>, Seq<char>)) -> Seq<char> {
    "("@ + quoted(pair.0) + ", "@ + quoted(pair.1) + ")"@
}

/// How a message shows what was gathered of a command.
pub open spec fn args_text(args: ArgsView) -> Seq<char> {
    "Args { args: ["@ + list_text(args.args.map_values(|s: Seq<char>| quoted(s))) + "], env: ["@
        + list_text(args.env.map_values(|pair: (Seq<char>, Seq<char>)| pair_text(pair))) + "] }"@
}

/// How a message shows what a connection holds beside its state.
#[derive(Debug, PartialEq, Eq)]
pub struct Handles {
    /// The half of the transport that writes to the client.
    pub client: String,
    /// The channel to the command's standard input once it runs; before that, the channel that its
    /// output will go to.
    pub channel: String,
}

/// A [`Handles`] as a mathematical value.
pub struct HandlesView {
    /// The half of the transport that writes to the client.
    pub client: Seq<char>,
    /// The channel to the command's standard input, or that its output will go to.
    pub channel: Seq<char>,
}

impl View for Handles {
    type V = HandlesView;

    open spec fn view(&self) -> HandlesView {
        HandlesView { client: self.client@, channel: self.channel@ }
    }
}

/// How a message shows the handles of a connection.
pub open spec fn handles_text(handles: HandlesView) -> Seq<char> {
    handles.client + ", "@ + handles.channel
}

/// How a message shows where a connection stands, with the handles that it holds there.
pub open spec fn state_text(state: StateView, handles: HandlesView) -> Seq<char> {
    match state {
        StateView::Initializing(args) => "Initializing("@ + (handles_text(handles) + ", "@
            + args_text(args)) + ")"@,
        StateView::PreCommand(args, path) => "PreCommand("@ + (handles_text(handles) + ", "@
            + args_text(args) + ", "@ + path_text(path)) + ")"@,
        StateView::Launching(command) => "Launching("@ + quoted(command) + ")"@,
        StateView::Executing => "Executing("@ + handles_text(handles) + ")"@,
        StateView::Exited(code) => "Exited("@ + decimal(code as int) + ")"@,
    }
}

/// How a message shows some output of a command.
pub open spec fn child_output_text(output: ChildOutputView) -> Seq<char> {
    match output {
        ChildOutputView::Stdout(bytes) => "Stdout("@ + byte_string(bytes) + ")"@,
        ChildOutputView::Stderr(bytes) => "Stderr("@ + byte_string(bytes) + ")"@,
        ChildOutputView::Exit(code) => "Exit("@ + decimal(code.0 as int) + ")"@,
    }
}

/// How a message shows a chunk from the client. The end of standard input goes by the name that it has
/// where it is handed to the command.
pub open spec fn client_text(chunk: InputChunkView) -> Seq<char> {
    match chunk {
        InputChunkView::StdinEof => "StdinEOF"@,
        _ => input_text(chunk),
    }
}

/// How a message shows what a connection hears.
pub open spec fn event_text(event: EventView) -> Seq<char> {
    match event {
        EventView::Client(chunk) => "Client("@ + client_text(chunk) + ")"@,
        EventView::Process(output) => "Process("@ + child_output_text(output) + ")"@,
        EventView::Launched(Ok(_)) => "Launched(Ok(()))"@,
        EventView::Launched(Err(reason)) => "Launched("@ + ("Err("@ + quoted(reason) + ")"@) + ")"@,
    }
}

/// The complaint about what was heard in a state in which it has no place.
pub open spec fn invalid_event(event: Seq<char>, state: Seq<char>) -> ErrorView {
    other_error("Invalid event "@ + event + " during phase "@ + state)
}

/// The complaint about what was heard in a state in which it has no place, given how a message shows
/// them.
pub fn invalid(event: &str, state: &str) -> (error: Error)
    ensures
        error@ == invalid_event(event@, state@),
{
    let mut message = "Invalid event ".to_owned();
    message.append(event);
    message.append(" during phase ");
    message.append(state);
    err(message.as_str())
}

/// Items as a message shows a list of them.
fn describe_list(items: &Vec<String>) -> (text: String)
    ensures
        text@ == list_text(items.deep_view()),
{
    let mut text = String::new();
    let mut i: usize = 0;
    assert(items.deep_view().take(0) =~= seq![]);
    while i < items.len()
        invariant
            i <= items@.len(),
            text@ == list_text(items.deep_view().take(i as int)),
        decreases items@.len() - i,
    {
        let ghost shown = items.deep_view().take(i as int);
        let ghost next = items.deep_view().take(i + 1);
        if i > 0 {
            text.append(", ");
        }
        text.append(items[i].as_str());
        assert(next.drop_last() =~= shown);
        assert(next.last() == items@[i as int]@);
        assert(text@ =~= list_text(next));
        i = i + 1;
    }
    assert(items.deep_view().take(items@.len() as int) =~= items.deep_view());
    text
}

/// A variable as a message shows it.
fn describe_pair(pair: &(String, String)) -> (text: String)
    ensures
        text@ == pair_text((pair.0@, pair.1@)),
{
    let mut text = "(".to_owned();
    text.append(quote(pair.0.as_str()).as_str());
    text.append(", ");
    wrapped(text.as_str(), quote(pair.1.as_str()).as_str())
}

impl Args {
    /// What was gathered of a command, as a message shows it.
    pub fn describe(&self) -> (text: String)
        ensures
            text@ == args_text(self@),
    {
        let ghost quote_arg = |s: Seq<char>| quoted(s);
        let ghost quote_pair = |pair: (Seq<char>, Seq<char>)| pair_text(pair);
        let mut args: Vec<String> = Vec::new();
        for i in 0..self.args.len()
            invariant
                args@.len() == i,
                forall|j: int| 0 <= j < i ==> #[trigger] args@[j]@ == quoted(self.args@[j]@),
        {
            args.push(quote(self.args[i].as_str()));
        }
        assert(args.deep_view() =~= self@.args.map_values(quote_arg));
        let mut env: Vec<String> = Vec::new();
        for i in 0..self.env.len()
            invariant
                env@.len() == i,
                forall|j: int|
                    0 <= j < i ==> #[trigger] env@[j]@ == pair_text(
                        (self.env@[j].0@, self.env@[j].1@),
                    ),
        {
            env.push(describe_pair(&self.env[i]));
        }
        assert(env.deep_view() =~= self@.env.map_values(quote_pair));
        let mut text = "Args { args: [".to_owned();
        text.append(describe_list(&args).as_str());
        text.append("], env: [");
        text.append(describe_list(&env).as_str());
        text.append("] }");
        text
    }
}

impl Handles {
    /// The handles, as a message shows them.
    fn describe(&self) -> (text: String)
        ensures
            text@ == handles_text(self@),
    {
        let mut text = self.client.clone();
        text.append(", ");
        text.append(self.channel.as_str());
        text
    }
}

impl State {
    /// Where the connection stands, with the handles that it holds there, as a message shows it.
    pub fn describe(&self, handles: &Handles) -> (text: String)
        ensures
            text@ == state_text(self@, handles@),
    {
        let mut inner = handles.describe();
        match self {
            State::Initializing(args) => {
                inner.append(", ");
                inner.append(args.describe().as_str());
                wrapped("Initializing(", inner.as_str())
            },
            State::PreCommand(args, path) => {
                inner.append(", ");
                inner.append(args.describe().as_str());
                inner.append(", ");
                inner.append(describe_path(path).as_str());
                wrapped("PreCommand(", inner.as_str())
            },
            State::Launching(command) => wrapped("Launching(", quote(command.as_str()).as_str()),
            State::Executing => wrapped("Executing(", inner.as_str()),
            State::Exited(code) => wrapped("Exited(", decimal_text(*code as i64).as_str()),
        }
    }
}

/// Some output of a command, as a message shows it.
fn describe_output(output: &ChildOutput) -> (text: String)
    ensures
        text@ == child_output_text(output@),
{
    match output {
        ChildOutput::Stdout(bytes) => wrapped("Stdout(", quote_bytes(bytes).as_str()),
        ChildOutput::Stderr(bytes) => wrapped("Stderr(", quote_bytes(bytes).as_str()),
        ChildOutput::Exit(code) => wrapped("Exit(", decimal_text(code.0 as i64).as_str()),
    }
}

/// A chunk from the client, as a message shows it.
fn describe_chunk(chunk: &InputChunk) -> (text: String)
    ensures
        text@ == client_text(chunk@),
{
    match chunk {
        InputChunk::StdinEof => "StdinEOF".to_owned(),
        _ => chunk.describe(),
    }
}

impl Event {
    /// What was heard, as a message shows it.
    pub fn describe(&self) -> (text: String)
        ensures
            text@ == event_text(self@),
    {
        match self {
            Event::Client(chunk) => wrapped("Client(", describe_chunk(chunk).as_str()),
            Event::Process(output) => wrapped("Process(", describe_output(output).as_str()),
            Event::Launched(Ok(_)) => "Launched(Ok(()))".to_owned(),
            Event::Launched(Err(reason)) => wrapped(
                "Launched(",
                wrapped("Err(", quote(reason.as_str()).as_str()).as_str(),
            ),
        }
    }
}

/// Writes chunks to the client.
fn sending(chunks: Vec<OutputChunk>) -> (effects: Vec<Effect>)
    ensures
        effects.deep_view() == to_client(chunks.deep_view()),
{
    let mut effects: Vec<Effect> = Vec::new();
    for chunk in iter: chunks
        invariant
            iter.seq() == chunks@,
            effects@.len() == iter.index(),
            forall|i: int|
                0 <= i < effects@.len() ==> #[trigger] effects@[i]@ == EffectView::ToClient(
                    chunks@[i]@,
                ),
    {
        effects.push(Effect::ToClient(chunk));
    }
    assert(effects.deep_view() =~= to_client(chunks.deep_view()));
    effects
}

/// One effect alone.
fn only(effect: Effect) -> (effects: Vec<Effect>)
    ensures
        effects.deep_view() == seq![effect@],
{
    let mut effects: Vec<Effect> = Vec::new();
    effects.push(effect);
    assert(effects.deep_view() =~= seq![effect@]);
    effects
}

/// No effect.
fn nothing() -> (effects: Vec<Effect>)
    ensures
        effects.deep_view() == Seq::<EffectView>::empty(),
{
    let effects: Vec<Effect> = Vec::new();
    assert(effects.deep_view() =~= Seq::<EffectView>::empty());
    effects
}

/// The state in which a connection begins.
pub fn start() -> (state: State)
    ensures
        state@ == StateView::Initializing(no_args()),
{
    State::Initializing(Args::default())
}

/// What was heard in a state in which it has no place.
#[derive(Debug, PartialEq, Eq)]
pub struct Refused {
    /// The state of the connection.
    pub state: State,
    /// What was heard.
    pub event: Event,
}

impl Refused {
    /// The error that ends the connection, given how a message shows the handles that it holds.
    pub fn error(&self, handles: &Handles) -> (error: Error)
        ensures
            error@ == invalid_event(
                event_text(self.event@),
                state_text(self.state@, handles@),
            ),
    {
        invalid(self.event.describe().as_str(), self.state.describe(handles).as_str())
    }
}

/// Moves a connection on by what it hears: the state in which that leaves it and what it does. Where
/// what it hears has no place, the connection ends with an error ([`Refused::error`]).
pub fn step(config: &Config, state: State, event: Event) -> (result: Result<
    (State, Vec<Effect>),
    Refused,
>)
    ensures
        match transition(config.noisy_stdin, state@, event@) {
            Some((next, effects)) => result matches Ok((s, e)) && s@ == next && e.deep_view()
                == effects,
            None => result matches Err(refused) && refused.state@ == state@ && refused.event@
                == event@,
        },
{
    match (state, event) {
        (State::Initializing(gathered), Event::Client(InputChunk::Argument(arg))) => {
            let mut args = gathered;
            args.args.push(arg);
            assert(args@.args =~= gathered@.args.push(arg@));
            Ok((State::Initializing(args), nothing()))
        },
        (State::Initializing(gathered), Event::Client(InputChunk::Environment { key, val })) => {
            let mut args = gathered;
            args.env.push((key, val));
            assert(args@.env =~= gathered@.env.push((key@, val@)));
            Ok((State::Initializing(args), nothing()))
        },
        (State::Initializing(args), Event::Client(InputChunk::WorkingDir(working_dir))) => Ok(
            (State::PreCommand(args, working_dir), nothing()),
        ),
        (State::PreCommand(gathered, working_dir), Event::Client(InputChunk::Command(command))) => {
            let Args { args, env } = gathered;
            let name = command.clone();
            let launch = Effect::Launch(Command { command, args, env, working_dir });
            Ok((State::Launching(name), only(launch)))
        },
        (State::Launching(command), Event::Launched(launched)) => match launched {
            Ok(_) => {
                let effects = only(Effect::ToClient(OutputChunk::StartReadingStdin));
                assert(effects.deep_view() =~= to_client(seq![OutputChunkView::StartReadingStdin]));
                Ok((State::Executing, effects))
            },
            Err(reason) => {
                let text = launch_failure_text(command.as_str(), reason.as_str());
                Ok((State::Exited(1), sending(refusal(text))))
            },
        },
        (State::Executing, Event::Client(InputChunk::Stdin(bytes))) => {
            let mut effects: Vec<Effect> = Vec::new();
            effects.push(Effect::ToChild(ChildInput::Stdin(bytes)));
            // A client that requires it is asked for more after every chunk.
            if config.noisy_stdin {
                effects.push(Effect::ToClient(OutputChunk::StartReadingStdin));
            }
            assert(effects.deep_view() =~= transition(
                config.noisy_stdin,
                StateView::Executing,
                EventView::Client(InputChunkView::Stdin(contents(bytes))),
            ).unwrap().1);
            Ok((State::Executing, effects))
        },
        (State::Executing, Event::Client(InputChunk::StdinEof)) => Ok(
            (State::Executing, only(Effect::ToChild(ChildInput::StdinEOF))),
        ),
        (State::Executing, Event::Process(output)) => {
            let next = match &output {
                ChildOutput::Exit(code) => State::Exited(code.0),
                _ => State::Executing,
            };
            let effects = only(Effect::ToClient(OutputChunk::from(output)));
            assert(effects.deep_view() =~= to_client(seq![output_chunk(output@)]));
            Ok((next, effects))
        },
        // Always in place, and ignored.
        (state, Event::Client(InputChunk::Heartbeat)) => Ok((state, nothing())),
        (state, event) => Err(Refused { state, event }),
    }
}

/// What some events make of a connection, and what it does over them; `None` where one of them has
/// no place.
pub open spec fn run(noisy_stdin: bool, state: StateView, events: Seq<EventView>) -> Option<
    (StateView, Seq<EffectView>),
>
    decreases events.len(),
{
    if events.len() == 0 {
        Some((state, seq![]))
    } else {
        match transition(noisy_stdin, state, events[0]) {
            None => None,
            Some((next, effects)) => match run(noisy_stdin, next, events.drop_first()) {
                None => None,
                Some((end, later)) => Some((end, effects + later)),
            },
        }
    }
}

/// A command that has ended is over: only heartbeats still have a place, and they change nothing.
pub proof fn law_exited_is_final(noisy_stdin: bool, code: i32, events: Seq<EventView>)
    ensures
        run(noisy_stdin, StateView::Exited(code), events) is Some <==> forall|i: int|
            0 <= i < events.len() ==> #[trigger] events[i] == EventView::Client(
                InputChunkView::Heartbeat,
            ),
        run(noisy_stdin, StateView::Exited(code), events) matches Some((end, effects)) ==> {
            &&& end == StateView::Exited(code)
            &&& effects == Seq::<EffectView>::empty()
        },
    decreases events.len(),
{
    if events.len() > 0 {
        let rest = events.drop_first();
        law_exited_is_final(noisy_stdin, code, rest);
        assert forall|i: int| 0 <= i < rest.len() implies rest[i] == #[trigger] events[i + 1] by {}
        let heartbeat = EventView::Client(InputChunkView::Heartbeat);
        if events[0] == heartbeat {
            if forall|i: int| 0 <= i < rest.len() ==> #[trigger] rest[i] == heartbeat {
                assert forall|i: int| 0 <= i < events.len() implies #[trigger] events[i]
                    == heartbeat by {
                    if i > 0 {
                        assert(events[i] == rest[i - 1]);
                    }
                }
            } else {
                let i = choose|i: int| 0 <= i < rest.len() && #[trigger] rest[i] != heartbeat;
                assert(events[i + 1] != heartbeat);
            }
        } else {
            assert(transition(noisy_stdin, StateView::Exited(code), events[0]) is None);
        }
    }
}

/// The code with which its command ended is the last that a client hears, and the connection ends in
/// the state that tells the same code.
pub proof fn law_exit_is_last(
    noisy_stdin: bool,
    state: StateView,
    events: Seq<EventView>,
    i: int,
    code: i32,
)
    requires
        run(noisy_stdin, state, events) matches Some((end, effects)) && 0 <= i < effects.len()
            && effects[i] == EffectView::ToClient(OutputChunkView::Exit(code)),
    ensures
        run(noisy_stdin, state, events) matches Some((end, effects)) && i == effects.len() - 1
            && end == StateView::Exited(code),
    decreases events.len(),
{
    let rest = events.drop_first();
    let (next, now) = transition(noisy_stdin, state, events[0]).unwrap();
    let (end, later) = run(noisy_stdin, next, rest).unwrap();
    if i < now.len() {
        assert((now + later)[i] == now[i]);
        law_exited_is_final(noisy_stdin, code, rest);
    } else {
        assert((now + later)[i] == later[i - now.len()]);
        law_exit_is_last(noisy_stdin, next, rest, i - now.len(), code);
    }
}

/// A connection launches one command at most, and none once a command was launched.
pub proof fn law_one_launch(
    noisy_stdin: bool,
    state: StateView,
    events: Seq<EventView>,
    i: int,
    j: int,
)
    requires
        run(noisy_stdin, state, events) matches Some((end, effects)) && 0 <= i < effects.len() && 0
            <= j < effects.len() && effects[i] is Launch && effects[j] is Launch,
    ensures
        i == j,
        state is Initializing || state is PreCommand,
    decreases events.len(),
{
    let rest = events.drop_first();
    let (next, now) = transition(noisy_stdin, state, events[0]).unwrap();
    let (end, later) = run(noisy_stdin, next, rest).unwrap();
    let n = now.len() as int;
    assert(i < n ==> (now + later)[i] == now[i]);
    assert(j < n ==> (now + later)[j] == now[j]);
    assert(i >= n ==> (now + later)[i] == later[i - n]);
    assert(j >= n ==> (now + later)[j] == later[j - n]);
    if i >= n {
        law_one_launch(noisy_stdin, next, rest, i - n, i - n);
    }
    if j >= n {
        law_one_launch(noisy_stdin, next, rest, j - n, j - n);
    }
    if i >= n && j >= n {
        law_one_launch(noisy_stdin, next, rest, i - n, j - n);
    }
}

/// Heartbeats change nothing about a connection.
pub proof fn law_heartbeats_ignored(noisy_stdin: bool, state: StateView, events: Seq<EventView>)
    ensures
        run(noisy_stdin, state, events) == run(
            noisy_stdin,
            state,
            events.filter(|e: EventView| e != EventView::Client(InputChunkView::Heartbeat)),
        ),
    decreases events.len(),
{
    let keep = |e: EventView| e != EventView::Client(InputChunkView::Heartbeat);
    if events.len() == 0 {
        assert(events.filter(keep) =~= events);
    } else {
        let rest = events.drop_first();
        lemma_filter_first(events, keep);
        match transition(noisy_stdin, state, events[0]) {
            Some((next, effects)) => {
                law_heartbeats_ignored(noisy_stdin, next, rest);
                if keep(events[0]) {
                    assert((seq![events[0]] + rest.filter(keep)).drop_first() =~= rest.filter(keep));
                } else {
                    match run(noisy_stdin, state, rest) {
                        Some((_, later)) => {
                            assert(effects + later =~= later);
                        },
                        None => {},
                    }
                }
            },
            None => {},
        }
    }
}

/// Events that follow one another act as one sequence of events.
proof fn lemma_run_in_parts(
    noisy_stdin: bool,
    state: StateView,
    first: Seq<EventView>,
    second: Seq<EventView>,
)
    ensures
        run(noisy_stdin, state, first + second) == (match run(noisy_stdin, state, first) {
            None => None,
            Some((middle, effects)) => match run(noisy_stdin, middle, second) {
                None => None,
                Some((end, later)) => Some((end, effects + later)),
            },
        }),
    decreases first.len(),
{
    if first.len() == 0 {
        assert(first + second =~= second);
        match run(noisy_stdin, state, second) {
            Some((_, later)) => {
                assert(Seq::<EffectView>::empty() + later =~= later);
            },
            None => {},
        }
    } else {
        assert((first + second).drop_first() =~= first.drop_first() + second);
        match transition(noisy_stdin, state, first[0]) {
            Some((next, now)) => {
                lemma_run_in_parts(noisy_stdin, next, first.drop_first(), second);
                match run(noisy_stdin, next, first.drop_first()) {
                    Some((middle, effects)) => match run(noisy_stdin, middle, second) {
                        Some((_, later)) => {
                            assert(now + (effects + later) =~= (now + effects) + later);
                        },
                        None => {},
                    },
                    None => {},
                }
            },
            None => {},
        }
    }
}

/// Chunks from the client as a connection hears them.
pub open spec fn as_events(chunks: Seq<InputChunkView>) -> Seq<EventView> {
    chunks.map_values(|chunk: InputChunkView| EventView::Client(chunk))
}

proof fn lemma_arguments_gathered(noisy_stdin: bool, gathered: ArgsView, args: Seq<Seq<char>>)
    ensures
        run(noisy_stdin, StateView::Initializing(gathered), as_events(argument_chunks(args)))
            == Some(
            (
                StateView::Initializing(ArgsView { args: gathered.args + args, ..gathered }),
                Seq::<EffectView>::empty(),
            ),
        ),
    decreases args.len(),
{
    if args.len() == 0 {
        assert(gathered.args + args =~= gathered.args);
    } else {
        let next = ArgsView { args: gathered.args.push(args[0]), ..gathered };
        let rest = args.drop_first();
        lemma_arguments_gathered(noisy_stdin, next, rest);
        assert(as_events(argument_chunks(args)).drop_first() =~= as_events(argument_chunks(rest)));
        assert(next.args + rest =~= gathered.args + args);
        assert(Seq::<EffectView>::empty() + Seq::<EffectView>::empty() =~= seq![]);
    }
}

proof fn lemma_environment_gathered(
    noisy_stdin: bool,
    gathered: ArgsView,
    env: Seq<(Seq<char>, Seq<char>)>,
)
    ensures
        run(noisy_stdin, StateView::Initializing(gathered), as_events(environment_chunks(env)))
            == Some(
            (
                StateView::Initializing(ArgsView { env: gathered.env + env, ..gathered }),
                Seq::<EffectView>::empty(),
            ),
        ),
    decreases env.len(),
{
    if env.len() == 0 {
        assert(gathered.env + env =~= gathered.env);
    } else {
        let next = ArgsView { env: gathered.env.push(env[0]), ..gathered };
        let rest = env.drop_first();
        lemma_environment_gathered(noisy_stdin, next, rest);
        assert(as_events(environment_chunks(env)).drop_first() =~= as_events(
            environment_chunks(rest),
        ));
        assert(next.env + rest =~= gathered.env + env);
        assert(Seq::<EffectView>::empty() + Seq::<EffectView>::empty() =~= seq![]);
    }
}

/// The chunks of a command make a connection launch that command, and do nothing else.
pub proof fn law_command_is_launched(noisy_stdin: bool, cmd: CommandView)
    ensures
        run(
            noisy_stdin,
            StateView::Initializing(no_args()),
            as_events(command_chunks(cmd)),
        ) == Some((StateView::Launching(cmd.command), seq![EffectView::Launch(cmd)])),
{
    let args = as_events(argument_chunks(cmd.args));
    let env = as_events(environment_chunks(cmd.env));
    let end = seq![
        EventView::Client(InputChunkView::WorkingDir(cmd.working_dir)),
        EventView::Client(InputChunkView::Command(cmd.command)),
    ];
    let begin = StateView::Initializing(no_args());
    let with_args = ArgsView { args: cmd.args, ..no_args() };
    let with_env = ArgsView { env: cmd.env, ..with_args };
    lemma_arguments_gathered(noisy_stdin, no_args(), cmd.args);
    assert(no_args().args + cmd.args =~= cmd.args);
    lemma_environment_gathered(noisy_stdin, with_args, cmd.env);
    assert(with_args.env + cmd.env =~= cmd.env);
    lemma_run_in_parts(noisy_stdin, begin, args, env);
    lemma_run_in_parts(noisy_stdin, begin, args + env, end);
    assert(Seq::<EffectView>::empty() + Seq::<EffectView>::empty() =~= seq![]);
    reveal_with_fuel(run, 3);
    assert(end.drop_first().drop_first() =~= seq![]);
    let launched = run(noisy_stdin, StateView::Initializing(with_env), end);
    assert(launched is Some);
    assert(launched.unwrap().1 =~= seq![EffectView::Launch(cmd)]);
    assert(Seq::<EffectView>::empty() + launched.unwrap().1 =~= launched.unwrap().1);
    assert(as_events(command_chunks(cmd)) =~= args + env + end);
}

/// Output of a command as a connection hears it, with the code with which it ended.
pub open spec fn ended_run(outputs: Seq<ChildOutputView>, code: ExitCode) -> Seq<EventView> {
    outputs.push(ChildOutputView::Exit(code)).map_values(
        |output: ChildOutputView| EventView::Process(output),
    )
}

/// A client hears all of the output of its command, in order, and then the code with which it ended.
pub proof fn law_output_then_exit(
    noisy_stdin: bool,
    outputs: Seq<ChildOutputView>,
    code: ExitCode,
)
    requires
        forall|i: int| 0 <= i < outputs.len() ==> !(#[trigger] outputs[i] is Exit),
    ensures
        run(noisy_stdin, StateView::Executing, ended_run(outputs, code)) == Some(
            (
                StateView::Exited(code.0),
                to_client(output_chunks(outputs).push(OutputChunkView::Exit(code.0))),
            ),
        ),
    decreases outputs.len(),
{
    let events = ended_run(outputs, code);
    let told = to_client(output_chunks(outputs).push(OutputChunkView::Exit(code.0)));
    if outputs.len() == 0 {
        reveal_with_fuel(run, 2);
        assert(events.drop_first() =~= seq![]);
        assert(run(noisy_stdin, StateView::Executing, events).unwrap().1 =~= told);
    } else {
        let rest = outputs.drop_first();
        assert forall|i: int| 0 <= i < rest.len() implies !(#[trigger] rest[i] is Exit) by {
            assert(rest[i] == outputs[i + 1]);
        }
        assert(!(outputs[0] is Exit));
        law_output_then_exit(noisy_stdin, rest, code);
        assert(events.drop_first() =~= ended_run(rest, code));
        assert(run(noisy_stdin, StateView::Executing, events).unwrap().1 =~= told);
    }
}

/// What arrives of a command is added to what has arrived; the directory ends the lists, and the name
/// launches the command with all that was gathered.
pub proof fn law_gathering(
    noisy_stdin: bool,
    args: ArgsView,
    s: Seq<char>,
    t: Seq<char>,
    path: Seq<u8>,
)
    ensures
        transition(
            noisy_stdin,
            StateView::Initializing(args),
            EventView::Client(InputChunkView::Argument(s)),
        ) == Some(
            (
                StateView::Initializing(ArgsView { args: args.args.push(s), env: args.env }),
                Seq::<EffectView>::empty(),
            ),
        ),
        transition(
            noisy_stdin,
            StateView::Initializing(args),
            EventView::Client(InputChunkView::Environment { key: s, val: t }),
        ) == Some(
            (
                StateView::Initializing(ArgsView { args: args.args, env: args.env.push((s, t)) }),
                Seq::<EffectView>::empty(),
            ),
        ),
        transition(
            noisy_stdin,
            StateView::Initializing(args),
            EventView::Client(InputChunkView::WorkingDir(path)),
        ) == Some((StateView::PreCommand(args, path), Seq::<EffectView>::empty())),
        transition(
            noisy_stdin,
            StateView::PreCommand(args, path),
            EventView::Client(InputChunkView::Command(s)),
        ) == Some(
            (
                StateView::Launching(s),
                seq![
                    EffectView::Launch(
                        CommandView {
                            command: s,
                            args: args.args,
                            env: args.env,
                            working_dir: path,
                        },
                    ),
                ],
            ),
        ),
        no_args().args.len() == 0,
        no_args().env.len() == 0,
{
}

/// A client is asked for standard input once its command runs; one whose command was not launched hears
/// why, and a code that stands for failure.
pub proof fn law_launched(noisy_stdin: bool, name: Seq<char>, reason: Seq<char>)
    ensures
        transition(noisy_stdin, StateView::Launching(name), EventView::Launched(Ok(()))) == Some(
            (
                StateView::Executing,
                seq![EffectView::ToClient(OutputChunkView::StartReadingStdin)],
            ),
        ),
        transition(noisy_stdin, StateView::Launching(name), EventView::Launched(Err(reason)))
            == Some(
            (
                StateView::Exited(1),
                seq![
                    EffectView::ToClient(
                        OutputChunkView::Stderr(
                            encode_utf8(
                                "Failed to launch child `"@ + name + "`: "@ + reason + "\n"@,
                            ),
                        ),
                    ),
                    EffectView::ToClient(OutputChunkView::Exit(1)),
                ],
            ),
        ),
{
    let chunks = refusal_chunks(launch_failure(name, reason));
    assert(to_client(chunks) =~= seq![
        EffectView::ToClient(chunks[0]),
        EffectView::ToClient(chunks[1]),
    ]);
    let asked = seq![OutputChunkView::StartReadingStdin];
    assert(to_client(asked) =~= seq![EffectView::ToClient(OutputChunkView::StartReadingStdin)]);
}

/// A command that runs is handed standard input with the very bytes, and its end; a client that requires
/// it is asked for more after each chunk, and no other client is.
pub proof fn law_feeding(bytes: Seq<u8>)
    ensures
        transition(false, StateView::Executing, EventView::Client(InputChunkView::Stdin(bytes)))
            == Some(
            (StateView::Executing, seq![EffectView::ToChild(ChildInputView::Stdin(bytes))]),
        ),
        transition(true, StateView::Executing, EventView::Client(InputChunkView::Stdin(bytes)))
            == Some(
            (
                StateView::Executing,
                seq![
                    EffectView::ToChild(ChildInputView::Stdin(bytes)),
                    EffectView::ToClient(OutputChunkView::StartReadingStdin),
                ],
            ),
        ),
        forall|noisy_stdin: bool|
            #[trigger] transition(
                noisy_stdin,
                StateView::Executing,
                EventView::Client(InputChunkView::StdinEof),
            ) == Some(
                (StateView::Executing, seq![EffectView::ToChild(ChildInputView::StdinEOF)]),
            ),
{
}

/// Output of a command that runs is written as it is, at once; its very code ends the connection.
pub proof fn law_relaying(noisy_stdin: bool, bytes: Seq<u8>, code: i32)
    ensures
        transition(
            noisy_stdin,
            StateView::Executing,
            EventView::Process(ChildOutputView::Stdout(bytes)),
        ) == Some(
            (
                StateView::Executing,
                seq![EffectView::ToClient(OutputChunkView::Stdout(bytes))],
            ),
        ),
        transition(
            noisy_stdin,
            StateView::Executing,
            EventView::Process(ChildOutputView::Stderr(bytes)),
        ) == Some(
            (
                StateView::Executing,
                seq![EffectView::ToClient(OutputChunkView::Stderr(bytes))],
            ),
        ),
        transition(
            noisy_stdin,
            StateView::Executing,
            EventView::Process(ChildOutputView::Exit(ExitCode(code))),
        ) == Some(
            (StateView::Exited(code), seq![EffectView::ToClient(OutputChunkView::Exit(code))]),
        ),
{
    assert(to_client(seq![OutputChunkView::Stdout(bytes)]) =~= seq![
        EffectView::ToClient(OutputChunkView::Stdout(bytes)),
    ]);
    assert(to_client(seq![OutputChunkView::Stderr(bytes)]) =~= seq![
        EffectView::ToClient(OutputChunkView::Stderr(bytes)),
    ]);
    assert(to_client(seq![OutputChunkView::Exit(code)]) =~= seq![
        EffectView::ToClient(OutputChunkView::Exit(code)),
    ]);
}

/// Each event has its place: arguments, variables and the directory while a command is gathered, its
/// name after the directory, whether it was launched while it is, standard input and output while it
/// runs, and a heartbeat always. Everything else is refused.
pub proof fn law_places(noisy_stdin: bool, state: StateView, event: EventView)
    ensures
        transition(noisy_stdin, state, event) is Some <==> match event {
            EventView::Client(InputChunkView::Argument(_)) => state is Initializing,
            EventView::Client(InputChunkView::Environment { .. }) => state is Initializing,
            EventView::Client(InputChunkView::WorkingDir(_)) => state is Initializing,
            EventView::Client(InputChunkView::Command(_)) => state is PreCommand,
            EventView::Client(InputChunkView::Heartbeat) => true,
            EventView::Client(InputChunkView::Stdin(_)) => state is Executing,
            EventView::Client(InputChunkView::StdinEof) => state is Executing,
            EventView::Process(_) => state is Executing,
            EventView::Launched(_) => state is Launching,
        },
        transition(noisy_stdin, state, EventView::Client(InputChunkView::Heartbeat)) == Some(
            (state, Seq::<EffectView>::empty()),
        ),
{
}

/// A message shows what was heard whole.
pub proof fn law_events_are_shown_whole(
    chunk: InputChunkView,
    bytes: Seq<u8>,
    code: i32,
    reason: Seq<char>,
)
    ensures
        !(chunk is StdinEof) ==> event_text(EventView::Client(chunk)) == "Client("@ + input_text(
            chunk,
        ) + ")"@,
        event_text(EventView::Client(InputChunkView::StdinEof)) == "Client("@ + "StdinEOF"@ + ")"@,
        event_text(EventView::Process(ChildOutputView::Stdout(bytes))) == "Process("@ + ("Stdout("@
            + byte_string(bytes) + ")"@) + ")"@,
        event_text(EventView::Process(ChildOutputView::Stderr(bytes))) == "Process("@ + ("Stderr("@
            + byte_string(bytes) + ")"@) + ")"@,
        event_text(EventView::Process(ChildOutputView::Exit(ExitCode(code)))) == "Process("@ + (
        "Exit("@ + decimal(code as int) + ")"@) + ")"@,
        event_text(EventView::Launched(Ok(()))) == "Launched(Ok(()))"@,
        event_text(EventView::Launched(Err(reason))) == "Launched("@ + ("Err("@ + quoted(reason)
            + ")"@) + ")"@,
{
}

/// A message shows where a connection stands whole, with the handles that it holds there.
pub proof fn law_states_are_shown_whole(
    args: ArgsView,
    path: Seq<u8>,
    name: Seq<char>,
    code: i32,
    handles: HandlesView,
    event: Seq<char>,
    state: Seq<char>,
)
    ensures
        state_text(StateView::Initializing(args), handles) == "Initializing("@ + (handles.client
            + ", "@ + handles.channel + ", "@ + args_text(args)) + ")"@,
        state_text(StateView::PreCommand(args, path), handles) == "PreCommand("@ + (handles.client
            + ", "@ + handles.channel + ", "@ + args_text(args) + ", "@ + path_text(path)) + ")"@,
        state_text(StateView::Launching(name), handles) == "Launching("@ + quoted(name) + ")"@,
        state_text(StateView::Executing, handles) == "Executing("@ + (handles.client + ", "@
            + handles.channel) + ")"@,
        state_text(StateView::Exited(code), handles) == "Exited("@ + decimal(code as int) + ")"@,
        invalid_event(event, state).kind == ErrorKind::Other,
        invalid_event(event, state).message == "Invalid event "@ + event + " during phase "@
            + state,
{
}

/// A message shows all that was gathered of a command: each argument and each variable, quoted, in
/// order, with a comma between two of them.
pub proof fn law_args_are_shown_whole(
    args: ArgsView,
    items: Seq<Seq<char>>,
    item: Seq<char>,
    name: Seq<char>,
    value: Seq<char>,
)
    ensures
        args_text(args) == "Args { args: ["@ + list_text(
            Seq::new(args.args.len(), |i: int| quoted(args.args[i])),
        ) + "], env: ["@ + list_text(
            Seq::new(args.env.len(), |i: int| pair_text(args.env[i])),
        ) + "] }"@,
        list_text(Seq::<Seq<char>>::empty()).len() == 0,
        list_text(seq![item]) == item,
        items.len() > 0 ==> list_text(items.push(item)) == list_text(items) + ", "@ + item,
        pair_text((name, value)) == "("@ + quoted(name) + ", "@ + quoted(value) + ")"@,
{
    assert(args.args.map_values(|s: Seq<char>| quoted(s)) =~= Seq::new(
        args.args.len(),
        |i: int| quoted(args.args[i]),
    ));
    assert(args.env.map_values(|pair: (Seq<char>, Seq<char>)| pair_text(pair)) =~= Seq::new(
        args.env.len(),
        |i: int| pair_text(args.env[i]),
    ));
    assert(items.push(item).drop_last() =~= items);
}

/// What was gathered, where a connection stands and what it holds are known whole.
pub proof fn law_states_are_seen_whole(
    args: Args,
    path: PathBuf,
    name: String,
    code: i32,
    handles: Handles,
    i: int,
)
    ensures
        args@.args.len() == args.args@.len(),
        0 <= i < args.args@.len() ==> args@.args[i] == args.args@[i]@,
        args@.env.len() == args.env@.len(),
        0 <= i < args.env@.len() ==> args@.env[i].0 == args.env@[i].0@ && args@.env[i].1
            == args.env@[i].1@,
        State::Initializing(args)@ == StateView::Initializing(args@),
        State::PreCommand(args, path)@ == StateView::PreCommand(args@, path_bytes(path)),
        State::Launching(name)@ == StateView::Launching(name@),
        State::Executing@ == StateView::Executing,
        State::Exited(code)@ == StateView::Exited(code),
        handles@.client == handles.client@,
        handles@.channel == handles.channel@,
{
}

/// What a connection hears and does is known whole.
pub proof fn law_effects_are_seen_whole(
    heard: InputChunk,
    output: ChildOutput,
    launched: Result<(), String>,
    command: Command,
    chunk: OutputChunk,
    input: ChildInput,
    effect: Effect,
)
    ensures
        Event::Client(heard)@ == EventView::Client(heard@),
        Event::Process(output)@ == EventView::Process(output@),
        Event::Launched(launched)@ == EventView::Launched(with_text(launched)),
        Effect::Launch(command)@ == EffectView::Launch(command@),
        Effect::ToClient(chunk)@ == EffectView::ToClient(chunk@),
        Effect::ToChild(input)@ == EffectView::ToChild(input@),
        effect.deep_view() == effect@,
{
}

} // verus!
