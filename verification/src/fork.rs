//! A nail that forks a process for every command: how the process is set up, what it is fed, and how
//! it is waited for.
use std::path::PathBuf;

use bytes::Bytes;
use vstd::prelude::*;

use crate::buffers::contents;
use crate::execution::{
    Args, ChildInput, ChildInputView, ChildOutput, ChildOutputView, Command, Env, ExitCode,
};
use crate::server::{stdin_inputs, ABORTED};

verus! {

/// A nail that forks processes.
#[derive(Clone, Copy, Debug)]
pub struct ForkNail;

/// How a process is set up. Its standard input, output and error are pipes to the nail.
#[derive(Debug, PartialEq, Eq)]
pub struct Plan {
    /// The program to run.
    pub program: String,
    /// Its arguments.
    pub args: Args,
    /// Whether it sees the environment of the server.
    pub inherit_env: bool,
    /// What is added to the environment that it sees.
    pub env: Env,
    /// The directory to run it in.
    pub working_dir: PathBuf,
    /// Whether it is killed when nobody waits for it any more.
    pub kill_on_drop: bool,
}

impl ForkNail {
    /// The process for a command. It sees the environment of the command and nothing else.
    pub fn plan(&self, cmd: Command) -> (plan: Plan)
        ensures
            plan.program == cmd.command,
            plan.args == cmd.args,
            !plan.inherit_env,
            plan.env == cmd.env,
            plan.working_dir == cmd.working_dir,
            plan.kill_on_drop,
    {
        let Command { command, args, env, working_dir } = cmd;
        Plan {
            program: command,
            args,
            inherit_env: false,
            env,
            working_dir,
            kill_on_drop: true,
        }
    }
}

/// What a process is fed, where there is anything; `None` where its standard input is to be closed.
pub open spec fn fed(input: Option<ChildInputView>) -> Option<Seq<u8>> {
    match input {
        Some(ChildInputView::Stdin(bytes)) => Some(bytes),
        _ => None,
    }
}

/// Decides what a process is fed of some standard input, or where there is no more: its bytes, or,
/// with `None`, its end.
pub fn feed(input: Option<ChildInput>) -> (bytes: Option<Bytes>)
    ensures
        match bytes {
            Some(b) => Some(contents(b)),
            None => None,
        } == fed(
            match input {
                Some(i) => Some(i@),
                None => None,
            },
        ),
{
    match input {
        Some(ChildInput::Stdin(bytes)) => Some(bytes),
        _ => None,
    }
}

/// How a process ended.
#[derive(Clone, Copy, Debug, PartialEq, Eq, Structural)]
pub enum ProcessEnd {
    /// It ended, with this code where it has one: a process that was killed by a signal has none.
    Ended(Option<i32>),
    /// It could not be waited for.
    Unknown,
}

/// The code by which a client is told how a process ended.
pub open spec fn code_of(end: ProcessEnd) -> ExitCode {
    match end {
        ProcessEnd::Ended(Some(code)) => ExitCode(code),
        _ => ExitCode(ABORTED),
    }
}

/// The code by which a client is told how a process ended.
pub fn exit_code(end: ProcessEnd) -> (code: ExitCode)
    ensures
        end matches ProcessEnd::Ended(Some(c)) ==> code.0 == c,
        code == code_of(end),
{
    match end {
        ProcessEnd::Ended(Some(code)) => ExitCode(code),
        _ => ExitCode(ABORTED),
    }
}

/// The end of a process as the last of its output, where it could be waited for.
pub open spec fn last_output(end: ProcessEnd) -> Option<ChildOutputView> {
    match end {
        ProcessEnd::Ended(_) => Some(ChildOutputView::Exit(code_of(end))),
        ProcessEnd::Unknown => None,
    }
}

/// Where the task that relays the output of a process, and its end with it, stands.
#[derive(Clone, Copy, Debug, PartialEq, Eq, Structural)]
pub enum Relay {
    /// The output is being relayed.
    Draining,
    /// All of the output was relayed, and the process is to end.
    Waiting,
    /// There is nothing more to relay.
    Done,
}

/// What the task that relays the output of a process hears.
#[derive(Debug, PartialEq, Eq)]
pub enum RelayEvent<E> {
    /// Some output of the process, a failure to read it, or its end.
    Output(Option<Result<ChildOutput, E>>),
    /// The process ended.
    Ended(ProcessEnd),
}

/// A [`RelayEvent`] as a mathematical value.
pub enum RelayEventView<E> {
    /// Some output of the process, a failure to read it, or its end.
    Output(Option<Result<ChildOutputView, E>>),
    /// The process ended.
    Ended(ProcessEnd),
}

impl<E> View for RelayEvent<E> {
    type V = RelayEventView<E>;

    open spec fn view(&self) -> RelayEventView<E> {
        match *self {
            RelayEvent::Output(Some(Ok(output))) => RelayEventView::Output(Some(Ok(output@))),
            RelayEvent::Output(Some(Err(e))) => RelayEventView::Output(Some(Err(e))),
            RelayEvent::Output(None) => RelayEventView::Output(None),
            RelayEvent::Ended(end) => RelayEventView::Ended(end),
        }
    }
}

/// What the task that relays the output of a process does next.
#[derive(Debug, PartialEq, Eq)]
pub enum RelayAction {
    /// Nothing.
    Wait,
    /// Hand this on, and read on.
    Send(ChildOutput),
    /// Wait for the process.
    AwaitProcess,
    /// Hand this on, and end.
    SendLast(ChildOutput),
    /// End.
    Stop,
}

/// A [`RelayAction`] as a mathematical value.
pub enum RelayActionView {
    /// Nothing.
    Wait,
    /// Hand this on, and read on.
    Send(ChildOutputView),
    /// Wait for the process.
    AwaitProcess,
    /// Hand this on, and end.
    SendLast(ChildOutputView),
    /// End.
    Stop,
}

impl View for RelayAction {
    type V = RelayActionView;

    open spec fn view(&self) -> RelayActionView {
        match *self {
            RelayAction::Wait => RelayActionView::Wait,
            RelayAction::Send(output) => RelayActionView::Send(output@),
            RelayAction::AwaitProcess => RelayActionView::AwaitProcess,
            RelayAction::SendLast(output) => RelayActionView::SendLast(output@),
            RelayAction::Stop => RelayActionView::Stop,
        }
    }
}

/// What the task that relays the output of a process does when it hears something: all of the output
/// is consumed before the process is waited for. Where the output cannot be read, or the process cannot
/// be waited for, no code is told.
pub open spec fn relay_step<E>(state: Relay, event: RelayEventView<E>) -> (Relay, RelayActionView) {
    match (state, event) {
        (Relay::Draining, RelayEventView::Output(Some(Ok(output)))) => (
            Relay::Draining,
            RelayActionView::Send(output),
        ),
        (Relay::Draining, RelayEventView::Output(Some(Err(_)))) => (
            Relay::Done,
            RelayActionView::Stop,
        ),
        (Relay::Draining, RelayEventView::Output(None)) => (
            Relay::Waiting,
            RelayActionView::AwaitProcess,
        ),
        (Relay::Waiting, RelayEventView::Ended(end)) => (
            Relay::Done,
            match last_output(end) {
                Some(output) => RelayActionView::SendLast(output),
                None => RelayActionView::Stop,
            },
        ),
        _ => (state, RelayActionView::Wait),
    }
}

impl Relay {
    /// Decides what the task that relays the output of a process does when it hears something.
    pub fn step<E>(self, event: RelayEvent<E>) -> (next: (Relay, RelayAction))
        ensures
            (next.0, next.1@) == relay_step(self, event@),
    {
        match (self, event) {
            (Relay::Draining, RelayEvent::Output(Some(Ok(output)))) => (
                Relay::Draining,
                RelayAction::Send(output),
            ),
            (Relay::Draining, RelayEvent::Output(Some(Err(_)))) => (Relay::Done, RelayAction::Stop),
            (Relay::Draining, RelayEvent::Output(None)) => (
                Relay::Waiting,
                RelayAction::AwaitProcess,
            ),
            (Relay::Waiting, RelayEvent::Ended(end)) => match end {
                ProcessEnd::Ended(_) => (
                    Relay::Done,
                    RelayAction::SendLast(ChildOutput::Exit(exit_code(end))),
                ),
                ProcessEnd::Unknown => (Relay::Done, RelayAction::Stop),
            },
            (state, _) => (state, RelayAction::Wait),
        }
    }
}

/// What the task that relays the output of a process hands on over some events.
pub open spec fn relayed<E>(state: Relay, events: Seq<RelayEventView<E>>) -> Seq<ChildOutputView>
    decreases events.len(),
{
    if events.len() == 0 {
        seq![]
    } else {
        let (next, action) = relay_step(state, events[0]);
        let now = match action {
            RelayActionView::Send(output) => seq![output],
            RelayActionView::SendLast(output) => seq![output],
            _ => seq![],
        };
        now + relayed(next, events.drop_first())
    }
}

proof fn lemma_relay_done<E>(events: Seq<RelayEventView<E>>)
    ensures
        relayed(Relay::Done, events) == Seq::<ChildOutputView>::empty(),
    decreases events.len(),
{
    if events.len() > 0 {
        lemma_relay_done(events.drop_first());
        assert(relayed(Relay::Done, events) =~= seq![]);
    }
}

/// How the output and the end of a process look to the task that relays them.
pub open spec fn process_run<E>(outputs: Seq<ChildOutputView>, end: ProcessEnd) -> Seq<
    RelayEventView<E>,
> {
    outputs.map_values(|output: ChildOutputView| RelayEventView::<E>::Output(Some(Ok(output))))
        + seq![RelayEventView::Output(None), RelayEventView::Ended(end)]
}

/// All of the output of a process is handed on, in order, and then its one exit code; nothing after it.
pub proof fn law_output_then_exit<E>(
    outputs: Seq<ChildOutputView>,
    end: ProcessEnd,
    later: Seq<RelayEventView<E>>,
)
    ensures
        relayed(Relay::Draining, process_run::<E>(outputs, end) + later) == (match last_output(
            end,
        ) {
            Some(exit) => outputs.push(exit),
            None => outputs,
        }),
    decreases outputs.len(),
{
    let events = process_run::<E>(outputs, end) + later;
    let told = match last_output(end) {
        Some(exit) => outputs.push(exit),
        None => outputs,
    };
    if outputs.len() == 0 {
        let after = events.drop_first();
        assert(after.drop_first() =~= later);
        lemma_relay_done(later);
        reveal_with_fuel(relayed, 3);
        assert(relayed(Relay::Draining, events) =~= told);
    } else {
        let rest = outputs.drop_first();
        law_output_then_exit(rest, end, later);
        assert(events.drop_first() =~= process_run::<E>(rest, end) + later);
        assert(relayed(Relay::Draining, events) =~= told);
    }
}

/// An exit code is handed on only when the output has ended, and is the last that is handed on, unless
/// the output told one before.
pub proof fn law_exit_is_last<E>(state: Relay, events: Seq<RelayEventView<E>>, i: int)
    requires
        forall|j: int|
            0 <= j < events.len() ==> !(#[trigger] events[j] matches RelayEventView::Output(
                Some(Ok(output)),
            ) && output is Exit),
        0 <= i < relayed(state, events).len(),
        relayed(state, events)[i] is Exit,
    ensures
        i == relayed(state, events).len() - 1,
    decreases events.len(),
{
    let rest = events.drop_first();
    let (next, action) = relay_step(state, events[0]);
    let later = relayed(next, rest);
    let n = relayed(state, events).len() - later.len();
    assert forall|j: int| 0 <= j < rest.len() implies !(
    #[trigger] rest[j] matches RelayEventView::Output(Some(Ok(output))) && output is Exit) by {
        assert(rest[j] == events[j + 1]);
    }
    assert(!(events[0] matches RelayEventView::Output(Some(Ok(output))) && output is Exit));
    if i < n {
        lemma_relay_done(rest);
    } else {
        assert(relayed(state, events)[i] == later[i - n]);
        law_exit_is_last(next, rest, i - n);
    }
}

/// What a process is fed over some inputs.
pub open spec fn fed_all(inputs: Seq<ChildInputView>) -> Seq<Seq<u8>>
    decreases inputs.len(),
{
    if inputs.len() == 0 {
        seq![]
    } else {
        match fed(Some(inputs[0])) {
            Some(bytes) => seq![bytes] + fed_all(inputs.drop_first()),
            None => seq![],
        }
    }
}

/// A process is fed all of the standard input, in order, up to the first that tells its end, and
/// nothing after that.
pub proof fn law_fed_until_end(input: Seq<Seq<u8>>, later: Seq<ChildInputView>)
    ensures
        fed_all(stdin_inputs(input)) == input,
        fed_all(stdin_inputs(input) + seq![ChildInputView::StdinEOF] + later) == input,
    decreases input.len(),
{
    let inputs = stdin_inputs(input);
    let ended = inputs + seq![ChildInputView::StdinEOF] + later;
    if input.len() > 0 {
        let rest = input.drop_first();
        law_fed_until_end(rest, later);
        assert(inputs.drop_first() =~= stdin_inputs(rest));
        assert(ended.drop_first() =~= stdin_inputs(rest) + seq![ChildInputView::StdinEOF] + later);
    }
    assert(fed_all(inputs) =~= input);
    assert(fed_all(ended) =~= input);
}

/// Where the task that waits for a process stands.
#[derive(Clone, Copy, Debug, PartialEq, Eq, Structural)]
pub enum Supervision {
    /// The process runs.
    Waiting,
    /// The process is being killed.
    Killing,
    /// The process was killed, and is to be waited for: it would linger otherwise.
    Reaping,
    /// The code was told.
    Done,
}

/// What the task that waits for a process hears.
#[derive(Clone, Copy, Debug, PartialEq, Eq, Structural)]
pub enum ProcessEvent {
    /// The process ended.
    Ended(ProcessEnd),
    /// The process is to be shut down.
    ShutdownRequested,
    /// The process was killed.
    Killed,
    /// The process could not be killed.
    NotKilled,
}

/// What the task that waits for a process does next.
#[derive(Clone, Copy, Debug, PartialEq, Eq, Structural)]
pub enum ProcessAction {
    /// Wait on.
    Wait,
    /// Kill the process.
    Kill,
    /// Wait for the process, and nothing else.
    Reap,
    /// Tell this code, and end.
    Tell(ExitCode),
}

/// What the task that waits for a process does when it hears something. What does not belong to where
/// it stands changes nothing.
pub open spec fn supervise(state: Supervision, event: ProcessEvent) -> (Supervision, ProcessAction) {
    match (state, event) {
        (Supervision::Waiting, ProcessEvent::Ended(end)) => (
            Supervision::Done,
            ProcessAction::Tell(code_of(end)),
        ),
        (Supervision::Waiting, ProcessEvent::ShutdownRequested) => (
            Supervision::Killing,
            ProcessAction::Kill,
        ),
        (Supervision::Killing, ProcessEvent::Killed) => (Supervision::Reaping, ProcessAction::Reap),
        (Supervision::Killing, ProcessEvent::NotKilled) => (
            Supervision::Done,
            ProcessAction::Tell(code_of(ProcessEnd::Unknown)),
        ),
        (Supervision::Reaping, ProcessEvent::Ended(end)) => (
            Supervision::Done,
            ProcessAction::Tell(code_of(end)),
        ),
        _ => (state, ProcessAction::Wait),
    }
}

impl Supervision {
    /// Decides what the task that waits for a process does when it hears something.
    pub fn step(self, event: ProcessEvent) -> (next: (Supervision, ProcessAction))
        ensures
            next == supervise(self, event),
    {
        match (self, event) {
            (Supervision::Waiting, ProcessEvent::Ended(end)) => (
                Supervision::Done,
                ProcessAction::Tell(exit_code(end)),
            ),
            (Supervision::Waiting, ProcessEvent::ShutdownRequested) => (
                Supervision::Killing,
                ProcessAction::Kill,
            ),
            // A process that was killed is waited for, so that it does not linger.
            (Supervision::Killing, ProcessEvent::Killed) => (
                Supervision::Reaping,
                ProcessAction::Reap,
            ),
            (Supervision::Killing, ProcessEvent::NotKilled) => (
                Supervision::Done,
                ProcessAction::Tell(exit_code(ProcessEnd::Unknown)),
            ),
            (Supervision::Reaping, ProcessEvent::Ended(end)) => (
                Supervision::Done,
                ProcessAction::Tell(exit_code(end)),
            ),
            (state, _) => (state, ProcessAction::Wait),
        }
    }
}

/// What the task that waits for a process does over some events.
pub open spec fn supervised(state: Supervision, events: Seq<ProcessEvent>) -> Seq<ProcessAction>
    decreases events.len(),
{
    if events.len() == 0 {
        seq![]
    } else {
        let (next, action) = supervise(state, events[0]);
        seq![action] + supervised(next, events.drop_first())
    }
}

/// A code is told once, and only of a process that has ended, that could not be killed, or that could
/// not be waited for.
pub proof fn law_one_code(state: Supervision, events: Seq<ProcessEvent>, i: int, j: int)
    requires
        0 <= i < events.len(),
        0 <= j < events.len(),
        supervised(state, events)[i] is Tell,
        supervised(state, events)[j] is Tell,
    ensures
        i == j,
        !(state is Done),
        events[i] is Ended || events[i] is NotKilled,
        events[i] matches ProcessEvent::Ended(end) ==> supervised(state, events)[i]
            == ProcessAction::Tell(code_of(end)),
        supervised(state, events).len() == events.len(),
    decreases events.len(),
{
    let rest = events.drop_first();
    let (next, action) = supervise(state, events[0]);
    lemma_one_action_each(next, rest);
    assert(i > 0 ==> supervised(state, events)[i] == supervised(next, rest)[i - 1]);
    assert(j > 0 ==> supervised(state, events)[j] == supervised(next, rest)[j - 1]);
    assert(supervised(state, events)[0] == action);
    if i > 0 {
        law_one_code(next, rest, i - 1, i - 1);
    }
    if j > 0 {
        law_one_code(next, rest, j - 1, j - 1);
    }
    if i > 0 && j > 0 {
        law_one_code(next, rest, i - 1, j - 1);
    }
}

proof fn lemma_one_action_each(state: Supervision, events: Seq<ProcessEvent>)
    ensures
        supervised(state, events).len() == events.len(),
    decreases events.len(),
{
    if events.len() > 0 {
        lemma_one_action_each(supervise(state, events[0]).0, events.drop_first());
    }
}

/// A process that was asked to shut down is killed, and once it was killed it is waited for before its
/// code is told.
pub proof fn law_shutdown_reaps(end: ProcessEnd)
    ensures
        supervised(
            Supervision::Waiting,
            seq![
                ProcessEvent::ShutdownRequested,
                ProcessEvent::Killed,
                ProcessEvent::Ended(end),
            ],
        ) == seq![ProcessAction::Kill, ProcessAction::Reap, ProcessAction::Tell(code_of(end))],
{
    let events = seq![
        ProcessEvent::ShutdownRequested,
        ProcessEvent::Killed,
        ProcessEvent::Ended(end),
    ];
    reveal_with_fuel(supervised, 4);
    assert(events.drop_first().drop_first().drop_first() =~= seq![]);
    assert(supervised(Supervision::Waiting, events) =~= seq![
        ProcessAction::Kill,
        ProcessAction::Reap,
        ProcessAction::Tell(code_of(end)),
    ]);
}

/// The code told of a process that ended with a code is that very code, for every code; it is -1 where
/// the process has no code or could not be waited for.
pub proof fn law_the_very_code(code: i32)
    ensures
        code_of(ProcessEnd::Ended(Some(code))).0 == code,
        code_of(ProcessEnd::Ended(None)).0 as int == -1,
        code_of(ProcessEnd::Unknown).0 as int == -1,
        last_output(ProcessEnd::Ended(Some(code))) == Some(
            ChildOutputView::Exit(ExitCode(code)),
        ),
        last_output(ProcessEnd::Ended(None)) matches Some(ChildOutputView::Exit(told)) && told.0
            as int == -1,
        last_output(ProcessEnd::Unknown) is None,
{
}

/// A process is fed the very bytes; the end of the input, told or not, closes it.
pub proof fn law_feeding(bytes: Seq<u8>)
    ensures
        fed(Some(ChildInputView::Stdin(bytes))) == Some(bytes),
        fed(Some(ChildInputView::StdinEOF)) is None,
        fed(None) is None,
{
}

/// A process that ends while it runs, or after it was killed, is told by its very code; a request kills
/// it, and once killed it is reaped; what could not be killed is given up. Nothing else is done.
pub proof fn law_supervision(code: i32, end: ProcessEnd, state: Supervision, event: ProcessEvent)
    ensures
        supervise(
            Supervision::Waiting,
            ProcessEvent::Ended(ProcessEnd::Ended(Some(code))),
        ) == (Supervision::Done, ProcessAction::Tell(ExitCode(code))),
        supervise(
            Supervision::Reaping,
            ProcessEvent::Ended(ProcessEnd::Ended(Some(code))),
        ) == (Supervision::Done, ProcessAction::Tell(ExitCode(code))),
        !(end matches ProcessEnd::Ended(Some(_))) ==> {
            let waited = supervise(Supervision::Waiting, ProcessEvent::Ended(end));
            let reaped = supervise(Supervision::Reaping, ProcessEvent::Ended(end));
            &&& waited.0 is Done
            &&& waited.1 matches ProcessAction::Tell(told) && told.0 as int == -1
            &&& reaped == waited
        },
        supervise(Supervision::Waiting, ProcessEvent::ShutdownRequested) == (
            Supervision::Killing,
            ProcessAction::Kill,
        ),
        supervise(Supervision::Killing, ProcessEvent::Killed) == (
            Supervision::Reaping,
            ProcessAction::Reap,
        ),
        ({
            let (next, action) = supervise(Supervision::Killing, ProcessEvent::NotKilled);
            &&& next is Done
            &&& action matches ProcessAction::Tell(told) && told.0 as int == -1
        }),
        !(state is Waiting && (event is Ended || event is ShutdownRequested)) && !(state is Killing
            && (event is Killed || event is NotKilled)) && !(state is Reaping && event is Ended)
            ==> supervise(state, event) == (state, ProcessAction::Wait),
{
}

/// Output of a process is handed on as it is, at once, and reading goes on; at its end the process is
/// waited for, and its very code is the last. A failure ends it all without a code.
pub proof fn law_relaying<E>(
    output: ChildOutputView,
    code: i32,
    e: E,
    state: Relay,
    event: RelayEventView<E>,
)
    ensures
        relay_step(Relay::Draining, RelayEventView::<E>::Output(Some(Ok(output)))) == (
            Relay::Draining,
            RelayActionView::Send(output),
        ),
        relay_step(Relay::Draining, RelayEventView::<E>::Output(None)) == (
            Relay::Waiting,
            RelayActionView::AwaitProcess,
        ),
        relay_step(Relay::Draining, RelayEventView::Output(Some(Err(e)))) == (
            Relay::Done,
            RelayActionView::Stop,
        ),
        relay_step(
            Relay::Waiting,
            RelayEventView::<E>::Ended(ProcessEnd::Ended(Some(code))),
        ) == (
            Relay::Done,
            RelayActionView::SendLast(ChildOutputView::Exit(ExitCode(code))),
        ),
        ({
            let (next, action) = relay_step(
                Relay::Waiting,
                RelayEventView::<E>::Ended(ProcessEnd::Ended(None)),
            );
            &&& next is Done
            &&& action matches RelayActionView::SendLast(ChildOutputView::Exit(told)) && told.0
                as int == -1
        }),
        relay_step(Relay::Waiting, RelayEventView::<E>::Ended(ProcessEnd::Unknown)) == (
            Relay::Done,
            RelayActionView::Stop,
        ),
        !(state is Draining && event is Output) && !(state is Waiting && event is Ended)
            ==> relay_step(state, event) == (state, RelayActionView::Wait),
{
}

/// What the task that relays output hears and does is known whole.
pub proof fn law_relays_are_seen_whole<E>(output: ChildOutput, e: E, end: ProcessEnd)
    ensures
        RelayEvent::<E>::Output(Some(Ok(output)))@ == RelayEventView::<E>::Output(
            Some(Ok(output@)),
        ),
        RelayEvent::<E>::Output(Some(Err(e)))@ == RelayEventView::<E>::Output(Some(Err(e))),
        RelayEvent::<E>::Output(None)@ == RelayEventView::<E>::Output(None),
        RelayEvent::<E>::Ended(end)@ == RelayEventView::<E>::Ended(end),
        RelayAction::Wait@ == RelayActionView::Wait,
        RelayAction::Send(output)@ == RelayActionView::Send(output@),
        RelayAction::AwaitProcess@ == RelayActionView::AwaitProcess,
        RelayAction::SendLast(output)@ == RelayActionView::SendLast(output@),
        RelayAction::Stop@ == RelayActionView::Stop,
{
}

} // verus!
