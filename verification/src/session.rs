//! What holds of a whole connection: the two ends and the wire between them.
use vstd::prelude::*;
use vstd::utf8::*;

use crate::chunk::{ChunkView, InputChunkView, OutputChunkView, Received};
use crate::client::{
    argument_chunks, code_heard, command_chunks, environment_chunks, followed,
    law_requests_beside_output, StdioTask,
};
use crate::codec::{
    client_decoded, law_client_reads_server, law_server_reads_client, remaining, server_decoded,
};
use crate::error::{ErrorView, FailureView};
use crate::execution::{ChildOutputView, CommandView, ExitCode};
use crate::server::{
    as_events, both_written, connection_step, forwarded, heard_by_main, initialize_all,
    initialize_chunk, law_command_is_launched, law_exit_is_last, law_listener_only_asks,
    law_output_then_exit, law_stdin_in_order, lemma_no_requests_filtered, nothing_yet,
    output_chunks, phase_after, refusal_chunks, stdin_chunks, stdin_inputs, tells_exit, whole_run,
    written, ActionView, Both, EventView, InitializedView, InitializerView, InputTask, PhaseView,
    Turn,
};
use crate::wire::{frame, frames, law_exit_is_wire_safe, wire_safe};

verus! {

/// What a client that sends these chunks puts on the wire.
pub open spec fn sent_by_client(chunks: Seq<InputChunkView>) -> Seq<u8> {
    frames(chunks.map_values(|chunk: InputChunkView| ChunkView::Input(chunk)))
}

/// What a server that sends these chunks puts on the wire.
pub open spec fn sent_by_server(chunks: Seq<OutputChunkView>) -> Seq<u8> {
    frames(chunks.map_values(|chunk: OutputChunkView| ChunkView::Output(chunk)))
}

/// All that a server reads from `s`, up to where no whole frame begins.
pub open spec fn server_reads(s: Seq<u8>) -> Result<Seq<InputChunkView>, ErrorView>
    decreases s.len(),
{
    match server_decoded(s) {
        Ok(None) => Ok(seq![]),
        Err(e) => Err(e),
        Ok(Some(chunk)) => match server_reads(remaining(s)) {
            Ok(rest) => Ok(seq![chunk] + rest),
            Err(e) => Err(e),
        },
    }
}

/// All that a client reads from `s`, up to where no whole frame begins.
pub open spec fn client_reads(s: Seq<u8>) -> Result<Seq<OutputChunkView>, ErrorView>
    decreases s.len(),
{
    match client_decoded(s) {
        Ok(None) => Ok(seq![]),
        Err(e) => Err(e),
        Ok(Some(chunk)) => match client_reads(remaining(s)) {
            Ok(rest) => Ok(seq![chunk] + rest),
            Err(e) => Err(e),
        },
    }
}

/// Whether each of these chunks survives the way to a server.
pub open spec fn safe_for_server(chunks: Seq<InputChunkView>) -> bool {
    forall|i: int| 0 <= i < chunks.len() ==> wire_safe(ChunkView::Input(#[trigger] chunks[i]))
}

/// Whether each of these chunks survives the way to a client.
pub open spec fn safe_for_client(chunks: Seq<OutputChunkView>) -> bool {
    forall|i: int| 0 <= i < chunks.len() ==> wire_safe(ChunkView::Output(#[trigger] chunks[i]))
}

/// A server reads all that a client sends, in order.
#[verifier::rlimit(60)]
#[verifier::spinoff_prover]
pub proof fn law_server_reads_all(chunks: Seq<InputChunkView>)
    requires
        safe_for_server(chunks),
    ensures
        server_reads(sent_by_client(chunks)) == Ok::<Seq<InputChunkView>, ErrorView>(chunks),
    decreases chunks.len(),
{
    let wrapped = chunks.map_values(|chunk: InputChunkView| ChunkView::Input(chunk));
    if chunks.len() == 0 {
        assert(chunks =~= seq![]);
    } else {
        let rest = chunks.drop_first();
        assert forall|i: int| 0 <= i < rest.len() implies wire_safe(
            ChunkView::Input(#[trigger] rest[i]),
        ) by {
            assert(rest[i] == chunks[i + 1]);
        }
        law_server_reads_all(rest);
        assert(wrapped.drop_first() =~= rest.map_values(
            |chunk: InputChunkView| ChunkView::Input(chunk),
        ));
        assert(sent_by_client(chunks) == frame(ChunkView::Input(chunks[0])) + sent_by_client(rest));
        law_server_reads_client(chunks[0], sent_by_client(rest));
        assert(seq![chunks[0]] + rest =~= chunks);
    }
}

/// A client reads all that a server sends, in order.
#[verifier::rlimit(60)]
#[verifier::spinoff_prover]
pub proof fn law_client_reads_all(chunks: Seq<OutputChunkView>)
    requires
        safe_for_client(chunks),
    ensures
        client_reads(sent_by_server(chunks)) == Ok::<Seq<OutputChunkView>, ErrorView>(chunks),
    decreases chunks.len(),
{
    let wrapped = chunks.map_values(|chunk: OutputChunkView| ChunkView::Output(chunk));
    if chunks.len() == 0 {
        assert(chunks =~= seq![]);
    } else {
        let rest = chunks.drop_first();
        assert forall|i: int| 0 <= i < rest.len() implies wire_safe(
            ChunkView::Output(#[trigger] rest[i]),
        ) by {
            assert(rest[i] == chunks[i + 1]);
        }
        law_client_reads_all(rest);
        assert(wrapped.drop_first() =~= rest.map_values(
            |chunk: OutputChunkView| ChunkView::Output(chunk),
        ));
        assert(sent_by_server(chunks) == frame(ChunkView::Output(chunks[0])) + sent_by_server(rest));
        law_client_reads_server(chunks[0], sent_by_server(rest));
        assert(seq![chunks[0]] + rest =~= chunks);
    }
}

/// Chunks that follow one another act as one sequence of chunks, as long as the command is not
/// complete.
proof fn lemma_initialize_in_parts(
    state: InitializerView,
    first: Seq<InputChunkView>,
    second: Seq<InputChunkView>,
)
    ensures
        initialize_all(state, first + second) == (match initialize_all(state, first) {
            InitializedView::More(next) => initialize_all(next, second),
            ended => ended,
        }),
    decreases first.len(),
{
    if first.len() == 0 {
        assert(first + second =~= second);
    } else {
        assert((first + second).drop_first() =~= first.drop_first() + second);
        match initialize_chunk(state, first[0]) {
            InitializedView::More(next) => lemma_initialize_in_parts(
                next,
                first.drop_first(),
                second,
            ),
            _ => {},
        }
    }
}

proof fn lemma_arguments_arrive(state: InitializerView, args: Seq<Seq<char>>)
    ensures
        initialize_all(state, argument_chunks(args)) == InitializedView::More(
            InitializerView { args: state.args + args, ..state },
        ),
    decreases args.len(),
{
    if args.len() == 0 {
        assert(state.args + args =~= state.args);
    } else {
        let next = InitializerView { args: state.args.push(args[0]), ..state };
        lemma_arguments_arrive(next, args.drop_first());
        assert(argument_chunks(args).drop_first() =~= argument_chunks(args.drop_first()));
        assert(next.args + args.drop_first() =~= state.args + args);
    }
}

proof fn lemma_environment_arrives(state: InitializerView, env: Seq<(Seq<char>, Seq<char>)>)
    ensures
        initialize_all(state, environment_chunks(env)) == InitializedView::More(
            InitializerView { env: state.env + env, ..state },
        ),
    decreases env.len(),
{
    if env.len() == 0 {
        assert(state.env + env =~= state.env);
    } else {
        let next = InitializerView { env: state.env.push(env[0]), ..state };
        lemma_environment_arrives(next, env.drop_first());
        assert(environment_chunks(env).drop_first() =~= environment_chunks(env.drop_first()));
        assert(next.env + env.drop_first() =~= state.env + env);
    }
}

/// The chunks of a command make up that command again, and no fewer chunks do.
pub proof fn law_command_arrives(cmd: CommandView)
    ensures
        initialize_all(nothing_yet(), command_chunks(cmd)) == InitializedView::Ready(cmd),
        initialize_all(nothing_yet(), command_chunks(cmd).drop_last()) is More,
{
    let dir = seq![InputChunkView::WorkingDir(cmd.working_dir)];
    let name = seq![InputChunkView::Command(cmd.command)];
    let lists = argument_chunks(cmd.args) + environment_chunks(cmd.env);
    let with_args = InitializerView { args: cmd.args, ..nothing_yet() };
    let with_env = InitializerView { env: cmd.env, ..with_args };
    let with_dir = InitializerView { working_dir: Some(cmd.working_dir), ..with_env };
    lemma_arguments_arrive(nothing_yet(), cmd.args);
    assert(nothing_yet().args + cmd.args =~= cmd.args);
    lemma_environment_arrives(with_args, cmd.env);
    assert(with_args.env + cmd.env =~= cmd.env);
    lemma_initialize_in_parts(nothing_yet(), argument_chunks(cmd.args), environment_chunks(cmd.env));
    lemma_initialize_in_parts(nothing_yet(), lists, dir);
    lemma_initialize_in_parts(nothing_yet(), lists + dir, name);
    reveal_with_fuel(initialize_all, 2);
    assert(dir.drop_first() =~= seq![]);
    assert(initialize_all(with_env, dir) == InitializedView::More(with_dir));
    assert(initialize_all(with_dir, name) == InitializedView::Ready(cmd));
    assert(lists + dir + name =~= command_chunks(cmd));
    assert(command_chunks(cmd).drop_last() =~= lists + dir);
}

/// A server launches the very command that its client sent: it reads the chunks of the command off
/// the wire, writes nothing while they arrive, and with the last of them launches the command.
pub proof fn law_command_travels<E>(cmd: CommandView)
    requires
        safe_for_server(command_chunks(cmd)),
    ensures
        server_reads(sent_by_client(command_chunks(cmd))) == Ok::<Seq<InputChunkView>, ErrorView>(
            command_chunks(cmd),
        ),
        ({
            let begin = PhaseView::Initializing(nothing_yet());
            let before = as_events::<E>(command_chunks(cmd).drop_last());
            let last = EventView::<E>::Client(Received::Chunk(command_chunks(cmd).last()));
            &&& written(begin, before) == Seq::<OutputChunkView>::empty()
            &&& connection_step(phase_after(begin, before), last) == (
                PhaseView::Launching,
                ActionView::<E>::Launch(cmd),
            )
        }),
{
    let chunks = command_chunks(cmd);
    law_server_reads_all(chunks);
    law_command_arrives(cmd);
    assert(chunks.drop_last().push(chunks.last()) =~= chunks);
    law_command_is_launched::<E>(nothing_yet(), chunks.drop_last(), chunks.last(), cmd);
}

/// A command that takes standard input is handed the very input that its client sent, in order, and
/// nothing of what the client may send after its end.
pub proof fn law_stdin_travels(
    noisy_stdin: bool,
    input: Seq<Seq<u8>>,
    later: Seq<InputChunkView>,
)
    requires
        safe_for_server(stdin_chunks(input) + seq![InputChunkView::StdinEof] + later),
    ensures
        ({
            let chunks = stdin_chunks(input) + seq![InputChunkView::StdinEof] + later;
            &&& server_reads(sent_by_client(chunks)) == Ok::<Seq<InputChunkView>, ErrorView>(chunks)
            &&& forwarded(InputTask { stdin_open: true }, noisy_stdin, chunks) == stdin_inputs(input)
        }),
{
    law_server_reads_all(stdin_chunks(input) + seq![InputChunkView::StdinEof] + later);
    law_stdin_in_order(noisy_stdin, input, later);
}

/// A client that follows some output and an exit code hands on the one and ends with the other.
pub(crate) proof fn lemma_output_followed(task: StdioTask, outputs: Seq<ChildOutputView>, code: ExitCode)
    requires
        forall|i: int| 0 <= i < outputs.len() ==> !(#[trigger] outputs[i] is Exit),
    ensures
        followed(task, output_chunks(outputs).push(OutputChunkView::Exit(code.0))) == outputs,
        code_heard(task, output_chunks(outputs).push(OutputChunkView::Exit(code.0))) == Some(code),
    decreases outputs.len(),
{
    let chunks = output_chunks(outputs).push(OutputChunkView::Exit(code.0));
    if outputs.len() == 0 {
        assert(followed(task, chunks) =~= outputs);
    } else {
        let rest = outputs.drop_first();
        assert forall|i: int| 0 <= i < rest.len() implies !(#[trigger] rest[i] is Exit) by {
            assert(rest[i] == outputs[i + 1]);
        }
        assert(!(outputs[0] is Exit));
        lemma_output_followed(task, rest, code);
        assert(chunks.drop_first() =~= output_chunks(rest).push(OutputChunkView::Exit(code.0)));
        assert(seq![outputs[0]] + rest =~= outputs);
    }
}

/// Where the main task hears of no exit code in the output, no turn tells one.
proof fn lemma_turns_tell_no_exit<E>(turns: Seq<Turn<E>>)
    requires
        forall|i: int|
            0 <= i < heard_by_main(turns).len() ==> !tells_exit(#[trigger] heard_by_main(turns)[i]),
    ensures
        forall|j: int|
            0 <= j < turns.len() ==> !(#[trigger] turns[j] matches Turn::Main(event) && tells_exit(
                event,
            )),
    decreases turns.len(),
{
    if turns.len() > 0 {
        let rest = turns.drop_first();
        let heard = heard_by_main(turns);
        let later = heard_by_main(rest);
        let n: int = if turns[0] is Main {
            1
        } else {
            0
        };
        assert forall|i: int| 0 <= i < later.len() implies !tells_exit(#[trigger] later[i]) by {
            assert(later[i] == heard[i + n]);
        }
        lemma_turns_tell_no_exit(rest);
        if turns[0] is Main {
            assert(!tells_exit(heard[0]));
        }
        assert forall|j: int| 0 <= j < turns.len() implies !(#[trigger] turns[j] matches Turn::Main(
            event,
        ) && tells_exit(event)) by {
            if j > 0 {
                assert(turns[j] == rest[j - 1]);
            }
        }
    }
}

/// What is left by a filter was there before.
proof fn lemma_filter_source<A>(s: Seq<A>, keep: spec_fn(A) -> bool, x: A)
    requires
        s.filter(keep).contains(x),
    ensures
        s.contains(x),
    decreases s.len(),
{
    reveal(Seq::filter);
    if s.len() > 0 {
        let before = s.drop_last();
        let i = choose|i: int| 0 <= i < s.filter(keep).len() && s.filter(keep)[i] == x;
        if i < before.filter(keep).len() {
            assert(before.filter(keep)[i] == x);
            lemma_filter_source(before, keep, x);
            let j = choose|j: int| 0 <= j < before.len() && before[j] == x;
            assert(s[j] == x);
        } else {
            assert(s[s.len() - 1] == x);
        }
    }
}

/// The exit code is the last of what both tasks of a server write over a run.
proof fn lemma_code_is_last<E>(
    noisy_stdin: bool,
    both: Both,
    turns: Seq<Turn<E>>,
    outputs: Seq<ChildOutputView>,
    code: ExitCode,
    input_ended: Result<(), FailureView<E>>,
)
    requires
        both.phase is Relaying,
        forall|i: int| 0 <= i < outputs.len() ==> !(#[trigger] outputs[i] is Exit),
        heard_by_main(turns) == whole_run(outputs, code, input_ended),
        both_written(noisy_stdin, both, turns).filter(
            |c: OutputChunkView| !(c is StartReadingStdin),
        ) == output_chunks(outputs).push(OutputChunkView::Exit(code.0)),
    ensures
        both_written(noisy_stdin, both, turns).len() > 0,
        both_written(noisy_stdin, both, turns).last() == OutputChunkView::Exit(code.0),
{
    let sent = both_written(noisy_stdin, both, turns);
    let told = output_chunks(outputs).push(OutputChunkView::Exit(code.0));
    let keep = |c: OutputChunkView| !(c is StartReadingStdin);
    lemma_run_tells_no_exit(outputs, code, input_ended);
    lemma_turns_tell_no_exit(turns);
    assert(told[told.len() - 1] == OutputChunkView::Exit(code.0));
    assert(told.contains(OutputChunkView::Exit(code.0)));
    lemma_filter_source(sent, keep, OutputChunkView::Exit(code.0));
    let i = choose|i: int| 0 <= i < sent.len() && sent[i] == OutputChunkView::Exit(code.0);
    law_exit_is_last(noisy_stdin, both, turns, i);
}

proof fn lemma_run_tells_no_exit<E>(
    outputs: Seq<ChildOutputView>,
    code: ExitCode,
    input_ended: Result<(), FailureView<E>>,
)
    requires
        forall|i: int| 0 <= i < outputs.len() ==> !(#[trigger] outputs[i] is Exit),
    ensures
        forall|i: int|
            0 <= i < whole_run(outputs, code, input_ended).len() ==> !tells_exit(
                #[trigger] whole_run(outputs, code, input_ended)[i],
            ),
{
    let run = whole_run(outputs, code, input_ended);
    assert forall|i: int| 0 <= i < run.len() implies !tells_exit(#[trigger] run[i]) by {
        if i < outputs.len() {
            assert(run[i] == EventView::<E>::Output(Some(Ok(outputs[i]))));
            assert(!(outputs[i] is Exit));
        }
    }
}

/// A client hears the very output of its command, in order, and the code with which it ended, in
/// whatever order the two tasks of the server take turns; and the code is the last of all.
pub proof fn law_output_travels<E>(
    noisy_stdin: bool,
    listener: Option<InputTask>,
    turns: Seq<Turn<E>>,
    outputs: Seq<ChildOutputView>,
    code: ExitCode,
    input_ended: Result<(), FailureView<E>>,
)
    requires
        forall|i: int| 0 <= i < outputs.len() ==> !(#[trigger] outputs[i] is Exit),
        heard_by_main(turns) == whole_run(outputs, code, input_ended),
        !(input_ended is Err && input_ended->Err_0 is Transport),
        safe_for_client(
            both_written(noisy_stdin, Both { phase: PhaseView::Relaying, listener }, turns),
        ),
    ensures
        ({
            let both = Both { phase: PhaseView::Relaying, listener };
            let sent = both_written(noisy_stdin, both, turns);
            let task = StdioTask { stdin_pending: true };
            &&& client_reads(sent_by_server(sent)) == Ok::<Seq<OutputChunkView>, ErrorView>(sent)
            &&& followed(task, sent) == outputs
            &&& code_heard(task, sent) == Some(code)
            &&& sent.len() > 0
            &&& sent.last() == OutputChunkView::Exit(code.0)
        }),
{
    let both = Both { phase: PhaseView::Relaying, listener };
    let sent = both_written(noisy_stdin, both, turns);
    let task = StdioTask { stdin_pending: true };
    let told = output_chunks(outputs).push(OutputChunkView::Exit(code.0));
    let keep = |c: OutputChunkView| !(c is StartReadingStdin);
    law_client_reads_all(sent);
    law_output_then_exit(outputs, code, input_ended);
    law_listener_only_asks(noisy_stdin, both, turns);
    lemma_no_requests_filtered(told);
    assert(sent.filter(keep) == told);
    law_requests_beside_output(task, sent);
    lemma_output_followed(task, outputs, code);
    lemma_code_is_last(noisy_stdin, both, turns, outputs, code, input_ended);
}

/// A client whose request was refused hears why, on its standard error, and a code that stands for
/// failure.
pub proof fn law_refusal_travels(reason: Seq<char>)
    requires
        encode_utf8(reason).len() <= u32::MAX,
    ensures
        client_reads(sent_by_server(refusal_chunks(reason))) == Ok::<
            Seq<OutputChunkView>,
            ErrorView,
        >(refusal_chunks(reason)),
        followed(StdioTask { stdin_pending: true }, refusal_chunks(reason)) == seq![
            ChildOutputView::Stderr(encode_utf8(reason)),
        ],
        code_heard(StdioTask { stdin_pending: true }, refusal_chunks(reason)) == Some(ExitCode(1)),
{
    let task = StdioTask { stdin_pending: true };
    let outputs = seq![ChildOutputView::Stderr(encode_utf8(reason))];
    law_exit_is_wire_safe(1);
    law_client_reads_all(refusal_chunks(reason));
    lemma_output_followed(task, outputs, ExitCode(1));
    assert(output_chunks(outputs).push(OutputChunkView::Exit(1)) =~= refusal_chunks(reason));
}

/// While the chunks of a command are incomplete the main task is still gathering them.
proof fn lemma_still_gathering<E>(state: InitializerView, chunks: Seq<InputChunkView>)
    requires
        initialize_all(state, chunks) is More,
    ensures
        phase_after::<E>(PhaseView::Initializing(state), as_events(chunks))
            == PhaseView::Initializing(initialize_all(state, chunks)->More_0),
    decreases chunks.len(),
{
    if chunks.len() > 0 {
        let rest = chunks.drop_first();
        assert(as_events::<E>(chunks).drop_first() =~= as_events::<E>(rest));
        match initialize_chunk(state, chunks[0]) {
            InitializedView::More(next) => lemma_still_gathering::<E>(next, rest),
            _ => {},
        }
    }
}

/// A server reads every chunk of a command to the last: at each of them but the last it reads on, and at
/// the last it launches the command. No command is left half received.
pub proof fn law_command_is_read_to_the_end<E>(cmd: CommandView, i: int)
    requires
        0 <= i < command_chunks(cmd).len(),
    ensures
        ({
            let begin = PhaseView::Initializing(nothing_yet());
            let before = as_events::<E>(command_chunks(cmd).take(i));
            let now = EventView::<E>::Client(Received::Chunk(command_chunks(cmd)[i]));
            let action = connection_step(phase_after(begin, before), now).1;
            &&& i < command_chunks(cmd).len() - 1 ==> action == ActionView::<E>::ReadClient
            &&& i == command_chunks(cmd).len() - 1 ==> action == ActionView::<E>::Launch(cmd)
        }),
{
    let chunks = command_chunks(cmd);
    let last = chunks.len() - 1;
    law_command_arrives(cmd);
    assert(chunks.drop_last() =~= chunks.take(i) + chunks.subrange(i, last));
    lemma_initialize_in_parts(nothing_yet(), chunks.take(i), chunks.subrange(i, last));
    lemma_still_gathering::<E>(nothing_yet(), chunks.take(i));
    let state = initialize_all(nothing_yet(), chunks.take(i))->More_0;
    reveal_with_fuel(initialize_all, 2);
    if i < last {
        assert(chunks.drop_last() =~= chunks.take(i + 1) + chunks.subrange(i + 1, last));
        lemma_initialize_in_parts(nothing_yet(), chunks.take(i + 1), chunks.subrange(i + 1, last));
        assert(chunks.take(i + 1) =~= chunks.take(i) + seq![chunks[i]]);
    } else {
        assert(chunks =~= chunks.take(i) + seq![chunks[i]]);
    }
    lemma_initialize_in_parts(nothing_yet(), chunks.take(i), seq![chunks[i]]);
    assert(seq![chunks[i]].drop_first() =~= seq![]);
    assert(initialize_all(state, seq![chunks[i]]) == initialize_chunk(state, chunks[i]));
}

} // verus!
