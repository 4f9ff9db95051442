//! What is executed, and what goes in and out of it.
use std::path::PathBuf;

use bytes::{Bytes, BytesMut};
use futures::channel::mpsc::SendError;
use vstd::prelude::*;
use vstd::string::*;

use crate::buffers::{buffered, contents, extend_buffer};
use crate::chunk::{OutputChunk, OutputChunkView};
use crate::codec::has_room;
use crate::error::{Error, ErrorKind, ErrorView};
use crate::paths::{path_bytes, path_from_text};

verus! {

/// How many events a channel to or from a child may hold.
pub const BUF_COUNT: usize = 128;

/// The arguments of a command.
pub type Args = Vec<String>;

/// The environment of a command.
pub type Env = Vec<(String, String)>;

/// The code with which a command ended.
#[derive(Clone, Copy, Debug, PartialEq, Eq, Structural)]
pub struct ExitCode(pub i32);

/// A command to be run.
#[derive(Debug, PartialEq, Eq)]
pub struct Command {
    /// The command itself.
    pub command: String,
    /// Its arguments.
    pub args: Args,
    /// Its environment: names and values.
    pub env: Env,
    /// The directory to run it in.
    pub working_dir: PathBuf,
}

/// A [`Command`] as a mathematical value.
pub struct CommandView {
    /// The command itself.
    pub command: Seq<char>,
    /// Its arguments.
    pub args: Seq<Seq<char>>,
    /// Its environment: names and values.
    pub env: Seq<(Seq<char>, Seq<char>)>,
    /// The bytes of the path of the directory to run it in.
    pub working_dir: Seq<u8>,
}

impl View for Command {
    type V = CommandView;

    open spec fn view(&self) -> CommandView {
        CommandView {
            command: self.command@,
            args: self.args.deep_view(),
            env: self.env.deep_view(),
            working_dir: path_bytes(self.working_dir),
        }
    }
}

impl Default for Command {
    fn default() -> (command: Command)
        ensures
            command@ == (CommandView {
                command: seq![],
                args: seq![],
                env: seq![],
                working_dir: seq![],
            }),
    {
        let command = Command {
            command: String::new(),
            args: Vec::new(),
            env: Vec::new(),
            working_dir: path_from_text(String::new()),
        };
        assert(command@.args =~= seq![]);
        assert(command@.env =~= seq![]);
        command
    }
}

/// What goes into a child.
#[derive(Debug, PartialEq, Eq)]
pub enum ChildInput {
    /// Some standard input.
    Stdin(Bytes),
    /// The end of standard input.
    StdinEOF,
}

/// What comes out of a child.
#[derive(Debug, PartialEq, Eq)]
pub enum ChildOutput {
    /// Some standard output.
    Stdout(Bytes),
    /// Some standard error.
    Stderr(Bytes),
    /// The code with which the child ended.
    Exit(ExitCode),
}

/// A [`ChildInput`] as a mathematical value.
pub enum ChildInputView {
    /// Some standard input.
    Stdin(Seq<u8>),
    /// The end of standard input.
    StdinEOF,
}

/// A [`ChildOutput`] as a mathematical value.
pub enum ChildOutputView {
    /// Some standard output.
    Stdout(Seq<u8>),
    /// Some standard error.
    Stderr(Seq<u8>),
    /// The code with which the child ended.
    Exit(ExitCode),
}

impl View for ChildInput {
    type V = ChildInputView;

    open spec fn view(&self) -> ChildInputView {
        match *self {
            ChildInput::Stdin(bytes) => ChildInputView::Stdin(contents(bytes)),
            ChildInput::StdinEOF => ChildInputView::StdinEOF,
        }
    }
}

impl View for ChildOutput {
    type V = ChildOutputView;

    open spec fn view(&self) -> ChildOutputView {
        match *self {
            ChildOutput::Stdout(bytes) => ChildOutputView::Stdout(contents(bytes)),
            ChildOutput::Stderr(bytes) => ChildOutputView::Stderr(contents(bytes)),
            ChildOutput::Exit(code) => ChildOutputView::Exit(code),
        }
    }
}

/// The chunk in which a child's output travels.
pub open spec fn output_chunk(output: ChildOutputView) -> OutputChunkView {
    match output {
        ChildOutputView::Stdout(bytes) => OutputChunkView::Stdout(bytes),
        ChildOutputView::Stderr(bytes) => OutputChunkView::Stderr(bytes),
        ChildOutputView::Exit(code) => OutputChunkView::Exit(code.0),
    }
}

impl vstd::std_specs::convert::FromSpecImpl<ChildOutput> for OutputChunk {
    open spec fn obeys_from_spec() -> bool {
        true
    }

    open spec fn from_spec(co: ChildOutput) -> OutputChunk {
        match co {
            ChildOutput::Stdout(bytes) => OutputChunk::Stdout(bytes),
            ChildOutput::Stderr(bytes) => OutputChunk::Stderr(bytes),
            ChildOutput::Exit(code) => OutputChunk::Exit(code.0),
        }
    }
}

impl From<ChildOutput> for OutputChunk {
    fn from(co: ChildOutput) -> (chunk: OutputChunk) {
        match co {
            ChildOutput::Stdout(bytes) => OutputChunk::Stdout(bytes),
            ChildOutput::Stderr(bytes) => OutputChunk::Stderr(bytes),
            ChildOutput::Exit(code) => OutputChunk::Exit(code.0),
        }
    }
}

/// The error of a channel whose reader is gone or behind, of the `futures` crate.
#[verifier::external_type_specification]
#[verifier::external_body]
pub struct ExSendError(SendError);

/// Whether a channel's error is that the channel is full; else its reader is gone.
pub uninterp spec fn channel_full(e: SendError) -> bool;

/// How a message shows a channel's error.
pub open spec fn send_error_text(full: bool) -> Seq<char> {
    if full {
        "SendError { kind: Full }"@
    } else {
        "SendError { kind: Disconnected }"@
    }
}

/// The `Debug` form that the `futures` crate derives for a `SendError`: it shows which of the two
/// kinds of error it is.
#[verifier::external_body]
fn describe_send_error(e: &SendError) -> (text: String)
    ensures
        text@ == send_error_text(channel_full(*e)),
{
    format!("{:?}", e)
}

/// The error of a task that could not send, given how a message shows why.
pub open spec fn failed_to_send(reason: Seq<char>) -> ErrorView {
    ErrorView { kind: ErrorKind::BrokenPipe, message: "Failed to send: "@ + reason }
}

/// The error of a task that could not send, given how a message shows why.
pub fn send_failure(reason: &str) -> (error: Error)
    ensures
        error@ == failed_to_send(reason@),
{
    let mut message = "Failed to send: ".to_owned();
    message.append(reason);
    Error { kind: ErrorKind::BrokenPipe, message }
}

/// The error of a task that could not send into a channel.
pub fn send_to_io(e: SendError) -> (error: Error)
    ensures
        error@ == failed_to_send(send_error_text(channel_full(e))),
{
    send_failure(describe_send_error(&e).as_str())
}

/// A codec without frames: bytes travel as they are.
pub struct IdentityCodec;

impl IdentityCodec {
    /// Takes all that a buffer holds, where it holds anything.
    pub fn decode(&mut self, buf: &mut BytesMut) -> (result: Result<Option<Bytes>, Error>)
        ensures
            match result {
                Ok(Some(bytes)) => contents(bytes) == buffered(*old(buf)) && contents(bytes).len()
                    > 0,
                Ok(None) => buffered(*old(buf)).len() == 0,
                Err(_) => false,
            },
            buffered(*final(buf)) == Seq::<u8>::empty(),
            *final(self) == *old(self),
    {
        if buf.len() == 0 {
            assert(buffered(*buf) =~= Seq::<u8>::empty());
            Ok(None)
        } else {
            Ok(Some(buf.split().freeze()))
        }
    }

    /// Appends bytes to a buffer.
    pub fn encode(&mut self, item: Bytes, buf: &mut BytesMut) -> (result: Result<(), Error>)
        requires
            has_room(*old(buf), contents(item).len()),
        ensures
            result is Ok,
            buffered(*final(buf)) == buffered(*old(buf)) + contents(item),
            *final(self) == *old(self),
    {
        let bytes: &[u8] = item.as_ref();
        if bytes.len() > 0 {
            extend_buffer(buf, item);
        } else {
            assert(buffered(*buf) =~= buffered(*buf) + contents(item));
        }
        Ok(())
    }
}

/// A command is known by its name, every argument, every variable and its directory.
pub proof fn law_command_is_seen_whole(cmd: Command, i: int)
    ensures
        cmd@.command == cmd.command@,
        cmd@.args.len() == cmd.args@.len(),
        0 <= i < cmd.args@.len() ==> cmd@.args[i] == cmd.args@[i]@,
        cmd@.env.len() == cmd.env@.len(),
        0 <= i < cmd.env@.len() ==> cmd@.env[i].0 == cmd.env@[i].0@ && cmd@.env[i].1
            == cmd.env@[i].1@,
        cmd@.working_dir == path_bytes(cmd.working_dir),
{
}

/// Input and output of a child are known by their bytes, and an end by its code.
pub proof fn law_child_streams_are_seen_whole(bytes: Bytes, code: ExitCode)
    ensures
        ChildInput::Stdin(bytes)@ == ChildInputView::Stdin(contents(bytes)),
        ChildInput::StdinEOF@ == ChildInputView::StdinEOF,
        ChildOutput::Stdout(bytes)@ == ChildOutputView::Stdout(contents(bytes)),
        ChildOutput::Stderr(bytes)@ == ChildOutputView::Stderr(contents(bytes)),
        ChildOutput::Exit(code)@ == ChildOutputView::Exit(code),
{
}

/// Output travels as what it is: standard output as such, standard error as such, with the same bytes,
/// and an end with the same code.
pub proof fn law_output_travels_as_it_is(bytes: Seq<u8>, code: i32, output: ChildOutput)
    ensures
        output_chunk(ChildOutputView::Stdout(bytes)) == OutputChunkView::Stdout(bytes),
        output_chunk(ChildOutputView::Stderr(bytes)) == OutputChunkView::Stderr(bytes),
        output_chunk(ChildOutputView::Exit(ExitCode(code))) == OutputChunkView::Exit(code),
        <OutputChunk as vstd::std_specs::convert::FromSpec<ChildOutput>>::from_spec(output)@
            == output_chunk(output@),
{
}

/// A failure to send is a broken pipe, and says which of the two it was.
pub proof fn law_send_failures(reason: Seq<char>)
    ensures
        failed_to_send(reason).kind == ErrorKind::BrokenPipe,
        failed_to_send(reason).message == "Failed to send: "@ + reason,
        send_error_text(true) == "SendError { kind: Full }"@,
        send_error_text(false) == "SendError { kind: Disconnected }"@,
{
}

} // verus!
