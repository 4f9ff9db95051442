//! The chunks that the two ends of a connection send to one another.
use std::path::PathBuf;

use bytes::Bytes;
use vstd::prelude::*;
use vstd::string::*;

use crate::buffers::contents;
use crate::paths::{describe_path, path_bytes, path_text};
use crate::text::{byte_string, decimal, decimal_text, quote, quote_bytes, quoted};

verus! {

/// A chunk, whichever way it travels.
#[derive(Debug, PartialEq, Eq)]
pub enum Chunk {
    /// A chunk from the client to the server.
    Input(InputChunk),
    /// A chunk from the server to the client.
    Output(OutputChunk),
}

/// A chunk from the client to the server.
#[derive(Debug, PartialEq, Eq)]
pub enum InputChunk {
    /// One argument of the command.
    Argument(String),
    /// One variable of the command's environment.
    Environment { key: String, val: String },
    /// The directory to run the command in.
    WorkingDir(PathBuf),
    /// The command itself.
    Command(String),
    /// A sign that the client is still there.
    Heartbeat,
    /// Some of the command's standard input.
    Stdin(Bytes),
    /// The end of the command's standard input.
    StdinEof,
}

/// A chunk from the server to the client.
#[derive(Debug, PartialEq, Eq)]
pub enum OutputChunk {
    /// The server is ready for standard input.
    StartReadingStdin,
    /// Some of the command's standard output.
    Stdout(Bytes),
    /// Some of the command's standard error.
    Stderr(Bytes),
    /// The command has ended, with this code.
    Exit(i32),
}

/// A [`Chunk`] as a mathematical value.
pub enum ChunkView {
    /// A chunk from the client to the server.
    Input(InputChunkView),
    /// A chunk from the server to the client.
    Output(OutputChunkView),
}

/// An [`InputChunk`] as a mathematical value.
pub enum InputChunkView {
    /// One argument of the command.
    Argument(Seq<char>),
    /// One variable of the command's environment.
    Environment { key: Seq<char>, val: Seq<char> },
    /// The bytes of the path of the directory to run the command in.
    WorkingDir(Seq<u8>),
    /// The command itself.
    Command(Seq<char>),
    /// A sign that the client is still there.
    Heartbeat,
    /// Some of the command's standard input.
    Stdin(Seq<u8>),
    /// The end of the command's standard input.
    StdinEof,
}

/// An [`OutputChunk`] as a mathematical value.
pub enum OutputChunkView {
    /// The server is ready for standard input.
    StartReadingStdin,
    /// Some of the command's standard output.
    Stdout(Seq<u8>),
    /// Some of the command's standard error.
    Stderr(Seq<u8>),
    /// The command has ended, with this code.
    Exit(i32),
}

impl View for Chunk {
    type V = ChunkView;

    open spec fn view(&self) -> ChunkView {
        match *self {
            Chunk::Input(i) => ChunkView::Input(i@),
            Chunk::Output(o) => ChunkView::Output(o@),
        }
    }
}

impl View for InputChunk {
    type V = InputChunkView;

    open spec fn view(&self) -> InputChunkView {
        match *self {
            InputChunk::Argument(s) => InputChunkView::Argument(s@),
            InputChunk::Environment { key, val } => InputChunkView::Environment {
                key: key@,
                val: val@,
            },
            InputChunk::WorkingDir(path) => InputChunkView::WorkingDir(path_bytes(path)),
            InputChunk::Command(s) => InputChunkView::Command(s@),
            InputChunk::Heartbeat => InputChunkView::Heartbeat,
            InputChunk::Stdin(bytes) => InputChunkView::Stdin(contents(bytes)),
            InputChunk::StdinEof => InputChunkView::StdinEof,
        }
    }
}

impl View for OutputChunk {
    type V = OutputChunkView;

    open spec fn view(&self) -> OutputChunkView {
        match *self {
            OutputChunk::StartReadingStdin => OutputChunkView::StartReadingStdin,
            OutputChunk::Stdout(bytes) => OutputChunkView::Stdout(contents(bytes)),
            OutputChunk::Stderr(bytes) => OutputChunkView::Stderr(contents(bytes)),
            OutputChunk::Exit(code) => OutputChunkView::Exit(code),
        }
    }
}

impl DeepView for InputChunk {
    type V = InputChunkView;

    open spec fn deep_view(&self) -> InputChunkView {
        self@
    }
}

impl DeepView for OutputChunk {
    type V = OutputChunkView;

    open spec fn deep_view(&self) -> OutputChunkView {
        self@
    }
}

/// What reading from the other end gave.
#[derive(Debug, PartialEq, Eq)]
pub enum Received<T, E> {
    /// A chunk arrived.
    Chunk(T),
    /// Reading failed.
    Failed(E),
    /// The other end closed the connection.
    Closed,
}

impl<T: View, E: View> View for Received<T, E> {
    type V = Received<T::V, E::V>;

    open spec fn view(&self) -> Received<T::V, E::V> {
        match *self {
            Received::Chunk(chunk) => Received::Chunk(chunk@),
            Received::Failed(e) => Received::Failed(e@),
            Received::Closed => Received::Closed,
        }
    }
}

impl Clone for Chunk {
    fn clone(&self) -> (copy: Chunk)
        ensures
            copy@ == self@,
    {
        match self {
            Chunk::Input(i) => Chunk::Input(i.clone()),
            Chunk::Output(o) => Chunk::Output(o.clone()),
        }
    }
}

impl Clone for InputChunk {
    fn clone(&self) -> (copy: InputChunk)
        ensures
            copy@ == self@,
    {
        match self {
            InputChunk::Argument(s) => InputChunk::Argument(s.clone()),
            InputChunk::Environment { key, val } => InputChunk::Environment {
                key: key.clone(),
                val: val.clone(),
            },
            InputChunk::WorkingDir(path) => InputChunk::WorkingDir(path.clone()),
            InputChunk::Command(s) => InputChunk::Command(s.clone()),
            InputChunk::Heartbeat => InputChunk::Heartbeat,
            InputChunk::Stdin(bytes) => InputChunk::Stdin(bytes.clone()),
            InputChunk::StdinEof => InputChunk::StdinEof,
        }
    }
}

impl Clone for OutputChunk {
    fn clone(&self) -> (copy: OutputChunk)
        ensures
            copy@ == self@,
    {
        match self {
            OutputChunk::StartReadingStdin => OutputChunk::StartReadingStdin,
            OutputChunk::Stdout(bytes) => OutputChunk::Stdout(bytes.clone()),
            OutputChunk::Stderr(bytes) => OutputChunk::Stderr(bytes.clone()),
            OutputChunk::Exit(code) => OutputChunk::Exit(*code),
        }
    }
}

/// How a message shows an input chunk.
pub open spec fn input_text(chunk: InputChunkView) -> Seq<char> {
    match chunk {
        InputChunkView::Argument(s) => "Argument("@ + quoted(s) + ")"@,
        InputChunkView::Environment { key, val } => "Environment { key: "@ + quoted(key)
            + ", val: "@ + quoted(val) + " }"@,
        InputChunkView::WorkingDir(path) => "WorkingDir("@ + path_text(path) + ")"@,
        InputChunkView::Command(s) => "Command("@ + quoted(s) + ")"@,
        InputChunkView::Heartbeat => "Heartbeat"@,
        InputChunkView::Stdin(bytes) => "Stdin("@ + byte_string(bytes) + ")"@,
        InputChunkView::StdinEof => "StdinEof"@,
    }
}

/// How a message shows an output chunk.
pub open spec fn output_text(chunk: OutputChunkView) -> Seq<char> {
    match chunk {
        OutputChunkView::StartReadingStdin => "StartReadingStdin"@,
        OutputChunkView::Stdout(bytes) => "Stdout("@ + byte_string(bytes) + ")"@,
        OutputChunkView::Stderr(bytes) => "Stderr("@ + byte_string(bytes) + ")"@,
        OutputChunkView::Exit(code) => "Exit("@ + decimal(code as int) + ")"@,
    }
}

/// `name(inner)`, as `Debug` writes a variant with one field.
pub(crate) fn wrapped(name: &str, inner: &str) -> (text: String)
    ensures
        text@ == name@ + inner@ + ")"@,
{
    let mut text = name.to_owned();
    text.append(inner);
    text.append(")");
    text
}

impl InputChunk {
    /// The chunk as a message shows it.
    pub fn describe(&self) -> (text: String)
        ensures
            text@ == input_text(self@),
    {
        match self {
            InputChunk::Argument(s) => wrapped("Argument(", quote(s.as_str()).as_str()),
            InputChunk::Environment { key, val } => {
                let mut text = "Environment { key: ".to_owned();
                text.append(quote(key.as_str()).as_str());
                text.append(", val: ");
                text.append(quote(val.as_str()).as_str());
                text.append(" }");
                text
            },
            InputChunk::WorkingDir(path) => wrapped("WorkingDir(", describe_path(path).as_str()),
            InputChunk::Command(s) => wrapped("Command(", quote(s.as_str()).as_str()),
            InputChunk::Heartbeat => "Heartbeat".to_owned(),
            InputChunk::Stdin(bytes) => wrapped("Stdin(", quote_bytes(bytes).as_str()),
            InputChunk::StdinEof => "StdinEof".to_owned(),
        }
    }
}

impl OutputChunk {
    /// The chunk as a message shows it.
    pub fn describe(&self) -> (text: String)
        ensures
            text@ == output_text(self@),
    {
        match self {
            OutputChunk::StartReadingStdin => "StartReadingStdin".to_owned(),
            OutputChunk::Stdout(bytes) => wrapped("Stdout(", quote_bytes(bytes).as_str()),
            OutputChunk::Stderr(bytes) => wrapped("Stderr(", quote_bytes(bytes).as_str()),
            OutputChunk::Exit(code) => wrapped("Exit(", decimal_text(*code as i64).as_str()),
        }
    }
}

/// A chunk is known by its type and by all that it carries.
pub proof fn law_input_chunks_are_seen_whole(s: String, t: String, path: PathBuf, bytes: Bytes)
    ensures
        InputChunk::Argument(s)@ == InputChunkView::Argument(s@),
        (InputChunk::Environment { key: s, val: t })@ == (InputChunkView::Environment {
            key: s@,
            val: t@,
        }),
        InputChunk::WorkingDir(path)@ == InputChunkView::WorkingDir(path_bytes(path)),
        InputChunk::Command(s)@ == InputChunkView::Command(s@),
        InputChunk::Heartbeat@ == InputChunkView::Heartbeat,
        InputChunk::Stdin(bytes)@ == InputChunkView::Stdin(contents(bytes)),
        InputChunk::StdinEof@ == InputChunkView::StdinEof,
{
}

/// A chunk is known by its type and by all that it carries.
pub proof fn law_output_chunks_are_seen_whole(bytes: Bytes, code: i32)
    ensures
        OutputChunk::StartReadingStdin@ == OutputChunkView::StartReadingStdin,
        OutputChunk::Stdout(bytes)@ == OutputChunkView::Stdout(contents(bytes)),
        OutputChunk::Stderr(bytes)@ == OutputChunkView::Stderr(contents(bytes)),
        OutputChunk::Exit(code)@ == OutputChunkView::Exit(code),
{
}

/// A chunk is known as the chunk that it is, whichever way it travels and however it was received; what
/// was received is seen as it is.
pub proof fn law_received_is_seen_whole<T: View, E: View>(
    input: InputChunk,
    output: OutputChunk,
    chunk: T,
    e: E,
)
    ensures
        Chunk::Input(input)@ == ChunkView::Input(input@),
        Chunk::Output(output)@ == ChunkView::Output(output@),
        input.deep_view() == input@,
        output.deep_view() == output@,
        Received::<T, E>::Chunk(chunk)@ == Received::<T::V, E::V>::Chunk(chunk@),
        Received::<T, E>::Failed(e)@ == Received::<T::V, E::V>::Failed(e@),
        Received::<T, E>::Closed@ == Received::<T::V, E::V>::Closed,
{
}

/// A message shows a chunk by the name of its type and all that it carries, quoted.
pub proof fn law_chunks_are_shown_whole(
    s: Seq<char>,
    t: Seq<char>,
    path: Seq<u8>,
    bytes: Seq<u8>,
    code: i32,
)
    ensures
        input_text(InputChunkView::Argument(s)) == "Argument("@ + quoted(s) + ")"@,
        input_text(InputChunkView::Environment { key: s, val: t }) == "Environment { key: "@
            + quoted(s) + ", val: "@ + quoted(t) + " }"@,
        input_text(InputChunkView::WorkingDir(path)) == "WorkingDir("@ + path_text(path) + ")"@,
        input_text(InputChunkView::Command(s)) == "Command("@ + quoted(s) + ")"@,
        input_text(InputChunkView::Heartbeat) == "Heartbeat"@,
        input_text(InputChunkView::Stdin(bytes)) == "Stdin("@ + byte_string(bytes) + ")"@,
        input_text(InputChunkView::StdinEof) == "StdinEof"@,
        output_text(OutputChunkView::StartReadingStdin) == "StartReadingStdin"@,
        output_text(OutputChunkView::Stdout(bytes)) == "Stdout("@ + byte_string(bytes) + ")"@,
        output_text(OutputChunkView::Stderr(bytes)) == "Stderr("@ + byte_string(bytes) + ")"@,
        output_text(OutputChunkView::Exit(code)) == "Exit("@ + decimal(code as int) + ")"@,
{
}

} // verus!
