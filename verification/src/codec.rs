//! Reading chunks from a buffer and writing them to one.
use bytes::BytesMut;
use vstd::prelude::*;
use vstd::string::*;
use vstd::utf8::*;

pub use crate::chunk::{Chunk, InputChunk, OutputChunk};
pub use crate::error::err;

use crate::buffers::{be_bytes, buffered, lemma_be_bytes, read_u32, write_u32};
use crate::chunk::{input_text, output_text, ChunkView, InputChunkView, OutputChunkView};
use crate::error::{other_error, Error, ErrorKind, ErrorView};
use crate::paths::{path_from_text, path_slice};
use crate::text::{decimal, decimal_text, decode_text, parse_number};
use crate::wire::{
    after_frame, body_of, chunk_of, frame, frame_body, frame_tag, has_frame, input_of,
    is_input_tag, is_output_tag, law_decode_frame, law_later_bytes, law_partial_frame,
    law_streams_on_the_wire, law_where_frames_end, output_of,
    tag_of, text_of, unrecognized, wire_safe, ARGUMENT, COMMAND, ENVIRONMENT, EQUALS, EXIT,
    HEADER_SIZE, HEARTBEAT, START_READING_STDIN, STDERR, STDIN, STDIN_EOF, STDOUT, WORKING_DIR,
};

verus! {

/// The result of reading a chunk, as a mathematical value.
pub open spec fn outcome<T: View>(result: Result<Option<T>, Error>) -> Result<
    Option<T::V>,
    ErrorView,
> {
    match result {
        Ok(Some(chunk)) => Ok(Some(chunk@)),
        Ok(None) => Ok(None),
        Err(e) => Err(e@),
    }
}

/// What is read from a buffer that holds `s`: nothing while the frame at the front is not whole,
/// else what the frame holds.
pub open spec fn decoded(s: Seq<u8>) -> Result<Option<ChunkView>, ErrorView> {
    if !has_frame(s) {
        Ok(None)
    } else {
        match chunk_of(frame_tag(s), frame_body(s)) {
            Ok(chunk) => Ok(Some(chunk)),
            Err(e) => Err(other_error(e)),
        }
    }
}

/// What a buffer that held `s` holds after one chunk was read: a whole frame is gone, whether or not
/// it held a chunk.
pub open spec fn remaining(s: Seq<u8>) -> Seq<u8> {
    if has_frame(s) {
        after_frame(s)
    } else {
        s
    }
}

/// Whether a buffer has room for `len` more bytes.
pub open spec fn has_room(buf: BytesMut, len: nat) -> bool {
    buffered(buf).len() + len <= isize::MAX
}

/// What a chunk says as text.
fn to_string(bytes: &[u8]) -> (text: Result<String, Error>)
    ensures
        match text {
            Ok(s) => text_of(bytes@) == Ok::<Seq<char>, Seq<char>>(s@),
            Err(e) => text_of(bytes@) is Err && e@ == other_error(text_of(bytes@)->Err_0),
        },
{
    match decode_text(bytes) {
        Ok(s) => Ok(s),
        Err(e) => Err(err(e.as_str())),
    }
}

/// The place of the first `=`.
fn equals_position(bytes: &[u8]) -> (position: Option<usize>)
    ensures
        match position {
            Some(i) => bytes@.index_of_first(EQUALS) == Some(i as int) && i < bytes@.len(),
            None => bytes@.index_of_first(EQUALS) is None,
        },
{
    let mut i: usize = 0;
    proof {
        bytes@.index_of_first_ensures(EQUALS);
    }
    while i < bytes.len()
        invariant
            i <= bytes@.len(),
            forall|j: int| 0 <= j < i ==> bytes@[j] != EQUALS,
        decreases bytes@.len() - i,
    {
        if bytes[i] == EQUALS {
            proof {
                bytes@.index_of_first_ensures(EQUALS);
                assert(bytes@.contains(bytes@[i as int]));
            }
            return Some(i);
        }
        i = i + 1;
    }
    None
}

/// The input chunk that a body of the given type holds.
fn decode_input(tag: u8, mut chunk: BytesMut) -> (result: Result<InputChunk, Error>)
    requires
        is_input_tag(tag),
    ensures
        match result {
            Ok(i) => input_of(tag, buffered(chunk)) == Ok::<InputChunkView, Seq<char>>(i@),
            Err(e) => input_of(tag, buffered(chunk)) is Err && e@ == other_error(
                input_of(tag, buffered(chunk))->Err_0,
            ),
        },
{
    if tag == ARGUMENT {
        match to_string(chunk.as_ref()) {
            Ok(s) => Ok(InputChunk::Argument(s)),
            Err(e) => Err(e),
        }
    } else if tag == ENVIRONMENT {
        let ghost body = buffered(chunk);
        let equals: usize = match equals_position(chunk.as_ref()) {
            Some(i) => i,
            None => return Err(err("Environment chunk does not contain `=` separator.")),
        };
        let name = chunk.split_to(equals);
        let key = match to_string(name.as_ref()) {
            Ok(key) => key,
            Err(e) => return Err(e),
        };
        let value = chunk.split_off(1);
        assert(body.skip(equals as int).skip(1) =~= body.skip(equals + 1));
        match to_string(value.as_ref()) {
            Ok(val) => Ok(InputChunk::Environment { key, val }),
            Err(e) => Err(e),
        }
    } else if tag == WORKING_DIR {
        match to_string(chunk.as_ref()) {
            Ok(s) => {
                proof {
                    decode_utf8_encode_utf8(buffered(chunk));
                }
                Ok(InputChunk::WorkingDir(path_from_text(s)))
            },
            Err(e) => Err(e),
        }
    } else if tag == COMMAND {
        match to_string(chunk.as_ref()) {
            Ok(s) => Ok(InputChunk::Command(s)),
            Err(e) => Err(e),
        }
    } else if tag == HEARTBEAT {
        Ok(InputChunk::Heartbeat)
    } else if tag == STDIN {
        Ok(InputChunk::Stdin(chunk.freeze()))
    } else {
        Ok(InputChunk::StdinEof)
    }
}

/// The output chunk that a body of the given type holds.
fn decode_output(tag: u8, chunk: BytesMut) -> (result: Result<OutputChunk, Error>)
    requires
        is_output_tag(tag),
    ensures
        match result {
            Ok(o) => output_of(tag, buffered(chunk)) == Ok::<OutputChunkView, Seq<char>>(o@),
            Err(e) => output_of(tag, buffered(chunk)) is Err && e@ == other_error(
                output_of(tag, buffered(chunk))->Err_0,
            ),
        },
{
    if tag == START_READING_STDIN {
        Ok(OutputChunk::StartReadingStdin)
    } else if tag == STDOUT {
        Ok(OutputChunk::Stdout(chunk.freeze()))
    } else if tag == STDERR {
        Ok(OutputChunk::Stderr(chunk.freeze()))
    } else {
        match to_string(chunk.as_ref()) {
            Ok(s) => match parse_number(s.as_str()) {
                Ok(code) => Ok(OutputChunk::Exit(code)),
                Err(e) => Err(err(e.as_str())),
            },
            Err(e) => Err(e),
        }
    }
}

/// The complaint about a type byte that names no chunk.
fn unrecognized_chunk(tag: u8, len: u32) -> (error: Error)
    ensures
        error@ == other_error(unrecognized(tag, len as nat)),
{
    let mut message = "Unrecognized chunk type: ".to_owned();
    message.push(tag as char);
    message.append(" with len ");
    message.append(decimal_text(len as i64).as_str());
    err(message.as_str())
}

/// Takes the frame off the front of a buffer, where it is whole: its type, the length it announces
/// and its body.
fn take_frame(buf: &mut BytesMut) -> (taken: Option<(u8, u32, BytesMut)>)
    ensures
        buffered(*final(buf)) == remaining(buffered(*old(buf))),
        match taken {
            Some((tag, length, body)) => {
                &&& has_frame(buffered(*old(buf)))
                &&& tag == frame_tag(buffered(*old(buf)))
                &&& buffered(body) == frame_body(buffered(*old(buf)))
                &&& length == buffered(body).len()
            },
            None => !has_frame(buffered(*old(buf))),
        },
{
    // A chunk header tells how much more is needed.
    if buf.len() < HEADER_SIZE {
        return None;
    }
    let bytes: &[u8] = (*buf).as_ref();
    let length: u32 = read_u32(&bytes[0..HEADER_SIZE - 1]);
    let ghost s = buffered(*old(buf));
    assert(s.subrange(0, 4)[0] == s[0]);
    if buf.len() - HEADER_SIZE < length as usize {
        return None;
    }
    let header = buf.split_to(HEADER_SIZE);
    let chunk = buf.split_to(length as usize);
    assert(s.skip(HEADER_SIZE as int).take(length as int) =~= frame_body(s));
    assert(s.skip(HEADER_SIZE as int).skip(length as int) =~= after_frame(s));
    let header: &[u8] = header.as_ref();
    Some((header[HEADER_SIZE - 1], length, chunk))
}

/// Reads one chunk from a buffer.
pub fn decode(buf: &mut BytesMut) -> (result: Result<Option<Chunk>, Error>)
    ensures
        outcome(result) == decoded(buffered(*old(buf))),
        buffered(*final(buf)) == remaining(buffered(*old(buf))),
{
    let (tag, length, chunk) = match take_frame(buf) {
        Some(taken) => taken,
        None => return Ok(None),
    };
    if tag == ARGUMENT || tag == ENVIRONMENT || tag == WORKING_DIR || tag == COMMAND || tag
        == HEARTBEAT || tag == STDIN || tag == STDIN_EOF {
        match decode_input(tag, chunk) {
            Ok(i) => Ok(Some(Chunk::Input(i))),
            Err(e) => Err(e),
        }
    } else if tag == START_READING_STDIN || tag == STDOUT || tag == STDERR || tag == EXIT {
        match decode_output(tag, chunk) {
            Ok(o) => Ok(Some(Chunk::Output(o))),
            Err(e) => Err(e),
        }
    } else {
        Err(unrecognized_chunk(tag, length))
    }
}

/// Appends the body of a chunk to a buffer and tells its type.
fn encode_body(msg: Chunk, buf: &mut BytesMut) -> (tag: u8)
    requires
        has_room(*old(buf), body_of(msg@).len()),
    ensures
        tag == tag_of(msg@),
        buffered(*final(buf)) == buffered(*old(buf)) + body_of(msg@),
{
    match msg {
        Chunk::Output(o) => match o {
            OutputChunk::StartReadingStdin => START_READING_STDIN,
            OutputChunk::Stdout(bytes) => {
                buf.extend_from_slice(bytes.as_ref());
                STDOUT
            },
            OutputChunk::Stderr(bytes) => {
                buf.extend_from_slice(bytes.as_ref());
                STDERR
            },
            OutputChunk::Exit(code) => {
                buf.extend_from_slice(decimal_text(code as i64).as_str().as_bytes());
                EXIT
            },
        },
        Chunk::Input(i) => match i {
            InputChunk::Argument(s) => {
                buf.extend_from_slice(s.as_str().as_bytes());
                ARGUMENT
            },
            InputChunk::Environment { key, val } => {
                buf.extend_from_slice(key.as_str().as_bytes());
                buf.extend_from_slice(&[EQUALS]);
                buf.extend_from_slice(val.as_str().as_bytes());
                ENVIRONMENT
            },
            InputChunk::WorkingDir(path) => {
                buf.extend_from_slice(path_slice(&path));
                WORKING_DIR
            },
            InputChunk::Command(s) => {
                buf.extend_from_slice(s.as_str().as_bytes());
                COMMAND
            },
            InputChunk::Heartbeat => HEARTBEAT,
            InputChunk::Stdin(bytes) => {
                buf.extend_from_slice(bytes.as_ref());
                STDIN
            },
            InputChunk::StdinEof => STDIN_EOF,
        },
    }
}

/// The four length bytes of a header for a body of `len` bytes.
proof fn lemma_length_bytes(len: u64)
    ensures
        len as u32 == len % 0x1_0000_0000,
{
    assert(len as u32 == len % 0x1_0000_0000) by (bit_vector);
}

/// Appends the frame of a chunk to a buffer.
pub fn encode(msg: Chunk, buf: &mut BytesMut)
    requires
        has_room(*old(buf), HEADER_SIZE as nat + body_of(msg@).len()),
    ensures
        buffered(*final(buf)) == buffered(*old(buf)) + frame(msg@),
{
    let ghost before = buffered(*buf);
    let ghost body = body_of(msg@);
    let initial_offset: usize = buf.len();

    // Make room for the header, and then append the chunk.
    buf.extend_from_slice(&[0u8; HEADER_SIZE]);
    let tag: u8 = encode_body(msg, buf);

    // Then write the type and the length of the body into the header.
    let header_end: usize = initial_offset + HEADER_SIZE;
    let chunk_len: usize = buf.len() - header_end;
    proof {
        lemma_length_bytes(chunk_len as u64);
    }
    let bytes: &mut [u8] = buf.as_mut();
    let (_, appended) = bytes.split_at_mut(initial_offset);
    write_u32(appended, (chunk_len as u64) as u32);
    appended[HEADER_SIZE - 1] = tag;
    assert(buffered(*buf) =~= before + frame(msg@));
}

/// What the client says of a chunk that only a server may receive.
pub open spec fn intended_for_server(description: Seq<char>) -> ErrorView {
    other_error("Client received a chunk intended for a server: "@ + description)
}

/// What the server says of a chunk that only a client may receive.
pub open spec fn intended_for_client(description: Seq<char>) -> ErrorView {
    other_error("Server received a chunk intended for a client: "@ + description)
}

/// What a client reads from a buffer that holds `s`.
pub open spec fn client_decoded(s: Seq<u8>) -> Result<Option<OutputChunkView>, ErrorView> {
    match decoded(s) {
        Ok(None) => Ok(None),
        Ok(Some(ChunkView::Output(o))) => Ok(Some(o)),
        Ok(Some(ChunkView::Input(i))) => Err(intended_for_server(input_text(i))),
        Err(e) => Err(e),
    }
}

/// What a server reads from a buffer that holds `s`.
pub open spec fn server_decoded(s: Seq<u8>) -> Result<Option<InputChunkView>, ErrorView> {
    match decoded(s) {
        Ok(None) => Ok(None),
        Ok(Some(ChunkView::Input(i))) => Ok(Some(i)),
        Ok(Some(ChunkView::Output(o))) => Err(intended_for_client(output_text(o))),
        Err(e) => Err(e),
    }
}

/// The error of a client that received a chunk for a server, given how a message shows the chunk.
pub fn misdirected_input(description: &str) -> (error: Error)
    ensures
        error@ == intended_for_server(description@),
{
    let mut message = "Client received a chunk intended for a server: ".to_owned();
    message.append(description);
    err(message.as_str())
}

/// The error of a server that received a chunk for a client, given how a message shows the chunk.
pub fn misdirected_output(description: &str) -> (error: Error)
    ensures
        error@ == intended_for_client(description@),
{
    let mut message = "Server received a chunk intended for a client: ".to_owned();
    message.append(description);
    err(message.as_str())
}

/// The codec of a client: it writes input chunks and reads output chunks.
#[derive(Debug)]
pub struct ClientCodec;

impl ClientCodec {
    /// Reads one output chunk from a buffer.
    pub fn decode(&mut self, buf: &mut BytesMut) -> (result: Result<Option<OutputChunk>, Error>)
        ensures
            outcome(result) == client_decoded(buffered(*old(buf))),
            buffered(*final(buf)) == remaining(buffered(*old(buf))),
            *final(self) == *old(self),
    {
        match decode(buf) {
            Ok(None) => Ok(None),
            Ok(Some(Chunk::Output(o))) => Ok(Some(o)),
            Ok(Some(Chunk::Input(i))) => Err(misdirected_input(i.describe().as_str())),
            Err(e) => Err(e),
        }
    }

    /// Appends the frame of an input chunk to a buffer.
    pub fn encode(&mut self, msg: InputChunk, buf: &mut BytesMut) -> (result: Result<(), Error>)
        requires
            has_room(*old(buf), HEADER_SIZE as nat + body_of(ChunkView::Input(msg@)).len()),
        ensures
            result is Ok,
            buffered(*final(buf)) == buffered(*old(buf)) + frame(ChunkView::Input(msg@)),
            *final(self) == *old(self),
    {
        encode(Chunk::Input(msg), buf);
        Ok(())
    }
}

/// The codec of a server: it writes output chunks and reads input chunks.
#[derive(Debug)]
pub struct ServerCodec;

impl ServerCodec {
    /// Reads one input chunk from a buffer.
    pub fn decode(&mut self, buf: &mut BytesMut) -> (result: Result<Option<InputChunk>, Error>)
        ensures
            outcome(result) == server_decoded(buffered(*old(buf))),
            buffered(*final(buf)) == remaining(buffered(*old(buf))),
            *final(self) == *old(self),
    {
        match decode(buf) {
            Ok(None) => Ok(None),
            Ok(Some(Chunk::Input(i))) => Ok(Some(i)),
            Ok(Some(Chunk::Output(o))) => Err(misdirected_output(o.describe().as_str())),
            Err(e) => Err(e),
        }
    }

    /// Appends the frame of an output chunk to a buffer.
    pub fn encode(&mut self, msg: OutputChunk, buf: &mut BytesMut) -> (result: Result<(), Error>)
        requires
            has_room(*old(buf), HEADER_SIZE as nat + body_of(ChunkView::Output(msg@)).len()),
        ensures
            result is Ok,
            buffered(*final(buf)) == buffered(*old(buf)) + frame(ChunkView::Output(msg@)),
            *final(self) == *old(self),
    {
        encode(Chunk::Output(msg), buf);
        Ok(())
    }
}

/// What a server that knows no output chunks reads from a buffer that holds `s`.
pub open spec fn input_only_decoded(s: Seq<u8>) -> Result<Option<InputChunkView>, ErrorView> {
    if !has_frame(s) {
        Ok(None)
    } else if is_input_tag(frame_tag(s)) {
        match input_of(frame_tag(s), frame_body(s)) {
            Ok(i) => Ok(Some(i)),
            Err(e) => Err(other_error(e)),
        }
    } else {
        Err(other_error(unrecognized(frame_tag(s), frame_body(s).len())))
    }
}

/// A server's codec that treats output chunks as unknown when it reads.
#[derive(Debug)]
pub struct Codec;

impl Codec {
    /// Reads one input chunk from a buffer.
    pub fn decode(&mut self, buf: &mut BytesMut) -> (result: Result<Option<InputChunk>, Error>)
        ensures
            outcome(result) == input_only_decoded(buffered(*old(buf))),
            buffered(*final(buf)) == remaining(buffered(*old(buf))),
            *final(self) == *old(self),
    {
        let (tag, length, chunk) = match take_frame(buf) {
            Some(taken) => taken,
            None => return Ok(None),
        };
        if tag == ARGUMENT || tag == ENVIRONMENT || tag == WORKING_DIR || tag == COMMAND || tag
            == HEARTBEAT || tag == STDIN || tag == STDIN_EOF {
            match decode_input(tag, chunk) {
                Ok(i) => Ok(Some(i)),
                Err(e) => Err(e),
            }
        } else {
            Err(unrecognized_chunk(tag, length))
        }
    }

    /// Appends the frame of an output chunk to a buffer.
    pub fn encode(&mut self, msg: OutputChunk, buf: &mut BytesMut) -> (result: Result<(), Error>)
        requires
            has_room(*old(buf), HEADER_SIZE as nat + body_of(ChunkView::Output(msg@)).len()),
        ensures
            result is Ok,
            buffered(*final(buf)) == buffered(*old(buf)) + frame(ChunkView::Output(msg@)),
            *final(self) == *old(self),
    {
        encode(Chunk::Output(msg), buf);
        Ok(())
    }
}

/// A server reads what a client wrote, whatever follows it.
pub proof fn law_server_reads_client(chunk: InputChunkView, rest: Seq<u8>)
    requires
        wire_safe(ChunkView::Input(chunk)),
    ensures
        server_decoded(frame(ChunkView::Input(chunk)) + rest) == Ok::<
            Option<InputChunkView>,
            ErrorView,
        >(Some(chunk)),
        input_only_decoded(frame(ChunkView::Input(chunk)) + rest) == Ok::<
            Option<InputChunkView>,
            ErrorView,
        >(Some(chunk)),
        remaining(frame(ChunkView::Input(chunk)) + rest) == rest,
{
    law_decode_frame(ChunkView::Input(chunk), rest);
}

/// A client reads what a server wrote, whatever follows it.
pub proof fn law_client_reads_server(chunk: OutputChunkView, rest: Seq<u8>)
    requires
        wire_safe(ChunkView::Output(chunk)),
    ensures
        client_decoded(frame(ChunkView::Output(chunk)) + rest) == Ok::<
            Option<OutputChunkView>,
            ErrorView,
        >(Some(chunk)),
        remaining(frame(ChunkView::Output(chunk)) + rest) == rest,
{
    law_decode_frame(ChunkView::Output(chunk), rest);
}

/// Neither end takes a chunk that only the other may receive, and neither is stuck on it: the frame
/// is gone afterwards.
pub proof fn law_misdirected(chunk: ChunkView, rest: Seq<u8>)
    requires
        wire_safe(chunk),
    ensures
        chunk matches ChunkView::Input(i) ==> client_decoded(frame(chunk) + rest) == Err::<
            Option<OutputChunkView>,
            ErrorView,
        >(intended_for_server(input_text(i))),
        chunk matches ChunkView::Output(o) ==> server_decoded(frame(chunk) + rest) == Err::<
            Option<InputChunkView>,
            ErrorView,
        >(intended_for_client(output_text(o))),
        remaining(frame(chunk) + rest) == rest,
{
    law_decode_frame(chunk, rest);
}

/// Bytes that arrive later change nothing about what is read: chunks may be read as they arrive.
pub proof fn law_reads_as_it_arrives(s: Seq<u8>, later: Seq<u8>)
    requires
        has_frame(s),
    ensures
        decoded(s + later) == decoded(s),
        client_decoded(s + later) == client_decoded(s),
        server_decoded(s + later) == server_decoded(s),
        input_only_decoded(s + later) == input_only_decoded(s),
        remaining(s + later) == remaining(s) + later,
{
    law_later_bytes(s, later);
}

/// A frame that has not arrived in full is waited for: nothing is read, and nothing is lost.
pub proof fn law_waits_for_frame(chunk: ChunkView, len: int)
    requires
        body_of(chunk).len() <= u32::MAX,
        0 <= len < frame(chunk).len(),
    ensures
        decoded(frame(chunk).take(len)) == Ok::<Option<ChunkView>, ErrorView>(None),
        remaining(frame(chunk).take(len)) == frame(chunk).take(len),
{
    law_partial_frame(chunk, len);
}

/// Every read that gives a chunk or an error takes something off the buffer: no reader is stuck.
pub proof fn law_reads_make_progress(s: Seq<u8>)
    ensures
        decoded(s) != Ok::<Option<ChunkView>, ErrorView>(None) ==> remaining(s).len() < s.len(),
        decoded(s) == Ok::<Option<ChunkView>, ErrorView>(None) ==> remaining(s) == s,
{
}

/// One read takes the first frame, where it is whole, and gives what its type byte and body stand for;
/// where it is not whole it gives nothing and takes nothing.
pub proof fn law_reads_the_first_frame(s: Seq<u8>)
    ensures
        s.len() < 5 ==> decoded(s) == Ok::<Option<ChunkView>, ErrorView>(None) && remaining(s) == s,
        s.len() >= 5 ==> {
            let n = s[0] * 16777216 + s[1] * 65536 + s[2] * 256 + s[3];
            &&& s.len() < 5 + n ==> {
                &&& decoded(s) == Ok::<Option<ChunkView>, ErrorView>(None)
                &&& remaining(s) == s
            }
            &&& s.len() >= 5 + n ==> {
                &&& remaining(s) == s.skip(5 + n)
                &&& chunk_of(s[4], s.subrange(5, 5 + n)) matches Ok(chunk) ==> decoded(s) == Ok::<
                    Option<ChunkView>,
                    ErrorView,
                >(Some(chunk))
                &&& chunk_of(s[4], s.subrange(5, 5 + n)) matches Err(reason) ==> {
                    &&& decoded(s) is Err
                    &&& decoded(s)->Err_0.kind == ErrorKind::Other
                    &&& decoded(s)->Err_0.message == reason
                }
            }
        },
{
    law_where_frames_end(s);
}

/// A frame of any type byte and body, with anything after it, is read as that type and that body, and
/// what follows it is left.
pub proof fn law_reads_type_and_body(tag: u8, body: Seq<u8>, rest: Seq<u8>)
    requires
        body.len() <= 4294967295,
    ensures
        ({
            let s = be_bytes(body.len() as u32).push(tag) + body + rest;
            &&& has_frame(s)
            &&& frame_tag(s) == tag
            &&& frame_body(s) == body
            &&& remaining(s) == rest
        }),
{
    let n = body.len() as u32;
    let s = be_bytes(n).push(tag) + body + rest;
    lemma_be_bytes(n, seq![tag] + body + rest);
    assert(s =~= be_bytes(n) + (seq![tag] + body + rest));
    assert(frame_body(s) =~= body);
    assert(after_frame(s) =~= rest);
}

/// Standard output, standard error and standard input are read as what their type bytes say, with the
/// same bytes, however many.
pub proof fn law_streams_are_read(bytes: Seq<u8>, rest: Seq<u8>)
    requires
        bytes.len() <= 4294967295,
    ensures
        client_decoded(be_bytes(bytes.len() as u32).push(0x31u8) + bytes + rest) == Ok::<
            Option<OutputChunkView>,
            ErrorView,
        >(Some(OutputChunkView::Stdout(bytes))),
        client_decoded(be_bytes(bytes.len() as u32).push(0x32u8) + bytes + rest) == Ok::<
            Option<OutputChunkView>,
            ErrorView,
        >(Some(OutputChunkView::Stderr(bytes))),
        server_decoded(be_bytes(bytes.len() as u32).push(0x30u8) + bytes + rest) == Ok::<
            Option<InputChunkView>,
            ErrorView,
        >(Some(InputChunkView::Stdin(bytes))),
{
    law_reads_type_and_body(0x31, bytes, rest);
    law_reads_type_and_body(0x32, bytes, rest);
    law_reads_type_and_body(0x30, bytes, rest);
    law_streams_on_the_wire(bytes);
}

/// Each end takes exactly the chunks that are meant for it, as they are read, and refuses the others by
/// showing them; what cannot be read at all is refused in the same way at both ends.
pub proof fn law_each_end_takes_its_own(s: Seq<u8>)
    ensures
        match decoded(s) {
            Ok(None) => {
                &&& client_decoded(s) == Ok::<Option<OutputChunkView>, ErrorView>(None)
                &&& server_decoded(s) == Ok::<Option<InputChunkView>, ErrorView>(None)
                &&& input_only_decoded(s) == Ok::<Option<InputChunkView>, ErrorView>(None)
            },
            Ok(Some(ChunkView::Input(i))) => {
                &&& server_decoded(s) == Ok::<Option<InputChunkView>, ErrorView>(Some(i))
                &&& input_only_decoded(s) == Ok::<Option<InputChunkView>, ErrorView>(Some(i))
                &&& client_decoded(s) matches Err(e) && e.kind == ErrorKind::Other && e.message
                    == "Client received a chunk intended for a server: "@ + input_text(i)
            },
            Ok(Some(ChunkView::Output(o))) => {
                &&& client_decoded(s) == Ok::<Option<OutputChunkView>, ErrorView>(Some(o))
                &&& server_decoded(s) matches Err(e) && e.kind == ErrorKind::Other && e.message
                    == "Server received a chunk intended for a client: "@ + output_text(o)
            },
            Err(e) => {
                &&& client_decoded(s) == Err::<Option<OutputChunkView>, ErrorView>(e)
                &&& server_decoded(s) == Err::<Option<InputChunkView>, ErrorView>(e)
            },
        },
{
}

/// A server that knows no output chunks refuses them as it refuses any unknown type, and all else as it
/// is refused elsewhere.
pub proof fn law_input_only(s: Seq<u8>)
    requires
        has_frame(s),
    ensures
        is_output_tag(frame_tag(s)) ==> (input_only_decoded(s) matches Err(e) && e.kind
            == ErrorKind::Other && e.message == "Unrecognized chunk type: "@.push(
            frame_tag(s) as char,
        ) + " with len "@ + decimal(frame_body(s).len() as int)),
        !is_output_tag(frame_tag(s)) ==> (decoded(s) matches Err(e) ==> input_only_decoded(s)
            == Err::<Option<InputChunkView>, ErrorView>(e)),
        is_output_tag(frame_tag(s)) <==> frame_tag(s) == 0x53 || frame_tag(s) == 0x31 || frame_tag(s)
            == 0x32 || frame_tag(s) == 0x58,
{
}

/// What a read gives is seen as it is, and a buffer has room up to what can be allocated.
pub proof fn law_reads_are_seen_whole<T: View>(chunk: T, e: Error, buf: BytesMut, len: nat)
    ensures
        outcome(Ok::<Option<T>, Error>(Some(chunk))) == Ok::<Option<T::V>, ErrorView>(Some(chunk@)),
        outcome(Ok::<Option<T>, Error>(None)) == Ok::<Option<T::V>, ErrorView>(None),
        outcome(Err::<Option<T>, Error>(e)) == Err::<Option<T::V>, ErrorView>(e@),
        has_room(buf, len) <==> buffered(buf).len() + len <= isize::MAX,
{
}

/// The error about a misdirected chunk keeps how the chunk is shown.
pub proof fn law_misdirected_are_shown(description: Seq<char>)
    ensures
        intended_for_server(description).kind == ErrorKind::Other,
        intended_for_server(description).message
            == "Client received a chunk intended for a server: "@ + description,
        intended_for_client(description).kind == ErrorKind::Other,
        intended_for_client(description).message
            == "Server received a chunk intended for a client: "@ + description,
{
}

} // verus!
