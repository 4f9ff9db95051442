//! The wire format: what bytes stand for which chunks.
//!
//! A chunk travels as a frame: the length of its body in four bytes, most significant first, then
//! one byte that names the type of the chunk, then the body.
use vstd::prelude::*;
use vstd::utf8::*;

use crate::buffers::{be_bytes, be_u32, law_most_significant_first, lemma_be_bytes};
use crate::chunk::{ChunkView, InputChunkView, OutputChunkView};
use crate::text::{
    decimal, law_parse_decimal, lemma_decimal_is_short, number_complaint, parse_i32,
    utf8_complaint,
};

verus! {

/// The length of a frame's header.
pub const HEADER_SIZE: usize = 5;

/// `A`: the type of an argument.
pub const ARGUMENT: u8 = 0x41;

/// `E`: the type of an environment variable.
pub const ENVIRONMENT: u8 = 0x45;

/// `D`: the type of a working directory.
pub const WORKING_DIR: u8 = 0x44;

/// `C`: the type of a command.
pub const COMMAND: u8 = 0x43;

/// `H`: the type of a heartbeat.
pub const HEARTBEAT: u8 = 0x48;

/// `0`: the type of some standard input.
pub const STDIN: u8 = 0x30;

/// `.`: the type of the end of standard input.
pub const STDIN_EOF: u8 = 0x2e;

/// `S`: the type of the request for standard input.
pub const START_READING_STDIN: u8 = 0x53;

/// `1`: the type of some standard output.
pub const STDOUT: u8 = 0x31;

/// `2`: the type of some standard error.
pub const STDERR: u8 = 0x32;

/// `X`: the type of an exit code.
pub const EXIT: u8 = 0x58;

/// `=`: what separates the name and the value of an environment variable.
pub const EQUALS: u8 = 0x3d;

/// The type byte of an input chunk.
pub open spec fn input_tag(chunk: InputChunkView) -> u8 {
    match chunk {
        InputChunkView::Argument(_) => ARGUMENT,
        InputChunkView::Environment { .. } => ENVIRONMENT,
        InputChunkView::WorkingDir(_) => WORKING_DIR,
        InputChunkView::Command(_) => COMMAND,
        InputChunkView::Heartbeat => HEARTBEAT,
        InputChunkView::Stdin(_) => STDIN,
        InputChunkView::StdinEof => STDIN_EOF,
    }
}

/// The type byte of an output chunk.
pub open spec fn output_tag(chunk: OutputChunkView) -> u8 {
    match chunk {
        OutputChunkView::StartReadingStdin => START_READING_STDIN,
        OutputChunkView::Stdout(_) => STDOUT,
        OutputChunkView::Stderr(_) => STDERR,
        OutputChunkView::Exit(_) => EXIT,
    }
}

/// The type byte of a chunk.
pub open spec fn tag_of(chunk: ChunkView) -> u8 {
    match chunk {
        ChunkView::Input(i) => input_tag(i),
        ChunkView::Output(o) => output_tag(o),
    }
}

/// The body of an input chunk.
pub open spec fn input_body(chunk: InputChunkView) -> Seq<u8> {
    match chunk {
        InputChunkView::Argument(s) => encode_utf8(s),
        InputChunkView::Environment { key, val } => encode_utf8(key) + seq![EQUALS] + encode_utf8(
            val,
        ),
        InputChunkView::WorkingDir(path) => path,
        InputChunkView::Command(s) => encode_utf8(s),
        InputChunkView::Heartbeat => seq![],
        InputChunkView::Stdin(bytes) => bytes,
        InputChunkView::StdinEof => seq![],
    }
}

/// The body of an output chunk.
pub open spec fn output_body(chunk: OutputChunkView) -> Seq<u8> {
    match chunk {
        OutputChunkView::StartReadingStdin => seq![],
        OutputChunkView::Stdout(bytes) => bytes,
        OutputChunkView::Stderr(bytes) => bytes,
        OutputChunkView::Exit(code) => encode_utf8(decimal(code as int)),
    }
}

/// The body of a chunk.
pub open spec fn body_of(chunk: ChunkView) -> Seq<u8> {
    match chunk {
        ChunkView::Input(i) => input_body(i),
        ChunkView::Output(o) => output_body(o),
    }
}

/// The header for a body of `len` bytes: four bytes hold the length as far as they can.
pub open spec fn header(len: nat, tag: u8) -> Seq<u8> {
    be_bytes((len % 0x1_0000_0000) as u32).push(tag)
}

/// The frame in which a chunk travels.
pub open spec fn frame(chunk: ChunkView) -> Seq<u8> {
    header(body_of(chunk).len(), tag_of(chunk)) + body_of(chunk)
}

/// The frames of some chunks, one after the other.
pub open spec fn frames(chunks: Seq<ChunkView>) -> Seq<u8>
    decreases chunks.len(),
{
    if chunks.len() == 0 {
        seq![]
    } else {
        frame(chunks[0]) + frames(chunks.drop_first())
    }
}

/// What a body says as text, or what is wrong with it.
pub open spec fn text_of(body: Seq<u8>) -> Result<Seq<char>, Seq<char>> {
    if valid_utf8(body) {
        Ok(decode_utf8(body))
    } else {
        Err(utf8_complaint(body))
    }
}

/// The variable that the body of an environment chunk holds: the name ends at the first `=`.
pub open spec fn variable_of(body: Seq<u8>) -> Result<InputChunkView, Seq<char>> {
    match body.index_of_first(EQUALS) {
        None => Err("Environment chunk does not contain `=` separator."@),
        Some(i) => match text_of(body.take(i)) {
            Err(e) => Err(e),
            Ok(key) => match text_of(body.skip(i + 1)) {
                Err(e) => Err(e),
                Ok(val) => Ok(InputChunkView::Environment { key, val }),
            },
        },
    }
}

/// Whether a type byte names an input chunk.
pub open spec fn is_input_tag(tag: u8) -> bool {
    ||| tag == ARGUMENT
    ||| tag == ENVIRONMENT
    ||| tag == WORKING_DIR
    ||| tag == COMMAND
    ||| tag == HEARTBEAT
    ||| tag == STDIN
    ||| tag == STDIN_EOF
}

/// Whether a type byte names an output chunk.
pub open spec fn is_output_tag(tag: u8) -> bool {
    tag == START_READING_STDIN || tag == STDOUT || tag == STDERR || tag == EXIT
}

/// The input chunk that a body of the given type holds, or what is wrong with it. The body of a
/// chunk that carries nothing is ignored.
pub open spec fn input_of(tag: u8, body: Seq<u8>) -> Result<InputChunkView, Seq<char>> {
    if tag == ARGUMENT {
        match text_of(body) {
            Ok(s) => Ok(InputChunkView::Argument(s)),
            Err(e) => Err(e),
        }
    } else if tag == ENVIRONMENT {
        variable_of(body)
    } else if tag == WORKING_DIR {
        match text_of(body) {
            Ok(_) => Ok(InputChunkView::WorkingDir(body)),
            Err(e) => Err(e),
        }
    } else if tag == COMMAND {
        match text_of(body) {
            Ok(s) => Ok(InputChunkView::Command(s)),
            Err(e) => Err(e),
        }
    } else if tag == HEARTBEAT {
        Ok(InputChunkView::Heartbeat)
    } else if tag == STDIN {
        Ok(InputChunkView::Stdin(body))
    } else {
        Ok(InputChunkView::StdinEof)
    }
}

/// The output chunk that a body of the given type holds, or what is wrong with it. The body of a
/// chunk that carries nothing is ignored.
pub open spec fn output_of(tag: u8, body: Seq<u8>) -> Result<OutputChunkView, Seq<char>> {
    if tag == START_READING_STDIN {
        Ok(OutputChunkView::StartReadingStdin)
    } else if tag == STDOUT {
        Ok(OutputChunkView::Stdout(body))
    } else if tag == STDERR {
        Ok(OutputChunkView::Stderr(body))
    } else {
        match text_of(body) {
            Err(e) => Err(e),
            Ok(s) => match parse_i32(s) {
                Some(code) => Ok(OutputChunkView::Exit(code)),
                None => Err(number_complaint(s)),
            },
        }
    }
}

/// The complaint about a type byte that names no chunk.
pub open spec fn unrecognized(tag: u8, len: nat) -> Seq<char> {
    "Unrecognized chunk type: "@.push(tag as char) + " with len "@ + decimal(len as int)
}

/// The chunk that a body of the given type holds, or what is wrong with it.
pub open spec fn chunk_of(tag: u8, body: Seq<u8>) -> Result<ChunkView, Seq<char>> {
    if is_input_tag(tag) {
        match input_of(tag, body) {
            Ok(i) => Ok(ChunkView::Input(i)),
            Err(e) => Err(e),
        }
    } else if is_output_tag(tag) {
        match output_of(tag, body) {
            Ok(o) => Ok(ChunkView::Output(o)),
            Err(e) => Err(e),
        }
    } else {
        Err(unrecognized(tag, body.len()))
    }
}

/// The length that the header at the front of `s` announces.
pub open spec fn announced(s: Seq<u8>) -> nat {
    be_u32(s) as nat
}

/// Whether `s` begins with a whole frame.
pub open spec fn has_frame(s: Seq<u8>) -> bool {
    s.len() >= HEADER_SIZE && s.len() >= HEADER_SIZE + announced(s)
}

/// The type byte of the frame at the front of `s`.
pub open spec fn frame_tag(s: Seq<u8>) -> u8 {
    s[HEADER_SIZE - 1]
}

/// The body of the frame at the front of `s`.
pub open spec fn frame_body(s: Seq<u8>) -> Seq<u8> {
    s.subrange(HEADER_SIZE as int, HEADER_SIZE + announced(s))
}

/// What is left of `s` after the frame at its front.
pub open spec fn after_frame(s: Seq<u8>) -> Seq<u8> {
    s.skip(HEADER_SIZE + announced(s))
}

/// The chunks of the frames that `s` is made of, where each frame is whole and holds a chunk, up to
/// the first place where no whole frame begins.
pub open spec fn chunks_of(s: Seq<u8>) -> Result<Seq<ChunkView>, Seq<char>>
    decreases s.len(),
{
    if !has_frame(s) {
        Ok(seq![])
    } else {
        match chunk_of(frame_tag(s), frame_body(s)) {
            Err(e) => Err(e),
            Ok(chunk) => match chunks_of(after_frame(s)) {
                Err(e) => Err(e),
                Ok(rest) => Ok(seq![chunk] + rest),
            },
        }
    }
}

/// Whether a chunk survives the wire: its length fits the header, a variable's name holds no `=`,
/// and a path is UTF-8.
pub open spec fn wire_safe(chunk: ChunkView) -> bool {
    &&& body_of(chunk).len() <= u32::MAX
    &&& match chunk {
        ChunkView::Input(InputChunkView::Environment { key, .. }) => !key.contains('='),
        ChunkView::Input(InputChunkView::WorkingDir(path)) => valid_utf8(path),
        _ => true,
    }
}

/// The UTF-8 form of text without `=` has no byte `=`.
proof fn lemma_no_equals(s: Seq<char>)
    requires
        !s.contains('='),
    ensures
        !encode_utf8(s).contains(EQUALS),
    decreases s.len(),
{
    if s.len() > 0 {
        let c = s[0] as u32;
        assert(s.contains(s[0]));
        char_is_scalar(s[0]);
        char_u32_cast(s[0], c);
        let first = encode_scalar(c);
        let rest = s.drop_first();
        assert(!rest.contains('=')) by {
            assert forall|i: int| 0 <= i < rest.len() implies rest[i] != '=' by {
                assert(rest[i] == s[i + 1]);
                assert(s.contains(s[i + 1]));
            }
        }
        lemma_no_equals(rest);
        lemma_scalar_no_equals(c);
        assert forall|i: int| 0 <= i < encode_utf8(s).len() implies encode_utf8(s)[i] != EQUALS by {
            if i < first.len() {
                assert(encode_utf8(s)[i] == first[i]);
            } else {
                assert(encode_utf8(s)[i] == encode_utf8(rest)[i - first.len()]);
                assert(encode_utf8(rest).contains(encode_utf8(rest)[i - first.len()]));
            }
        }
    }
}

/// No byte of the encoding of another scalar is `=`.
proof fn lemma_scalar_no_equals(c: u32)
    requires
        is_scalar(c),
        c != 61,
    ensures
        forall|i: int| 0 <= i < encode_scalar(c).len() ==> encode_scalar(c)[i] != EQUALS,
{
    if has_width_1_encoding(c) {
        assert((c & 0x7F) as u8 == c) by (bit_vector)
            requires
                c <= 0x7F,
        ;
    } else {
        let b = (c & 0x3F) as u8;
        let d = ((c >> 6) & 0x3F) as u8;
        let e = ((c >> 12) & 0x3F) as u8;
        let f = ((c >> 6) & 0x1F) as u8;
        let g = ((c >> 12) & 0x0F) as u8;
        let h = ((c >> 18) & 0x7) as u8;
        assert(0x80 | b >= 0x80 && 0x80 | d >= 0x80 && 0x80 | e >= 0x80 && 0xC0 | f >= 0x80 && 0xE0
            | g >= 0x80 && 0xF0 | h >= 0x80) by (bit_vector);
    }
}

/// The body of a chunk, under the chunk's own type, holds that chunk.
pub proof fn law_chunk_of_body(chunk: ChunkView)
    requires
        wire_safe(chunk),
    ensures
        chunk_of(tag_of(chunk), body_of(chunk)) == Ok::<ChunkView, Seq<char>>(chunk),
{
    broadcast use {encode_utf8_valid_utf8, encode_utf8_decode_utf8};

    match chunk {
        ChunkView::Input(InputChunkView::Environment { key, val }) => {
            lemma_no_equals(key);
            let body = body_of(chunk);
            let i = encode_utf8(key).len() as int;
            body.index_of_first_ensures(EQUALS);
            assert(body[i] == EQUALS);
            assert(body.contains(EQUALS));
            let first = body.index_of_first(EQUALS)->0;
            if first < i {
                assert(body[first] == encode_utf8(key)[first]);
                assert(encode_utf8(key).contains(EQUALS));
            }
            assert(first == i);
            assert(body.take(i) =~= encode_utf8(key));
            assert(body.skip(i + 1) =~= encode_utf8(val));
        },
        ChunkView::Output(OutputChunkView::Exit(code)) => {
            law_parse_decimal(code as int);
        },
        _ => {},
    }
}

/// What one end encodes the other decodes: a frame, with anything after it, is read as the chunk it
/// was made from, and what follows it is left.
pub proof fn law_decode_frame(chunk: ChunkView, rest: Seq<u8>)
    requires
        wire_safe(chunk),
    ensures
        has_frame(frame(chunk) + rest),
        chunk_of(frame_tag(frame(chunk) + rest), frame_body(frame(chunk) + rest)) == Ok::<
            ChunkView,
            Seq<char>,
        >(chunk),
        after_frame(frame(chunk) + rest) == rest,
{
    let body = body_of(chunk);
    let s = frame(chunk) + rest;
    let n = (body.len() % 0x1_0000_0000) as u32;
    lemma_be_bytes(n, seq![tag_of(chunk)] + body + rest);
    assert(s =~= be_bytes(n) + (seq![tag_of(chunk)] + body + rest));
    assert(announced(s) == body.len());
    assert(frame_body(s) =~= body);
    assert(after_frame(s) =~= rest);
    law_chunk_of_body(chunk);
}

/// What one end encodes the other decodes, chunk by chunk and in order.
pub proof fn law_decode_frames(chunks: Seq<ChunkView>)
    requires
        forall|i: int| 0 <= i < chunks.len() ==> wire_safe(#[trigger] chunks[i]),
    ensures
        chunks_of(frames(chunks)) == Ok::<Seq<ChunkView>, Seq<char>>(chunks),
    decreases chunks.len(),
{
    if chunks.len() > 0 {
        let rest = chunks.drop_first();
        assert forall|i: int| 0 <= i < rest.len() implies wire_safe(#[trigger] rest[i]) by {
            assert(rest[i] == chunks[i + 1]);
        }
        law_decode_frames(rest);
        law_decode_frame(chunks[0], frames(rest));
        assert(seq![chunks[0]] + rest =~= chunks);
    } else {
        assert(chunks =~= seq![]);
    }
}

/// A frame that has not arrived in full is not yet a frame.
pub proof fn law_partial_frame(chunk: ChunkView, len: int)
    requires
        body_of(chunk).len() <= u32::MAX,
        0 <= len < frame(chunk).len(),
    ensures
        !has_frame(frame(chunk).take(len)),
{
    let body = body_of(chunk);
    let s = frame(chunk);
    let n = (body.len() % 0x1_0000_0000) as u32;
    if len >= HEADER_SIZE {
        let rest = (seq![tag_of(chunk)] + body).take(len - 4);
        lemma_be_bytes(n, rest);
        assert(s.take(len) =~= be_bytes(n) + rest);
    }
}

/// Bytes that arrive later change nothing about a frame that is there.
pub proof fn law_later_bytes(s: Seq<u8>, later: Seq<u8>)
    requires
        has_frame(s),
    ensures
        has_frame(s + later),
        frame_tag(s + later) == frame_tag(s),
        frame_body(s + later) == frame_body(s),
        after_frame(s + later) == after_frame(s) + later,
{
    assert(frame_body(s + later) =~= frame_body(s));
    assert(after_frame(s + later) =~= after_frame(s) + later);
}

/// The type byte alone tells which way a chunk travels.
pub proof fn law_tags_tell_direction(chunk: ChunkView)
    ensures
        is_input_tag(tag_of(chunk)) <==> chunk is Input,
        is_output_tag(tag_of(chunk)) <==> chunk is Output,
{
}

/// Every exit code survives the wire.
pub proof fn law_exit_is_wire_safe(code: i32)
    ensures
        wire_safe(ChunkView::Output(OutputChunkView::Exit(code))),
{
    lemma_decimal_is_short(code as int);
    is_ascii_chars_encode_utf8(decimal(code as int));
}

/// Each type of chunk has a byte of its own, whatever the chunk carries.
pub proof fn law_type_bytes(
    s: Seq<char>,
    t: Seq<char>,
    path: Seq<u8>,
    bytes: Seq<u8>,
    code: i32,
)
    ensures
        tag_of(ChunkView::Input(InputChunkView::Argument(s))) == 0x41u8,
        tag_of(ChunkView::Input(InputChunkView::Environment { key: s, val: t })) == 0x45u8,
        tag_of(ChunkView::Input(InputChunkView::WorkingDir(path))) == 0x44u8,
        tag_of(ChunkView::Input(InputChunkView::Command(s))) == 0x43u8,
        tag_of(ChunkView::Input(InputChunkView::Heartbeat)) == 0x48u8,
        tag_of(ChunkView::Input(InputChunkView::Stdin(bytes))) == 0x30u8,
        tag_of(ChunkView::Input(InputChunkView::StdinEof)) == 0x2eu8,
        tag_of(ChunkView::Output(OutputChunkView::StartReadingStdin)) == 0x53u8,
        tag_of(ChunkView::Output(OutputChunkView::Stdout(bytes))) == 0x31u8,
        tag_of(ChunkView::Output(OutputChunkView::Stderr(bytes))) == 0x32u8,
        tag_of(ChunkView::Output(OutputChunkView::Exit(code))) == 0x58u8,
{
}

/// The body of a chunk is all that it carries, and nothing else: text in UTF-8, a variable as its name,
/// `=` and its value, bytes as they are, an exit code as its decimal form.
pub proof fn law_bodies(s: Seq<char>, t: Seq<char>, path: Seq<u8>, bytes: Seq<u8>, code: i32)
    ensures
        body_of(ChunkView::Input(InputChunkView::Argument(s))) == encode_utf8(s),
        body_of(ChunkView::Input(InputChunkView::Environment { key: s, val: t })) == encode_utf8(
            s,
        ).push(0x3du8) + encode_utf8(t),
        body_of(ChunkView::Input(InputChunkView::WorkingDir(path))) == path,
        body_of(ChunkView::Input(InputChunkView::Command(s))) == encode_utf8(s),
        body_of(ChunkView::Input(InputChunkView::Heartbeat)) == Seq::<u8>::empty(),
        body_of(ChunkView::Input(InputChunkView::Stdin(bytes))) == bytes,
        body_of(ChunkView::Input(InputChunkView::StdinEof)) == Seq::<u8>::empty(),
        body_of(ChunkView::Output(OutputChunkView::StartReadingStdin)) == Seq::<u8>::empty(),
        body_of(ChunkView::Output(OutputChunkView::Stdout(bytes))) == bytes,
        body_of(ChunkView::Output(OutputChunkView::Stderr(bytes))) == bytes,
        body_of(ChunkView::Output(OutputChunkView::Exit(code))) == encode_utf8(
            decimal(code as int),
        ),
{
    assert(encode_utf8(s).push(EQUALS) =~= encode_utf8(s) + seq![EQUALS]);
}

/// A frame is the length of the body in four bytes, as far as they can hold it, then the type byte, then
/// the body, and nothing else.
pub proof fn law_frame_layout(chunk: ChunkView)
    ensures
        ({
            let f = frame(chunk);
            let body = body_of(chunk);
            &&& f.len() == 5 + body.len()
            &&& f[0] * 16777216 + f[1] * 65536 + f[2] * 256 + f[3] == body.len() % 4294967296
            &&& f[4] == tag_of(chunk)
            &&& f.skip(5) == body
        }),
{
    let body = body_of(chunk);
    let n = (body.len() % 0x1_0000_0000) as u32;
    law_most_significant_first(n, be_bytes(n));
    assert(frame(chunk).skip(5) =~= body);
}

/// Standard output goes under the byte `1` and standard error under the byte `2`, with the same bytes,
/// however many; standard input under the byte `0`.
pub proof fn law_streams_on_the_wire(bytes: Seq<u8>)
    ensures
        frame(ChunkView::Output(OutputChunkView::Stdout(bytes)))[4] == 0x31u8,
        frame(ChunkView::Output(OutputChunkView::Stdout(bytes))).skip(5) == bytes,
        frame(ChunkView::Output(OutputChunkView::Stderr(bytes)))[4] == 0x32u8,
        frame(ChunkView::Output(OutputChunkView::Stderr(bytes))).skip(5) == bytes,
        frame(ChunkView::Input(InputChunkView::Stdin(bytes)))[4] == 0x30u8,
        frame(ChunkView::Input(InputChunkView::Stdin(bytes))).skip(5) == bytes,
        chunk_of(0x31, bytes) == Ok::<ChunkView, Seq<char>>(
            ChunkView::Output(OutputChunkView::Stdout(bytes)),
        ),
        chunk_of(0x32, bytes) == Ok::<ChunkView, Seq<char>>(
            ChunkView::Output(OutputChunkView::Stderr(bytes)),
        ),
        chunk_of(0x30, bytes) == Ok::<ChunkView, Seq<char>>(
            ChunkView::Input(InputChunkView::Stdin(bytes)),
        ),
{
    law_frame_layout(ChunkView::Output(OutputChunkView::Stdout(bytes)));
    law_frame_layout(ChunkView::Output(OutputChunkView::Stderr(bytes)));
    law_frame_layout(ChunkView::Input(InputChunkView::Stdin(bytes)));
}

/// Chunks that carry nothing are known by their type byte alone, whatever the body.
pub proof fn law_signals_on_the_wire(body: Seq<u8>)
    ensures
        chunk_of(0x48, body) == Ok::<ChunkView, Seq<char>>(
            ChunkView::Input(InputChunkView::Heartbeat),
        ),
        chunk_of(0x2e, body) == Ok::<ChunkView, Seq<char>>(
            ChunkView::Input(InputChunkView::StdinEof),
        ),
        chunk_of(0x53, body) == Ok::<ChunkView, Seq<char>>(
            ChunkView::Output(OutputChunkView::StartReadingStdin),
        ),
{
}

/// Text on the wire is read as the very text, where it is UTF-8, and is refused where it is not, with
/// the reason that is given for those bytes.
pub proof fn law_text_on_the_wire(s: Seq<char>, body: Seq<u8>)
    ensures
        chunk_of(0x41, encode_utf8(s)) == Ok::<ChunkView, Seq<char>>(
            ChunkView::Input(InputChunkView::Argument(s)),
        ),
        chunk_of(0x43, encode_utf8(s)) == Ok::<ChunkView, Seq<char>>(
            ChunkView::Input(InputChunkView::Command(s)),
        ),
        chunk_of(0x44, encode_utf8(s)) == Ok::<ChunkView, Seq<char>>(
            ChunkView::Input(InputChunkView::WorkingDir(encode_utf8(s))),
        ),
        !valid_utf8(body) ==> {
            &&& chunk_of(0x41, body) == Err::<ChunkView, Seq<char>>(utf8_complaint(body))
            &&& chunk_of(0x43, body) == Err::<ChunkView, Seq<char>>(utf8_complaint(body))
            &&& chunk_of(0x44, body) == Err::<ChunkView, Seq<char>>(utf8_complaint(body))
            &&& chunk_of(0x58, body) == Err::<ChunkView, Seq<char>>(utf8_complaint(body))
        },
        valid_utf8(body) ==> exists|t: Seq<char>| #[trigger] encode_utf8(t) == body,
{
    broadcast use {encode_utf8_valid_utf8, encode_utf8_decode_utf8};

    if valid_utf8(body) {
        decode_utf8_encode_utf8(body);
        assert(encode_utf8(decode_utf8(body)) == body);
    }
}

/// A variable on the wire is read as its name, up to the first `=`, and its value, all that follows; one
/// without `=` is refused, and so is one whose name or value is not UTF-8, the name first.
pub proof fn law_variables_on_the_wire(name: Seq<u8>, value: Seq<u8>)
    requires
        !name.contains(0x3du8),
    ensures
        chunk_of(0x45, name) == Err::<ChunkView, Seq<char>>(
            "Environment chunk does not contain `=` separator."@,
        ),
        ({
            let read = chunk_of(0x45, name.push(0x3du8) + value);
            &&& !valid_utf8(name) ==> read == Err::<ChunkView, Seq<char>>(utf8_complaint(name))
            &&& valid_utf8(name) && !valid_utf8(value) ==> read == Err::<ChunkView, Seq<char>>(
                utf8_complaint(value),
            )
            &&& valid_utf8(name) && valid_utf8(value) ==> {
                &&& read is Ok
                &&& read->Ok_0 is Input
                &&& read->Ok_0->Input_0 matches InputChunkView::Environment { key, val }
                    && encode_utf8(key) == name && encode_utf8(val) == value
            }
        }),
{
    let body = name.push(0x3du8) + value;
    let i = name.len() as int;
    name.index_of_first_ensures(0x3du8);
    body.index_of_first_ensures(0x3du8);
    assert(body[i] == 0x3du8);
    assert(body.contains(0x3du8));
    let first = body.index_of_first(0x3du8)->0;
    if first < i {
        assert(body[first] == name[first]);
        assert(name.contains(name[first]));
    }
    assert(first == i);
    assert(body.take(i) =~= name);
    assert(body.skip(i + 1) =~= value);
    if valid_utf8(name) {
        decode_utf8_encode_utf8(name);
    }
    if valid_utf8(value) {
        decode_utf8_encode_utf8(value);
    }
}

/// An exit code on the wire is read as the number that its text spells, and is refused where the text
/// spells no `i32`.
pub proof fn law_exit_codes_on_the_wire(s: Seq<char>, code: i32)
    ensures
        parse_i32(s) == Some(code) ==> chunk_of(0x58, encode_utf8(s)) == Ok::<
            ChunkView,
            Seq<char>,
        >(ChunkView::Output(OutputChunkView::Exit(code))),
        parse_i32(s) is None ==> chunk_of(0x58, encode_utf8(s)) == Err::<ChunkView, Seq<char>>(
            number_complaint(s),
        ),
        chunk_of(0x58, encode_utf8(decimal(code as int))) == Ok::<ChunkView, Seq<char>>(
            ChunkView::Output(OutputChunkView::Exit(code)),
        ),
{
    broadcast use {encode_utf8_valid_utf8, encode_utf8_decode_utf8};

    law_parse_decimal(code as int);
}

/// Any other type byte is refused, by its character and the length of the body.
pub proof fn law_other_types_are_refused(tag: u8, body: Seq<u8>)
    requires
        tag != 0x41 && tag != 0x45 && tag != 0x44 && tag != 0x43 && tag != 0x48 && tag != 0x30
            && tag != 0x2e && tag != 0x53 && tag != 0x31 && tag != 0x32 && tag != 0x58,
    ensures
        chunk_of(tag, body) == Err::<ChunkView, Seq<char>>(
            "Unrecognized chunk type: "@.push(tag as char) + " with len "@ + decimal(
                body.len() as int,
            ),
        ),
{
}

/// A frame is whole when as many bytes as its first four announce follow its first five; it is made of
/// those, and all that comes after them is left.
pub proof fn law_where_frames_end(s: Seq<u8>)
    ensures
        s.len() < 5 ==> !has_frame(s),
        s.len() >= 5 ==> {
            let n = s[0] * 16777216 + s[1] * 65536 + s[2] * 256 + s[3];
            &&& announced(s) == n
            &&& has_frame(s) <==> s.len() >= 5 + n
            &&& has_frame(s) ==> {
                &&& frame_tag(s) == s[4]
                &&& frame_body(s).len() == n
                &&& s == s.take(5) + frame_body(s) + after_frame(s)
            }
        },
{
    if s.len() >= 5 {
        law_most_significant_first(0, s);
        if has_frame(s) {
            assert(s =~= s.take(5) + frame_body(s) + after_frame(s));
        }
    }
}

/// What does not survive the wire: a body too long for the header, a variable's name with `=` in it, a
/// path that is not UTF-8; everything else does.
pub proof fn law_what_survives(chunk: ChunkView)
    ensures
        wire_safe(chunk) <==> {
            &&& body_of(chunk).len() <= 4294967295
            &&& chunk matches ChunkView::Input(InputChunkView::Environment { key, .. })
                ==> !key.contains('=')
            &&& chunk matches ChunkView::Input(InputChunkView::WorkingDir(path)) ==> valid_utf8(
                path,
            )
        },
{
}

} // verus!
