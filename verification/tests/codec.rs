//! The wire format, byte by byte.
use std::path::PathBuf;

use bytes::{Bytes, BytesMut};
use nails::chunk::{InputChunk, OutputChunk};
use nails::codec::{decode, encode, err, Chunk, ClientCodec, Codec, ServerCodec};
use nails::error::{Error, ErrorKind};
use nails::execution::IdentityCodec;

fn other(message: &str) -> Error {
    Error { kind: ErrorKind::Other, message: message.to_owned() }
}

fn buffer(bytes: &[u8]) -> BytesMut {
    BytesMut::from(bytes)
}

#[test]
fn errors_are_of_class_other() {
    assert_eq!(err("oops"), other("oops"));
}

#[test]
fn frames_are_written_exactly() {
    let mut buf = BytesMut::new();
    encode(Chunk::Input(InputChunk::Argument("Hello".to_owned())), &mut buf);
    assert_eq!(&buf[..], b"\0\0\0\x05AHello");

    // A frame goes after what is there.
    encode(
        Chunk::Input(InputChunk::Environment { key: "K".to_owned(), val: "v".to_owned() }),
        &mut buf,
    );
    assert_eq!(&buf[..], b"\0\0\0\x05AHello\0\0\0\x03EK=v");
    buf.clear();
    encode(Chunk::Output(OutputChunk::Exit(-17)), &mut buf);
    assert_eq!(&buf[..], b"\0\0\0\x03X-17");
    buf.clear();
    encode(Chunk::Output(OutputChunk::StartReadingStdin), &mut buf);
    assert_eq!(&buf[..], b"\0\0\0\0S");
    buf.clear();
    encode(Chunk::Input(InputChunk::Stdin(Bytes::from(vec![7u8; 0x1_0203]))), &mut buf);
    assert_eq!(&buf[..5], b"\0\x01\x02\x030");
    assert_eq!(buf.len(), 5 + 0x1_0203);
}

#[test]
fn every_type_byte() {
    let inputs = vec![
        (InputChunk::Argument("a".to_owned()), b'A'),
        (InputChunk::Environment { key: "k".to_owned(), val: "v".to_owned() }, b'E'),
        (InputChunk::WorkingDir(PathBuf::from("/")), b'D'),
        (InputChunk::Command("c".to_owned()), b'C'),
        (InputChunk::Heartbeat, b'H'),
        (InputChunk::Stdin(Bytes::from("s")), b'0'),
        (InputChunk::StdinEof, b'.'),
    ];
    for (chunk, tag) in inputs {
        let mut buf = BytesMut::new();
        ClientCodec.encode(chunk, &mut buf).unwrap();
        assert_eq!(buf[4], tag);
    }
    let outputs = vec![
        (OutputChunk::StartReadingStdin, b'S'),
        (OutputChunk::Stdout(Bytes::from("o")), b'1'),
        (OutputChunk::Stderr(Bytes::from("e")), b'2'),
        (OutputChunk::Exit(1), b'X'),
    ];
    for (chunk, tag) in outputs {
        let mut buf = BytesMut::new();
        ServerCodec.encode(chunk, &mut buf).unwrap();
        assert_eq!(buf[4], tag);
    }
}

#[test]
fn a_partial_frame_is_waited_for() {
    let whole = b"\0\0\0\x05AHello";
    for len in 0..whole.len() {
        let mut buf = buffer(&whole[..len]);
        assert_eq!(decode(&mut buf), Ok(None));
        assert_eq!(&buf[..], &whole[..len]);
    }
    let mut buf = buffer(b"\0\0\0\x05AHello\0\0");
    assert_eq!(decode(&mut buf), Ok(Some(Chunk::Input(InputChunk::Argument("Hello".to_owned())))));
    assert_eq!(&buf[..], b"\0\0");
}

#[test]
fn a_huge_announcement_is_waited_for() {
    let mut buf = buffer(b"\xff\xff\xff\xffA");
    assert_eq!(decode(&mut buf), Ok(None));
    assert_eq!(buf.len(), 5);
}

#[test]
fn variables_split_at_the_first_equals() {
    let mut buf = buffer(b"\0\0\0\x05Ea=b=c");
    assert_eq!(
        decode(&mut buf),
        Ok(Some(Chunk::Input(InputChunk::Environment {
            key: "a".to_owned(),
            val: "b=c".to_owned(),
        })))
    );
    // So a name with `=` in it does not survive.
    let mut buf = BytesMut::new();
    encode(
        Chunk::Input(InputChunk::Environment { key: "a=b".to_owned(), val: "c".to_owned() }),
        &mut buf,
    );
    assert_eq!(
        decode(&mut buf),
        Ok(Some(Chunk::Input(InputChunk::Environment {
            key: "a".to_owned(),
            val: "b=c".to_owned(),
        })))
    );
}

#[test]
fn a_variable_needs_equals() {
    let mut buf = buffer(b"\0\0\0\x02Eab");
    assert_eq!(decode(&mut buf), Err(other("Environment chunk does not contain `=` separator.")));
    assert_eq!(buf.len(), 0);
}

#[test]
fn text_must_be_utf8() {
    let complaint = std::str::from_utf8(b"a\xff").unwrap_err().to_string();
    for tag in [b'A', b'C', b'D', b'X'] {
        let mut buf = buffer(&[0, 0, 0, 2, tag, b'a', 0xff]);
        assert_eq!(decode(&mut buf), Err(other(&complaint)));
        assert_eq!(buf.len(), 0);
    }
    let mut buf = buffer(b"\0\0\0\x04Ea\xff=b");
    assert_eq!(decode(&mut buf), Err(other(&complaint)));
    let mut buf = buffer(b"\0\0\0\x04Eb=a\xff");
    assert_eq!(decode(&mut buf), Err(other(&complaint)));
}

#[test]
fn exit_codes_are_decimal_numbers() {
    for (text, code) in [("0", 0), ("+5", 5), ("-2147483648", i32::MIN), ("007", 7)] {
        let mut frame = vec![0, 0, 0, text.len() as u8, b'X'];
        frame.extend_from_slice(text.as_bytes());
        let mut buf = buffer(&frame);
        assert_eq!(decode(&mut buf), Ok(Some(Chunk::Output(OutputChunk::Exit(code)))));
    }
    for text in ["", "-", "+", "1x", "2147483648", " 1", "--1"] {
        let complaint = text.parse::<i32>().unwrap_err().to_string();
        let mut frame = vec![0, 0, 0, text.len() as u8, b'X'];
        frame.extend_from_slice(text.as_bytes());
        let mut buf = buffer(&frame);
        assert_eq!(decode(&mut buf), Err(other(&complaint)));
    }
}

#[test]
fn chunks_without_a_body_ignore_one() {
    let mut buf = buffer(b"\0\0\0\x02Hxx\0\0\0\x01.x\0\0\0\x01Sx");
    assert_eq!(decode(&mut buf), Ok(Some(Chunk::Input(InputChunk::Heartbeat))));
    assert_eq!(decode(&mut buf), Ok(Some(Chunk::Input(InputChunk::StdinEof))));
    assert_eq!(decode(&mut buf), Ok(Some(Chunk::Output(OutputChunk::StartReadingStdin))));
}

#[test]
fn unknown_types_are_refused() {
    let mut buf = buffer(b"\0\0\0\x03Zabc\0\0\0\0H");
    assert_eq!(decode(&mut buf), Err(other("Unrecognized chunk type: Z with len 3")));
    // The frame is gone, and reading goes on.
    assert_eq!(decode(&mut buf), Ok(Some(Chunk::Input(InputChunk::Heartbeat))));
    let mut buf = buffer(b"\0\0\0\0\xe9");
    assert_eq!(decode(&mut buf), Err(other("Unrecognized chunk type: \u{e9} with len 0")));
}

#[test]
fn misdirected_chunks_are_refused() {
    let mut buf = BytesMut::new();
    ClientCodec.encode(InputChunk::Argument("a\"b".to_owned()), &mut buf).unwrap();
    assert_eq!(
        ClientCodec.decode(&mut buf),
        Err(other("Client received a chunk intended for a server: Argument(\"a\\\"b\")"))
    );
    assert_eq!(buf.len(), 0);
    ServerCodec.encode(OutputChunk::Exit(-3), &mut buf).unwrap();
    assert_eq!(
        ServerCodec.decode(&mut buf),
        Err(other("Server received a chunk intended for a client: Exit(-3)"))
    );
    assert_eq!(buf.len(), 0);
    assert_eq!(ClientCodec.decode(&mut buf), Ok(None));
    assert_eq!(ServerCodec.decode(&mut buf), Ok(None));
}

#[test]
fn the_plain_codec_knows_no_output() {
    let mut buf = buffer(b"\0\0\0\x02X12");
    assert_eq!(Codec.decode(&mut buf), Err(other("Unrecognized chunk type: X with len 2")));
    let mut buf = buffer(b"\0\0\0\x02C12\0\0");
    assert_eq!(Codec.decode(&mut buf), Ok(Some(InputChunk::Command("12".to_owned()))));
    assert_eq!(Codec.decode(&mut buf), Ok(None));
    assert_eq!(&buf[..], b"\0\0");
}

#[test]
fn the_plain_codec_appends_frames() {
    let mut buf = BytesMut::new();
    Codec.encode(OutputChunk::Stdout(Bytes::from("hi")), &mut buf).unwrap();
    assert_eq!(&buf[..], b"\0\0\0\x021hi");

    let mut buf = buffer(b"abcdefg");
    Codec.encode(OutputChunk::Exit(4), &mut buf).unwrap();
    assert_eq!(&buf[..], b"abcdefg\0\0\0\x01X4");
}

#[test]
fn the_identity_codec_keeps_bytes() {
    let mut buf = BytesMut::new();
    assert_eq!(IdentityCodec.decode(&mut buf), Ok(None));
    IdentityCodec.encode(Bytes::from("ab"), &mut buf).unwrap();
    IdentityCodec.encode(Bytes::new(), &mut buf).unwrap();
    IdentityCodec.encode(Bytes::from("c"), &mut buf).unwrap();
    assert_eq!(IdentityCodec.decode(&mut buf), Ok(Some(Bytes::from("abc"))));
    assert_eq!(IdentityCodec.decode(&mut buf), Ok(None));
}

#[test]
fn descriptions_are_debug_forms() {
    for chunk in [
        InputChunk::Argument("tab\t'quote' \u{1f528}\u{200b}".to_owned()),
        InputChunk::Environment { key: "K\n".to_owned(), val: "\\v".to_owned() },
        InputChunk::Command(String::new()),
        InputChunk::Heartbeat,
        InputChunk::Stdin(Bytes::from((0..=255u8).collect::<Vec<u8>>())),
        InputChunk::StdinEof,
    ] {
        assert_eq!(chunk.describe(), format!("{:?}", chunk));
    }
    for chunk in [
        OutputChunk::StartReadingStdin,
        OutputChunk::Stdout(Bytes::from("out\r\n\0")),
        OutputChunk::Stderr(Bytes::from("\x7f\"\\")),
        OutputChunk::Exit(i32::MIN),
        OutputChunk::Exit(10),
    ] {
        assert_eq!(chunk.describe(), format!("{:?}", chunk));
    }
    // A path is shown as a path.
    for path in ["/tmp/a b", "it's \"quoted\"\n", "/\u{e9}\t"] {
        let chunk = InputChunk::WorkingDir(PathBuf::from(path));
        assert_eq!(chunk.describe(), format!("{:?}", chunk));
        assert_eq!(chunk.describe(), format!("WorkingDir({:?})", PathBuf::from(path)));
    }
}

#[test]
fn paths_are_written_as_their_bytes() {
    let mut buf = BytesMut::new();
    encode(Chunk::Input(InputChunk::WorkingDir(PathBuf::from("/\u{e9}"))), &mut buf);
    assert_eq!(&buf[..], b"\0\0\0\x03D/\xc3\xa9");
    assert_eq!(
        decode(&mut buf),
        Ok(Some(Chunk::Input(InputChunk::WorkingDir(PathBuf::from("/\u{e9}")))))
    );
}

#[test]
fn clones_are_equal() {
    let chunk = Chunk::Input(InputChunk::Stdin(Bytes::from("x")));
    assert_eq!(chunk.clone(), chunk);
    let chunk = Chunk::Output(OutputChunk::Stderr(Bytes::from("y")));
    assert_eq!(chunk.clone(), chunk);
    let chunk = Chunk::Input(InputChunk::WorkingDir(PathBuf::from("/d")));
    assert_eq!(chunk.clone(), chunk);
}
