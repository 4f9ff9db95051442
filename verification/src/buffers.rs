//! What the protocol takes from the `bytes` and `byteorder` crates.
//!
//! Every item here is trusted: its contract is what the crate's source shows, over the bytes that
//! a buffer holds.
use byteorder::{BigEndian, ByteOrder};
use bytes::{Bytes, BytesMut};
use vstd::prelude::*;
use vstd::utf8::*;

verus! {

/// A growable byte buffer of the `bytes` crate, known here by the bytes it holds alone.
#[verifier::external_type_specification]
#[verifier::external_body]
pub struct ExBytesMut(BytesMut);

/// A shared, immutable byte string of the `bytes` crate, known here by the bytes it holds alone.
#[verifier::external_type_specification]
#[verifier::external_body]
pub struct ExBytes(Bytes);

/// The bytes that a `BytesMut` holds.
pub uninterp spec fn buffered(buf: BytesMut) -> Seq<u8>;

/// The bytes that a `Bytes` holds.
pub uninterp spec fn contents(bytes: Bytes) -> Seq<u8>;

/// `BytesMut::len` is the number of bytes held.
pub assume_specification[ BytesMut::len ](buf: &BytesMut) -> (len: usize)
    ensures
        len == buffered(*buf).len(),
;

/// `BytesMut::split_to` hands out the first `at` bytes and keeps the rest. It panics past the end.
pub assume_specification[ BytesMut::split_to ](buf: &mut BytesMut, at: usize) -> (head: BytesMut)
    requires
        at <= buffered(*old(buf)).len(),
    ensures
        buffered(head) == buffered(*old(buf)).take(at as int),
        buffered(*final(buf)) == buffered(*old(buf)).skip(at as int),
;

/// `BytesMut::split_off` keeps the first `at` bytes and hands out the rest. It panics past the end of
/// what was allocated, which is never before the end of what is held.
pub assume_specification[ BytesMut::split_off ](buf: &mut BytesMut, at: usize) -> (tail: BytesMut)
    requires
        at <= buffered(*old(buf)).len(),
    ensures
        buffered(tail) == buffered(*old(buf)).skip(at as int),
        buffered(*final(buf)) == buffered(*old(buf)).take(at as int),
;

/// `BytesMut::split` hands out all bytes and keeps none.
pub assume_specification[ BytesMut::split ](buf: &mut BytesMut) -> (all: BytesMut)
    ensures
        buffered(all) == buffered(*old(buf)),
        buffered(*final(buf)) == Seq::<u8>::empty(),
;

/// `BytesMut::extend_from_slice` appends the bytes. It panics where the buffer would outgrow what can
/// be allocated.
pub assume_specification[ BytesMut::extend_from_slice ](buf: &mut BytesMut, extend: &[u8])
    requires
        buffered(*old(buf)).len() + extend@.len() <= isize::MAX,
    ensures
        buffered(*final(buf)) == buffered(*old(buf)) + extend@,
;

/// `BytesMut::freeze` keeps the bytes.
pub assume_specification[ BytesMut::freeze ](buf: BytesMut) -> (bytes: Bytes)
    ensures
        contents(bytes) == buffered(buf),
;

/// `BytesMut::as_mut` lends the bytes held, to be written in place.
pub assume_specification[ <BytesMut as AsMut<[u8]>>::as_mut ](buf: &mut BytesMut) -> (slice: &mut [u8])
    ensures
        slice@ == buffered(*old(buf)),
        buffered(*final(buf)) == final(slice)@,
;

/// `BytesMut::as_ref` lends the bytes held.
pub assume_specification[ <BytesMut as AsRef<[u8]>>::as_ref ](buf: &BytesMut) -> (slice: &[u8])
    ensures
        slice@ == buffered(*buf),
;

/// `Bytes::from` a string holds the string's UTF-8 form.
#[verifier::external_body]
pub(crate) fn bytes_from_string(s: String) -> (bytes: Bytes)
    ensures
        contents(bytes) == encode_utf8(s@),
{
    Bytes::from(s)
}

/// `BytesMut::extend` with a `Bytes` appends its bytes one by one. It panics where the buffer would
/// outgrow what can be allocated.
#[verifier::external_body]
pub(crate) fn extend_buffer(buf: &mut BytesMut, item: Bytes)
    requires
        buffered(*old(buf)).len() + contents(item).len() <= isize::MAX,
    ensures
        buffered(*final(buf)) == buffered(*old(buf)) + contents(item),
{
    buf.extend(item)
}

/// `Bytes::as_ref` lends the bytes held.
pub assume_specification[ <Bytes as AsRef<[u8]>>::as_ref ](bytes: &Bytes) -> (slice: &[u8])
    ensures
        slice@ == contents(*bytes),
;

/// `Bytes::clone` is another handle on the same bytes.
pub assume_specification[ <Bytes as Clone>::clone ](bytes: &Bytes) -> (copy: Bytes)
    ensures
        contents(copy) == contents(*bytes),
;

/// The number that the first four bytes of `s` hold, most significant first.
pub open spec fn be_u32(s: Seq<u8>) -> u32 {
    (s[0] * 0x100_0000 + s[1] * 0x1_0000 + s[2] * 0x100 + s[3]) as u32
}

/// The four bytes of `n`, most significant first.
pub open spec fn be_bytes(n: u32) -> Seq<u8> {
    seq![
        (n / 0x100_0000) as u8,
        (n / 0x1_0000 % 0x100) as u8,
        (n / 0x100 % 0x100) as u8,
        (n % 0x100) as u8,
    ]
}

/// Four bytes written are read back, whatever follows them.
pub proof fn lemma_be_bytes(n: u32, rest: Seq<u8>)
    ensures
        be_u32(be_bytes(n) + rest) == n,
{
}

/// `BigEndian::read_u32` reads the first four bytes. It panics where there are fewer.
#[verifier::external_body]
pub(crate) fn read_u32(bytes: &[u8]) -> (n: u32)
    requires
        bytes@.len() >= 4,
    ensures
        n == be_u32(bytes@),
{
    BigEndian::read_u32(bytes)
}

/// `BigEndian::write_u32` writes the first four bytes. It panics where there are fewer.
#[verifier::external_body]
pub(crate) fn write_u32(bytes: &mut [u8], n: u32)
    requires
        old(bytes)@.len() >= 4,
    ensures
        final(bytes)@ == be_bytes(n) + old(bytes)@.skip(4),
{
    BigEndian::write_u32(bytes, n)
}

/// Four bytes stand for a number by their place: each counts 256 times as much as the one after it.
pub proof fn law_most_significant_first(n: u32, s: Seq<u8>)
    requires
        s.len() >= 4,
    ensures
        be_bytes(n).len() == 4,
        n == be_bytes(n)[0] * 16777216 + be_bytes(n)[1] * 65536 + be_bytes(n)[2] * 256 + be_bytes(
            n,
        )[3],
        be_u32(s) == s[0] * 16777216 + s[1] * 65536 + s[2] * 256 + s[3],
{
}

} // verus!
