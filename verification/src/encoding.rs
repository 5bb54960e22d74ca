//! The frame codec: a two-byte big-endian length, then that many bytes of
//! payload.
//!
//! ```text
//! +----------+--------------------------------+
//! | len: u16 |          frame payload         |
//! +----------+--------------------------------+
//! ```
//!
//! The codec works on a `bytes::BytesMut` that the transport fills and
//! drains. What the buffer holds is named `buffered`; the contracts of the
//! few buffer operations used here are taken on trust from the `bytes` and
//! `byteorder` crates, and everything else is proved from them.
use vstd::prelude::*;
use byteorder::ReadBytesExt;
use bytes::{Buf, BufMut, BytesMut};
use std::marker::PhantomData;

verus! {

/// `bytes::BytesMut`, a growable byte buffer. Opaque here.
#[verifier::external_type_specification]
#[verifier::external_body]
pub struct ExBytesMut(bytes::BytesMut);

/// `std::io::Error`. Opaque here.
#[verifier::external_type_specification]
#[verifier::external_body]
pub struct ExIoError(std::io::Error);

/// `bincode::ErrorKind`, the reason for which a payload could not be
/// serialised or read back. Opaque here.
#[verifier::external_type_specification]
#[verifier::external_body]
pub struct ExBincodeErrorKind(bincode::ErrorKind);

/// The bytes that a buffer holds, first to last.
pub uninterp spec fn buffered(buf: BytesMut) -> Seq<u8>;

/// The greatest length of a payload.
pub const MAX_PAYLOAD: usize = 65535;

pub type Result<T> = std::result::Result<T, Error>;

#[derive(Debug)]
pub enum Error {
    /// A payload could not be serialised or read back.
    Serialization(bincode::Error),
    /// The transport failed.
    IO(std::io::Error),
    /// A payload is longer than `MAX_PAYLOAD`.
    LargePayload,
}

impl From<bincode::Error> for Error {
    fn from(err: bincode::Error) -> (error: Error) {
        Error::Serialization(err)
    }
}

impl vstd::std_specs::convert::FromSpecImpl<bincode::Error> for Error {
    open spec fn obeys_from_spec() -> bool {
        true
    }

    open spec fn from_spec(err: bincode::Error) -> Error {
        Error::Serialization(err)
    }
}

impl From<std::io::Error> for Error {
    fn from(err: std::io::Error) -> (error: Error) {
        Error::IO(err)
    }
}

impl vstd::std_specs::convert::FromSpecImpl<std::io::Error> for Error {
    open spec fn obeys_from_spec() -> bool {
        true
    }

    open spec fn from_spec(err: std::io::Error) -> Error {
        Error::IO(err)
    }
}

impl Error {
    /// The error in words.
    pub fn to_string(&self) -> (text: String)
        ensures
            self is Serialization ==> text@ == "could not de/serialze"@,
            self is IO ==> text@ == "IO error"@,
            self is LargePayload ==> text@ == "payload too large"@,
    {
        match self {
            Error::Serialization(_) => "could not de/serialze".to_owned(),
            Error::IO(_) => "IO error".to_owned(),
            Error::LargePayload => "payload too large".to_owned(),
        }
    }
}

/// The two bytes that stand for `len`, high byte first.
pub open spec fn length_prefix(len: int) -> Seq<u8> {
    seq![(len / 256) as u8, (len % 256) as u8]
}

/// A payload as it goes over the wire.
pub open spec fn frame(payload: Seq<u8>) -> Seq<u8> {
    length_prefix(payload.len() as int) + payload
}

/// The payload length that the first two bytes declare.
pub open spec fn declared_len(bytes: Seq<u8>) -> int
    recommends
        bytes.len() >= 2,
{
    bytes[0] * 256 + bytes[1]
}

/// Whether `bytes` starts with a whole frame that the decoder takes: at least
/// three bytes are there, and all of the declared payload.
pub open spec fn frame_ready(bytes: Seq<u8>) -> bool {
    bytes.len() > 2 && bytes.len() >= 2 + declared_len(bytes)
}

/// The payload of the frame that `bytes` starts with.
pub open spec fn first_payload(bytes: Seq<u8>) -> Seq<u8>
    recommends
        frame_ready(bytes),
{
    bytes.subrange(2, 2 + declared_len(bytes))
}

/// What follows the frame that `bytes` starts with.
pub open spec fn after_first(bytes: Seq<u8>) -> Seq<u8>
    recommends
        frame_ready(bytes),
{
    bytes.skip(2 + declared_len(bytes))
}

/// `BytesMut::len`: the number of bytes in the buffer.
#[verifier::external_body]
fn buffer_len(buf: &BytesMut) -> (len: usize)
    ensures
        len == buffered(*buf).len(),
{
    buf.len()
}

/// `BytesMut::reserve`: makes room and leaves the contents as they are. It
/// panics when the new capacity overflows. The precondition keeps the
/// contents and the room asked for within what one allocation can hold; bytes
/// that were taken from the front and still sit in the allocation are not
/// seen here, and an allocation that they push over the limit is taken for
/// exhausted memory.
#[verifier::external_body]
fn buffer_reserve(buf: &mut BytesMut, additional: usize)
    requires
        buffered(*old(buf)).len() + additional <= isize::MAX,
    ensures
        buffered(*final(buf)) == buffered(*old(buf)),
{
    buf.reserve(additional)
}

/// `BufMut::put_u16` on a `BytesMut`: appends the number's two bytes, high
/// byte first, growing the buffer as needed.
#[verifier::external_body]
fn buffer_put_u16(buf: &mut BytesMut, n: u16)
    requires
        buffered(*old(buf)).len() + 2 <= isize::MAX,
    ensures
        buffered(*final(buf)) == buffered(*old(buf)) + length_prefix(n as int),
{
    buf.put_u16(n)
}

/// `BufMut::put` on a `BytesMut`, with a slice as the source: appends the
/// slice, growing the buffer as needed.
#[verifier::external_body]
fn buffer_put(buf: &mut BytesMut, src: &[u8])
    requires
        buffered(*old(buf)).len() + src@.len() <= isize::MAX,
    ensures
        buffered(*final(buf)) == buffered(*old(buf)) + src@,
{
    buf.put(src)
}

/// `AsRef<[u8]>::as_ref` of `BytesMut`: the contents as a slice.
#[verifier::external_body]
fn buffer_bytes(buf: &BytesMut) -> (bytes: &[u8])
    ensures
        bytes@ == buffered(*buf),
{
    buf.as_ref()
}

/// `ReadBytesExt::read_u16::<BigEndian>` on a slice: the number that the
/// first two bytes stand for, high byte first; an error where fewer than two
/// bytes are there.
#[verifier::external_body]
fn read_u16_be(bytes: &[u8]) -> (number: std::io::Result<u16>)
    ensures
        bytes@.len() >= 2 ==> number is Ok && number->Ok_0 == declared_len(bytes@),
        bytes@.len() < 2 ==> number is Err,
{
    let mut reader = bytes;
    reader.read_u16::<byteorder::BigEndian>()
}

/// `Buf::advance` on a `BytesMut`: drops the first `cnt` bytes. It panics
/// where fewer are there, which the precondition rules out.
#[verifier::external_body]
fn buffer_advance(buf: &mut BytesMut, cnt: usize)
    requires
        cnt <= buffered(*old(buf)).len(),
    ensures
        buffered(*final(buf)) == buffered(*old(buf)).skip(cnt as int),
{
    buf.advance(cnt)
}

/// `BytesMut::split_to`: takes the first `at` bytes out of the buffer and
/// returns them as a buffer of their own. It panics where fewer are there,
/// which the precondition rules out.
#[verifier::external_body]
fn buffer_split_to(buf: &mut BytesMut, at: usize) -> (head: BytesMut)
    requires
        at <= buffered(*old(buf)).len(),
    ensures
        buffered(head) == buffered(*old(buf)).take(at as int),
        buffered(*final(buf)) == buffered(*old(buf)).skip(at as int),
{
    buf.split_to(at)
}

/// `BytesMut::freeze`, and the frozen bytes copied out: the contents of the
/// buffer as a vector.
#[verifier::external_body]
fn buffer_into_vec(buf: BytesMut) -> (bytes: Vec<u8>)
    ensures
        bytes@ == buffered(buf),
{
    buf.freeze().to_vec()
}

/// Whether `buf` can take the frame of a payload of `len` bytes: whether
/// what it holds, the two bytes of the length and the payload are together
/// no more than one allocation can hold.
pub fn has_room(buf: &BytesMut, len: usize) -> (ok: bool)
    ensures
        ok == (buffered(*buf).len() + 2 + len <= isize::MAX),
{
    let limit: usize = (isize::MAX as usize) - 2;
    let held = buffer_len(buf);
    held <= limit && len <= limit - held
}

/// A frame is ready as soon as all of it is buffered, whatever follows it,
/// and then its payload and the rest come apart again. A frame with an empty
/// payload is never ready: the decoder waits for a third byte.
pub proof fn lemma_round_trip(payload: Seq<u8>, rest: Seq<u8>)
    requires
        1 <= payload.len() <= MAX_PAYLOAD,
    ensures
        frame_ready(frame(payload) + rest),
        first_payload(frame(payload) + rest) == payload,
        after_first(frame(payload) + rest) == rest,
{
    let len = payload.len() as int;
    let bytes = frame(payload) + rest;
    assert(bytes[0] == (len / 256) as u8);
    assert(bytes[1] == (len % 256) as u8);
    assert(declared_len(bytes) == len);
    assert(first_payload(bytes) =~= payload);
    assert(after_first(bytes) =~= rest);
}

/// No proper prefix of a frame is ready: the decoder yields nothing until the
/// last byte of the frame has arrived.
pub proof fn lemma_partial_frame(payload: Seq<u8>, k: int)
    requires
        payload.len() <= MAX_PAYLOAD,
        0 <= k < frame(payload).len(),
    ensures
        !frame_ready(frame(payload).take(k)),
{
    let len = payload.len() as int;
    let part = frame(payload).take(k);
    if k > 2 {
        assert(part[0] == (len / 256) as u8);
        assert(part[1] == (len % 256) as u8);
        assert(declared_len(part) == len);
    }
}

/// The codec of one direction of a connection. `T` is the type of the
/// messages whose serialised form the frames carry.
#[derive(Debug, Default)]
pub struct NetworkMessage<T> {
    __: PhantomData<T>,
}

impl<T> NetworkMessage<T> {
    pub fn new() -> (codec: Self) {
        Self { __: PhantomData }
    }

    /// Appends the frame of the serialised message `msg` to `buf`. A message
    /// longer than `MAX_PAYLOAD` is refused and `buf` is left as it was.
    pub fn encode(&mut self, msg: &[u8], buf: &mut BytesMut) -> (done: Result<()>)
        requires
            msg@.len() <= MAX_PAYLOAD ==> buffered(*old(buf)).len() + 2 + msg@.len()
                <= isize::MAX,
        ensures
            msg@.len() > MAX_PAYLOAD ==> (done matches Err(Error::LargePayload)) && buffered(
                *final(buf),
            ) == buffered(*old(buf)),
            msg@.len() <= MAX_PAYLOAD ==> done is Ok && buffered(*final(buf)) == buffered(
                *old(buf),
            ) + frame(msg@),
    {
        let msg_len = msg.len();
        if msg_len > MAX_PAYLOAD {
            Err(Error::LargePayload)
        } else {
            buffer_reserve(buf, 2 + msg_len);
            buffer_put_u16(buf, msg_len as u16);
            buffer_put(buf, msg);
            assert(buffered(*buf) =~= buffered(*old(buf)) + frame(msg@));
            Ok(())
        }
    }

    /// Appends the frame of a message to `buf`, given what the serialiser
    /// made of the message. Where the serialiser failed, its error is handed
    /// on and `buf` is left as it was.
    pub fn encode_serialized(
        &mut self,
        serialized: std::result::Result<Vec<u8>, bincode::Error>,
        buf: &mut BytesMut,
    ) -> (done: Result<()>)
        requires
            serialized matches Ok(msg) ==> (msg@.len() <= MAX_PAYLOAD ==> buffered(
                *old(buf),
            ).len() + 2 + msg@.len() <= isize::MAX),
        ensures
            serialized matches Err(err) ==> done == Err::<(), Error>(Error::Serialization(err))
                && buffered(*final(buf)) == buffered(*old(buf)),
            serialized matches Ok(msg) ==> (msg@.len() > MAX_PAYLOAD ==> (done matches Err(
                Error::LargePayload,
            )) && buffered(*final(buf)) == buffered(*old(buf))),
            serialized matches Ok(msg) ==> (msg@.len() <= MAX_PAYLOAD ==> done is Ok
                && buffered(*final(buf)) == buffered(*old(buf)) + frame(msg@)),
    {
        match serialized {
            Ok(msg) => self.encode(msg.as_slice(), buf),
            Err(err) => Err(Error::from(err)),
        }
    }

    /// The item that a decoded frame stands for, given what the
    /// deserialiser made of its payload: the message, or the deserialiser's
    /// error, which ends the stream.
    pub fn decoded(&self, parsed: std::result::Result<T, bincode::Error>) -> (item: Result<
        Option<T>,
    >)
        ensures
            parsed matches Ok(msg) ==> item == Ok::<Option<T>, Error>(Some(msg)),
            parsed matches Err(err) ==> item == Err::<Option<T>, Error>(
                Error::Serialization(err),
            ),
    {
        match parsed {
            Ok(msg) => Ok(Some(msg)),
            Err(err) => Err(Error::from(err)),
        }
    }

    /// Takes the first frame out of `src` and returns its payload, if `src`
    /// holds a whole frame; else returns `None` and leaves `src` as it was.
    pub fn decode(&mut self, src: &mut BytesMut) -> (item: Result<Option<Vec<u8>>>)
        ensures
            item is Ok,
            !frame_ready(buffered(*old(src))) ==> item->Ok_0 is None && buffered(*final(src))
                == buffered(*old(src)),
            frame_ready(buffered(*old(src))) ==> item->Ok_0 is Some && item->Ok_0->Some_0@
                == first_payload(buffered(*old(src))) && buffered(*final(src)) == after_first(
                buffered(*old(src)),
            ),
    {
        let src_len = buffer_len(src);
        if src_len <= 2 {
            return Ok(None);
        }
        let payload_size = match read_u16_be(buffer_bytes(src)) {
            Ok(number) => number as usize,
            Err(err) => {
                return Err(Error::from(err));
            },
        };
        let current_frame_size = 2 + payload_size;
        if src_len < current_frame_size {
            if src_len <= (isize::MAX as usize) - current_frame_size {
                buffer_reserve(src, current_frame_size);
            }
            return Ok(None);
        }
        buffer_advance(src, 2);
        let data = buffer_split_to(src, payload_size);
        let payload = buffer_into_vec(data);
        assert(payload@ =~= first_payload(buffered(*old(src))));
        assert(buffered(*src) =~= after_first(buffered(*old(src))));
        Ok(Some(payload))
    }
}

} // verus!
