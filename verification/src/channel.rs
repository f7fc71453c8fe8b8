//! The outside pieces that the bridge is built from: the byte buffers of the
//! `bytes` crate and the bounded channel of `tokio`. Nothing in this file is
//! proved: each contract says what the named function is relied on to do.
use vstd::prelude::*;
use bytes::Bytes;
use bytes::BytesMut;
use tokio::sync::mpsc::Receiver;
use tokio::sync::mpsc::Sender;

verus! {

/// `bytes::BytesMut`, a growable byte buffer.
#[verifier::external_type_specification]
#[verifier::external_body]
pub struct ExBytesMut(bytes::BytesMut);

/// `bytes::Bytes`, an immutable byte buffer.
#[verifier::external_type_specification]
#[verifier::external_body]
pub struct ExBytes(bytes::Bytes);

/// `std::io::Error`, which travels on the channel in place of a chunk when the
/// stream has to be cut short.
#[verifier::external_type_specification]
#[verifier::external_body]
pub struct ExIoError(std::io::Error);

/// `tokio::sync::mpsc::Sender`, the producing end of a bounded channel.
#[verifier::external_type_specification]
#[verifier::external_body]
#[verifier::reject_recursive_types(T)]
pub struct ExSender<T>(tokio::sync::mpsc::Sender<T>);

/// `tokio::sync::mpsc::Receiver`, the consuming end of a bounded channel.
#[verifier::external_type_specification]
#[verifier::external_body]
#[verifier::reject_recursive_types(T)]
pub struct ExReceiver<T>(tokio::sync::mpsc::Receiver<T>);

/// What travels on the bridge: a chunk, or the error that ends the stream.
pub type ChunkResult = Result<Bytes, std::io::Error>;

/// The producing end of the bridge.
pub type ChunkSender = Sender<ChunkResult>;

/// The consuming end of the bridge, which the transport drains.
pub type ChunkReceiver = Receiver<ChunkResult>;

/// The bytes that a `BytesMut` holds, first to last.
pub uninterp spec fn buffer_bytes(buffer: BytesMut) -> Seq<u8>;

/// The bytes that a `Bytes` holds, first to last.
pub uninterp spec fn chunk_bytes(chunk: Bytes) -> Seq<u8>;

/// The number of messages that the channel of this sender was made to hold.
pub uninterp spec fn sender_capacity(tx: ChunkSender) -> nat;

/// `BytesMut::with_capacity` returns a buffer that holds no bytes. It allocates
/// through `Vec::with_capacity`, which panics above `isize::MAX` bytes.
pub assume_specification[ BytesMut::with_capacity ](capacity: usize) -> (buffer: BytesMut)
    requires
        capacity <= isize::MAX,
    ensures
        buffer_bytes(buffer) == Seq::<u8>::empty(),
;

/// `BytesMut::len` is the number of bytes held.
pub assume_specification[ BytesMut::len ](buffer: &BytesMut) -> (len: usize)
    ensures
        len == buffer_bytes(*buffer).len(),
;

/// `BytesMut::extend_from_slice` appends the given bytes, growing the buffer
/// where it has to; growing panics when the new length overflows.
pub assume_specification[ BytesMut::extend_from_slice ](buffer: &mut BytesMut, extend: &[u8])
    requires
        buffer_bytes(*old(buffer)).len() + extend@.len() <= isize::MAX,
    ensures
        buffer_bytes(*final(buffer)) == buffer_bytes(*old(buffer)) + extend@,
;

/// `BytesMut::split` hands out all the bytes held, as a buffer of their own, and
/// leaves this one empty.
pub assume_specification[ BytesMut::split ](buffer: &mut BytesMut) -> (taken: BytesMut)
    ensures
        buffer_bytes(taken) == buffer_bytes(*old(buffer)),
        buffer_bytes(*final(buffer)) == Seq::<u8>::empty(),
;

/// `BytesMut::freeze` makes the buffer immutable and keeps its bytes.
pub assume_specification[ BytesMut::freeze ](buffer: BytesMut) -> (chunk: Bytes)
    ensures
        chunk_bytes(chunk) == buffer_bytes(buffer),
;

/// `tokio::sync::mpsc::channel` makes a channel that holds up to `slots` unreceived
/// messages. It panics for no slot and for more than `usize::MAX >> 3`.
#[verifier::external_body]
pub(crate) fn bounded_channel(slots: usize) -> (ends: (ChunkSender, ChunkReceiver))
    requires
        0 < slots <= usize::MAX / 8,
    ensures
        sender_capacity(ends.0) == slots,
{
    tokio::sync::mpsc::channel(slots)
}

/// `Sender::send`, waited for on the calling thread with `Handle::block_on`: it
/// returns once the channel has taken the chunk, or has been closed by its
/// receiver. The answer is whether the chunk was taken; with no runtime to wait
/// on, it is not. Which of these happens is up to the receiver, so nothing is
/// promised. It is for a blocking worker thread: `block_on` panics on a thread
/// that is running a task.
#[verifier::external_body]
pub(crate) fn send_chunk(tx: &ChunkSender, chunk: Bytes) -> (taken: bool) {
    match tokio::runtime::Handle::try_current() {
        Ok(runtime) => runtime.block_on(tx.send(Ok(chunk))).is_ok(),
        Err(_) => false,
    }
}

/// `Sender::reserve`, waited for like `send_chunk`: it returns once the channel
/// has room for another message, or has been closed. The room is given back at
/// once. The answer is whether there was room; nothing is promised of it.
#[verifier::external_body]
pub(crate) fn await_capacity(tx: &ChunkSender) -> (free: bool) {
    match tokio::runtime::Handle::try_current() {
        Ok(runtime) => runtime.block_on(tx.reserve()).is_ok(),
        Err(_) => false,
    }
}

/// `std::io::Error::from` on `ErrorKind::BrokenPipe`: the error that stands for
/// a stream cut short.
#[verifier::external_body]
pub(crate) fn broken_pipe() -> (error: std::io::Error) {
    std::io::Error::from(std::io::ErrorKind::BrokenPipe)
}

/// `Sender::blocking_send` of an error in place of a chunk, so that the
/// transport aborts the response. Whether it arrives is not known and not
/// needed. Like `block_on`, it panics on a thread that is running a task.
#[verifier::external_body]
pub(crate) fn send_error(tx: &ChunkSender, error: std::io::Error) {
    let _ = tx.blocking_send(Err(error));
}

} // verus!
