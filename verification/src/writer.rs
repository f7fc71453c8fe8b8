//! The streaming bridge: a synchronous writer in front of a bounded channel.
//!
//! Bytes written are gathered in a buffer of fixed capacity. A full buffer is
//! handed to the channel as one chunk, and the writer then waits until the
//! channel has room again, so that it never runs more than one chunk ahead of
//! the reader. Once the channel is closed the writer is broken: it reports a
//! broken pipe and hands over nothing more.
use vstd::prelude::*;
use vstd::slice::slice_subrange;
use bytes::BytesMut;
use crate::channel::await_capacity;
use crate::channel::bounded_channel;
use crate::channel::buffer_bytes;
use crate::channel::chunk_bytes;
use crate::channel::broken_pipe;
use crate::channel::send_chunk;
use crate::channel::send_error;
use crate::channel::sender_capacity;
use crate::channel::ChunkReceiver;
use crate::channel::ChunkSender;
use crate::chunks::chunk_at;
use crate::chunks::chunks_bounded;
use crate::chunks::chunks_of;
use crate::chunks::full_chunks;
use crate::chunks::joined;
use crate::chunks::lemma_chunk_count_is_ceiling;
use crate::chunks::lemma_full_chunks_lower;
use crate::chunks::lemma_full_chunks_unique;
use crate::chunks::lemma_joined_concat;
use crate::chunks::lemma_joined_prefix;
use crate::chunks::lemma_joined_push;
use crate::chunks::total_len;

verus! {

/// Why a write or a flush failed.
#[derive(Clone, Copy, Debug, PartialEq, Eq, Structural)]
pub enum WriteError {
    /// The reading side of the channel is gone.
    BrokenPipe,
}

/// What a flush reports once the channel has answered: the `len` bytes of the
/// chunk when the channel took it and then had room again, a broken pipe
/// otherwise.
pub fn handoff_result(len: usize, taken: bool, drained: bool) -> (r: Result<usize, WriteError>)
    ensures
        r == if taken && drained {
            Ok::<usize, WriteError>(len)
        } else {
            Err::<usize, WriteError>(WriteError::BrokenPipe)
        },
{
    if taken && drained {
        Ok(len)
    } else {
        Err(WriteError::BrokenPipe)
    }
}

/// A writer that relays what it is given to a channel, in chunks of at most
/// `capacity` bytes.
pub struct ChannelWriter {
    buffer: BytesMut,
    capacity: usize,
    tx: ChunkSender,
    written: usize,
    broken: bool,
    delivered: Ghost<Seq<Seq<u8>>>,
    outstanding: Ghost<nat>,
    attempts: Ghost<nat>,
}

impl ChannelWriter {
    /// The size of the buffer, which bounds every chunk.
    pub closed spec fn capacity(&self) -> nat {
        self.capacity as nat
    }

    /// The bytes written and not yet handed to the channel.
    pub closed spec fn buffered(&self) -> Seq<u8> {
        buffer_bytes(self.buffer)
    }

    /// The chunks that the channel took and then had room for a successor of,
    /// in order. With one slot in the channel, room means that the reader has
    /// picked the chunk up.
    pub closed spec fn delivered(&self) -> Seq<Seq<u8>> {
        self.delivered@
    }

    /// The number of items that the channel took from this writer and did not
    /// since report room for: those that may still lie in the channel.
    pub closed spec fn outstanding(&self) -> nat {
        self.outstanding@
    }

    /// The number of unreceived messages that the channel holds at most.
    pub closed spec fn channel_slots(&self) -> nat {
        sender_capacity(self.tx)
    }

    /// How often a chunk was offered to the channel.
    pub closed spec fn attempts(&self) -> nat {
        self.attempts@
    }

    /// The number of bytes in the delivered chunks.
    pub closed spec fn flushed(&self) -> nat {
        self.written as nat
    }

    /// Whether the channel was found closed.
    pub closed spec fn is_broken(&self) -> bool {
        self.broken
    }

    /// Every byte accepted so far that is delivered or still buffered, in the
    /// order of writing.
    pub open spec fn stream(&self) -> Seq<u8> {
        joined(self.delivered()) + self.buffered()
    }

    /// What holds of a writer between calls.
    pub closed spec fn wf(&self) -> bool {
        &&& 0 < self.capacity <= isize::MAX
        &&& buffer_bytes(self.buffer).len() <= self.capacity
        &&& self.written == total_len(self.delivered@)
        &&& self.written + buffer_bytes(self.buffer).len() <= usize::MAX
        &&& chunks_bounded(self.delivered@, self.capacity as nat)
        &&& self.outstanding@ <= 1
        &&& !self.broken ==> self.outstanding@ == 0
        &&& sender_capacity(self.tx) == 1
    }

    /// The channel has one slot, at most one item of this writer lies in it at
    /// any time, and none while the writer is at rest and not broken.
    pub proof fn lemma_one_chunk_in_flight(&self)
        requires
            self.wf(),
        ensures
            self.channel_slots() == 1,
            self.outstanding() <= 1,
            !self.is_broken() ==> self.outstanding() == 0,
    {
    }

    /// What a writer keeps to between calls: the buffer is within its
    /// capacity, every delivered chunk holds between one byte and `capacity`,
    /// and the byte count is that of the delivered chunks.
    pub proof fn lemma_well_formed(&self)
        requires
            self.wf(),
        ensures
            self.buffered().len() <= self.capacity(),
            self.capacity() > 0,
            chunks_bounded(self.delivered(), self.capacity()),
            self.flushed() == total_len(self.delivered()),
            self.flushed() + self.buffered().len() <= usize::MAX,
    {
    }

    /// Whether two writers are in the same state, as far as contracts can tell.
    pub open spec fn same_state(&self, other: &Self) -> bool {
        &&& self.capacity() == other.capacity()
        &&& self.buffered() == other.buffered()
        &&& self.delivered() == other.delivered()
        &&& self.outstanding() == other.outstanding()
        &&& self.attempts() == other.attempts()
        &&& self.flushed() == other.flushed()
        &&& self.is_broken() == other.is_broken()
    }

    /// A writer with an empty buffer of `buf_len` bytes in front of `tx`.
    pub fn new(buf_len: usize, tx: ChunkSender) -> (w: Self)
        requires
            buf_len != 0,
            buf_len <= isize::MAX,
            sender_capacity(tx) == 1,
        ensures
            w.wf(),
            w.capacity() == buf_len,
            w.buffered() == Seq::<u8>::empty(),
            w.delivered() == Seq::<Seq<u8>>::empty(),
            w.outstanding() == 0,
            w.attempts() == 0,
            w.flushed() == 0,
            !w.is_broken(),
    {
        let w = ChannelWriter {
            buffer: BytesMut::with_capacity(buf_len),
            capacity: buf_len,
            tx,
            written: 0,
            broken: false,
            delivered: Ghost(Seq::empty()),
            outstanding: Ghost(0),
            attempts: Ghost(0),
        };
        assert(joined(Seq::<Seq<u8>>::empty()) =~= Seq::<u8>::empty());
        w
    }

    /// The number of bytes delivered so far.
    pub fn flushed_bytes(&self) -> (n: usize)
        ensures
            n == self.flushed(),
    {
        self.written
    }

    /// The number of bytes written and not yet handed on.
    pub fn buffered_len(&self) -> (n: usize)
        ensures
            n == self.buffered().len(),
    {
        self.buffer.len()
    }

    /// The size of the buffer.
    pub fn buffer_capacity(&self) -> (n: usize)
        ensures
            n == self.capacity(),
    {
        self.capacity
    }

    /// Whether the channel was found closed, after which nothing is taken.
    pub fn has_failed(&self) -> (failed: bool)
        ensures
            failed == self.is_broken(),
    {
        self.broken
    }

    /// How many more bytes the writer can count: a write of more is not
    /// allowed.
    pub fn headroom(&self) -> (n: usize)
        requires
            self.wf(),
        ensures
            n == usize::MAX - self.flushed() - self.buffered().len(),
    {
        usize::MAX - self.written - self.buffer.len()
    }

    /// Hands the buffered bytes to the channel as one chunk and waits until the
    /// channel has room again. With nothing buffered it does nothing.
    fn flush0(&mut self) -> (r: Result<usize, WriteError>)
        requires
            old(self).wf(),
            !old(self).is_broken(),
        ensures
            final(self).wf(),
            final(self).capacity() == old(self).capacity(),
            old(self).buffered().len() == 0 ==> r == Ok::<usize, WriteError>(0)
                && final(self).same_state(old(self)),
            old(self).buffered().len() > 0 ==> final(self).attempts() == old(self).attempts() + 1,
            match r {
                Ok(n) => {
                    &&& n == old(self).buffered().len()
                    &&& !final(self).is_broken()
                    &&& final(self).buffered() == Seq::<u8>::empty()
                    &&& final(self).flushed() == old(self).flushed() + n
                    &&& n > 0 ==> final(self).delivered() == old(self).delivered().push(
                        old(self).buffered(),
                    )
                },
                Err(e) => {
                    &&& e == WriteError::BrokenPipe
                    &&& old(self).buffered().len() > 0
                    &&& final(self).is_broken()
                    &&& final(self).buffered() == Seq::<u8>::empty()
                    &&& final(self).delivered() == old(self).delivered()
                    &&& final(self).flushed() == old(self).flushed()
                },
            },
    {
        let n = self.buffer.len();
        if n == 0 {
            assert(self.buffered() =~= Seq::<u8>::empty());
            return Ok(0);
        }
        let ready = self.buffer.split().freeze();
        let ghost bytes = chunk_bytes(ready);
        let taken = send_chunk(&self.tx, ready);
        self.attempts = Ghost(self.attempts@ + 1);
        if taken {
            self.outstanding = Ghost(1);
        }
        let drained = taken && await_capacity(&self.tx);
        let r = handoff_result(n, taken, drained);
        match r {
            Ok(_) => {
                proof {
                    lemma_joined_push(self.delivered@, bytes);
                }
                self.outstanding = Ghost(0);
                self.delivered = Ghost(self.delivered@.push(bytes));
                self.written = self.written + n;
            },
            Err(_) => {
                self.broken = true;
            },
        }
        r
    }

    /// Appends `buf` to the stream. While more is at hand than the buffer has
    /// room for, the buffer is filled to capacity and handed on as one chunk;
    /// what is left at the end stays buffered. A broken writer takes nothing.
    ///
    /// Handing a chunk on blocks the calling thread: first until the channel
    /// takes the chunk, then until the channel has room again, which is when
    /// the reader has picked the chunk up. With a reader that neither reads
    /// nor goes away the call does not return. The wait is made on the tokio
    /// runtime of the calling thread, so the call is for a blocking worker
    /// thread of a runtime. On a thread that is running a task it panics;
    /// with no runtime at all it reports a broken pipe.
    pub fn write(&mut self, buf: &[u8]) -> (r: Result<usize, WriteError>)
        requires
            old(self).wf(),
            old(self).flushed() + old(self).buffered().len() + buf@.len() <= usize::MAX,
        ensures
            final(self).wf(),
            final(self).capacity() == old(self).capacity(),
            old(self).is_broken() ==> r == Err::<usize, WriteError>(WriteError::BrokenPipe)
                && final(self).same_state(old(self)),
            !old(self).is_broken() ==> ({
                let total = old(self).buffered() + buf@;
                let cap = old(self).capacity();
                let k = full_chunks(total.len(), cap);
                let sent = final(self).delivered().len() - old(self).delivered().len();
                &&& k == 0 ==> r is Ok
                &&& 0 <= sent <= k
                &&& final(self).delivered() == old(self).delivered() + chunks_of(total, cap).take(
                    sent,
                )
                &&& final(self).flushed() == old(self).flushed() + sent * cap
                &&& match r {
                    Ok(n) => {
                        &&& n == buf@.len()
                        &&& !final(self).is_broken()
                        &&& sent == k
                        &&& final(self).attempts() == old(self).attempts() + k
                        &&& final(self).buffered() == total.skip((k * cap) as int)
                        &&& final(self).stream() == old(self).stream() + buf@
                    },
                    Err(e) => {
                        &&& e == WriteError::BrokenPipe
                        &&& final(self).is_broken()
                        &&& sent < k
                        &&& final(self).attempts() == old(self).attempts() + sent + 1
                        &&& final(self).buffered() == Seq::<u8>::empty()
                    },
                }
            }),
    {
        if self.broken {
            return Err(WriteError::BrokenPipe);
        }
        let ghost total = self.buffered() + buf@;
        let ghost cap = self.capacity();
        let ghost before = old(self).buffered().len();
        let ghost mut j: nat = 0;
        let mut pos: usize = 0;
        let mut len: usize = self.buffer.len();
        proof {
            assert(0 * cap == 0) by (nonlinear_arith);
            assert(chunks_of(total, cap).take(0) =~= Seq::<Seq<u8>>::empty());
            assert(self.delivered@ =~= old(self).delivered@ + chunks_of(total, cap).take(0));
            assert(self.buffered() =~= total.subrange(0, len as int));
        }
        while buf.len() - pos > self.capacity - len
            invariant
                self.wf(),
                !self.broken,
                !old(self).is_broken(),
                self.capacity == old(self).capacity,
                cap == self.capacity,
                total == old(self).buffered() + buf@,
                before == old(self).buffered().len(),
                old(self).flushed() + total.len() <= usize::MAX,
                pos <= buf.len(),
                len == buffer_bytes(self.buffer).len(),
                len <= self.capacity,
                before + pos == j * cap + len,
                j == 0 ==> pos == 0,
                j > 0 ==> pos < buf.len(),
                buffer_bytes(self.buffer) == total.subrange((j * cap) as int, j * cap + len),
                j <= chunks_of(total, cap).len(),
                self.delivered@ == old(self).delivered@ + chunks_of(total, cap).take(j as int),
                self.written == old(self).written + j * cap,
                self.attempts@ == old(self).attempts@ + j,
            decreases buf.len() - pos, len,
        {
            let remaining = self.capacity - len;
            let piece = slice_subrange(buf, pos, pos + remaining);
            self.buffer.extend_from_slice(piece);
            pos = pos + remaining;
            proof {
                assert((j + 1) * cap == j * cap + cap) by (nonlinear_arith);
                assert(piece@ =~= total.subrange(j * cap + len, ((j + 1) * cap) as int));
                assert(buffer_bytes(self.buffer) =~= chunk_at(total, cap, j as int));
                lemma_full_chunks_lower(total.len(), cap, j + 1);
            }
            match self.flush0() {
                Err(e) => {
                    return Err(e);
                },
                Ok(_) => {},
            }
            proof {
                assert(chunks_of(total, cap).take(j as int).push(chunk_at(total, cap, j as int))
                    =~= chunks_of(total, cap).take(j + 1 as int));
                assert(self.delivered@ =~= old(self).delivered@ + chunks_of(total, cap).take(
                    j + 1 as int,
                ));
                j = j + 1;
                assert(total.subrange((j * cap) as int, (j * cap) as int) =~= Seq::<u8>::empty());
            }
            len = 0;
        }
        let rest = slice_subrange(buf, pos, buf.len());
        self.buffer.extend_from_slice(rest);
        proof {
            assert((j + 1) * cap == j * cap + cap) by (nonlinear_arith);
            assert(rest@ =~= total.subrange(j * cap + len, total.len() as int));
            assert(buffer_bytes(self.buffer) =~= total.skip((j * cap) as int));
            if j == 0 {
                lemma_chunk_count_is_ceiling(total.len(), cap);
            } else {
                lemma_full_chunks_unique(total.len(), cap, j as int);
            }
            lemma_joined_concat(old(self).delivered@, chunks_of(total, cap).take(j as int));
            lemma_joined_prefix(total, cap, j);
            assert(total.take((j * cap) as int) + total.skip((j * cap) as int) =~= total);
            assert(self.stream() =~= old(self).stream() + buf@);
        }
        Ok(buf.len())
    }

    /// Hands on what is still buffered, as the last chunk of the stream so far.
    ///
    /// With bytes in the buffer this blocks the calling thread as `write` does
    /// when it hands a chunk on, and panics where `write` does: on a thread
    /// that is running a task.
    pub fn flush(&mut self) -> (r: Result<(), WriteError>)
        requires
            old(self).wf(),
        ensures
            final(self).wf(),
            final(self).capacity() == old(self).capacity(),
            old(self).is_broken() ==> r == Err::<(), WriteError>(WriteError::BrokenPipe)
                && final(self).same_state(old(self)),
            !old(self).is_broken() ==> ({
                &&& old(self).buffered().len() == 0 ==> r is Ok && final(self).same_state(
                    old(self),
                )
                &&& old(self).buffered().len() > 0 ==> final(self).attempts() == old(
                    self,
                ).attempts() + 1
                &&& match r {
                    Ok(_) => {
                        &&& !final(self).is_broken()
                        &&& final(self).buffered() == Seq::<u8>::empty()
                        &&& final(self).flushed() == old(self).flushed() + old(
                            self,
                        ).buffered().len()
                        &&& old(self).buffered().len() > 0 ==> final(self).delivered() == old(
                            self,
                        ).delivered().push(old(self).buffered())
                        &&& final(self).stream() == old(self).stream()
                    },
                    Err(e) => {
                        &&& e == WriteError::BrokenPipe
                        &&& final(self).is_broken()
                        &&& final(self).buffered() == Seq::<u8>::empty()
                        &&& final(self).delivered() == old(self).delivered()
                        &&& final(self).flushed() == old(self).flushed()
                    },
                }
            }),
    {
        if self.broken {
            return Err(WriteError::BrokenPipe);
        }
        match self.flush0() {
            Ok(_) => {
                proof {
                    lemma_joined_push(old(self).delivered(), old(self).buffered());
                    assert(self.stream() =~= old(self).stream());
                }
                Ok(())
            },
            Err(e) => Err(e),
        }
    }

    /// Gives the stream up: an error is put on the channel in place of a chunk,
    /// for the transport to abort the response, and the writer is broken from
    /// then on. Nothing that was delivered changes.
    ///
    /// This blocks the calling thread until the channel takes the error or is
    /// found closed. It needs no runtime, but on a thread that is running a
    /// task it panics.
    pub fn abort(&mut self)
        requires
            old(self).wf(),
        ensures
            final(self).wf(),
            final(self).is_broken(),
            final(self).capacity() == old(self).capacity(),
            final(self).buffered() == old(self).buffered(),
            final(self).delivered() == old(self).delivered(),
            final(self).flushed() == old(self).flushed(),
            final(self).attempts() == old(self).attempts(),
    {
        send_error(&self.tx, broken_pipe());
        self.outstanding = Ghost(1);
        self.broken = true;
    }
}

/// A writer with a buffer of `buf_len` bytes, and the reading end of its
/// channel, which holds one chunk at a time.
pub fn bridge(buf_len: usize) -> (ends: (ChannelWriter, ChunkReceiver))
    requires
        buf_len != 0,
        buf_len <= isize::MAX,
    ensures
        ends.0.wf(),
        ends.0.capacity() == buf_len,
        ends.0.buffered() == Seq::<u8>::empty(),
        ends.0.delivered() == Seq::<Seq<u8>>::empty(),
        ends.0.outstanding() == 0,
        ends.0.attempts() == 0,
        ends.0.flushed() == 0,
        !ends.0.is_broken(),
{
    let (tx, rx) = bounded_channel(1);
    (ChannelWriter::new(buf_len, tx), rx)
}

} // verus!
