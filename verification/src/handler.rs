//! Serving `/metrics`: the head of the response, and the blocking work that
//! encodes the families and feeds the body through the bridge.
use vstd::prelude::*;
use crate::chunks::chunk_count;
use crate::chunks::chunks_of;
use crate::chunks::full_chunks;
use crate::chunks::lemma_chunk_count_is_ceiling;
use crate::chunks::lemma_chunks_complete;
use crate::chunks::lemma_chunks_rejoin;
use crate::chunks::lemma_chunks_resume;
use crate::chunks::lemma_full_chunks_monotone;
use crate::chunks::lemma_joined_concat;
use crate::chunks::joined;
use crate::encoder::encodable;
use crate::encoder::encode_family;
use crate::encoder::exposition;
use crate::encoder::family_text;
use crate::encoder::format_type;
use crate::encoder::lemma_exposition_grows;
use crate::encoder::lemma_exposition_prefix;
use crate::encoder::lemma_exposition_step;
use crate::encoder::TEXT_FORMAT;
use crate::channel::ChunkReceiver;
use crate::metrics::family_views;
use crate::metrics::gather;
use crate::metrics::snapshot_families;
use crate::metrics::StoreSnapshot;
use crate::metrics::FamilyView;
use crate::metrics::MetricFamily;
use crate::routes::ApiError;
use crate::routes::Cause;
use crate::routes::LogLevel;
use crate::writer::bridge;
use crate::writer::ChannelWriter;

verus! {

/// The size of the bridge's buffer, and so of the largest chunk: 128 KiB.
pub const BUFFER_SIZE: usize = 131072;

/// The head of a streamed response: what is sent before the body.
#[derive(Clone, Debug, PartialEq, Eq)]
pub struct ResponseHead {
    pub status: u16,
    pub content_type: String,
}

/// Why the body of a metrics response was cut short.
#[derive(Clone, Copy, Debug, PartialEq, Eq, Structural)]
pub enum StreamError {
    /// The family at this index has no exposition text.
    Encode(usize),
    /// With the text of the family at this index, the stream would hold more
    /// bytes than the writer can count.
    TooLarge(usize),
    /// The reading side of the channel is gone.
    BrokenPipe,
}

/// What is logged when the blocking work ends.
#[derive(Clone, Copy, Debug, PartialEq, Eq, Structural)]
pub struct StreamReport {
    pub level: LogLevel,
    /// The bytes delivered, where the whole body was.
    pub bytes: Option<usize>,
    /// Why the body was cut short, where it was.
    pub failure: Option<StreamError>,
    pub elapsed_ms: u64,
}

/// The head of a successful metrics response: status 200 and the media type of
/// the exposition format.
pub fn metrics_response_head() -> (head: ResponseHead)
    ensures
        head.status == 200,
        head.content_type@ == TEXT_FORMAT@,
{
    ResponseHead { status: 200, content_type: format_type() }
}

/// A metrics response that has begun: its head, the families that make its
/// body, and the two ends of the bridge that the body goes through.
pub struct MetricsResponse {
    pub head: ResponseHead,
    pub families: Vec<MetricFamily>,
    pub writer: ChannelWriter,
    pub body: ChunkReceiver,
}

/// Begins the response to a metrics request, given what the store returned.
/// Where the store could not be read there is only the error: no head is
/// made and no bridge, so that not a byte of a body can go out before the
/// failure is known. Otherwise the head says 200, and a writer that has sent
/// nothing yet stands ready with the families.
pub fn begin_metrics_response(fetched: Result<StoreSnapshot, Cause>) -> (r: Result<
    MetricsResponse,
    ApiError,
>)
    ensures
        match fetched {
            Ok(snapshot) => {
                &&& r is Ok
                &&& r->Ok_0.head.status == 200
                &&& r->Ok_0.head.content_type@ == TEXT_FORMAT@
                &&& family_views(r->Ok_0.families@) == snapshot_families(snapshot)
                &&& r->Ok_0.writer.wf()
                &&& r->Ok_0.writer.capacity() == BUFFER_SIZE
                &&& r->Ok_0.writer.buffered() == Seq::<u8>::empty()
                &&& r->Ok_0.writer.delivered() == Seq::<Seq<u8>>::empty()
                &&& r->Ok_0.writer.outstanding() == 0
                &&& r->Ok_0.writer.attempts() == 0
                &&& r->Ok_0.writer.flushed() == 0
                &&& !r->Ok_0.writer.is_broken()
            },
            Err(cause) => r is Err && r->Err_0 == ApiError::InternalServerError(cause),
        },
{
    match gather(fetched) {
        Ok(families) => {
            let head = metrics_response_head();
            let (writer, body) = bridge(BUFFER_SIZE);
            Ok(MetricsResponse { head, families, writer, body })
        },
        Err(error) => Err(error),
    }
}

/// The stream once the first `n` families have been written on top of what
/// the buffer held: every full chunk is delivered, each offered to the channel
/// once, and the rest is buffered.
pub open spec fn written_through(
    before: ChannelWriter,
    families: Seq<FamilyView>,
    n: int,
    after: ChannelWriter,
) -> bool {
    let text = before.buffered() + exposition(families.take(n));
    let cap = before.capacity();
    let k = full_chunks(text.len(), cap);
    &&& after.delivered() == before.delivered() + chunks_of(text, cap).take(k as int)
    &&& after.buffered() == text.skip((k * cap) as int)
    &&& after.flushed() == before.flushed() + k * cap
    &&& after.attempts() == before.attempts() + k
}

/// The stream after a broken pipe: what was delivered is a run of leading
/// chunks of the text of some leading families, and nothing else. Each of
/// them was offered to the channel once, and then one more chunk, which the
/// channel did not take or did not make room after.
pub open spec fn cut_short(
    before: ChannelWriter,
    families: Seq<FamilyView>,
    after: ChannelWriter,
) -> bool {
    &&& after.is_broken()
    &&& exists|n: int, sent: int|
        {
            &&& 0 <= n <= families.len()
            &&& encodable(families.take(n))
            &&& 0 <= sent <= chunk_count(
                (before.buffered() + exposition(families.take(n))).len(),
                before.capacity(),
            )
            &&& #[trigger] delivered_run(before, families, n, sent) == after.delivered()
            &&& after.attempts() == before.attempts() + sent + 1
        }
}

/// What was delivered before, then the first `sent` chunks of the text of the
/// first `n` families.
pub open spec fn delivered_run(
    before: ChannelWriter,
    families: Seq<FamilyView>,
    n: int,
    sent: int,
) -> Seq<Seq<u8>> {
    before.delivered() + chunks_of(
        before.buffered() + exposition(families.take(n)),
        before.capacity(),
    ).take(sent)
}

/// Whether the text of the first `n` families, with what the writer held
/// before, is within what the writer can count.
pub open spec fn fits(before: ChannelWriter, families: Seq<FamilyView>, n: int) -> bool {
    before.flushed() + before.buffered().len() + exposition(families.take(n)).len()
        <= usize::MAX
}

/// Whether the text of the first `n` families passes through the writer
/// without a chunk being handed on: it all stays in the buffer.
pub open spec fn stays_buffered(before: ChannelWriter, families: Seq<FamilyView>, n: int) -> bool {
    full_chunks(
        (before.buffered() + exposition(families.take(n))).len(),
        before.capacity(),
    ) == 0
}

/// Family `i` is the first without a text, and nothing before it has to be
/// handed to the channel or is too much to count: the call is owed
/// `Encode(i)`.
pub open spec fn owes_encode_error(before: ChannelWriter, families: Seq<FamilyView>, i: int) -> bool {
    &&& !before.is_broken()
    &&& 0 <= i < families.len()
    &&& encodable(families.take(i))
    &&& family_text(families[i]) is None
    &&& fits(before, families, i)
    &&& stays_buffered(before, families, i)
}

/// Family `i` is the first whose text is too much to count, every family up
/// to it has a text, and nothing before it has to be handed to the channel:
/// the call is owed `TooLarge(i)`.
pub open spec fn owes_too_large(before: ChannelWriter, families: Seq<FamilyView>, i: int) -> bool {
    &&& !before.is_broken()
    &&& 0 <= i < families.len()
    &&& encodable(families.take(i + 1))
    &&& fits(before, families, i)
    &&& !fits(before, families, i + 1)
    &&& stays_buffered(before, families, i)
}

/// Once the first `m` families are written, neither error is owed any more
/// if they were all the families, or if a chunk had to be handed on.
proof fn lemma_nothing_owed(before: ChannelWriter, families: Seq<FamilyView>, m: int)
    requires
        before.capacity() > 0,
        0 <= m <= families.len(),
        encodable(families.take(m)),
        fits(before, families, m),
        m == families.len() || !stays_buffered(before, families, m),
    ensures
        forall|i: int| !#[trigger] owes_encode_error(before, families, i),
        forall|i: int| !#[trigger] owes_too_large(before, families, i),
{
    assert forall|i: int| !#[trigger] owes_encode_error(before, families, i) by {
        if owes_encode_error(before, families, i) {
            if i < m {
                assert(family_text(families.take(m)[i]) is Some);
            } else {
                lemma_exposition_grows(families, m, i);
                lemma_full_chunks_monotone(
                    (before.buffered() + exposition(families.take(m))).len(),
                    (before.buffered() + exposition(families.take(i))).len(),
                    before.capacity(),
                );
            }
        }
    }
    assert forall|i: int| !#[trigger] owes_too_large(before, families, i) by {
        if owes_too_large(before, families, i) {
            if i < m {
                lemma_exposition_grows(families, i + 1, m);
            } else {
                lemma_exposition_grows(families, m, i);
                lemma_full_chunks_monotone(
                    (before.buffered() + exposition(families.take(m))).len(),
                    (before.buffered() + exposition(families.take(i))).len(),
                    before.capacity(),
                );
            }
        }
    }
}

/// Where family `at` is found without a text, `Encode` is owed for that
/// family and for no other, and `TooLarge` for none.
proof fn lemma_encode_owed_here(before: ChannelWriter, families: Seq<FamilyView>, at: int)
    requires
        0 <= at < families.len(),
        encodable(families.take(at)),
        family_text(families[at]) is None,
        fits(before, families, at),
    ensures
        forall|i: int| #[trigger] owes_encode_error(before, families, i) ==> i == at,
        forall|i: int| !#[trigger] owes_too_large(before, families, i),
{
    assert forall|i: int| #[trigger] owes_encode_error(before, families, i) implies i == at by {
        if i < at {
            assert(family_text(families.take(at)[i]) is Some);
        } else if i > at {
            assert(family_text(families.take(i)[at]) is Some);
        }
    }
    assert forall|i: int| !#[trigger] owes_too_large(before, families, i) by {
        if owes_too_large(before, families, i) {
            if i < at {
                lemma_exposition_grows(families, i + 1, at);
            } else {
                assert(family_text(families.take(i + 1)[at]) is Some);
            }
        }
    }
}

/// Where the text of family `at` is found too much to count, `TooLarge` is
/// owed for that family and for no other, and `Encode` for none.
proof fn lemma_too_large_owed_here(before: ChannelWriter, families: Seq<FamilyView>, at: int)
    requires
        0 <= at < families.len(),
        encodable(families.take(at + 1)),
        fits(before, families, at),
        !fits(before, families, at + 1),
    ensures
        forall|i: int| #[trigger] owes_too_large(before, families, i) ==> i == at,
        forall|i: int| !#[trigger] owes_encode_error(before, families, i),
{
    assert forall|i: int| #[trigger] owes_too_large(before, families, i) implies i == at by {
        if i < at {
            lemma_exposition_grows(families, i + 1, at);
        } else if i > at {
            lemma_exposition_grows(families, at + 1, i);
        }
    }
    assert forall|i: int| !#[trigger] owes_encode_error(before, families, i) by {
        if owes_encode_error(before, families, i) {
            if i <= at {
                assert(family_text(families.take(at + 1)[i]) is Some);
            } else {
                lemma_exposition_grows(families, at + 1, i);
            }
        }
    }
}

/// Encodes the families one by one into the writer and flushes it. On success
/// the channel has got what was buffered before and the exposition text of
/// the whole list, cut into chunks of the buffer's size, and nothing is left
/// in the buffer.
///
/// Like the writer's `write` and `flush`, this blocks the calling thread
/// while the channel is full, and belongs on a blocking worker thread of a
/// tokio runtime: on a thread that is running a task it panics.
pub fn write_exposition(families: &Vec<MetricFamily>, writer: &mut ChannelWriter) -> (r: Result<
    (),
    StreamError,
>)
    requires
        old(writer).wf(),
    ensures
        final(writer).wf(),
        final(writer).capacity() == old(writer).capacity(),
        old(writer).is_broken() ==> r == Err::<(), StreamError>(StreamError::BrokenPipe)
            && final(writer).same_state(old(writer)),
        !old(writer).is_broken() ==> ({
            let fs = family_views(families@);
            let all = old(writer).buffered() + exposition(fs);
            match r {
                Ok(_) => {
                    &&& encodable(fs)
                    &&& !final(writer).is_broken()
                    &&& final(writer).delivered() == old(writer).delivered() + chunks_of(
                        all,
                        old(writer).capacity(),
                    )
                    &&& final(writer).buffered() == Seq::<u8>::empty()
                    &&& final(writer).flushed() == old(writer).flushed() + all.len()
                    &&& joined(final(writer).delivered()) == old(writer).stream() + exposition(fs)
                    &&& final(writer).delivered().len() == old(writer).delivered().len()
                        + chunk_count(all.len(), old(writer).capacity())
                },
                Err(StreamError::Encode(i)) => {
                    &&& i < fs.len()
                    &&& family_text(fs[i as int]) is None
                    &&& encodable(fs.take(i as int))
                    &&& !final(writer).is_broken()
                    &&& written_through(*old(writer), fs, i as int, *final(writer))
                },
                Err(StreamError::TooLarge(i)) => {
                    &&& i < fs.len()
                    &&& encodable(fs.take(i + 1))
                    &&& old(writer).flushed() + old(writer).buffered().len() + exposition(
                        fs.take(i + 1),
                    ).len() > usize::MAX
                    &&& !final(writer).is_broken()
                    &&& written_through(*old(writer), fs, i as int, *final(writer))
                },
                Err(StreamError::BrokenPipe) => cut_short(*old(writer), fs, *final(writer)),
            }
        }),
        !old(writer).is_broken() && encodable(family_views(families@)) && old(
            writer,
        ).buffered().len() + exposition(family_views(families@)).len() == 0 ==> r is Ok,
        forall|i: int| #[trigger]
            owes_encode_error(*old(writer), family_views(families@), i) ==> r == Err::<
                (),
                StreamError,
            >(StreamError::Encode(i as usize)),
        forall|i: int| #[trigger]
            owes_too_large(*old(writer), family_views(families@), i) ==> r == Err::<
                (),
                StreamError,
            >(StreamError::TooLarge(i as usize)),
{
    if writer.has_failed() {
        return Err(StreamError::BrokenPipe);
    }
    let ghost fs = family_views(families@);
    let ghost cap = writer.capacity();
    let mut i: usize = 0;
    proof {
        writer.lemma_well_formed();
        lemma_chunk_count_is_ceiling(writer.buffered().len(), cap);
        assert(exposition(fs.take(0)) =~= Seq::<u8>::empty());
        let text = writer.buffered() + exposition(fs.take(0));
        assert(text =~= writer.buffered());
        assert(0 * cap == 0) by (nonlinear_arith);
        assert(chunks_of(text, cap).take(0) =~= Seq::<Seq<u8>>::empty());
        assert(writer.delivered() =~= writer.delivered() + chunks_of(text, cap).take(0));
        assert(text.skip(0) =~= text);
    }
    while i < families.len()
        invariant
            writer.wf(),
            !old(writer).is_broken(),
            writer.capacity() == old(writer).capacity(),
            cap == writer.capacity(),
            cap > 0,
            fs == family_views(families@),
            i <= families.len(),
            encodable(fs.take(i as int)),
            !writer.is_broken(),
            written_through(*old(writer), fs, i as int, *writer),
        decreases families.len() - i,
    {
        let ghost text = old(writer).buffered() + exposition(fs.take(i as int));
        let ghost k = full_chunks(text.len(), cap);
        let piece = match encode_family(&families[i]) {
            Some(piece) => piece,
            None => {
                proof {
                    assert(fs[i as int] == families@[i as int]@);
                    writer.lemma_well_formed();
                    lemma_chunk_count_is_ceiling(text.len(), cap);
                    lemma_encode_owed_here(*old(writer), fs, i as int);
                }
                return Err(StreamError::Encode(i));
            },
        };
        proof {
            lemma_exposition_prefix(fs, i + 1);
            writer.lemma_well_formed();
            lemma_chunk_count_is_ceiling(text.len(), cap);
            assert(fs[i as int] == families@[i as int]@);
            lemma_exposition_step(fs, i as int);
            assert(text + piece@ =~= old(writer).buffered() + exposition(fs.take(i + 1)));
            assert(writer.buffered().len() == text.len() - k * cap);
            assert forall|j: int| 0 <= j < fs.take(i + 1).len() implies (#[trigger] family_text(
                fs.take(i + 1)[j],
            )) is Some by {
                if j < i {
                    assert(fs.take(i as int)[j] == fs.take(i + 1)[j]);
                }
            }
        }
        if piece.len() > writer.headroom() {
            proof {
                lemma_too_large_owed_here(*old(writer), fs, i as int);
            }
            return Err(StreamError::TooLarge(i));
        }
        let ghost mid = *writer;
        match writer.write(piece.as_slice()) {
            Ok(_) => {},
            Err(_) => {
                proof {
                    lemma_chunks_resume(text, piece@, cap);
                    let held = text.skip((k * cap) as int) + piece@;
                    let k2 = full_chunks(held.len(), cap);
                    let sent = writer.delivered().len() - mid.delivered().len();
                    let whole = chunks_of(text + piece@, cap).take((k + k2) as int);
                    assert(chunks_of(held, cap).take(sent) =~= chunks_of(held, cap).take(
                        k2 as int,
                    ).take(sent));
                    assert(whole.take(k + sent) =~= chunks_of(text, cap).take(k as int)
                        + chunks_of(held, cap).take(k2 as int).take(sent));
                    assert(whole.take(k + sent) =~= chunks_of(text + piece@, cap).take(k + sent));
                    assert(delivered_run(*old(writer), fs, i + 1, k + sent)
                        =~= writer.delivered());
                    lemma_nothing_owed(*old(writer), fs, i + 1);
                }
                return Err(StreamError::BrokenPipe);
            },
        }
        proof {
            lemma_chunks_resume(text, piece@, cap);
            let held = text.skip((k * cap) as int) + piece@;
            let k2 = full_chunks(held.len(), cap);
            assert((k + k2) * cap == k * cap + k2 * cap) by (nonlinear_arith);
            assert(writer.delivered() =~= old(writer).delivered() + (chunks_of(text, cap).take(
                k as int,
            ) + chunks_of(held, cap).take(k2 as int)));
        }
        i = i + 1;
    }
    let ghost all = old(writer).buffered() + exposition(fs);
    let ghost k = full_chunks(all.len(), cap);
    proof {
        assert(fs.take(i as int) =~= fs);
        writer.lemma_well_formed();
        lemma_chunk_count_is_ceiling(all.len(), cap);
        if all.len() > 0 {
            lemma_chunks_complete(all, cap);
        } else {
            assert(chunks_of(all, cap) =~= Seq::<Seq<u8>>::empty());
        }
        lemma_nothing_owed(*old(writer), fs, fs.len() as int);
    }
    let ghost mid = *writer;
    match writer.flush() {
        Ok(_) => {
            proof {
                assert(writer.delivered() =~= old(writer).delivered() + chunks_of(all, cap));
                assert(all.len() == k * cap + mid.buffered().len());
                lemma_chunks_rejoin(all, cap);
                lemma_joined_concat(old(writer).delivered(), chunks_of(all, cap));
                assert(joined(writer.delivered()) =~= old(writer).stream() + exposition(fs));
            }
            Ok(())
        },
        Err(_) => {
            proof {
                assert(delivered_run(*old(writer), fs, fs.len() as int, k as int)
                    =~= writer.delivered());
            }
            Err(StreamError::BrokenPipe)
        },
    }
}

/// The blocking work of one metrics response: the families are encoded and
/// streamed, and the bytes delivered are counted. Where the body is cut short
/// the stream is aborted, so that the transport does not end it as if it were
/// whole.
///
/// This blocks the calling thread for as long as the reader takes, and
/// belongs on a blocking worker thread of a tokio runtime: on a thread that
/// is running a task it panics.
pub fn stream_metrics(families: &Vec<MetricFamily>, writer: &mut ChannelWriter) -> (r: Result<
    usize,
    StreamError,
>)
    requires
        old(writer).wf(),
        !old(writer).is_broken(),
    ensures
        final(writer).wf(),
        final(writer).capacity() == old(writer).capacity(),
        match r {
            Ok(bytes) => {
                let all = old(writer).buffered() + exposition(family_views(families@));
                &&& encodable(family_views(families@))
                &&& !final(writer).is_broken()
                &&& final(writer).delivered() == old(writer).delivered() + chunks_of(
                    all,
                    old(writer).capacity(),
                )
                &&& final(writer).buffered() == Seq::<u8>::empty()
                &&& bytes == old(writer).flushed() + all.len()
                &&& bytes == final(writer).flushed()
                &&& joined(final(writer).delivered()) == old(writer).stream() + exposition(
                    family_views(families@),
                )
                &&& final(writer).delivered().len() == old(writer).delivered().len()
                    + chunk_count(all.len(), old(writer).capacity())
            },
            Err(StreamError::Encode(i)) => {
                &&& i < families@.len()
                &&& family_text(family_views(families@)[i as int]) is None
                &&& encodable(family_views(families@).take(i as int))
                &&& final(writer).is_broken()
                &&& written_through(
                    *old(writer),
                    family_views(families@),
                    i as int,
                    *final(writer),
                )
            },
            Err(StreamError::TooLarge(i)) => {
                &&& i < families@.len()
                &&& encodable(family_views(families@).take(i + 1))
                &&& old(writer).flushed() + old(writer).buffered().len() + exposition(
                    family_views(families@).take(i + 1),
                ).len() > usize::MAX
                &&& final(writer).is_broken()
                &&& written_through(
                    *old(writer),
                    family_views(families@),
                    i as int,
                    *final(writer),
                )
            },
            Err(StreamError::BrokenPipe) => cut_short(
                *old(writer),
                family_views(families@),
                *final(writer),
            ),
        },
        encodable(family_views(families@)) && old(writer).buffered().len() + exposition(
            family_views(families@),
        ).len() == 0 ==> r is Ok,
        forall|i: int| #[trigger]
            owes_encode_error(*old(writer), family_views(families@), i) ==> r == Err::<
                usize,
                StreamError,
            >(StreamError::Encode(i as usize)),
        forall|i: int| #[trigger]
            owes_too_large(*old(writer), family_views(families@), i) ==> r == Err::<
                usize,
                StreamError,
            >(StreamError::TooLarge(i as usize)),
{
    match write_exposition(families, writer) {
        Ok(_) => Ok(writer.flushed_bytes()),
        Err(e) => {
            writer.abort();
            Err(e)
        },
    }
}

/// What to log once the blocking work has ended: the bytes and the time at
/// `Info` where the whole body went out, the reason at `Warn` where it did
/// not.
pub fn stream_report(outcome: Result<usize, StreamError>, elapsed_ms: u64) -> (report:
    StreamReport)
    ensures
        report.elapsed_ms == elapsed_ms,
        match outcome {
            Ok(bytes) => report.level == LogLevel::Info && report.bytes == Some(bytes)
                && report.failure.is_none(),
            Err(e) => report.level == LogLevel::Warn && report.bytes.is_none() && report.failure
                == Some(e),
        },
{
    match outcome {
        Ok(bytes) => StreamReport {
            level: LogLevel::Info,
            bytes: Some(bytes),
            failure: None,
            elapsed_ms,
        },
        Err(e) => StreamReport {
            level: LogLevel::Warn,
            bytes: None,
            failure: Some(e),
            elapsed_ms,
        },
    }
}

} // verus!
