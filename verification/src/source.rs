//! The byte-source side of the decoder: a capability that yields chunks
//! of bytes, and the buffered state that accumulates those chunks.

use vstd::prelude::*;

verus! {

/// One delivery from a chunk source, at the specification level: the
/// mathematical value of what `poll_next_chunk` hands back.
pub enum SourceEvent<E> {
    /// A chunk of bytes is ready.
    Ready(Seq<u8>),
    /// The source has no bytes yet; try again later.
    Pending,
    /// The source is exhausted. Permanent: observing it again is allowed
    /// and yields `End` again.
    End,
    /// Chunk acquisition failed.
    Failed(E),
}

/// One delivery from a chunk source: what `poll_next_chunk` returns.
pub enum SourcePoll<E> {
    /// A chunk of bytes is ready.
    Ready(Vec<u8>),
    /// The source has no bytes yet; try again later.
    Pending,
    /// The source is exhausted.
    End,
    /// Chunk acquisition failed.
    Failed(E),
}

/// The first event a source with the given remaining events will
/// deliver: an exhausted source delivers `End`, idempotently.
pub open spec fn head_event<E>(evs: Seq<SourceEvent<E>>) -> SourceEvent<E> {
    if evs.len() == 0 {
        SourceEvent::End
    } else {
        evs[0]
    }
}

/// What remains of a source's events after one delivery.
pub open spec fn tail_events<E>(evs: Seq<SourceEvent<E>>) -> Seq<SourceEvent<E>> {
    if evs.len() == 0 {
        evs
    } else {
        evs.skip(1)
    }
}

/// A capability that produces chunks of bytes on demand. Each
/// implementation abstracts to the sequence of events it has left to
/// deliver; polling delivers the head event and leaves the tail. A
/// source whose events have run out reports `End`, and keeps reporting
/// `End` however often it is polled again.
pub trait ChunkSource: Sized {
    /// The transport-level error this source can fail with.
    type Error;

    /// The events this source will deliver, in order. Once they are
    /// exhausted the source is at end-of-stream for good.
    spec fn events(&self) -> Seq<SourceEvent<Self::Error>>;

    /// Requests the next delivery from the source.
    fn poll_next_chunk(&mut self) -> (r: SourcePoll<Self::Error>)
        ensures
            final(self).events() == tail_events(old(self).events()),
            match head_event(old(self).events()) {
                SourceEvent::Ready(c) => r matches SourcePoll::Ready(v) && v@ == c,
                SourceEvent::Pending => r is Pending,
                SourceEvent::End => r is End,
                SourceEvent::Failed(e) => r matches SourcePoll::Failed(e2) && e2 == e,
            },
    ;
}

/// The outcome of one `pull_chunk` on a [`BytesStream`].
pub enum Pull<E> {
    /// The buffer grew, or the end-of-stream flag was set: a decode
    /// attempt is worthwhile.
    Progressed,
    /// The source needs more time; nothing changed.
    Suspend,
    /// The source failed; nothing changed but the source's own state.
    Failed(E),
}

/// An accumulating byte buffer over an exclusively owned chunk source,
/// together with the end-of-stream flag. Only `pull_chunk` mutates the
/// buffer and the flag; once `stream_done` is set it is never unset.
#[derive(Debug)]
pub struct BytesStream<S> {
    /// Bytes received but not yet consumed by a decoder.
    pub bytes: Vec<u8>,
    /// The owned source of chunks.
    pub source: S,
    /// Whether the source has signaled completion.
    pub stream_done: bool,
}

impl<S: ChunkSource> BytesStream<S> {
    /// Starts with an empty buffer over a fresh source.
    pub fn new(source: S) -> (r: Self)
        ensures
            r.bytes@ == Seq::<u8>::empty(),
            r.source == source,
            !r.stream_done,
    {
        BytesStream { bytes: Vec::new(), source, stream_done: false }
    }

    /// Requests the next chunk from the owned source.
    ///
    /// On a ready chunk, appends it to the buffer; on end-of-stream,
    /// sets `stream_done`; both report `Progressed`. On a pending
    /// source, reports `Suspend` with no state change. On a source
    /// failure, hands the error through unchanged, with the buffer and
    /// flag preserved for inspection.
    pub fn pull_chunk(&mut self) -> (r: Pull<S::Error>)
        requires
            !old(self).stream_done,
        ensures
            final(self).source.events() == tail_events(old(self).source.events()),
            match head_event(old(self).source.events()) {
                SourceEvent::Ready(c) => r is Progressed && !final(self).stream_done
                    && final(self).bytes@ == old(self).bytes@ + c,
                SourceEvent::Pending => r is Suspend && !final(self).stream_done
                    && final(self).bytes@ == old(self).bytes@,
                SourceEvent::End => r is Progressed && final(self).stream_done
                    && final(self).bytes@ == old(self).bytes@,
                SourceEvent::Failed(e) => r matches Pull::Failed(e2) && e2 == e
                    && !final(self).stream_done && final(self).bytes@ == old(self).bytes@,
            },
    {
        match self.source.poll_next_chunk() {
            SourcePoll::Ready(mut chunk) => {
                self.bytes.append(&mut chunk);
                Pull::Progressed
            },
            SourcePoll::Pending => Pull::Suspend,
            SourcePoll::End => {
                self.stream_done = true;
                Pull::Progressed
            },
            SourcePoll::Failed(e) => Pull::Failed(e),
        }
    }
}

} // verus!
