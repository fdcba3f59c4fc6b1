//! The decode operation: a single-shot, resumable computation that
//! repeatedly consults a buffered source and an injected decoder to
//! produce at most one decoded item, suspending when more bytes are
//! needed and resuming without losing progress.

use vstd::prelude::*;
use crate::source::BytesStream;
use crate::source::ChunkSource;
use crate::source::Pull;
use crate::source::SourceEvent;
use crate::source::head_event;
use crate::source::tail_events;

verus! {

/// Conversion of a source's transport error into a decoder's error
/// type, so that a single error channel carries both chunk-acquisition
/// failures and parse failures to the caller.
pub trait FromSourceError<E>: Sized {
    /// The error value the conversion yields.
    spec fn from_source_spec(e: E) -> Self;

    /// Converts a source error into this error type.
    fn from_source_error(e: E) -> (r: Self)
        ensures
            r == Self::from_source_spec(e),
    ;
}

/// A stateful decoder of byte buffers into items. The decoder is
/// caller-supplied and opaque to the operation that drives it; each
/// implementation abstracts its two steps to mathematical functions of
/// the decoder's state and the buffer contents, so that what an
/// operation returns can be pinned down exactly.
pub trait Decoder: Sized {
    /// A complete decoded item.
    type Item: View;

    /// The decoder's error type.
    type Error;

    /// The mathematical value of one `decode` step on the given buffer
    /// contents: the decoder's next state, the buffer it leaves behind,
    /// and the result (an item, a request for more bytes, or an error).
    spec fn decode_spec(&self, buf: Seq<u8>) -> (
        Self,
        Seq<u8>,
        Result<Option<<Self::Item as View>::V>, Self::Error>,
    );

    /// The mathematical value of the one-time end-of-stream step on the
    /// given buffer contents: whether the leftover bytes form a final
    /// valid item, no item, or a truncation error.
    spec fn decode_eof_spec(&self, buf: Seq<u8>) -> (
        Self,
        Seq<u8>,
        Result<Option<<Self::Item as View>::V>, Self::Error>,
    );

    /// Attempts to decode one item from the front of `buf`, consuming
    /// only the bytes belonging to a completed item and leaving the
    /// remainder untouched for the next call.
    fn decode(&mut self, buf: &mut Vec<u8>) -> (r: Result<Option<Self::Item>, Self::Error>)
        ensures
            ({
                let step = old(self).decode_spec(old(buf)@);
                &&& *final(self) == step.0
                &&& final(buf)@ == step.1
                &&& result_view_matches(r, step.2)
            }),
    ;

    /// Decides, once the source has ended, whether the leftover bytes
    /// form a final valid item or a truncation error.
    fn decode_eof(&mut self, buf: &mut Vec<u8>) -> (r: Result<Option<Self::Item>, Self::Error>)
        ensures
            ({
                let step = old(self).decode_eof_spec(old(buf)@);
                &&& *final(self) == step.0
                &&& final(buf)@ == step.1
                &&& result_view_matches(r, step.2)
            }),
    ;
}

/// Whether a decode step's executable result carries the same value as
/// its specification-level counterpart, items compared by view.
pub open spec fn result_view_matches<I: View, E>(
    r: Result<Option<I>, E>,
    spec_r: Result<Option<I::V>, E>,
) -> bool {
    match r {
        Result::Ok(opt) => spec_r matches Result::Ok(spec_opt) && option_view_matches(opt, spec_opt),
        Result::Err(e) => spec_r matches Result::Err(spec_e) && e == spec_e,
    }
}

/// Whether an optional item carries the same value as its
/// specification-level counterpart, compared by view.
pub open spec fn option_view_matches<I: View>(opt: Option<I>, spec_opt: Option<I::V>) -> bool {
    match opt {
        Option::Some(item) => spec_opt matches Option::Some(v) && item@ == v,
        Option::None => spec_opt is None,
    }
}

/// Everything a decode operation owns, as mathematical values: the
/// decoder's state, the buffered bytes, the source's remaining events,
/// the end-of-stream flag and the readable flag.
#[verifier::ext_equal]
pub struct MachineState<Dec, E> {
    /// The decoder's state.
    pub dec: Dec,
    /// The buffered, not yet consumed bytes.
    pub buf: Seq<u8>,
    /// The events the source has left to deliver.
    pub events: Seq<SourceEvent<E>>,
    /// Whether the source has signaled completion.
    pub done: bool,
    /// Whether a decode should be attempted before pulling more bytes.
    pub readable: bool,
}

/// How one activation of a decode operation ends: a genuine suspend
/// point, a completed item (or none, at end-of-stream), or a failure.
/// Each variant carries the machine state left behind.
pub enum DriveOut<Dec, E, IV, DE> {
    /// The source had no bytes yet: the operation yields, keeping all
    /// its state for a later resume.
    NotReady(MachineState<Dec, E>),
    /// The operation completed with an item, or with none at genuine
    /// end-of-stream.
    Done(Option<IV>, MachineState<Dec, E>),
    /// The operation failed: a source error (converted) or a decode
    /// error.
    Failed(DE, MachineState<Dec, E>),
}

/// One thing an activation did, recorded in order: pulled an event from
/// the source, attempted a decode on the given buffer contents, or ran
/// the one-time end-of-stream finalization on the given buffer
/// contents.
pub enum Step<E> {
    /// The source was polled and delivered this event.
    Pulled(SourceEvent<E>),
    /// The decoder's normal step ran against these buffer contents.
    Decoded(Seq<u8>),
    /// The decoder's end-of-stream step ran against these buffer
    /// contents.
    Finalized(Seq<u8>),
}

/// The one-time end-of-stream finalization: what the operation returns
/// once the source has ended, together with the step it took.
pub open spec fn finalize<Dec: Decoder, E>(m: MachineState<Dec, E>) -> (
    DriveOut<Dec, E, <Dec::Item as View>::V, Dec::Error>,
    Seq<Step<E>>,
) {
    let step = m.dec.decode_eof_spec(m.buf);
    let m2 = MachineState { dec: step.0, buf: step.1, ..m };
    match step.2 {
        Result::Ok(opt) => (DriveOut::Done(opt, m2), seq![Step::Finalized(m.buf)]),
        Result::Err(e) => (DriveOut::Failed(e, m2), seq![Step::Finalized(m.buf)]),
    }
}

/// What one activation of the decode operation returns and does, as a
/// function of the state it starts from: the driving loop of the
/// operation, written as mathematics. If readable, the operation
/// finalizes (when the source has ended) or attempts a decode,
/// pulling more bytes only after a decode produced no item; if not
/// readable, it pulls, suspending exactly when the source is pending.
pub open spec fn drive<Dec: Decoder, E>(m: MachineState<Dec, E>) -> (
    DriveOut<Dec, E, <Dec::Item as View>::V, Dec::Error>,
    Seq<Step<E>>,
)
    where Dec::Error: FromSourceError<E>
    decreases m.events.len(), (if m.readable { 1int } else { 0int }),
{
    if m.readable {
        if m.done {
            finalize(m)
        } else {
            let step = m.dec.decode_spec(m.buf);
            let m2 = MachineState { dec: step.0, buf: step.1, ..m };
            match step.2 {
                Result::Ok(opt) => match opt {
                    Option::Some(iv) => (
                        DriveOut::Done(Option::Some(iv), m2),
                        seq![Step::Decoded(m.buf)],
                    ),
                    Option::None => {
                        let rest = drive(MachineState { readable: false, ..m2 });
                        (rest.0, seq![Step::Decoded(m.buf)] + rest.1)
                    },
                },
                Result::Err(e) => (DriveOut::Failed(e, m2), seq![Step::Decoded(m.buf)]),
            }
        }
    } else {
        match head_event(m.events) {
            SourceEvent::Ready(c) => {
                let rest = drive(MachineState {
                    buf: m.buf + c,
                    events: tail_events(m.events),
                    readable: true,
                    ..m
                });
                (rest.0, seq![Step::Pulled(SourceEvent::Ready(c))] + rest.1)
            },
            SourceEvent::Pending => (
                DriveOut::NotReady(MachineState { events: tail_events(m.events), ..m }),
                seq![Step::Pulled(SourceEvent::<E>::Pending)],
            ),
            SourceEvent::End => {
                let rest = finalize(MachineState {
                    events: tail_events(m.events),
                    done: true,
                    readable: true,
                    ..m
                });
                (rest.0, seq![Step::Pulled(SourceEvent::<E>::End)] + rest.1)
            },
            SourceEvent::Failed(e) => (
                DriveOut::Failed(
                    <Dec::Error as FromSourceError<E>>::from_source_spec(e),
                    MachineState { events: tail_events(m.events), ..m },
                ),
                seq![Step::Pulled(SourceEvent::Failed(e))],
            ),
        }
    }
}

/// Whether a step pulled a ready chunk from the source.
pub open spec fn is_ready_pull<E>(st: Step<E>) -> bool {
    st matches Step::Pulled(SourceEvent::Ready(c))
}

/// End-of-stream finalization runs at most once per operation, and only
/// after the source's end has been observed: in the steps of any
/// activation, a finalization is the very last step, it never occurs in
/// an activation that suspends, and where the operation did not already
/// start with the end-of-stream flag set (as a fresh operation over an
/// already-ended stream does), an observation of `End` precedes it.
pub proof fn lemma_finalize_once<Dec: Decoder, E>(m: MachineState<Dec, E>)
    where Dec::Error: FromSourceError<E>
    ensures
        ({
            let tr = drive(m).1;
            &&& forall|i: int|
                0 <= i < tr.len() && (#[trigger] tr[i]) is Finalized ==> i == tr.len() - 1
            &&& forall|i: int|
                0 <= i < tr.len() && (#[trigger] tr[i]) is Finalized ==> m.done || (exists|j: int|
                    0 <= j < i && tr[j] == Step::Pulled(SourceEvent::<E>::End))
            &&& drive(m).0 is NotReady ==> forall|i: int|
                0 <= i < tr.len() ==> !((#[trigger] tr[i]) is Finalized)
        }),
    decreases m.events.len(), (if m.readable { 1int } else { 0int }),
{
    let tr = drive(m).1;
    if m.readable {
        if m.done {
        } else {
            let step = m.dec.decode_spec(m.buf);
            match step.2 {
                Result::Ok(opt) => match opt {
                    Option::Some(iv) => {},
                    Option::None => {
                        let m2 = MachineState {
                            dec: step.0,
                            buf: step.1,
                            readable: false,
                            ..m
                        };
                        lemma_finalize_once(m2);
                        let tr2 = drive(m2).1;
                        assert forall|i: int|
                            0 <= i < tr.len() && (#[trigger] tr[i]) is Finalized implies m.done
                            || (exists|j: int|
                            0 <= j < i && tr[j] == Step::Pulled(SourceEvent::<E>::End)) by {
                            assert(tr2[i - 1] is Finalized);
                            let j2 = choose|j2: int|
                                0 <= j2 < i - 1 && tr2[j2] == Step::Pulled(
                                    SourceEvent::<E>::End,
                                );
                            assert(tr[j2 + 1] == Step::Pulled(SourceEvent::<E>::End));
                        }
                    },
                },
                Result::Err(e) => {},
            }
        }
    } else {
        match crate::source::head_event(m.events) {
            SourceEvent::Ready(c) => {
                let m2 = MachineState {
                    buf: m.buf + c,
                    events: crate::source::tail_events(m.events),
                    readable: true,
                    ..m
                };
                lemma_finalize_once(m2);
                let tr2 = drive(m2).1;
                assert forall|i: int|
                    0 <= i < tr.len() && (#[trigger] tr[i]) is Finalized implies m.done || (
                exists|j: int|
                    0 <= j < i && tr[j] == Step::Pulled(SourceEvent::<E>::End)) by {
                    assert(tr2[i - 1] is Finalized);
                    if !m.done {
                        let j2 = choose|j2: int|
                            0 <= j2 < i - 1 && tr2[j2] == Step::Pulled(SourceEvent::<E>::End);
                        assert(tr[j2 + 1] == Step::Pulled(SourceEvent::<E>::End));
                    }
                }
            },
            SourceEvent::Pending => {},
            SourceEvent::End => {
                assert(tr[0] == Step::Pulled(SourceEvent::<E>::End));
            },
            SourceEvent::Failed(e) => {},
        }
    }
}

/// No busy loop: the operation never attempts two decodes without the
/// source actually delivering a chunk in between — after a decode that
/// produced no item, the next decode comes only once a pull has
/// progressed with new bytes (or the end of the stream ended the
/// operation through finalization instead).
pub proof fn lemma_no_busy_loop<Dec: Decoder, E>(m: MachineState<Dec, E>)
    where Dec::Error: FromSourceError<E>
    ensures
        ({
            let tr = drive(m).1;
            &&& forall|i: int, j: int|
                0 <= i < j < tr.len() && (#[trigger] tr[i]) is Decoded && (#[trigger] tr[j])
                    is Decoded ==> exists|k: int| i < k < j && is_ready_pull(tr[k])
            &&& !m.readable ==> forall|l: int|
                0 <= l < tr.len() && (#[trigger] tr[l]) is Decoded ==> exists|k: int|
                    0 <= k < l && is_ready_pull(tr[k])
        }),
    decreases m.events.len(), (if m.readable { 1int } else { 0int }),
{
    let tr = drive(m).1;
    if m.readable {
        if m.done {
        } else {
            let step = m.dec.decode_spec(m.buf);
            match step.2 {
                Result::Ok(opt) => match opt {
                    Option::Some(iv) => {},
                    Option::None => {
                        let m2 = MachineState {
                            dec: step.0,
                            buf: step.1,
                            readable: false,
                            ..m
                        };
                        lemma_no_busy_loop(m2);
                        let tr2 = drive(m2).1;
                        assert forall|i: int, j: int|
                            0 <= i < j < tr.len() && (#[trigger] tr[i]) is Decoded && (
                        #[trigger] tr[j]) is Decoded implies exists|k: int|
                            i < k < j && is_ready_pull(tr[k]) by {
                            assert(tr2[j - 1] is Decoded);
                            if i == 0 {
                                let k2 = choose|k2: int|
                                    0 <= k2 < j - 1 && is_ready_pull(tr2[k2]);
                                assert(is_ready_pull(tr[k2 + 1]));
                            } else {
                                assert(tr2[i - 1] is Decoded);
                                let k2 = choose|k2: int|
                                    i - 1 < k2 < j - 1 && is_ready_pull(tr2[k2]);
                                assert(is_ready_pull(tr[k2 + 1]));
                            }
                        }
                    },
                },
                Result::Err(e) => {},
            }
        }
    } else {
        match crate::source::head_event(m.events) {
            SourceEvent::Ready(c) => {
                let m2 = MachineState {
                    buf: m.buf + c,
                    events: crate::source::tail_events(m.events),
                    readable: true,
                    ..m
                };
                lemma_no_busy_loop(m2);
                let tr2 = drive(m2).1;
                assert(is_ready_pull(tr[0]));
                assert forall|i: int, j: int|
                    0 <= i < j < tr.len() && (#[trigger] tr[i]) is Decoded && (#[trigger] tr[j])
                        is Decoded implies exists|k: int| i < k < j && is_ready_pull(tr[k]) by {
                    assert(tr2[i - 1] is Decoded);
                    assert(tr2[j - 1] is Decoded);
                    let k2 = choose|k2: int| i - 1 < k2 < j - 1 && is_ready_pull(tr2[k2]);
                    assert(is_ready_pull(tr[k2 + 1]));
                }
            },
            SourceEvent::Pending => {},
            SourceEvent::End => {},
            SourceEvent::Failed(e) => {},
        }
    }
}

/// How one `poll` of a [`BytesStreamFuture`] ends. Every terminal
/// variant hands the buffered source state back by value, so the caller
/// can inspect remaining bytes, chain the next operation, or abandon the
/// source.
pub enum PollResult<I, DE, S> {
    /// The source had no bytes yet; poll again later. The operation
    /// keeps all its state for the resume.
    NotReady,
    /// One decoded item, or none at genuine end-of-stream, together
    /// with the buffered source state for the next operation.
    Done(Option<I>, BytesStream<S>),
    /// A source or decode failure, together with the buffered source
    /// state for inspection.
    Failed(DE, BytesStream<S>),
}

struct BytesStreamFutureInner<S, Dec> {
    bs: BytesStream<S>,
    decoder: Dec,
    is_readable: bool,
}

impl<S, Dec> BytesStreamFutureInner<S, Dec> where
    S: ChunkSource,
    Dec: Decoder,
    Dec::Error: FromSourceError<S::Error>,
 {
    spec fn machine(&self) -> MachineState<Dec, S::Error> {
        MachineState {
            dec: self.decoder,
            buf: self.bs.bytes@,
            events: self.bs.source.events(),
            done: self.bs.stream_done,
            readable: self.is_readable,
        }
    }

    fn poll(&mut self) -> (r: PollStep<Dec::Item, Dec::Error>)
        requires
            !old(self).is_readable ==> !old(self).bs.stream_done,
        ensures
            match drive(old(self).machine()).0 {
                DriveOut::NotReady(m2) => r is NotReady && final(self).machine() == m2
                    && (!final(self).is_readable ==> !final(self).bs.stream_done),
                DriveOut::Done(iv, m2) => (r matches PollStep::Done(item)
                    && option_view_matches(item, iv)) && final(self).machine() == m2,
                DriveOut::Failed(e, m2) => (r matches PollStep::Failed(e2) && e2 == e)
                    && final(self).machine() == m2,
            },
    {
        let ghost m0 = self.machine();
        loop
            invariant
                m0 == old(self).machine(),
                !self.is_readable ==> !self.bs.stream_done,
                drive(m0).0 == drive(self.machine()).0,
            decreases
                self.bs.source.events().len(),
                (if self.bs.stream_done { 0int } else { 1int }),
                (if self.is_readable { 1int } else { 0int }),
        {
            let ghost m_entry = self.machine();
            if self.is_readable {
                if self.bs.stream_done {
                    let res = self.decoder.decode_eof(&mut self.bs.bytes);
                    proof {
                        let m2 = finalize(m_entry).0;
                        assert(self.machine() =~= match m2 {
                            DriveOut::Done(_, m) => m,
                            DriveOut::Failed(_, m) => m,
                            DriveOut::NotReady(m) => m,
                        });
                    }
                    match res {
                        Result::Ok(item) => {
                            return PollStep::Done(item);
                        },
                        Result::Err(e) => {
                            return PollStep::Failed(e);
                        },
                    }
                }
                match self.decoder.decode(&mut self.bs.bytes) {
                    Result::Ok(Option::Some(frame)) => {
                        proof {
                            let step = m_entry.dec.decode_spec(m_entry.buf);
                            assert(self.machine() =~= (MachineState {
                                dec: step.0,
                                buf: step.1,
                                ..m_entry
                            }));
                        }
                        return PollStep::Done(Option::Some(frame));
                    },
                    Result::Ok(Option::None) => {
                        self.is_readable = false;
                        proof {
                            let step = m_entry.dec.decode_spec(m_entry.buf);
                            assert(self.machine() =~= (MachineState {
                                dec: step.0,
                                buf: step.1,
                                readable: false,
                                ..m_entry
                            }));
                        }
                    },
                    Result::Err(e) => {
                        proof {
                            let step = m_entry.dec.decode_spec(m_entry.buf);
                            assert(self.machine() =~= (MachineState {
                                dec: step.0,
                                buf: step.1,
                                ..m_entry
                            }));
                        }
                        return PollStep::Failed(e);
                    },
                }
            } else {
                match self.bs.pull_chunk() {
                    Pull::Progressed => {
                        self.is_readable = true;
                        proof {
                            match head_event(m_entry.events) {
                                SourceEvent::Ready(c) => {
                                    assert(self.machine() =~= (MachineState {
                                        buf: m_entry.buf + c,
                                        events: tail_events(m_entry.events),
                                        readable: true,
                                        ..m_entry
                                    }));
                                },
                                SourceEvent::End => {
                                    assert(self.machine() =~= (MachineState {
                                        events: tail_events(m_entry.events),
                                        done: true,
                                        readable: true,
                                        ..m_entry
                                    }));
                                },
                                _ => {
                                    assert(false);
                                },
                            }
                        }
                    },
                    Pull::Suspend => {
                        proof {
                            assert(self.machine() =~= (MachineState {
                                events: tail_events(m_entry.events),
                                ..m_entry
                            }));
                        }
                        return PollStep::NotReady;
                    },
                    Pull::Failed(e) => {
                        proof {
                            assert(self.machine() =~= (MachineState {
                                events: tail_events(m_entry.events),
                                ..m_entry
                            }));
                        }
                        return PollStep::Failed(
                            <Dec::Error as FromSourceError<S::Error>>::from_source_error(e),
                        );
                    },
                }
            }
        }
    }
}

/// What one activation reports before the surrounding operation attaches
/// the buffered source state: not ready, done, or failed.
enum PollStep<I, DE> {
    NotReady,
    Done(Option<I>),
    Failed(DE),
}

/// A decode operation: yields a single decoded item from the bytes of
/// the provided [`BytesStream`] (if any) and hands the stream back on
/// every terminal exit. Created fresh for each frame extraction request;
/// driven by repeated `poll` calls; once completed it must not be polled
/// again.
#[must_use]
pub struct BytesStreamFuture<S, Dec> {
    inner: Option<BytesStreamFutureInner<S, Dec>>,
}

impl<S, Dec> BytesStreamFuture<S, Dec> where
    S: ChunkSource,
    Dec: Decoder,
    Dec::Error: FromSourceError<S::Error>,
 {
    /// Whether the operation has reached a terminal exit. Polling a
    /// completed operation is a programmer error, rejected up front.
    pub closed spec fn completed(&self) -> bool {
        self.inner is None
    }

    /// The machine state the operation currently owns: the decoder, the
    /// buffered bytes, the source's remaining events and the two flags.
    pub closed spec fn machine(&self) -> MachineState<Dec, S::Error> {
        match self.inner {
            Option::Some(i) => i.machine(),
            Option::None => arbitrary(),
        }
    }

    /// Builds an operation over an existing buffered source state and a
    /// decoder instance. Readability starts as "buffer non-empty or
    /// source already ended", which avoids one wasted pull when leftover
    /// bytes or a known end are already at hand.
    pub fn new(bs: BytesStream<S>, decoder: Dec) -> (r: Self)
        ensures
            !r.completed(),
            r.machine() == (MachineState {
                dec: decoder,
                buf: bs.bytes@,
                events: bs.source.events(),
                done: bs.stream_done,
                readable: bs.bytes@.len() > 0 || bs.stream_done,
            }),
    {
        let is_readable = !bs.bytes.is_empty() || bs.stream_done;
        BytesStreamFuture {
            inner: Some(BytesStreamFutureInner { bs, decoder, is_readable }),
        }
    }

    /// Advances the operation by a bounded amount of work: at most one
    /// pull attempt and at most one decode or finalize attempt per loop
    /// iteration, until a result is ready or the source suspends. What
    /// it returns, and the state it leaves, are exactly what [`drive`]
    /// says of the state it started from.
    ///
    /// Polling an operation that already completed is a fatal usage
    /// error, excluded by the precondition.
    pub fn poll(&mut self) -> (r: PollResult<Dec::Item, Dec::Error, S>)
        requires
            !old(self).completed(),
            !old(self).machine().readable ==> !old(self).machine().done,
        ensures
            match drive(old(self).machine()).0 {
                DriveOut::NotReady(m2) => r is NotReady && !final(self).completed()
                    && final(self).machine() == m2
                    && (!final(self).machine().readable ==> !final(self).machine().done),
                DriveOut::Done(iv, m2) => final(self).completed()
                    && (r matches PollResult::Done(item, bs)
                        && option_view_matches(item, iv)
                        && bs.bytes@ == m2.buf
                        && bs.source.events() == m2.events
                        && bs.stream_done == m2.done),
                DriveOut::Failed(e, m2) => final(self).completed()
                    && (r matches PollResult::Failed(e2, bs)
                        && e2 == e
                        && bs.bytes@ == m2.buf
                        && bs.source.events() == m2.events
                        && bs.stream_done == m2.done),
            },
    {
        let mut inner = match self.inner.take() {
            Option::Some(i) => i,
            Option::None => unreached(),
        };
        match inner.poll() {
            PollStep::NotReady => {
                self.inner = Some(inner);
                PollResult::NotReady
            },
            PollStep::Done(frame) => PollResult::Done(frame, inner.bs),
            PollStep::Failed(e) => PollResult::Failed(e, inner.bs),
        }
    }
}

} // verus!
