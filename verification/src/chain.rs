//! Chaining decode operations over one source: repeatedly extracting
//! frames until end-of-stream, and the statements that make the chain
//! trustworthy — every byte the source delivers ends up in exactly one
//! frame, in order, with suspensions observationally transparent.

use vstd::prelude::*;
use crate::codec::BytesStreamFuture;
use crate::codec::Decoder;
use crate::codec::DriveOut;
use crate::codec::MachineState;
use crate::codec::PollResult;
use crate::codec::drive;
use crate::line_codec::CodecError;
use crate::line_codec::LineDecoder;
use crate::line_codec::find_delim;
use crate::line_codec::lemma_find_delim;
use crate::source::BytesStream;
use crate::source::ChunkSource;
use crate::source::SourceEvent;

verus! {

/// The bytes a source actually contributes to decoding: the ready
/// chunks it delivers, in order, up to its first end-of-stream (events
/// scripted after an end are never observed by a decode operation).
pub open spec fn effective_bytes<E>(evs: Seq<SourceEvent<E>>) -> Seq<u8>
    decreases evs.len(),
{
    if evs.len() == 0 {
        Seq::empty()
    } else {
        match evs[0] {
            SourceEvent::Ready(c) => c + effective_bytes(evs.skip(1)),
            SourceEvent::Pending => effective_bytes(evs.skip(1)),
            SourceEvent::End => Seq::empty(),
            SourceEvent::Failed(e) => effective_bytes(evs.skip(1)),
        }
    }
}

/// Whether a source delivers no failure before its first end-of-stream.
pub open spec fn clean<E>(evs: Seq<SourceEvent<E>>) -> bool
    decreases evs.len(),
{
    if evs.len() == 0 {
        true
    } else {
        match evs[0] {
            SourceEvent::Failed(e) => false,
            SourceEvent::End => true,
            _ => clean(evs.skip(1)),
        }
    }
}

/// Whether the delimiter occurs nowhere in the sequence.
pub open spec fn delim_free(s: Seq<u8>, d: u8) -> bool {
    forall|j: int| 0 <= j < s.len() ==> s[j] != d
}

/// The byte stream that carries the given items, each terminated by the
/// delimiter.
pub open spec fn joined(items: Seq<Seq<u8>>, d: u8) -> Seq<u8>
    decreases items.len(),
{
    if items.len() == 0 {
        Seq::empty()
    } else {
        items[0] + seq![d] + joined(items.skip(1), d)
    }
}

/// The complete delimiter-terminated frames at the front of a byte
/// stream, in order.
pub open spec fn split_frames(s: Seq<u8>, d: u8) -> Seq<Seq<u8>>
    decreases s.len(),
    via split_frames_dec
{
    match find_delim(s, d) {
        Option::Some(i) => seq![s.take(i)] + split_frames(s.skip(i + 1), d),
        Option::None => Seq::empty(),
    }
}

#[via_fn]
proof fn split_frames_dec(s: Seq<u8>, d: u8) {
    lemma_find_delim(s, d);
}

/// The bytes left over after the complete frames of a byte stream: the
/// trailing run with no delimiter after it.
pub open spec fn trailing_rest(s: Seq<u8>, d: u8) -> Seq<u8>
    decreases s.len(),
    via trailing_rest_dec
{
    match find_delim(s, d) {
        Option::Some(i) => trailing_rest(s.skip(i + 1), d),
        Option::None => s,
    }
}

#[via_fn]
proof fn trailing_rest_dec(s: Seq<u8>, d: u8) {
    lemma_find_delim(s, d);
}

/// The undecoded bytes a machine state still holds: its buffer, and,
/// while the source has not ended, whatever the source will still
/// contribute.
pub open spec fn content(m: MachineState<LineDecoder, u64>) -> Seq<u8> {
    if m.done {
        m.buf
    } else {
        m.buf + effective_bytes(m.events)
    }
}

/// The undecoded bytes a buffered source state still holds.
pub open spec fn stream_content<S: ChunkSource>(bs: BytesStream<S>) -> Seq<u8> {
    if bs.stream_done {
        bs.bytes@
    } else {
        bs.bytes@ + effective_bytes(bs.source.events())
    }
}

/// The first delimiter of `x + [d] + y` with `x` delimiter-free stands
/// exactly at the end of `x`, so the frame split off there is `x` and
/// the leftover is `y`.
proof fn lemma_find_delim_concat(x: Seq<u8>, y: Seq<u8>, d: u8)
    requires
        delim_free(x, d),
    ensures
        find_delim(x + seq![d] + y, d) == Option::Some(x.len() as int),
        (x + seq![d] + y).take(x.len() as int) == x,
        (x + seq![d] + y).skip(x.len() + 1int) == y,
{
    let s = x + seq![d] + y;
    lemma_find_delim(s, d);
    assert(s[x.len() as int] == d);
    match find_delim(s, d) {
        Option::Some(i) => {
            if i < x.len() {
                assert(s[i] == x[i]);
            }
            assert(i == x.len());
        },
        Option::None => {
            assert(false);
        },
    }
    assert(s.take(x.len() as int) =~= x);
    assert(s.skip(x.len() + 1int) =~= y);
}

/// Splitting the stream that carries some delimiter-free items, followed
/// by a delimiter-free leftover, recovers exactly those items and that
/// leftover: no bytes are dropped, duplicated or reordered.
pub proof fn lemma_split_joined(items: Seq<Seq<u8>>, rest: Seq<u8>, d: u8)
    requires
        forall|k: int| 0 <= k < items.len() ==> delim_free(#[trigger] items[k], d),
        delim_free(rest, d),
    ensures
        split_frames(joined(items, d) + rest, d) == items,
        trailing_rest(joined(items, d) + rest, d) == rest,
    decreases items.len(),
{
    if items.len() == 0 {
        assert(joined(items, d) + rest =~= rest);
        lemma_find_delim(rest, d);
        match find_delim(rest, d) {
            Option::Some(i) => {
                assert(false);
            },
            Option::None => {
                assert(split_frames(rest, d) =~= items);
            },
        }
    } else {
        let tail = items.skip(1);
        let s = joined(items, d) + rest;
        assert(s =~= items[0] + seq![d] + (joined(tail, d) + rest));
        lemma_find_delim_concat(items[0], joined(tail, d) + rest, d);
        lemma_split_joined(tail, rest, d);
        assert(split_frames(s, d) =~= items);
    }
}

/// Appending one more item to a carried stream extends it by that item
/// and one delimiter.
pub proof fn lemma_joined_push(items: Seq<Seq<u8>>, x: Seq<u8>, d: u8)
    ensures
        joined(items.push(x), d) == joined(items, d) + x + seq![d],
    decreases items.len(),
{
    if items.len() == 0 {
        assert(items.push(x).skip(1) =~= items);
        assert(joined(items.push(x), d) =~= joined(items, d) + x + seq![d]);
    } else {
        assert(items.push(x).skip(1) =~= items.skip(1).push(x));
        lemma_joined_push(items.skip(1), x, d);
        assert(joined(items.push(x), d) =~= joined(items, d) + x + seq![d]);
    }
}

/// Suspension is observationally transparent: a pause inserted anywhere
/// into a source's deliveries changes neither the bytes the source
/// contributes nor whether it is failure-free — and the contracts of
/// [`next_frame`] and [`decode_all`] pin their items and errors down by
/// the events only through those two functions, so a run that suspends
/// and resumes returns exactly what a run that never suspends returns.
pub proof fn lemma_pending_transparent<E>(evs: Seq<SourceEvent<E>>, i: int)
    requires
        0 <= i <= evs.len(),
    ensures
        effective_bytes(evs.insert(i, SourceEvent::<E>::Pending)) == effective_bytes(evs),
        clean(evs.insert(i, SourceEvent::<E>::Pending)) == clean(evs),
    decreases evs.len(),
{
    let evs2 = evs.insert(i, SourceEvent::<E>::Pending);
    if i == 0 {
        assert(evs2.skip(1) =~= evs);
    } else {
        assert(evs2[0] == evs[0]);
        assert(evs2.skip(1) =~= evs.skip(1).insert(i - 1, SourceEvent::<E>::Pending));
        lemma_pending_transparent(evs.skip(1), i - 1);
    }
}

/// What one activation of a decode operation over the line decoder does
/// to the undecoded bytes, for a source with no failure in reach:
/// suspending preserves them exactly; an item takes exactly one
/// delimiter-terminated frame off their front; completion with no item
/// happens exactly when none are left; and the one possible failure is a
/// truncation, reported — not swallowed — when the stream ends in a
/// non-empty run with no final delimiter, left in the buffer unchanged.
pub proof fn lemma_drive_line(m: MachineState<LineDecoder, u64>)
    requires
        !m.done ==> clean(m.events),
        !m.readable ==> !m.done,
    ensures
        match drive(m).0 {
            DriveOut::NotReady(m2) => {
                &&& m2.events.len() < m.events.len()
                &&& clean(m2.events)
                &&& m2.dec == m.dec
                &&& !m2.readable
                &&& !m2.done
                &&& content(m2) == content(m)
            },
            DriveOut::Done(opt, m2) => match opt {
                Option::Some(iv) => {
                    &&& delim_free(iv, m.dec.delim)
                    &&& content(m) == iv + seq![m.dec.delim] + content(m2)
                    &&& (!m2.done ==> clean(m2.events))
                    &&& m2.dec == m.dec
                },
                Option::None => {
                    &&& content(m) == Seq::<u8>::empty()
                    &&& m2.done
                },
            },
            DriveOut::Failed(e, m2) => {
                &&& e == CodecError::Truncated
                &&& m2.done
                &&& m2.buf == content(m)
                &&& delim_free(content(m), m.dec.delim)
                &&& content(m).len() > 0
            },
        },
    decreases m.events.len(), (if m.readable { 1int } else { 0int }),
{
    let d = m.dec.delim;
    if m.readable {
        lemma_find_delim(m.buf, d);
        if m.done {
            match find_delim(m.buf, d) {
                Option::Some(i) => {
                    assert(m.buf =~= m.buf.take(i) + seq![d] + m.buf.skip(i + 1));
                },
                Option::None => {},
            }
        } else {
            match find_delim(m.buf, d) {
                Option::Some(i) => {
                    assert(m.buf =~= m.buf.take(i) + seq![d] + m.buf.skip(i + 1));
                    assert(content(m) =~= m.buf.take(i) + seq![d] + (m.buf.skip(i + 1)
                        + effective_bytes(m.events)));
                },
                Option::None => {
                    let step = m.dec.decode_spec(m.buf);
                    let m2 = MachineState { dec: step.0, buf: step.1, readable: false, ..m };
                    lemma_drive_line(m2);
                },
            }
        }
    } else {
        match crate::source::head_event(m.events) {
            SourceEvent::Ready(c) => {
                let m2 = MachineState {
                    buf: m.buf + c,
                    events: crate::source::tail_events(m.events),
                    readable: true,
                    ..m
                };
                assert(content(m2) =~= content(m));
                lemma_drive_line(m2);
            },
            SourceEvent::Pending => {},
            SourceEvent::End => {
                assert(content(m) =~= m.buf);
                lemma_find_delim(m.buf, d);
                match find_delim(m.buf, d) {
                    Option::Some(i) => {
                        assert(m.buf =~= m.buf.take(i) + seq![d] + m.buf.skip(i + 1));
                    },
                    Option::None => {},
                }
            },
            SourceEvent::Failed(e) => {
                assert(false);
            },
        }
    }
}

/// Runs one decode operation over the line decoder to completion,
/// polling through every suspension until the source either delivers
/// enough bytes or ends. Exactly one delimiter-terminated frame comes
/// off the front of the undecoded bytes; no item is returned exactly
/// when none are left; and a stream that ends in a non-empty run with no
/// final delimiter is reported as a truncation, with the leftover bytes
/// preserved in the returned state for inspection.
#[verifier::loop_isolation(false)]
pub fn next_frame<S: ChunkSource<Error = u64>>(bs: BytesStream<S>, delim: u8) -> (r: Result<
    (Option<Vec<u8>>, BytesStream<S>),
    (CodecError, BytesStream<S>),
>)
    requires
        !bs.stream_done ==> clean(bs.source.events()),
    ensures
        match r {
            Result::Ok((item, bs2)) => match item {
                Option::Some(v) => delim_free(v@, delim)
                    && stream_content(bs) == v@ + seq![delim] + stream_content(bs2)
                    && (!bs2.stream_done ==> clean(bs2.source.events())),
                Option::None => stream_content(bs) == Seq::<u8>::empty() && bs2.stream_done,
            },
            Result::Err((e, bs2)) => e == CodecError::Truncated
                && bs2.stream_done
                && bs2.bytes@ == stream_content(bs)
                && delim_free(stream_content(bs), delim)
                && stream_content(bs).len() > 0,
        },
{
    let ghost c0 = stream_content(bs);
    let mut fut = BytesStreamFuture::new(bs, LineDecoder { delim });
    loop
        invariant
            !fut.completed(),
            fut.machine().dec == (LineDecoder { delim }),
            !fut.machine().done ==> clean(fut.machine().events),
            !fut.machine().readable ==> !fut.machine().done,
            content(fut.machine()) == c0,
        decreases fut.machine().events.len(),
    {
        proof {
            lemma_drive_line(fut.machine());
        }
        match fut.poll() {
            PollResult::NotReady => {},
            PollResult::Done(item, bs2) => {
                return Result::Ok((item, bs2));
            },
            PollResult::Failed(e, bs2) => {
                return Result::Err((e, bs2));
            },
        }
    }
}

/// Decodes every frame a source will deliver, chaining one operation
/// after another until end-of-stream: the only supported way to obtain a
/// sequence of items. For a source with no failure in reach, the chain
/// succeeds exactly when the bytes it delivers are a whole number of
/// delimiter-terminated frames, and then returns exactly those frames,
/// in order — no bytes dropped, none duplicated; otherwise it reports
/// the trailing run as a truncation.
#[verifier::loop_isolation(false)]
pub fn decode_all<S: ChunkSource<Error = u64>>(source: S, delim: u8) -> (r: Result<
    Vec<Vec<u8>>,
    CodecError,
>)
    requires
        clean(source.events()),
    ensures
        match r {
            Result::Ok(items) => trailing_rest(effective_bytes(source.events()), delim).len() == 0
                && items.deep_view() == split_frames(effective_bytes(source.events()), delim),
            Result::Err(e) => e == CodecError::Truncated
                && trailing_rest(effective_bytes(source.events()), delim).len() > 0,
        },
{
    let ghost total = effective_bytes(source.events());
    let mut bs = BytesStream::new(source);
    let mut items: Vec<Vec<u8>> = Vec::new();
    proof {
        assert(stream_content(bs) =~= total);
        assert(joined(items.deep_view(), delim) + stream_content(bs) =~= total);
    }
    loop
        invariant
            !bs.stream_done ==> clean(bs.source.events()),
            joined(items.deep_view(), delim) + stream_content(bs) == total,
            forall|k: int|
                0 <= k < items.deep_view().len() ==> delim_free(
                    #[trigger] items.deep_view()[k],
                    delim,
                ),
        decreases stream_content(bs).len(),
    {
        let ghost c_pre = stream_content(bs);
        let ghost items_pre = items.deep_view();
        match next_frame(bs, delim) {
            Result::Ok((item_opt, bs2)) => {
                match item_opt {
                    Option::Some(item) => {
                        proof {
                            lemma_joined_push(items_pre, item@, delim);
                        }
                        items.push(item);
                        bs = bs2;
                        proof {
                            assert(items.deep_view() =~~= items_pre.push(item@));
                            assert(joined(items.deep_view(), delim) + stream_content(bs)
                                =~= joined(items_pre, delim) + c_pre);
                        }
                    },
                    Option::None => {
                        proof {
                            assert(joined(items_pre, delim) =~= total);
                            lemma_split_joined(items_pre, Seq::empty(), delim);
                            assert(joined(items_pre, delim) + Seq::<u8>::empty() =~= joined(
                                items_pre,
                                delim,
                            ));
                        }
                        return Result::Ok(items);
                    },
                }
            },
            Result::Err((e, bs2)) => {
                proof {
                    lemma_split_joined(items_pre, c_pre, delim);
                }
                return Result::Err(e);
            },
        }
    }
}

} // verus!
