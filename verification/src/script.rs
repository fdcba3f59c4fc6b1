//! A chunk source driven by a fixed script of deliveries, the plain
//! value form of "what the transport will do": ready chunks, pauses,
//! an end, or a failure. It is the way tests and callers without a live
//! transport feed bytes through the decoder.

use vstd::prelude::*;
use crate::source::ChunkSource;
use crate::source::SourceEvent;
use crate::source::SourcePoll;

verus! {

/// One scripted delivery.
#[derive(Debug)]
pub enum ScriptEvent {
    /// Deliver this chunk of bytes.
    Chunk(Vec<u8>),
    /// Report that no bytes are ready yet.
    Wait,
    /// Report end-of-stream.
    Stop,
    /// Fail with this transport error code.
    Fault(u64),
}

/// The specification-level event a scripted delivery stands for.
pub open spec fn event_of(ev: ScriptEvent) -> SourceEvent<u64> {
    match ev {
        ScriptEvent::Chunk(c) => SourceEvent::Ready(c@),
        ScriptEvent::Wait => SourceEvent::Pending,
        ScriptEvent::Stop => SourceEvent::End,
        ScriptEvent::Fault(e) => SourceEvent::Failed(e),
    }
}

/// The events a whole script stands for, in order.
pub open spec fn events_of(script: Seq<ScriptEvent>) -> Seq<SourceEvent<u64>> {
    script.map_values(|ev: ScriptEvent| event_of(ev))
}

/// A source that delivers a script of events front to back, and reports
/// end-of-stream forever once the script runs out.
#[derive(Debug)]
pub struct ScriptedSource {
    script: Vec<ScriptEvent>,
}

impl ScriptedSource {
    /// A source that will deliver exactly the given script.
    pub fn new(script: Vec<ScriptEvent>) -> (r: Self)
        ensures
            r.events() == events_of(script@),
    {
        ScriptedSource { script }
    }
}

impl ChunkSource for ScriptedSource {
    type Error = u64;

    closed spec fn events(&self) -> Seq<SourceEvent<u64>> {
        events_of(self.script@)
    }

    fn poll_next_chunk(&mut self) -> (r: SourcePoll<u64>) {
        if self.script.len() == 0 {
            return SourcePoll::End;
        }
        let ev = self.script.remove(0);
        proof {
            assert(old(self).script@.remove(0) =~= old(self).script@.skip(1));
            assert(events_of(self.script@) =~= events_of(old(self).script@).skip(1));
        }
        match ev {
            ScriptEvent::Chunk(c) => SourcePoll::Ready(c),
            ScriptEvent::Wait => SourcePoll::Pending,
            ScriptEvent::Stop => SourcePoll::End,
            ScriptEvent::Fault(e) => SourcePoll::Failed(e),
        }
    }
}

} // verus!
