//! The decision core of the multipart-upload sink.
//!
//! The sink accumulates batches in a buffer; past a size threshold — or at
//! end of stream — the buffer is flushed as one numbered part.  Recorded
//! `(part number, entity tag)` pairs feed the completion request in
//! ascending part-number order; any transport failure turns into one abort.
//! The surrounding consumer loop performs the store calls and feeds each
//! outcome back in; everything it decides is decided here.

use vstd::prelude::*;

verus! {

/// A part is flushed once the buffer exceeds this many bytes: 5 MiB, the
/// store's minimum size for every part but the last.
pub const PART_SIZE_THRESHOLD: usize = 5242880;

/// One uploaded part: its 1-based number and the entity tag the store
/// returned for it (which the store may omit).
pub struct PartRecord {
    pub part_number: u32,
    pub e_tag: Option<String>,
}

/// Where the sink stands in the upload protocol.
#[derive(Clone, Copy, PartialEq, Eq, Structural, Debug)]
pub enum SinkPhase {
    /// Waiting for the next batch or for end of stream.
    Receiving,
    /// A part is in flight; `end` records whether end of stream was seen.
    Uploading { end: bool },
    /// The completion request is in flight.
    Completing,
    /// The upload finished cleanly.
    Done,
    /// The upload failed; an abort was issued and no completion ever is.
    Failed,
}

/// What the surrounding consumer loop must do next.
pub enum SinkAction {
    /// Wait for the next message.
    Receive,
    /// Upload these bytes as the given part, then report the outcome.
    UploadPart { part_number: u32, data: Vec<u8> },
    /// Ask the store to complete the upload from these parts, in order.
    Complete { parts: Vec<PartRecord> },
    /// Abort the upload session, best effort; the run ends failed.
    Abort,
    /// The upload completed; nothing more to do.
    Finished,
}

/// Parts are numbered 1, 2, 3, … in recording order.
pub open spec fn parts_numbered(parts: Seq<PartRecord>) -> bool {
    forall|i: int| 0 <= i < parts.len() ==> (#[trigger] parts[i]).part_number as int == i + 1
}

/// The multipart sink's state between events.
pub struct MultipartSink {
    /// Bytes accumulated since the last flush.
    pub buffer: Vec<u8>,
    /// The number the next flushed part will carry.
    pub next_part: u32,
    /// Parts recorded so far, in upload order.
    pub parts: Vec<PartRecord>,
    pub phase: SinkPhase,
    /// Every byte ever accepted from the stream.
    pub received: Ghost<Seq<u8>>,
    /// Every byte ever handed out in an upload action.
    pub sent: Ghost<Seq<u8>>,
}

impl MultipartSink {
    /// Bytes are conserved — what was received is what was handed to the
    /// store plus what still sits in the buffer — and before completion the
    /// recorded parts are numbered consecutively up to the next number.
    pub open spec fn wf(self) -> bool {
        &&& self.sent@ + self.buffer@ == self.received@
        &&& ((self.phase == SinkPhase::Receiving || self.phase is Uploading) ==> {
            &&& self.next_part as int == self.parts@.len() + 1
            &&& parts_numbered(self.parts@)
        })
    }

    /// A fresh sink, ready to receive, with part numbers starting at 1.
    pub fn new() -> (s: MultipartSink)
        ensures
            s.wf(),
            s.phase == SinkPhase::Receiving,
            s.buffer@ =~= Seq::<u8>::empty(),
            s.parts@ =~= Seq::<PartRecord>::empty(),
            s.next_part == 1,
            s.received@ =~= Seq::<u8>::empty(),
            s.sent@ =~= Seq::<u8>::empty(),
    {
        MultipartSink {
            buffer: Vec::new(),
            next_part: 1,
            parts: Vec::new(),
            phase: SinkPhase::Receiving,
            received: Ghost(Seq::empty()),
            sent: Ghost(Seq::empty()),
        }
    }

    /// A batch arrived: append it to the buffer; once the buffer exceeds
    /// the threshold it is flushed, whole, as the next part.
    pub fn on_batch(&mut self, data: Vec<u8>) -> (a: SinkAction)
        requires
            old(self).wf(),
            old(self).phase == SinkPhase::Receiving,
        ensures
            final(self).wf(),
            final(self).received@ == old(self).received@ + data@,
            final(self).parts@ == old(self).parts@,
            final(self).next_part == old(self).next_part,
            if old(self).buffer@.len() + data@.len() > PART_SIZE_THRESHOLD {
                &&& (a matches SinkAction::UploadPart { part_number, data: payload }
                    && part_number == old(self).next_part && payload@ == old(self).buffer@
                    + data@)
                &&& final(self).phase == (SinkPhase::Uploading { end: false })
                &&& final(self).buffer@.len() == 0
                &&& final(self).sent@ == old(self).sent@ + old(self).buffer@ + data@
            } else {
                &&& a is Receive
                &&& final(self).phase == SinkPhase::Receiving
                &&& final(self).buffer@ == old(self).buffer@ + data@
                &&& final(self).sent@ == old(self).sent@
            },
    {
        let ghost dv = data@;
        let mut incoming = data;
        self.buffer.append(&mut incoming);
        proof {
            self.received@ = self.received@ + dv;
        }
        if self.buffer.len() > PART_SIZE_THRESHOLD {
            let payload = self.buffer.split_off(0);
            proof {
                self.sent@ = self.sent@ + payload@;
                assert(self.sent@ =~= old(self).sent@ + old(self).buffer@ + dv);
                assert(self.sent@ + self.buffer@ =~= self.received@);
            }
            self.phase = SinkPhase::Uploading { end: false };
            SinkAction::UploadPart { part_number: self.next_part, data: payload }
        } else {
            proof {
                assert(self.sent@ + self.buffer@ =~= self.received@);
            }
            SinkAction::Receive
        }
    }

    /// End of stream: the buffer is flushed as one final part even when it
    /// is small or empty, so the last partial buffer is never dropped.
    /// After this flush everything received has been handed to the store.
    pub fn on_end(&mut self) -> (a: SinkAction)
        requires
            old(self).wf(),
            old(self).phase == SinkPhase::Receiving,
        ensures
            final(self).wf(),
            (a matches SinkAction::UploadPart { part_number, data: payload } && part_number == old(
                self,
            ).next_part && payload@ == old(self).buffer@),
            final(self).phase == (SinkPhase::Uploading { end: true }),
            final(self).buffer@.len() == 0,
            final(self).received@ == old(self).received@,
            final(self).parts@ == old(self).parts@,
            final(self).next_part == old(self).next_part,
            final(self).sent@ == final(self).received@,
    {
        let payload = self.buffer.split_off(0);
        proof {
            self.sent@ = self.sent@ + payload@;
            assert(self.sent@ =~= self.received@);
            assert(self.sent@ + self.buffer@ =~= self.received@);
        }
        self.phase = SinkPhase::Uploading { end: true };
        SinkAction::UploadPart { part_number: self.next_part, data: payload }
    }

    /// The store accepted the in-flight part: record its tag under the
    /// part's number.  After an intermediate part the sink receives again;
    /// after the final part it issues the completion request, carrying
    /// every recorded part, numbered consecutively from 1.
    pub fn on_part_uploaded(&mut self, e_tag: Option<String>) -> (a: SinkAction)
        requires
            old(self).wf(),
            old(self).phase is Uploading,
            old(self).next_part < u32::MAX,
        ensures
            final(self).wf(),
            final(self).next_part == old(self).next_part + 1,
            final(self).buffer@ == old(self).buffer@,
            final(self).received@ == old(self).received@,
            final(self).sent@ == old(self).sent@,
            ({
                let recorded = old(self).parts@.push(
                    PartRecord { part_number: old(self).next_part, e_tag },
                );
                if old(self).phase == (SinkPhase::Uploading { end: false }) {
                    &&& a is Receive
                    &&& final(self).phase == SinkPhase::Receiving
                    &&& final(self).parts@ == recorded
                } else {
                    &&& (a matches SinkAction::Complete { parts } && parts@ == recorded
                        && parts_numbered(parts@))
                    &&& final(self).phase == SinkPhase::Completing
                }
            }),
    {
        let pn = self.next_part;
        self.parts.push(PartRecord { part_number: pn, e_tag });
        self.next_part = pn + 1;
        let end = match self.phase {
            SinkPhase::Uploading { end } => end,
            _ => false,
        };
        if end {
            let parts = self.parts.split_off(0);
            self.phase = SinkPhase::Completing;
            SinkAction::Complete { parts }
        } else {
            self.phase = SinkPhase::Receiving;
            SinkAction::Receive
        }
    }

    /// The store rejected the in-flight part: abort the session; the sink
    /// ends failed and never issues a completion.
    pub fn on_part_failed(&mut self) -> (a: SinkAction)
        requires
            old(self).wf(),
            old(self).phase is Uploading,
        ensures
            final(self).wf(),
            a is Abort,
            final(self).phase == SinkPhase::Failed,
            final(self).buffer@ == old(self).buffer@,
            final(self).received@ == old(self).received@,
            final(self).sent@ == old(self).sent@,
    {
        self.phase = SinkPhase::Failed;
        SinkAction::Abort
    }

    /// The completion request succeeded: the upload is done.
    pub fn on_complete_ok(&mut self) -> (a: SinkAction)
        requires
            old(self).wf(),
            old(self).phase == SinkPhase::Completing,
        ensures
            final(self).wf(),
            a is Finished,
            final(self).phase == SinkPhase::Done,
    {
        self.phase = SinkPhase::Done;
        SinkAction::Finished
    }

    /// The completion request failed: abort the session; the sink ends
    /// failed.
    pub fn on_complete_failed(&mut self) -> (a: SinkAction)
        requires
            old(self).wf(),
            old(self).phase == SinkPhase::Completing,
        ensures
            final(self).wf(),
            a is Abort,
            final(self).phase == SinkPhase::Failed,
    {
        self.phase = SinkPhase::Failed;
        SinkAction::Abort
    }
}

/// Law: consecutively numbered parts are strictly ascending, so a
/// completion request lists its part numbers in ascending order.
pub proof fn lemma_parts_ascending(parts: Seq<PartRecord>)
    requires
        parts_numbered(parts),
    ensures
        forall|i: int, j: int|
            0 <= i < j < parts.len() ==> parts[i].part_number < parts[j].part_number,
{
}

} // verus!
