//! The resumable record parser: decodes top-level records and, inside a heap-dump
//! segment, its sub-records, tracking how many bytes of the segment remain.
use vstd::prelude::*;
use crate::grammar::{
    agrees, frame_end, gc_frame, gc_record_matches, opens_segment, parse_gc_record,
    parse_top_record, record_matches, top_frame, Frame, ParseError, Step,
};
use crate::primitives::u32_at;
use crate::records::Record;
use vstd::slice::slice_subrange;

verus! {

/// Frame of the next record when `remaining` bytes of a heap-dump segment are left
/// (none: top-level mode). A sub-record may not cross the end of its segment.
#[verifier::opaque]
pub open spec fn record_frame(remaining: nat, b: Seq<u8>) -> Frame {
    if remaining == 0 {
        top_frame(b)
    } else {
        match gc_frame(b) {
            Frame::Len(n) => if n > remaining {
                Frame::Bad(ParseError::SegmentOverrun)
            } else {
                Frame::Len(n)
            },
            other => other,
        }
    }
}

/// The segment bytes left after the record at the start of `b` has been decoded.
#[verifier::opaque]
pub open spec fn next_remaining(remaining: nat, b: Seq<u8>) -> nat {
    if remaining == 0 {
        if opens_segment(b[0]) {
            u32_at(b, 5)
        } else {
            0
        }
    } else {
        (remaining - frame_end(gc_frame(b))) as nat
    }
}

/// `r` is the record encoded at the start of `b` in the given mode.
#[verifier::opaque]
pub open spec fn record_value_matches(remaining: nat, b: Seq<u8>, r: Record) -> bool {
    if remaining == 0 {
        record_matches(b, r)
    } else {
        match r {
            Record::GcSegment(g) => gc_record_matches(b, g),
            _ => false,
        }
    }
}

/// `recs` are the records decoded one after the other from the start of `b` in mode
/// `states[0]`; record `j` spans bytes `offs[j]..offs[j + 1]` and leaves mode `states[j + 1]`.
pub open spec fn is_trace(b: Seq<u8>, recs: Seq<Record>, offs: Seq<nat>, states: Seq<nat>) -> bool {
    &&& offs.len() == recs.len() + 1
    &&& states.len() == recs.len() + 1
    &&& offs[0] == 0
    &&& forall|j: int|
        0 <= j < recs.len() ==> {
            let rest = #[trigger] b.subrange(offs[j] as int, b.len() as int);
            &&& offs[j] < offs[j + 1] <= b.len()
            &&& record_frame(states[j], rest) == Frame::Len((offs[j + 1] - offs[j]) as nat)
            &&& record_value_matches(states[j], rest, recs[j])
            &&& states[j + 1] == next_remaining(states[j], rest)
        }
}

/// One pass of the parser over `i` decoded `recs`, moving from mode `from` to mode `to`,
/// and stopped where the grammar asks for more input (`Ok`) or finds a violation (`Err`).
pub open spec fn batch_outcome(
    i: Seq<u8>,
    recs: Seq<Record>,
    from: nat,
    to: nat,
    r: Result<Batch, ParseError>,
    offs: Seq<nat>,
    states: Seq<nat>,
) -> bool {
    let consumed = offs[recs.len() as int];
    let rest = i.subrange(consumed as int, i.len() as int);
    &&& is_trace(i, recs, offs, states)
    &&& states[0] == from
    &&& states[recs.len() as int] == to
    &&& match r {
        Ok(batch) => batch.consumed == consumed && record_frame(to, rest) == Frame::Need(
            batch.needed as nat,
        ),
        Err(e) => record_frame(to, rest) == Frame::Bad(e),
    }
}

/// A top-level record other than the one that ends the dump, or one that opens a
/// heap-dump segment, takes exactly its declared body length plus 9 bytes of tag,
/// timestamp and length.
pub proof fn lemma_record_length(b: Seq<u8>)
    requires
        top_frame(b) is Len,
        !opens_segment(b[0]),
        b[0] != crate::grammar::TAG_HEAP_DUMP_END,
    ensures
        top_frame(b) == Frame::Len(u32_at(b, 5) + 9),
{
}

/// In a heap-dump segment, the bytes of the sub-records decoded so far and the bytes
/// the segment still holds add up to the segment's declared length; so when nothing
/// remains, the sub-records took exactly the declared length.
pub proof fn lemma_segment_length(b: Seq<u8>, recs: Seq<Record>, offs: Seq<nat>, states: Seq<nat>, k: int)
    requires
        is_trace(b, recs, offs, states),
        0 <= k <= recs.len(),
        forall|j: int| 0 <= j < k ==> #[trigger] states[j] > 0,
    ensures
        offs[k] + states[k] == states[0],
    decreases k,
{
    if k > 0 {
        lemma_segment_length(b, recs, offs, states, k - 1);
        let rest = b.subrange(offs[k - 1] as int, b.len() as int);
        assert(states[k - 1] > 0);
        reveal(record_frame);
        reveal(next_remaining);
        assert(record_frame(states[k - 1], rest) == Frame::Len((offs[k] - offs[k - 1]) as nat));
    }
}

pub struct HprofRecordParser {
    debug_mode: bool,
    heap_dump_remaining_len: u32,
}

/// What one pass of the parser over a buffer did: the bytes consumed by the records
/// it decoded, and how many more bytes the next record needs.
#[derive(Clone, Copy, Debug, PartialEq, Eq, Structural)]
pub struct Batch {
    pub consumed: usize,
    pub needed: u64,
}

impl HprofRecordParser {
    pub fn new(debug_mode: bool) -> (r: Self)
        ensures
            r.remaining() == 0,
            r.spec_debug_mode() == debug_mode,
    {
        HprofRecordParser { debug_mode, heap_dump_remaining_len: 0 }
    }

    /// The bytes left in the current heap-dump segment; zero in top-level mode.
    pub closed spec fn remaining(&self) -> nat {
        self.heap_dump_remaining_len as nat
    }

    pub closed spec fn spec_debug_mode(&self) -> bool {
        self.debug_mode
    }

    pub fn heap_dump_remaining(&self) -> (r: u32)
        ensures
            r == self.remaining(),
    {
        self.heap_dump_remaining_len
    }

    pub fn debug_mode(&self) -> (r: bool)
        ensures
            r == self.spec_debug_mode(),
    {
        self.debug_mode
    }

    /// Decodes the record at the start of `b` in the current mode. On success, the mode
    /// moves on: a segment opens, or its remaining length shrinks by the sub-record's size.
    pub fn parse_hprof_record(&mut self, b: &[u8]) -> (r: Step<Record>)
        ensures
            agrees(record_frame(old(self).remaining(), b@), r),
            r matches Step::Done(_, n) ==> 1 <= n <= b@.len(),
            r matches Step::Done(rec, _) ==> record_value_matches(old(self).remaining(), b@, rec)
                && final(self).remaining() == next_remaining(old(self).remaining(), b@),
            !(r is Done) ==> *final(self) == *old(self),
            final(self).spec_debug_mode() == old(self).spec_debug_mode(),
    {
        reveal(record_frame);
        reveal(next_remaining);
        reveal(record_value_matches);
        if self.heap_dump_remaining_len == 0 {
            let r = parse_top_record(b);
            if let Step::Done(Record::HeapDumpStart { length }, _) = &r {
                self.heap_dump_remaining_len = *length;
            }
            r
        } else {
            match parse_gc_record(b) {
                Step::Done(g, n) => {
                    if n as u64 > self.heap_dump_remaining_len as u64 {
                        Step::Invalid(ParseError::SegmentOverrun)
                    } else {
                        self.heap_dump_remaining_len = self.heap_dump_remaining_len - n as u32;
                        Step::Done(Record::GcSegment(g), n)
                    }
                },
                Step::NeedMore(k) => Step::NeedMore(k),
                Step::Invalid(e) => Step::Invalid(e),
            }
        }
    }

    /// Decodes records from the start of `i` and appends them to `pooled_vec` until the
    /// next record needs more input; reports the bytes consumed and the bytes still needed.
    pub fn parse_streaming(&mut self, i: &[u8], pooled_vec: &mut Vec<Record>) -> (r: Result<
        Batch,
        ParseError,
    >)
        ensures
            old(pooled_vec)@.len() <= final(pooled_vec)@.len(),
            final(pooled_vec)@.subrange(0, old(pooled_vec)@.len() as int) == old(pooled_vec)@,
            final(self).spec_debug_mode() == old(self).spec_debug_mode(),
            r matches Ok(batch) ==> batch.consumed <= i@.len(),
            exists|offs: Seq<nat>, states: Seq<nat>|
                #[trigger] batch_outcome(
                    i@,
                    final(pooled_vec)@.subrange(
                        old(pooled_vec)@.len() as int,
                        final(pooled_vec)@.len() as int,
                    ),
                    old(self).remaining(),
                    final(self).remaining(),
                    r,
                    offs,
                    states,
                ),
    {
        let ghost start = pooled_vec@.len();
        let ghost mut offs: Seq<nat> = seq![0nat];
        let ghost mut states: Seq<nat> = seq![self.remaining()];
        let mut pos: usize = 0;
        assert(i@.subrange(0, i@.len() as int) =~= i@);
        loop
            invariant
                pos <= i@.len(),
                start == old(pooled_vec)@.len(),
                start <= pooled_vec@.len(),
                pooled_vec@.subrange(0, start as int) == old(pooled_vec)@,
                is_trace(i@, pooled_vec@.subrange(start as int, pooled_vec@.len() as int), offs, states),
                offs[offs.len() - 1] == pos,
                states[0] == old(self).remaining(),
                states[states.len() - 1] == self.remaining(),
                self.spec_debug_mode() == old(self).spec_debug_mode(),
            decreases i@.len() - pos,
        {
            let rest = slice_subrange(i, pos, i.len());
            let ghost recs = pooled_vec@.subrange(start as int, pooled_vec@.len() as int);
            let ghost st = self.remaining();
            match self.parse_hprof_record(rest) {
                Step::Done(rec, n) => {
                    pooled_vec.push(rec);
                    pos = pos + n;
                    proof {
                        let new_recs = pooled_vec@.subrange(start as int, pooled_vec@.len() as int);
                        assert(new_recs =~= recs.push(rec));
                        assert(pooled_vec@.subrange(0, start as int) =~= old(pooled_vec)@);
                        let k = recs.len() as int;
                        assert(i@.subrange(offs[k] as int, i@.len() as int) == rest@);
                        offs = offs.push(pos as nat);
                        states = states.push(self.remaining());
                        assert forall|j: int| 0 <= j < new_recs.len() implies {
                            let rest_j = #[trigger] i@.subrange(offs[j] as int, i@.len() as int);
                            &&& offs[j] < offs[j + 1] <= i@.len()
                            &&& record_frame(states[j], rest_j) == Frame::Len((offs[j + 1] - offs[j]) as nat)
                            &&& record_value_matches(states[j], rest_j, new_recs[j])
                            &&& states[j + 1] == next_remaining(states[j], rest_j)
                        } by {
                            if j < k {
                                assert(new_recs[j] == recs[j]);
                            }
                        }
                    }
                },
                Step::NeedMore(k) => {
                    proof {
                        let n = recs.len() as int;
                        assert(i@.subrange(offs[n] as int, i@.len() as int) == rest@);
                    }
                    let r = Ok(Batch { consumed: pos, needed: k });
                    assert(batch_outcome(i@, recs, old(self).remaining(), self.remaining(), r, offs, states));
                    return r;
                },
                Step::Invalid(e) => {
                    proof {
                        let n = recs.len() as int;
                        assert(i@.subrange(offs[n] as int, i@.len() as int) == rest@);
                    }
                    let r = Err(e);
                    assert(batch_outcome(i@, recs, old(self).remaining(), self.remaining(), r, offs, states));
                    return r;
                },
            }
        }
    }
}

} // verus!
