//! The parser stage of the pipeline: keeps the bytes that a record spanning two chunks
//! left over, and turns each incoming chunk into a batch of records.
use vstd::prelude::*;
use crate::errors::HprofSlurpError;
use crate::grammar::ParseError;
use crate::record_parser::{batch_outcome, is_trace, Batch, HprofRecordParser};
use crate::stability::{extends, lemma_trace_concat, lemma_trace_extends, lemma_whole_traces_agree};
use crate::records::Record;

verus! {

pub struct HprofRecordStreamParser {
    parser: HprofRecordParser,
    file_len: usize,
    processed_len: usize,
    loop_buffer: Vec<u8>,
    needed: usize,
    fed: Ghost<Seq<u8>>,
    emitted: Ghost<Seq<Record>>,
    base: Ghost<nat>,
}

/// The records `emitted` are the trace of the bytes `fed` from top-level mode, up to
/// offset `consumed`, where the parser is in mode `remaining`.
pub open spec fn stream_state(fed: Seq<u8>, emitted: Seq<Record>, consumed: nat, remaining: nat) -> bool {
    exists|offs: Seq<nat>, states: Seq<nat>|
        #[trigger] is_trace(fed, emitted, offs, states) && states[0] == 0 && offs[emitted.len() as int]
            == consumed && states[emitted.len() as int] == remaining
}

/// The error that a grammar violation ends the analysis with.
pub fn invalid_file(e: ParseError) -> (r: HprofSlurpError)
    ensures
        r matches HprofSlurpError::InvalidHprofFile { message } && message@
            == crate::grammar::parse_error_text(e),
{
    HprofSlurpError::InvalidHprofFile { message: e.message() }
}

/// One chunk's worth of parsing: the records `recs` were decoded from the `received`
/// bytes, and the stream keeps `buffer` of them after having consumed the others.
pub open spec fn chunk_outcome(
    received: Seq<u8>,
    recs: Seq<Record>,
    from: nat,
    to: nat,
    r: Result<bool, HprofSlurpError>,
    buffer: Seq<u8>,
    processed_before: nat,
    processed_after: nat,
) -> bool {
    exists|res: Result<Batch, ParseError>, offs: Seq<nat>, states: Seq<nat>|
        #[trigger] batch_outcome(received, recs, from, to, res, offs, states) && match res {
            Ok(batch) => r == Ok::<bool, HprofSlurpError>(batch.consumed > 0) && buffer
                == received.subrange(batch.consumed as int, received.len() as int)
                && processed_after == processed_before + batch.consumed,
            Err(_) => r is Err,
        }
}

proof fn lemma_stream_grows(fed: Seq<u8>, more: Seq<u8>, emitted: Seq<Record>, k: nat, rem: nat)
    requires
        stream_state(fed, emitted, k, rem),
    ensures
        stream_state(fed + more, emitted, k, rem),
{
    let (offs, states) = choose|offs: Seq<nat>, states: Seq<nat>|
        #[trigger] is_trace(fed, emitted, offs, states) && states[0] == 0 && offs[emitted.len() as int]
            == k && states[emitted.len() as int] == rem;
    assert(extends(fed, fed + more));
    lemma_trace_extends(fed, fed + more, emitted, offs, states);
}

proof fn lemma_stream_step(
    fed: Seq<u8>,
    emitted: Seq<Record>,
    k: nat,
    recs: Seq<Record>,
    o2: Seq<nat>,
    s2: Seq<nat>,
)
    requires
        stream_state(fed, emitted, k, s2[0]),
        k <= fed.len(),
        is_trace(fed.subrange(k as int, fed.len() as int), recs, o2, s2),
    ensures
        stream_state(fed, emitted + recs, k + o2[recs.len() as int], s2[recs.len() as int]),
{
    let (offs, states) = choose|offs: Seq<nat>, states: Seq<nat>|
        #[trigger] is_trace(fed, emitted, offs, states) && states[0] == 0 && offs[emitted.len() as int]
            == k && states[emitted.len() as int] == s2[0];
    lemma_trace_concat(fed, emitted, offs, states, recs, o2, s2);
    let offs2 = offs + Seq::new(recs.len(), |j: int| k + o2[j + 1]);
    let states2 = states + s2.drop_first();
    let n = (emitted + recs).len() as int;
    if recs.len() > 0 {
        assert(offs2[n] == k + o2[recs.len() as int]);
        assert(states2[n] == s2[recs.len() as int]);
    }
    assert(is_trace(fed, emitted + recs, offs2, states2));
}

impl HprofRecordStreamParser {
    /// The bytes received but not yet consumed by a record.
    pub closed spec fn buffer(&self) -> Seq<u8> {
        self.loop_buffer@
    }

    /// The bytes of the file consumed so far, header included.
    pub closed spec fn processed(&self) -> nat {
        self.processed_len as nat
    }

    pub closed spec fn total(&self) -> nat {
        self.file_len as nat
    }

    /// The buffer length below which no record can be completed.
    pub closed spec fn needed(&self) -> nat {
        self.needed as nat
    }

    /// The bytes left in the current heap-dump segment.
    pub closed spec fn remaining(&self) -> nat {
        self.parser.remaining()
    }

    /// Every byte received since the parser was made, in order.
    pub closed spec fn fed(&self) -> Seq<u8> {
        self.fed@
    }

    /// Every record emitted since the parser was made, in order.
    pub closed spec fn emitted(&self) -> Seq<Record> {
        self.emitted@
    }

    /// The processed count that the parser was made with.
    pub closed spec fn base(&self) -> nat {
        self.base@
    }

    /// Never more bytes accounted for than the file holds; the records emitted are those
    /// of the bytes consumed, and the buffer holds the bytes received after them.
    pub closed spec fn wf(&self) -> bool {
        &&& self.processed_len + self.loop_buffer@.len() <= self.file_len
        &&& self.base@ <= self.processed_len
        &&& self.processed_len - self.base@ <= self.fed@.len()
        &&& self.loop_buffer@ == self.fed@.subrange(self.processed_len - self.base@, self.fed@.len() as int)
        &&& stream_state(self.fed@, self.emitted@, (self.processed_len - self.base@) as nat, self.parser.remaining())
    }

    pub fn new(debug_mode: bool, file_len: usize, processed_len: usize, initial_loop_buffer: Vec<
        u8,
    >) -> (r: Self)
        requires
            processed_len + initial_loop_buffer@.len() <= file_len,
        ensures
            r.wf(),
            r.buffer() == initial_loop_buffer@,
            r.processed() == processed_len,
            r.total() == file_len,
            r.needed() == 0,
            r.remaining() == 0,
            r.fed() == initial_loop_buffer@,
            r.emitted().len() == 0,
            r.base() == processed_len,
            r.spec_debug_mode() == debug_mode,
    {
        let ghost fed = initial_loop_buffer@;
        let r = HprofRecordStreamParser {
            parser: HprofRecordParser::new(debug_mode),
            file_len,
            processed_len,
            loop_buffer: initial_loop_buffer,
            needed: 0,
            fed: Ghost(fed),
            emitted: Ghost(Seq::empty()),
            base: Ghost(processed_len as nat),
        };
        assert(fed.subrange(0, fed.len() as int) =~= fed);
        assert(is_trace(fed, Seq::<Record>::empty(), seq![0nat], seq![0nat]));
        r
    }

    pub fn processed_len(&self) -> (r: usize)
        ensures
            r == self.processed(),
    {
        self.processed_len
    }

    /// Whether `n` more bytes still fit in the file.
    pub fn can_take(&self, n: usize) -> (r: bool)
        requires
            self.wf(),
        ensures
            r == (self.processed() + self.buffer().len() + n <= self.total()),
    {
        let room = self.file_len - self.processed_len - self.loop_buffer.len();
        n <= room
    }

    pub closed spec fn spec_debug_mode(&self) -> bool {
        self.parser.spec_debug_mode()
    }

    pub fn debug_mode(&self) -> (r: bool)
        ensures
            r == self.spec_debug_mode(),
    {
        self.parser.debug_mode()
    }

    /// Takes the bytes of `pooled_buffer` (leaving it empty for reuse) and appends to
    /// `records` every record that the received bytes complete. Returns whether any
    /// record was completed. Bytes are conserved: what is consumed moves from the buffer
    /// to the processed count.
    pub fn parse_chunk(&mut self, pooled_buffer: &mut Vec<u8>, records: &mut Vec<Record>) -> (r:
        Result<bool, HprofSlurpError>)
        requires
            old(self).wf(),
            old(self).processed() + old(self).buffer().len() + old(pooled_buffer)@.len()
                <= old(self).total(),
        ensures
            final(pooled_buffer)@.len() == 0,
            final(self).total() == old(self).total(),
            final(self).base() == old(self).base(),
            final(self).spec_debug_mode() == old(self).spec_debug_mode(),
            r is Ok ==> final(self).fed() == old(self).fed() + old(pooled_buffer)@,
            r is Ok ==> final(self).emitted() == old(self).emitted() + final(records)@.subrange(
                old(records)@.len() as int,
                final(records)@.len() as int,
            ),
            r is Ok ==> final(self).wf(),
            r is Ok ==> final(self).processed() + final(self).buffer().len() == old(self).processed()
                + old(self).buffer().len() + old(pooled_buffer)@.len(),
            old(self).needed() > old(self).buffer().len() + old(pooled_buffer)@.len() ==> {
                &&& r == Ok::<bool, HprofSlurpError>(false)
                &&& final(records)@ == old(records)@
                &&& final(self).buffer() == old(self).buffer() + old(pooled_buffer)@
                &&& final(self).processed() == old(self).processed()
                &&& final(self).remaining() == old(self).remaining()
            },
            old(self).needed() <= old(self).buffer().len() + old(pooled_buffer)@.len() ==> {
                let received = old(self).buffer() + old(pooled_buffer)@;
                &&& old(records)@.len() <= final(records)@.len()
                &&& final(records)@.subrange(0, old(records)@.len() as int) == old(records)@
                &&& chunk_outcome(
                    received,
                    final(records)@.subrange(old(records)@.len() as int, final(records)@.len() as int),
                    old(self).remaining(),
                    final(self).remaining(),
                    r,
                    final(self).buffer(),
                    old(self).processed(),
                    final(self).processed(),
                )
            },
    {
        let ghost received = self.loop_buffer@ + pooled_buffer@;
        let ghost rem0 = self.parser.remaining();
        let ghost recs0 = records@;
        let ghost k = (self.processed_len - self.base@) as nat;
        let ghost fed = self.fed@ + pooled_buffer@;
        proof {
            lemma_stream_grows(self.fed@, pooled_buffer@, self.emitted@, k, rem0);
            assert(received =~= fed.subrange(k as int, fed.len() as int));
        }
        self.fed = Ghost(fed);
        self.loop_buffer.append(pooled_buffer);
        if self.needed > self.loop_buffer.len() {
            return Ok(false);
        }
        let res = self.parser.parse_streaming(self.loop_buffer.as_slice(), records);
        let ghost recs = records@.subrange(recs0.len() as int, records@.len() as int);
        let ghost rem1 = self.parser.remaining();
        let ghost (offs, states) = choose|offs: Seq<nat>, states: Seq<nat>|
            batch_outcome(received, recs, rem0, rem1, res, offs, states);
        match res {
            Ok(batch) => {
                let rest = self.loop_buffer.split_off(batch.consumed);
                self.loop_buffer = rest;
                self.processed_len = self.processed_len + batch.consumed;
                let room = (self.file_len - self.processed_len) as u64;
                self.needed = if batch.needed <= room - self.loop_buffer.len() as u64 {
                    self.loop_buffer.len() + batch.needed as usize
                } else {
                    usize::MAX
                };
                let r = Ok(batch.consumed > 0);
                assert(batch_outcome(received, recs, rem0, rem1, res, offs, states));
                proof {
                    lemma_stream_step(fed, self.emitted@, k, recs, offs, states);
                    self.emitted = Ghost(self.emitted@ + recs);
                    assert(self.loop_buffer@ =~= fed.subrange(self.processed_len - self.base@, fed.len() as int));
                }
                assert(chunk_outcome(received, recs, rem0, rem1, r, self.loop_buffer@, old(self).processed(), self.processed()));
                r
            },
            Err(e) => {
                let r = Err(invalid_file(e));
                assert(batch_outcome(received, recs, rem0, rem1, res, offs, states));
                assert(chunk_outcome(received, recs, rem0, rem1, r, self.loop_buffer@, old(self).processed(), self.processed()));
                r
            },
        }
    }

    /// Ends the stream: all bytes must have been consumed by complete records, and no
    /// heap-dump segment may be left open.
    pub fn finish(&self) -> (r: Result<(), HprofSlurpError>)
        requires
            self.wf(),
        ensures
            r is Ok <==> self.buffer().len() == 0 && self.remaining() == 0,
            r is Ok ==> self.processed() == self.base() + self.fed().len(),
            r matches Err(e) ==> e matches HprofSlurpError::InvalidHprofFile { .. },
    {
        if self.loop_buffer.len() == 0 && self.parser.heap_dump_remaining() == 0 {
            Ok(())
        } else {
            Err(
                HprofSlurpError::InvalidHprofFile {
                    message: String::from_str("truncated record at the end of the file"),
                },
            )
        }
    }
}

/// Two parsers made with the same processed count that received the same bytes, however
/// split into chunks, and consumed all of them, emitted the same number of records, each
/// decoded from the same bytes in the same mode; and each consumed exactly the bytes it
/// received.
pub proof fn lemma_chunking_irrelevant(first: HprofRecordStreamParser, second: HprofRecordStreamParser)
    requires
        first.wf(),
        second.wf(),
        first.fed() == second.fed(),
        first.base() == second.base(),
        first.buffer().len() == 0,
        second.buffer().len() == 0,
    ensures
        first.processed() == first.base() + first.fed().len(),
        second.processed() == first.processed(),
        first.emitted().len() == second.emitted().len(),
        exists|offs: Seq<nat>, states: Seq<nat>|
            is_trace(first.fed(), first.emitted(), offs, states) && #[trigger] is_trace(
                first.fed(),
                second.emitted(),
                offs,
                states,
            ),
{
    let fed = first.fed();
    let (o1, s1) = choose|offs: Seq<nat>, states: Seq<nat>|
        #[trigger] is_trace(fed, first.emitted(), offs, states) && states[0] == 0 && offs[first.emitted().len() as int]
            == (first.processed() - first.base()) as nat && states[first.emitted().len() as int] == first.remaining();
    let (o2, s2) = choose|offs: Seq<nat>, states: Seq<nat>|
        #[trigger] is_trace(fed, second.emitted(), offs, states) && states[0] == 0 && offs[second.emitted().len() as int]
            == (second.processed() - second.base()) as nat && states[second.emitted().len() as int] == second.remaining();
    lemma_whole_traces_agree(fed, first.emitted(), o1, s1, second.emitted(), o2, s2);
    assert forall|j: int| 0 <= j < second.emitted().len() implies {
        let rest = #[trigger] fed.subrange(o1[j] as int, fed.len() as int);
        &&& o1[j] < o1[j + 1] <= fed.len()
        &&& crate::record_parser::record_frame(s1[j], rest) == crate::grammar::Frame::Len((o1[j + 1] - o1[j]) as nat)
        &&& crate::record_parser::record_value_matches(s1[j], rest, second.emitted()[j])
        &&& s1[j + 1] == crate::record_parser::next_remaining(s1[j], rest)
    } by {
        assert(fed.subrange(o2[j] as int, fed.len() as int) == fed.subrange(o1[j] as int, fed.len() as int));
    }
    assert(is_trace(fed, second.emitted(), o1, s1));
}

} // verus!
