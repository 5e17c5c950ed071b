//! What the grammar decides about the bytes at the start of the input does not change
//! when more input follows: a decoded record stays the same record.
use vstd::prelude::*;
use crate::grammar::{
    class_dump_frame, const_entries, const_pool_frame, entries_end, frame_end, gc_frame,
    gc_record_matches, ids_at, instance_entries, record_matches, samples_at, sites_at,
    static_entries, static_fields_frame, top_frame, Frame,
};
use crate::record_parser::{is_trace, next_remaining, record_frame, record_value_matches};
use crate::records::{GcRecord, Record};

verus! {

/// `b2` starts with the `n` first bytes of `b`, and is at least as long as `b`.
pub open spec fn extends(b: Seq<u8>, b2: Seq<u8>) -> bool {
    b.len() <= b2.len() && forall|i: int| 0 <= i < b.len() ==> #[trigger] b2[i] == b[i]
}

proof fn lemma_entries_extend(b: Seq<u8>, b2: Seq<u8>, p: nat, k: nat, h: nat, valued: bool)
    requires
        extends(b, b2),
        entries_end(b, p, k, h, valued) is Len,
        h >= 1,
    ensures
        entries_end(b2, p, k, h, valued) == entries_end(b, p, k, h, valued),
        const_entries(b2, p, k) == const_entries(b, p, k) || !(h == 3 && valued),
        static_entries(b2, p, k) == static_entries(b, p, k) || !(h == 9 && valued),
        instance_entries(b2, p, k) == instance_entries(b, p, k) || !(h == 9 && !valued),
    decreases k,
{
    if k > 0 {
        let t = crate::grammar::type_at(b, p + h - 1);
        assert(b2[p + h - 1] == b[p + h - 1]);
        let q = p + h + if valued {
            crate::records::field_width(t)
        } else {
            0
        };
        lemma_entries_extend(b, b2, q, (k - 1) as nat, h, valued);
        if h == 3 && valued {
            assert(b2[p as int] == b[p as int]);
            assert(b2[p + 1int] == b[p + 1int]);
            assert(crate::grammar::value_at(b2, p + 3int, t) == crate::grammar::value_at(b, p + 3int, t));
        }
        if h == 9 {
            assert(crate::primitives::u64_at(b2, p as int) == crate::primitives::u64_at(b, p as int));
        }
        if h == 9 && valued {
            assert(crate::grammar::value_at(b2, p + 9int, t) == crate::grammar::value_at(b, p + 9int, t));
        }
    }
}

proof fn lemma_gc_extends(b: Seq<u8>, b2: Seq<u8>, g: GcRecord)
    requires
        extends(b, b2),
        gc_frame(b) is Len,
    ensures
        gc_frame(b2) == gc_frame(b),
        gc_record_matches(b2, g) == gc_record_matches(b, g),
{
    assert(b2[0] == b[0]);
    if b[0] == crate::grammar::TAG_GC_CLASS_DUMP {
        lemma_entries_extend(b, b2, 67, crate::primitives::u16_at(b, 65), 3, true);
        let e1 = frame_end(const_pool_frame(b));
        lemma_entries_extend(b, b2, (e1 + 2) as nat, crate::primitives::u16_at(b, e1), 9, true);
        let e2 = frame_end(static_fields_frame(b));
        lemma_entries_extend(b, b2, (e2 + 2) as nat, crate::primitives::u16_at(b, e2), 9, false);
    }
}

proof fn lemma_top_extends(b: Seq<u8>, b2: Seq<u8>, r: Record)
    requires
        extends(b, b2),
        top_frame(b) is Len,
    ensures
        top_frame(b2) == top_frame(b),
        record_matches(b2, r) == record_matches(b, r),
{
    let len = crate::primitives::u32_at(b, 5) as int;
    assert(b2[0] == b[0]);
    if top_frame(b) == Frame::Len((9 + len) as nat) {
        if b[0] == crate::grammar::TAG_STRING {
            assert(b2.subrange(17, 9 + len) =~= b.subrange(17, 9 + len));
        }
        if b[0] == crate::grammar::TAG_STACK_TRACE {
            let q = (len - 12) / 8;
            assert(8 * q == len - 12);
            assert forall|i: int| 0 <= i < q implies #[trigger] crate::primitives::u64_at(b2, 21 + 8 * i)
                == crate::primitives::u64_at(b, 21 + 8 * i) by {
                assert(21 + 8 * i + 8 <= 9 + len);
            }
            assert(ids_at(b2, 21, q as nat) =~= ids_at(b, 21, q as nat));
        }
        if b[0] == crate::grammar::TAG_ALLOC_SITES {
            let q = (len - 34) / 25;
            assert(25 * q == len - 34);
            assert forall|i: int| 0 <= i < q implies #[trigger] crate::grammar::site_at(b2, 43 + 25 * i)
                == crate::grammar::site_at(b, 43 + 25 * i) by {
                assert(43 + 25 * i + 25 <= 9 + len);
            }
            assert(sites_at(b2, 43, q as nat) =~= sites_at(b, 43, q as nat));
        }
        if b[0] == crate::grammar::TAG_CPU_SAMPLES {
            let q = (len - 8) / 8;
            assert(8 * q == len - 8);
            assert forall|i: int| 0 <= i < q implies #[trigger] crate::primitives::u64_at(b2, 17 + 8 * i)
                == crate::primitives::u64_at(b, 17 + 8 * i) by {
                assert(17 + 8 * i + 8 <= 9 + len);
                assert(b2[17 + 8 * i + 4] == b[17 + 8 * i + 4]);
            }
            assert(samples_at(b2, 17, q as nat) =~= samples_at(b, 17, q as nat));
        }
    }
}

/// A record decoded from the start of `b` is decoded the same from any longer input
/// that starts with `b`, in the same mode, with the same length and the same next mode.
pub proof fn lemma_record_extends(remaining: nat, b: Seq<u8>, b2: Seq<u8>, r: Record)
    requires
        extends(b, b2),
        record_frame(remaining, b) is Len,
    ensures
        record_frame(remaining, b2) == record_frame(remaining, b),
        record_value_matches(remaining, b2, r) == record_value_matches(remaining, b, r),
        next_remaining(remaining, b2) == next_remaining(remaining, b),
{
    reveal(record_frame);
    reveal(record_value_matches);
    reveal(next_remaining);
    if remaining == 0 {
        lemma_top_extends(b, b2, r);
        assert(b2[0] == b[0]);
    } else {
        match r {
            Record::GcSegment(g) => lemma_gc_extends(b, b2, g),
            _ => lemma_gc_extends(b, b2, GcRecord::RootUnknown { object_id: 0 }),
        }
    }
}

/// A trace of the records of `b` is also a trace of the records at the start of any
/// longer input that starts with `b`.
pub proof fn lemma_trace_extends(
    b: Seq<u8>,
    b2: Seq<u8>,
    recs: Seq<Record>,
    offs: Seq<nat>,
    states: Seq<nat>,
)
    requires
        extends(b, b2),
        is_trace(b, recs, offs, states),
    ensures
        is_trace(b2, recs, offs, states),
{
    assert forall|j: int| 0 <= j < recs.len() implies {
        let rest = #[trigger] b2.subrange(offs[j] as int, b2.len() as int);
        &&& offs[j] < offs[j + 1] <= b2.len()
        &&& record_frame(states[j], rest) == Frame::Len((offs[j + 1] - offs[j]) as nat)
        &&& record_value_matches(states[j], rest, recs[j])
        &&& states[j + 1] == next_remaining(states[j], rest)
    } by {
        let r1 = b.subrange(offs[j] as int, b.len() as int);
        let r2 = b2.subrange(offs[j] as int, b2.len() as int);
        assert(extends(r1, r2));
        lemma_record_extends(states[j], r1, r2, recs[j]);
    }
}

/// The trace of `b` up to offset `k`, followed by a trace of the bytes from `k` on that
/// starts in the mode where the first ends, is a trace of `b`.
pub proof fn lemma_trace_concat(
    b: Seq<u8>,
    r1: Seq<Record>,
    o1: Seq<nat>,
    s1: Seq<nat>,
    r2: Seq<Record>,
    o2: Seq<nat>,
    s2: Seq<nat>,
)
    requires
        is_trace(b, r1, o1, s1),
        o1[r1.len() as int] <= b.len(),
        is_trace(b.subrange(o1[r1.len() as int] as int, b.len() as int), r2, o2, s2),
        s2[0] == s1[r1.len() as int],
    ensures
        is_trace(
            b,
            r1 + r2,
            o1 + Seq::new(r2.len(), |j: int| o1[r1.len() as int] + o2[j + 1]),
            s1 + s2.drop_first(),
        ),
{
    let k = o1[r1.len() as int];
    let n1 = r1.len() as int;
    let tail = b.subrange(k as int, b.len() as int);
    let offs = o1 + Seq::new(r2.len(), |j: int| k + o2[j + 1]);
    let states = s1 + s2.drop_first();
    let recs = r1 + r2;
    assert forall|j: int| 0 <= j < recs.len() implies {
        let rest = #[trigger] b.subrange(offs[j] as int, b.len() as int);
        &&& offs[j] < offs[j + 1] <= b.len()
        &&& record_frame(states[j], rest) == Frame::Len((offs[j + 1] - offs[j]) as nat)
        &&& record_value_matches(states[j], rest, recs[j])
        &&& states[j + 1] == next_remaining(states[j], rest)
    } by {
        if j < n1 {
            assert(recs[j] == r1[j]);
            let rest = b.subrange(offs[j] as int, b.len() as int);
            assert(rest == b.subrange(o1[j] as int, b.len() as int));
            if j + 1 == n1 {
                assert(offs[j + 1] == k);
                assert(states[j + 1] == s1[n1]);
            }
        } else {
            let i = j - n1;
            assert(recs[j] == r2[i]);
            assert(offs[j] == k + o2[i]) by {
                if i == 0 {
                    assert(offs[j] == o1[n1]);
                } else {
                    assert(offs[j] == k + o2[(i - 1) + 1]);
                }
            }
            assert(offs[j + 1] == k + o2[i + 1]);
            assert(states[j] == s2[i]);
            assert(states[j + 1] == s2[i + 1]);
            let rest2 = tail.subrange(o2[i] as int, tail.len() as int);
            assert(rest2 =~= b.subrange(offs[j] as int, b.len() as int));
        }
    }
}

/// Two traces of the same bytes from the same mode decode the same records at the same
/// offsets for as long as both go on.
pub proof fn lemma_trace_unique(
    b: Seq<u8>,
    r1: Seq<Record>,
    o1: Seq<nat>,
    s1: Seq<nat>,
    r2: Seq<Record>,
    o2: Seq<nat>,
    s2: Seq<nat>,
    k: int,
)
    requires
        is_trace(b, r1, o1, s1),
        is_trace(b, r2, o2, s2),
        s1[0] == s2[0],
        0 <= k <= r1.len(),
        k <= r2.len(),
    ensures
        o1[k] == o2[k],
        s1[k] == s2[k],
    decreases k,
{
    if k > 0 {
        lemma_trace_unique(b, r1, o1, s1, r2, o2, s2, k - 1);
        let rest1 = b.subrange(o1[k - 1] as int, b.len() as int);
        let rest2 = b.subrange(o2[k - 1] as int, b.len() as int);
        assert(rest1 == rest2);
    }
}

/// Two traces that both decode the whole of `b` from the same mode decode the same
/// number of records, at the same offsets and in the same modes: how the bytes were
/// split into chunks on the way cannot change what is decoded.
pub proof fn lemma_whole_traces_agree(
    b: Seq<u8>,
    r1: Seq<Record>,
    o1: Seq<nat>,
    s1: Seq<nat>,
    r2: Seq<Record>,
    o2: Seq<nat>,
    s2: Seq<nat>,
)
    requires
        is_trace(b, r1, o1, s1),
        is_trace(b, r2, o2, s2),
        s1[0] == s2[0],
        o1[r1.len() as int] == b.len(),
        o2[r2.len() as int] == b.len(),
    ensures
        r1.len() == r2.len(),
        o1 == o2,
        s1 == s2,
        forall|j: int|
            0 <= j < r1.len() ==> record_value_matches(
                s1[j],
                #[trigger] b.subrange(o1[j] as int, b.len() as int),
                r2[j],
            ),
{
    if r1.len() < r2.len() {
        lemma_trace_unique(b, r1, o1, s1, r2, o2, s2, r1.len() as int);
        let n = r1.len() as int;
        assert(b.subrange(o2[n] as int, b.len() as int) == b.subrange(o2[n] as int, b.len() as int));
        assert(o2[n] < o2[n + 1]);
    } else if r2.len() < r1.len() {
        lemma_trace_unique(b, r1, o1, s1, r2, o2, s2, r2.len() as int);
        let n = r2.len() as int;
        assert(b.subrange(o1[n] as int, b.len() as int) == b.subrange(o1[n] as int, b.len() as int));
        assert(o1[n] < o1[n + 1]);
    }
    assert forall|j: int| 0 <= j < o1.len() implies o1[j] == o2[j] && s1[j] == s2[j] by {
        lemma_trace_unique(b, r1, o1, s1, r2, o2, s2, j);
    }
    assert(o1 =~= o2);
    assert(s1 =~= s2);
}

} // verus!
