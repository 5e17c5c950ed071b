//! The HPROF record grammar: framing and decoding of top-level records and of
//! heap-dump sub-records, resumable at record boundaries.
use vstd::prelude::*;
use vstd::slice::slice_subrange;
use crate::primitives::{
    parse_i16, parse_i32, parse_i64, parse_i8, parse_u16, parse_u32, parse_u64, parse_u8, signed16,
    signed32, signed64, signed8, u16_at, u32_at, u64_at,
};
use crate::records::{
    field_type_code, field_width, AllocationSite, ConstFieldInfo, CpuSample, FieldInfo,
    FieldType, FieldValue, GcRecord, LoadClassData, Record, RecordHeader, StackFrameData,
    StackTraceData,
};
use crate::strings::{lossy_string, utf8_lossy};

verus! {

pub const TAG_STRING: u8 = 0x01;
pub const TAG_LOAD_CLASS: u8 = 0x02;
pub const TAG_UNLOAD_CLASS: u8 = 0x03;
pub const TAG_STACK_FRAME: u8 = 0x04;
pub const TAG_STACK_TRACE: u8 = 0x05;
pub const TAG_ALLOC_SITES: u8 = 0x06;
pub const TAG_HEAP_SUMMARY: u8 = 0x07;
pub const TAG_START_THREAD: u8 = 0x0A;
pub const TAG_END_THREAD: u8 = 0x0B;
pub const TAG_HEAP_DUMP: u8 = 0x0C;
pub const TAG_CPU_SAMPLES: u8 = 0x0D;
pub const TAG_CONTROL_SETTING: u8 = 0x0E;
pub const TAG_HEAP_DUMP_SEGMENT: u8 = 0x1C;
pub const TAG_HEAP_DUMP_END: u8 = 0x2C;

pub const TAG_GC_ROOT_UNKNOWN: u8 = 0xFF;
pub const TAG_GC_ROOT_JNI_GLOBAL: u8 = 0x01;
pub const TAG_GC_ROOT_JNI_LOCAL: u8 = 0x02;
pub const TAG_GC_ROOT_JAVA_FRAME: u8 = 0x03;
pub const TAG_GC_ROOT_NATIVE_STACK: u8 = 0x04;
pub const TAG_GC_ROOT_STICKY_CLASS: u8 = 0x05;
pub const TAG_GC_ROOT_THREAD_BLOCK: u8 = 0x06;
pub const TAG_GC_ROOT_MONITOR_USED: u8 = 0x07;
pub const TAG_GC_ROOT_THREAD_OBJ: u8 = 0x08;
pub const TAG_GC_CLASS_DUMP: u8 = 0x20;
pub const TAG_GC_INSTANCE_DUMP: u8 = 0x21;
pub const TAG_GC_OBJ_ARRAY_DUMP: u8 = 0x22;
pub const TAG_GC_PRIM_ARRAY_DUMP: u8 = 0x23;

/// Tag byte, timestamp and length of a top-level record.
pub const RECORD_HEADER_LEN: usize = 9;

/// Fixed prefix of a class dump, tag included.
pub const CLASS_DUMP_PREFIX_LEN: usize = 67;

/// Why a byte sequence is not a well-formed record.
#[derive(Clone, Copy, Debug, PartialEq, Eq, Structural)]
pub enum ParseError {
    UnknownTag(u8),
    UnknownSubTag(u8),
    UnknownFieldType(u8),
    ObjectPrimitiveArray,
    BadRecordLength(u8),
    SegmentOverrun,
}

/// The description of a grammar violation.
pub open spec fn parse_error_text(e: ParseError) -> Seq<char> {
    match e {
        ParseError::UnknownTag(_) => "unhandled record tag"@,
        ParseError::UnknownSubTag(_) => "unhandled heap dump sub-record tag"@,
        ParseError::UnknownFieldType(_) => "unknown field type"@,
        ParseError::ObjectPrimitiveArray => "object type in primitive array"@,
        ParseError::BadRecordLength(_) => "record length does not fit its layout"@,
        ParseError::SegmentOverrun => "sub-record crosses the end of its heap dump segment"@,
    }
}

impl ParseError {
    pub fn message(&self) -> (r: String)
        ensures
            r@ == parse_error_text(*self),
    {
        match self {
            ParseError::UnknownTag(_) => String::from_str("unhandled record tag"),
            ParseError::UnknownSubTag(_) => String::from_str("unhandled heap dump sub-record tag"),
            ParseError::UnknownFieldType(_) => String::from_str("unknown field type"),
            ParseError::ObjectPrimitiveArray => String::from_str("object type in primitive array"),
            ParseError::BadRecordLength(_) => String::from_str(
                "record length does not fit its layout",
            ),
            ParseError::SegmentOverrun => String::from_str(
                "sub-record crosses the end of its heap dump segment",
            ),
        }
    }
}

/// What the grammar makes of the bytes at the start of the input: a frame of that many
/// bytes, a need for that many more bytes, or a violation.
pub enum Frame {
    Len(nat),
    Need(nat),
    Bad(ParseError),
}

/// The outcome of one decoder: a value and the position after it, a request for that many
/// more bytes of input, or a violation.
#[derive(Clone, Debug, PartialEq)]
pub enum Step<T> {
    Done(T, usize),
    NeedMore(u64),
    Invalid(ParseError),
}

/// The step that a decoder returns agrees with the frame of the grammar.
pub open spec fn agrees<T>(f: Frame, r: Step<T>) -> bool {
    match f {
        Frame::Len(n) => r is Done && r->Done_1 as nat == n,
        Frame::Need(n) => r is NeedMore && r->NeedMore_0 as nat == n && n > 0,
        Frame::Bad(e) => r == Step::<T>::Invalid(e),
    }
}

pub open spec fn need_len(b: Seq<u8>, n: nat) -> Frame {
    if b.len() < n {
        Frame::Need((n - b.len()) as nat)
    } else {
        Frame::Len(n)
    }
}

pub open spec fn frame_end(f: Frame) -> int {
    match f {
        Frame::Len(n) => n as int,
        _ => 0,
    }
}

/// The field type whose code stands at `p` (any type where the code is unknown).
pub open spec fn type_at(b: Seq<u8>, p: int) -> FieldType {
    match field_type_code(b[p] as int) {
        Some(t) => t,
        None => FieldType::Object,
    }
}

/// The typed value of type `t` stored at `p`.
pub open spec fn value_at(b: Seq<u8>, p: int, t: FieldType) -> FieldValue {
    match t {
        FieldType::Object => FieldValue::Object(u64_at(b, p) as u64),
        FieldType::Bool => FieldValue::Bool(b[p] != 0),
        FieldType::Char => FieldValue::Char(u16_at(b, p) as u16),
        FieldType::Float => FieldValue::Float(u32_at(b, p) as u32),
        FieldType::Double => FieldValue::Double(u64_at(b, p) as u64),
        FieldType::Byte => FieldValue::Byte(signed8(b[p] as nat) as i8),
        FieldType::Short => FieldValue::Short(signed16(u16_at(b, p)) as i16),
        FieldType::Int => FieldValue::Int(signed32(u32_at(b, p)) as i32),
        FieldType::Long => FieldValue::Long(signed64(u64_at(b, p)) as i64),
    }
}

/// The frame of `n` class-dump entries starting at `p`: each is `h` header bytes, the last
/// of them a type code, followed by a value of that type when `valued`. On success, the
/// position after the last entry.
pub open spec fn entries_end(b: Seq<u8>, p: nat, n: nat, h: nat, valued: bool) -> Frame
    decreases n,
{
    if n == 0 {
        Frame::Len(p)
    } else if b.len() < p + h {
        Frame::Need((p + h - b.len()) as nat)
    } else {
        match field_type_code(b[p + h - 1] as int) {
            None => Frame::Bad(ParseError::UnknownFieldType(b[p + h - 1])),
            Some(t) => {
                let q = p + h + if valued {
                    field_width(t)
                } else {
                    0
                };
                if b.len() < q {
                    Frame::Need((q - b.len()) as nat)
                } else {
                    entries_end(b, q, (n - 1) as nat, h, valued)
                }
            },
        }
    }
}

pub open spec fn const_entries(b: Seq<u8>, p: nat, n: nat) -> Seq<(ConstFieldInfo, FieldValue)>
    decreases n,
{
    if n == 0 {
        seq![]
    } else {
        let t = type_at(b, p + 2int);
        seq![
            (
                ConstFieldInfo { const_pool_idx: u16_at(b, p as int) as u16, const_type: t },
                value_at(b, p + 3int, t),
            ),
        ] + const_entries(b, p + 3 + field_width(t), (n - 1) as nat)
    }
}

pub open spec fn static_entries(b: Seq<u8>, p: nat, n: nat) -> Seq<(FieldInfo, FieldValue)>
    decreases n,
{
    if n == 0 {
        seq![]
    } else {
        let t = type_at(b, p + 8int);
        seq![
            (
                FieldInfo { name_id: u64_at(b, p as int) as u64, field_type: t },
                value_at(b, p + 9int, t),
            ),
        ] + static_entries(b, p + 9 + field_width(t), (n - 1) as nat)
    }
}

pub open spec fn instance_entries(b: Seq<u8>, p: nat, n: nat) -> Seq<FieldInfo>
    decreases n,
{
    if n == 0 {
        seq![]
    } else {
        seq![FieldInfo { name_id: u64_at(b, p as int) as u64, field_type: type_at(b, p + 8int) }]
            + instance_entries(b, p + 9, (n - 1) as nat)
    }
}

/// Frame of the constant pool of a class dump.
pub open spec fn const_pool_frame(b: Seq<u8>) -> Frame {
    entries_end(b, CLASS_DUMP_PREFIX_LEN as nat, u16_at(b, 65), 3, true)
}

/// Frame of the constant pool and the static fields of a class dump.
pub open spec fn static_fields_frame(b: Seq<u8>) -> Frame {
    let e1 = frame_end(const_pool_frame(b));
    if b.len() < e1 + 2 {
        Frame::Need((e1 + 2 - b.len()) as nat)
    } else {
        entries_end(b, (e1 + 2) as nat, u16_at(b, e1), 9, true)
    }
}

/// Frame of a whole class dump.
pub open spec fn class_dump_frame(b: Seq<u8>) -> Frame {
    if b.len() < CLASS_DUMP_PREFIX_LEN {
        Frame::Need((CLASS_DUMP_PREFIX_LEN - b.len()) as nat)
    } else {
        match const_pool_frame(b) {
            Frame::Len(_) => {
                match static_fields_frame(b) {
                    Frame::Len(e2) => {
                        if b.len() < e2 + 2 {
                            Frame::Need((e2 + 2 - b.len()) as nat)
                        } else {
                            entries_end(b, e2 + 2, u16_at(b, e2 as int), 9, false)
                        }
                    },
                    other => other,
                }
            },
            other => other,
        }
    }
}

/// Frame of a sub-record of a heap-dump segment, tag included.
pub open spec fn gc_frame(b: Seq<u8>) -> Frame {
    if b.len() < 1 {
        Frame::Need(1)
    } else {
        let tag = b[0];
        if tag == TAG_GC_ROOT_UNKNOWN || tag == TAG_GC_ROOT_STICKY_CLASS || tag
            == TAG_GC_ROOT_MONITOR_USED {
            need_len(b, 9)
        } else if tag == TAG_GC_ROOT_JNI_GLOBAL || tag == TAG_GC_ROOT_JNI_LOCAL || tag
            == TAG_GC_ROOT_JAVA_FRAME || tag == TAG_GC_ROOT_THREAD_OBJ {
            need_len(b, 17)
        } else if tag == TAG_GC_ROOT_NATIVE_STACK || tag == TAG_GC_ROOT_THREAD_BLOCK {
            need_len(b, 13)
        } else if tag == TAG_GC_INSTANCE_DUMP {
            if b.len() < 25 {
                Frame::Need((25 - b.len()) as nat)
            } else {
                need_len(b, 25 + u32_at(b, 21))
            }
        } else if tag == TAG_GC_OBJ_ARRAY_DUMP {
            if b.len() < 25 {
                Frame::Need((25 - b.len()) as nat)
            } else {
                need_len(b, 25 + 8 * u32_at(b, 13))
            }
        } else if tag == TAG_GC_PRIM_ARRAY_DUMP {
            if b.len() < 18 {
                Frame::Need((18 - b.len()) as nat)
            } else {
                match field_type_code(b[17] as int) {
                    None => Frame::Bad(ParseError::UnknownFieldType(b[17])),
                    Some(FieldType::Object) => Frame::Bad(ParseError::ObjectPrimitiveArray),
                    Some(t) => need_len(b, 18 + field_width(t) * u32_at(b, 13)),
                }
            }
        } else if tag == TAG_GC_CLASS_DUMP {
            class_dump_frame(b)
        } else {
            Frame::Bad(ParseError::UnknownSubTag(tag))
        }
    }
}

/// The sub-record `g` is the one encoded at the start of `b`.
pub open spec fn gc_record_matches(b: Seq<u8>, g: GcRecord) -> bool {
    match g {
        GcRecord::RootUnknown { object_id } => b[0] == TAG_GC_ROOT_UNKNOWN && object_id
            == u64_at(b, 1),
        GcRecord::RootJniGlobal { object_id, jni_global_ref_id } => b[0] == TAG_GC_ROOT_JNI_GLOBAL
            && object_id == u64_at(b, 1) && jni_global_ref_id == u64_at(b, 9),
        GcRecord::RootJniLocal { object_id, thread_serial_number, frame_number_in_stack_trace } =>
            b[0] == TAG_GC_ROOT_JNI_LOCAL && object_id == u64_at(b, 1) && thread_serial_number
                == u32_at(b, 9) && frame_number_in_stack_trace == u32_at(b, 13),
        GcRecord::RootJavaFrame { object_id, thread_serial_number, frame_number_in_stack_trace } =>
            b[0] == TAG_GC_ROOT_JAVA_FRAME && object_id == u64_at(b, 1) && thread_serial_number
                == u32_at(b, 9) && frame_number_in_stack_trace == u32_at(b, 13),
        GcRecord::RootNativeStack { object_id, thread_serial_number } => b[0]
            == TAG_GC_ROOT_NATIVE_STACK && object_id == u64_at(b, 1) && thread_serial_number
            == u32_at(b, 9),
        GcRecord::RootStickyClass { object_id } => b[0] == TAG_GC_ROOT_STICKY_CLASS && object_id
            == u64_at(b, 1),
        GcRecord::RootThreadBlock { object_id, thread_serial_number } => b[0]
            == TAG_GC_ROOT_THREAD_BLOCK && object_id == u64_at(b, 1) && thread_serial_number
            == u32_at(b, 9),
        GcRecord::RootMonitorUsed { object_id } => b[0] == TAG_GC_ROOT_MONITOR_USED && object_id
            == u64_at(b, 1),
        GcRecord::RootThreadObject {
            thread_object_id,
            thread_sequence_number,
            stack_sequence_number,
        } => b[0] == TAG_GC_ROOT_THREAD_OBJ && thread_object_id == u64_at(b, 1)
            && thread_sequence_number == u32_at(b, 9) && stack_sequence_number == u32_at(b, 13),
        GcRecord::InstanceDump {
            object_id,
            stack_trace_serial_number,
            class_object_id,
            data_size,
        } => b[0] == TAG_GC_INSTANCE_DUMP && object_id == u64_at(b, 1)
            && stack_trace_serial_number == u32_at(b, 9) && class_object_id == u64_at(b, 13)
            && data_size == u32_at(b, 21),
        GcRecord::ObjectArrayDump {
            object_id,
            stack_trace_serial_number,
            number_of_elements,
            array_class_id,
        } => b[0] == TAG_GC_OBJ_ARRAY_DUMP && object_id == u64_at(b, 1)
            && stack_trace_serial_number == u32_at(b, 9) && number_of_elements == u32_at(b, 13)
            && array_class_id == u64_at(b, 17),
        GcRecord::PrimitiveArrayDump {
            object_id,
            stack_trace_serial_number,
            number_of_elements,
            element_type,
        } => b[0] == TAG_GC_PRIM_ARRAY_DUMP && object_id == u64_at(b, 1)
            && stack_trace_serial_number == u32_at(b, 9) && number_of_elements == u32_at(b, 13)
            && element_type == type_at(b, 17),
        GcRecord::ClassDump {
            class_object_id,
            stack_trace_serial_number,
            super_class_object_id,
            instance_size,
            const_fields,
            static_fields,
            instance_fields,
        } => {
            let e1 = frame_end(const_pool_frame(b));
            let e2 = frame_end(static_fields_frame(b));
            &&& b[0] == TAG_GC_CLASS_DUMP
            &&& class_object_id == u64_at(b, 1)
            &&& stack_trace_serial_number == u32_at(b, 9)
            &&& super_class_object_id == u64_at(b, 13)
            &&& instance_size == u32_at(b, 61)
            &&& const_fields@ == const_entries(b, CLASS_DUMP_PREFIX_LEN as nat, u16_at(b, 65))
            &&& static_fields@ == static_entries(b, (e1 + 2) as nat, u16_at(b, e1))
            &&& instance_fields@ == instance_entries(b, (e2 + 2) as nat, u16_at(b, e2))
        },
    }
}

/// The field type of a type code, if the code is one the dump format defines.
pub fn field_type_of(code: u8) -> (r: Option<FieldType>)
    ensures
        r == field_type_code(code as int),
{
    if code == 2 || (4 <= code && code <= 11) {
        Some(FieldType::from_value(code as i8))
    } else {
        None
    }
}

/// Decodes a value of type `t` at `p`.
pub fn read_value(b: &[u8], p: usize, t: FieldType) -> (r: FieldValue)
    requires
        p + field_width(t) <= b@.len(),
    ensures
        r == value_at(b@, p as int, t),
{
    match t {
        FieldType::Object => FieldValue::Object(parse_u64(b, p)),
        FieldType::Bool => FieldValue::Bool(parse_u8(b, p) != 0),
        FieldType::Char => FieldValue::Char(parse_u16(b, p)),
        FieldType::Float => FieldValue::Float(parse_u32(b, p)),
        FieldType::Double => FieldValue::Double(parse_u64(b, p)),
        FieldType::Byte => FieldValue::Byte(parse_i8(b, p)),
        FieldType::Short => FieldValue::Short(parse_i16(b, p)),
        FieldType::Int => FieldValue::Int(parse_i32(b, p)),
        FieldType::Long => FieldValue::Long(parse_i64(b, p)),
    }
}

/// Decodes the `n` constant-pool entries of a class dump that start at `start`.
fn parse_const_pool(b: &[u8], start: usize, n: u16) -> (r: Step<Vec<(ConstFieldInfo, FieldValue)>>)
    requires
        start <= b@.len(),
    ensures
        agrees(entries_end(b@, start as nat, n as nat, 3, true), r),
        r matches Step::Done(v, _) ==> v@ == const_entries(b@, start as nat, n as nat),
        r matches Step::Done(_, e) ==> start <= e <= b@.len(),
{
    let mut v: Vec<(ConstFieldInfo, FieldValue)> = Vec::new();
    let mut p: usize = start;
    let mut i: u16 = 0;
    while i < n
        invariant
            start <= p <= b@.len(),
            i <= n,
            entries_end(b@, start as nat, n as nat, 3, true) == entries_end(
                b@,
                p as nat,
                (n - i) as nat,
                3,
                true,
            ),
            const_entries(b@, start as nat, n as nat) == v@ + const_entries(
                b@,
                p as nat,
                (n - i) as nat,
            ),
        decreases n - i,
    {
        if b.len() - p < 3 {
            return Step::NeedMore((3 - (b.len() - p)) as u64);
        }
        let code = b[p + 2];
        let t = match field_type_of(code) {
            Some(t) => t,
            None => {
                return Step::Invalid(ParseError::UnknownFieldType(code));
            },
        };
        let w = t.width();
        if b.len() - (p + 3) < w {
            return Step::NeedMore((w - (b.len() - (p + 3))) as u64);
        }
        let entry = (ConstFieldInfo { const_pool_idx: parse_u16(b, p), const_type: t }, read_value(b, p + 3, t));
        proof {
            let rest = const_entries(b@, (p + 3 + w) as nat, (n - i - 1) as nat);
            assert(const_entries(b@, p as nat, (n - i) as nat) == seq![entry] + rest);
            assert(v@.push(entry) + rest =~= v@ + (seq![entry] + rest));
        }
        v.push(entry);
        p = p + 3 + w;
        i = i + 1;
    }
    assert(v@ + const_entries(b@, p as nat, 0) =~= v@);
    Step::Done(v, p)
}

/// Decodes the `n` static-field entries of a class dump that start at `start`.
fn parse_static_fields(b: &[u8], start: usize, n: u16) -> (r: Step<Vec<(FieldInfo, FieldValue)>>)
    requires
        start <= b@.len(),
    ensures
        agrees(entries_end(b@, start as nat, n as nat, 9, true), r),
        r matches Step::Done(v, _) ==> v@ == static_entries(b@, start as nat, n as nat),
        r matches Step::Done(_, e) ==> start <= e <= b@.len(),
{
    let mut v: Vec<(FieldInfo, FieldValue)> = Vec::new();
    let mut p: usize = start;
    let mut i: u16 = 0;
    while i < n
        invariant
            start <= p <= b@.len(),
            i <= n,
            entries_end(b@, start as nat, n as nat, 9, true) == entries_end(
                b@,
                p as nat,
                (n - i) as nat,
                9,
                true,
            ),
            static_entries(b@, start as nat, n as nat) == v@ + static_entries(
                b@,
                p as nat,
                (n - i) as nat,
            ),
        decreases n - i,
    {
        if b.len() - p < 9 {
            return Step::NeedMore((9 - (b.len() - p)) as u64);
        }
        let code = b[p + 8];
        let t = match field_type_of(code) {
            Some(t) => t,
            None => {
                return Step::Invalid(ParseError::UnknownFieldType(code));
            },
        };
        let w = t.width();
        if b.len() - (p + 9) < w {
            return Step::NeedMore((w - (b.len() - (p + 9))) as u64);
        }
        let entry = (FieldInfo { name_id: parse_u64(b, p), field_type: t }, read_value(b, p + 9, t));
        proof {
            let rest = static_entries(b@, (p + 9 + w) as nat, (n - i - 1) as nat);
            assert(static_entries(b@, p as nat, (n - i) as nat) == seq![entry] + rest);
            assert(v@.push(entry) + rest =~= v@ + (seq![entry] + rest));
        }
        v.push(entry);
        p = p + 9 + w;
        i = i + 1;
    }
    assert(v@ + static_entries(b@, p as nat, 0) =~= v@);
    Step::Done(v, p)
}

/// Decodes the `n` instance-field declarations of a class dump that start at `start`.
fn parse_instance_fields(b: &[u8], start: usize, n: u16) -> (r: Step<Vec<FieldInfo>>)
    requires
        start <= b@.len(),
    ensures
        agrees(entries_end(b@, start as nat, n as nat, 9, false), r),
        r matches Step::Done(v, _) ==> v@ == instance_entries(b@, start as nat, n as nat),
        r matches Step::Done(_, e) ==> start <= e <= b@.len(),
{
    let mut v: Vec<FieldInfo> = Vec::new();
    let mut p: usize = start;
    let mut i: u16 = 0;
    while i < n
        invariant
            start <= p <= b@.len(),
            i <= n,
            entries_end(b@, start as nat, n as nat, 9, false) == entries_end(
                b@,
                p as nat,
                (n - i) as nat,
                9,
                false,
            ),
            instance_entries(b@, start as nat, n as nat) == v@ + instance_entries(
                b@,
                p as nat,
                (n - i) as nat,
            ),
        decreases n - i,
    {
        if b.len() - p < 9 {
            return Step::NeedMore((9 - (b.len() - p)) as u64);
        }
        let code = b[p + 8];
        let t = match field_type_of(code) {
            Some(t) => t,
            None => {
                return Step::Invalid(ParseError::UnknownFieldType(code));
            },
        };
        let entry = FieldInfo { name_id: parse_u64(b, p), field_type: t };
        proof {
            let rest = instance_entries(b@, (p + 9) as nat, (n - i - 1) as nat);
            assert(instance_entries(b@, p as nat, (n - i) as nat) == seq![entry] + rest);
            assert(v@.push(entry) + rest =~= v@ + (seq![entry] + rest));
        }
        v.push(entry);
        p = p + 9;
        i = i + 1;
    }
    assert(v@ + instance_entries(b@, p as nat, 0) =~= v@);
    Step::Done(v, p)
}

/// Outcome of a frame of `need` bytes at the start of `b`, whose value is `g`.
fn frame_of<T>(b: &[u8], need: u64, g: T) -> (r: Step<T>)
    ensures
        agrees(need_len(b@, need as nat), r),
        r matches Step::Done(_, n) ==> n == need <= b@.len(),
        r matches Step::Done(v, _) ==> v == g,
{
    let len = b.len() as u64;
    if len < need {
        Step::NeedMore(need - len)
    } else {
        Step::Done(g, need as usize)
    }
}

/// Decodes a class-dump sub-record at the start of `b`.
fn parse_gc_class_dump(b: &[u8]) -> (r: Step<GcRecord>)
    requires
        b@.len() >= 1,
        b@[0] == TAG_GC_CLASS_DUMP,
    ensures
        agrees(class_dump_frame(b@), r),
        r matches Step::Done(_, n) ==> 1 <= n <= b@.len(),
        r matches Step::Done(g, _) ==> gc_record_matches(b@, g),
{
    if b.len() < CLASS_DUMP_PREFIX_LEN {
        return Step::NeedMore((CLASS_DUMP_PREFIX_LEN - b.len()) as u64);
    }
    let const_count = parse_u16(b, 65);
    let (const_fields, e1) = match parse_const_pool(b, CLASS_DUMP_PREFIX_LEN, const_count) {
        Step::Done(v, e) => (v, e),
        Step::NeedMore(k) => {
            return Step::NeedMore(k);
        },
        Step::Invalid(e) => {
            return Step::Invalid(e);
        },
    };
    if b.len() - e1 < 2 {
        return Step::NeedMore((2 - (b.len() - e1)) as u64);
    }
    let static_count = parse_u16(b, e1);
    let (static_fields, e2) = match parse_static_fields(b, e1 + 2, static_count) {
        Step::Done(v, e) => (v, e),
        Step::NeedMore(k) => {
            return Step::NeedMore(k);
        },
        Step::Invalid(e) => {
            return Step::Invalid(e);
        },
    };
    if b.len() - e2 < 2 {
        return Step::NeedMore((2 - (b.len() - e2)) as u64);
    }
    let instance_count = parse_u16(b, e2);
    let (instance_fields, e3) = match parse_instance_fields(b, e2 + 2, instance_count) {
        Step::Done(v, e) => (v, e),
        Step::NeedMore(k) => {
            return Step::NeedMore(k);
        },
        Step::Invalid(e) => {
            return Step::Invalid(e);
        },
    };
    let g = GcRecord::ClassDump {
        class_object_id: parse_u64(b, 1),
        stack_trace_serial_number: parse_u32(b, 9),
        super_class_object_id: parse_u64(b, 13),
        instance_size: parse_u32(b, 61),
        const_fields,
        static_fields,
        instance_fields,
    };
    Step::Done(g, e3)
}

/// Decodes the heap-dump sub-record at the start of `b`.
pub fn parse_gc_record(b: &[u8]) -> (r: Step<GcRecord>)
    ensures
        agrees(gc_frame(b@), r),
        r matches Step::Done(_, n) ==> 1 <= n <= b@.len(),
        r matches Step::Done(g, _) ==> gc_record_matches(b@, g),
{
    if b.len() < 1 {
        return Step::NeedMore(1);
    }
    let tag = b[0];
    let len = b.len() as u64;
    if tag == TAG_GC_ROOT_UNKNOWN || tag == TAG_GC_ROOT_STICKY_CLASS || tag
        == TAG_GC_ROOT_MONITOR_USED {
        if b.len() < 9 {
            return Step::NeedMore(9 - len);
        }
        let object_id = parse_u64(b, 1);
        let g = if tag == TAG_GC_ROOT_UNKNOWN {
            GcRecord::RootUnknown { object_id }
        } else if tag == TAG_GC_ROOT_STICKY_CLASS {
            GcRecord::RootStickyClass { object_id }
        } else {
            GcRecord::RootMonitorUsed { object_id }
        };
        Step::Done(g, 9)
    } else if tag == TAG_GC_ROOT_JNI_GLOBAL || tag == TAG_GC_ROOT_JNI_LOCAL || tag
        == TAG_GC_ROOT_JAVA_FRAME || tag == TAG_GC_ROOT_THREAD_OBJ {
        if b.len() < 17 {
            return Step::NeedMore(17 - len);
        }
        let id = parse_u64(b, 1);
        let g = if tag == TAG_GC_ROOT_JNI_GLOBAL {
            GcRecord::RootJniGlobal { object_id: id, jni_global_ref_id: parse_u64(b, 9) }
        } else if tag == TAG_GC_ROOT_JNI_LOCAL {
            GcRecord::RootJniLocal {
                object_id: id,
                thread_serial_number: parse_u32(b, 9),
                frame_number_in_stack_trace: parse_u32(b, 13),
            }
        } else if tag == TAG_GC_ROOT_JAVA_FRAME {
            GcRecord::RootJavaFrame {
                object_id: id,
                thread_serial_number: parse_u32(b, 9),
                frame_number_in_stack_trace: parse_u32(b, 13),
            }
        } else {
            GcRecord::RootThreadObject {
                thread_object_id: id,
                thread_sequence_number: parse_u32(b, 9),
                stack_sequence_number: parse_u32(b, 13),
            }
        };
        Step::Done(g, 17)
    } else if tag == TAG_GC_ROOT_NATIVE_STACK || tag == TAG_GC_ROOT_THREAD_BLOCK {
        if b.len() < 13 {
            return Step::NeedMore(13 - len);
        }
        let object_id = parse_u64(b, 1);
        let thread_serial_number = parse_u32(b, 9);
        let g = if tag == TAG_GC_ROOT_NATIVE_STACK {
            GcRecord::RootNativeStack { object_id, thread_serial_number }
        } else {
            GcRecord::RootThreadBlock { object_id, thread_serial_number }
        };
        Step::Done(g, 13)
    } else if tag == TAG_GC_INSTANCE_DUMP {
        if b.len() < 25 {
            return Step::NeedMore(25 - len);
        }
        let data_size = parse_u32(b, 21);
        let g = GcRecord::InstanceDump {
            object_id: parse_u64(b, 1),
            stack_trace_serial_number: parse_u32(b, 9),
            class_object_id: parse_u64(b, 13),
            data_size,
        };
        frame_of(b, 25 + data_size as u64, g)
    } else if tag == TAG_GC_OBJ_ARRAY_DUMP {
        if b.len() < 25 {
            return Step::NeedMore(25 - len);
        }
        let number_of_elements = parse_u32(b, 13);
        let g = GcRecord::ObjectArrayDump {
            object_id: parse_u64(b, 1),
            stack_trace_serial_number: parse_u32(b, 9),
            number_of_elements,
            array_class_id: parse_u64(b, 17),
        };
        frame_of(b, 25 + 8 * number_of_elements as u64, g)
    } else if tag == TAG_GC_PRIM_ARRAY_DUMP {
        if b.len() < 18 {
            return Step::NeedMore(18 - len);
        }
        let code = b[17];
        let element_type = match field_type_of(code) {
            None => {
                return Step::Invalid(ParseError::UnknownFieldType(code));
            },
            Some(FieldType::Object) => {
                return Step::Invalid(ParseError::ObjectPrimitiveArray);
            },
            Some(t) => t,
        };
        let number_of_elements = parse_u32(b, 13);
        let g = GcRecord::PrimitiveArrayDump {
            object_id: parse_u64(b, 1),
            stack_trace_serial_number: parse_u32(b, 9),
            number_of_elements,
            element_type,
        };
        let w = element_type.width() as u64;
        let n = number_of_elements as u64;
        assert(w * n <= 8 * 0xffff_ffff) by (nonlinear_arith)
            requires
                w <= 8,
                n <= 0xffff_ffff,
        ;
        frame_of(b, 18 + w * n, g)
    } else if tag == TAG_GC_CLASS_DUMP {
        parse_gc_class_dump(b)
    } else {
        Step::Invalid(ParseError::UnknownSubTag(tag))
    }
}

/// The tags of top-level records.
pub open spec fn top_tag_known(tag: u8) -> bool {
    tag == TAG_STRING || tag == TAG_LOAD_CLASS || tag == TAG_UNLOAD_CLASS || tag
        == TAG_STACK_FRAME || tag == TAG_STACK_TRACE || tag == TAG_ALLOC_SITES || tag
        == TAG_HEAP_SUMMARY || tag == TAG_START_THREAD || tag == TAG_END_THREAD || tag
        == TAG_HEAP_DUMP || tag == TAG_CPU_SAMPLES || tag == TAG_CONTROL_SETTING || tag
        == TAG_HEAP_DUMP_SEGMENT || tag == TAG_HEAP_DUMP_END
}

/// The tags of records that open a heap-dump segment.
pub open spec fn opens_segment(tag: u8) -> bool {
    tag == TAG_HEAP_DUMP || tag == TAG_HEAP_DUMP_SEGMENT
}

/// The body length `len` fits the layout of records with this tag.
pub open spec fn body_len_fits(tag: u8, len: nat) -> bool {
    if tag == TAG_STRING {
        len >= 8
    } else if tag == TAG_LOAD_CLASS || tag == TAG_HEAP_SUMMARY {
        len == 24
    } else if tag == TAG_UNLOAD_CLASS || tag == TAG_END_THREAD {
        len == 4
    } else if tag == TAG_STACK_FRAME || tag == TAG_START_THREAD {
        len == 40
    } else if tag == TAG_STACK_TRACE {
        len >= 12 && (len - 12) % 8 == 0
    } else if tag == TAG_ALLOC_SITES {
        len >= 34 && (len - 34) % 25 == 0
    } else if tag == TAG_CPU_SAMPLES {
        len >= 8 && (len - 8) % 8 == 0
    } else if tag == TAG_CONTROL_SETTING {
        len == 6
    } else {
        true
    }
}

/// Frame of the top-level record at the start of `b`. A record that opens a heap-dump
/// segment, and the one that ends the dump, take their header alone.
pub open spec fn top_frame(b: Seq<u8>) -> Frame {
    if b.len() < 1 {
        Frame::Need(1)
    } else if !top_tag_known(b[0]) {
        Frame::Bad(ParseError::UnknownTag(b[0]))
    } else if b.len() < RECORD_HEADER_LEN {
        Frame::Need((RECORD_HEADER_LEN - b.len()) as nat)
    } else if opens_segment(b[0]) || b[0] == TAG_HEAP_DUMP_END {
        Frame::Len(RECORD_HEADER_LEN as nat)
    } else if !body_len_fits(b[0], u32_at(b, 5)) {
        Frame::Bad(ParseError::BadRecordLength(b[0]))
    } else {
        need_len(b, (RECORD_HEADER_LEN + u32_at(b, 5)) as nat)
    }
}

pub open spec fn ids_at(b: Seq<u8>, p: int, n: nat) -> Seq<u64> {
    Seq::new(n, |i: int| u64_at(b, p + 8 * i) as u64)
}

pub open spec fn site_at(b: Seq<u8>, p: int) -> AllocationSite {
    AllocationSite {
        is_array: b[p],
        class_serial_number: u32_at(b, p + 1) as u32,
        stack_trace_serial_number: u32_at(b, p + 5) as u32,
        bytes_alive: u32_at(b, p + 9) as u32,
        instances_alive: u32_at(b, p + 13) as u32,
        bytes_allocated: u32_at(b, p + 17) as u32,
        instances_allocated: u32_at(b, p + 21) as u32,
    }
}

pub open spec fn sites_at(b: Seq<u8>, p: int, n: nat) -> Seq<AllocationSite> {
    Seq::new(n, |i: int| site_at(b, p + 25 * i))
}

pub open spec fn samples_at(b: Seq<u8>, p: int, n: nat) -> Seq<CpuSample> {
    Seq::new(
        n,
        |i: int|
            CpuSample {
                number_of_samples: u32_at(b, p + 8 * i) as u32,
                stack_trace_serial_number: u32_at(b, p + 8 * i + 4) as u32,
            },
    )
}

/// The top-level record `r` is the one encoded at the start of `b`.
pub open spec fn record_matches(b: Seq<u8>, r: Record) -> bool {
    let len = u32_at(b, 5);
    match r {
        Record::Utf8String { id, str } => b[0] == TAG_STRING && id == u64_at(b, 9) && str@
            == utf8_lossy(b.subrange(17, 9 + len as int)),
        Record::LoadClass(d) => b[0] == TAG_LOAD_CLASS && d.serial_number == u32_at(b, 9)
            && d.class_object_id == u64_at(b, 13) && d.stack_trace_serial_number == u32_at(b, 21)
            && d.class_name_id == u64_at(b, 25),
        Record::UnloadClass { serial_number } => b[0] == TAG_UNLOAD_CLASS && serial_number
            == u32_at(b, 9),
        Record::StackFrame(d) => b[0] == TAG_STACK_FRAME && d.stack_frame_id == u64_at(b, 9)
            && d.method_name_id == u64_at(b, 17) && d.method_signature_id == u64_at(b, 25)
            && d.source_file_name_id == u64_at(b, 33) && d.class_serial_number == u32_at(b, 41)
            && d.line_number == signed32(u32_at(b, 45)),
        Record::StackTrace(d) => b[0] == TAG_STACK_TRACE && d.serial_number == u32_at(b, 9)
            && d.thread_serial_number == u32_at(b, 13) && d.number_of_frames == u32_at(b, 17)
            && d.stack_frame_ids@ == ids_at(b, 21, ((len - 12) / 8) as nat),
        Record::AllocationSites {
            flags,
            cutoff_ratio,
            total_live_bytes,
            total_live_instances,
            total_bytes_allocated,
            total_instances_allocated,
            number_of_sites,
            allocation_sites,
        } => b[0] == TAG_ALLOC_SITES && flags == u16_at(b, 9) && cutoff_ratio == u32_at(b, 11)
            && total_live_bytes == u32_at(b, 15) && total_live_instances == u32_at(b, 19)
            && total_bytes_allocated == u64_at(b, 23) && total_instances_allocated == u64_at(
            b,
            31,
        ) && number_of_sites == u32_at(b, 39) && allocation_sites@ == sites_at(
            b,
            43,
            ((len - 34) / 25) as nat,
        ),
        Record::StartThread {
            thread_serial_number,
            thread_object_id,
            stack_trace_serial_number,
            thread_name_id,
            thread_group_name_id,
            thread_group_parent_name_id,
        } => b[0] == TAG_START_THREAD && thread_serial_number == u32_at(b, 9) && thread_object_id
            == u64_at(b, 13) && stack_trace_serial_number == u32_at(b, 21) && thread_name_id
            == u64_at(b, 25) && thread_group_name_id == u64_at(b, 33)
            && thread_group_parent_name_id == u64_at(b, 41),
        Record::EndThread { thread_serial_number } => b[0] == TAG_END_THREAD
            && thread_serial_number == u32_at(b, 9),
        Record::HeapSummary {
            total_live_bytes,
            total_live_instances,
            total_bytes_allocated,
            total_instances_allocated,
        } => b[0] == TAG_HEAP_SUMMARY && total_live_bytes == u32_at(b, 9) && total_live_instances
            == u32_at(b, 13) && total_bytes_allocated == u64_at(b, 17)
            && total_instances_allocated == u64_at(b, 25),
        Record::HeapDumpStart { length } => opens_segment(b[0]) && length == len,
        Record::HeapDumpEnd { length } => b[0] == TAG_HEAP_DUMP_END && length == len,
        Record::ControlSettings { flags, stack_trace_depth } => b[0] == TAG_CONTROL_SETTING
            && flags == u32_at(b, 9) && stack_trace_depth == u16_at(b, 13),
        Record::CpuSamples { total_number_of_samples, number_of_traces, cpu_samples } => b[0]
            == TAG_CPU_SAMPLES && total_number_of_samples == u32_at(b, 9) && number_of_traces
            == u32_at(b, 13) && cpu_samples@ == samples_at(b, 17, ((len - 8) / 8) as nat),
        Record::GcSegment(_) => false,
    }
}

/// Decodes the (timestamp, length) header that follows the tag of a top-level record.
pub fn parse_header_record(b: &[u8]) -> (r: RecordHeader)
    requires
        b@.len() >= RECORD_HEADER_LEN,
    ensures
        r.timestamp == u32_at(b@, 1),
        r.length == u32_at(b@, 5),
{
    RecordHeader { timestamp: parse_u32(b, 1), length: parse_u32(b, 5) }
}

fn is_top_tag(tag: u8) -> (r: bool)
    ensures
        r == top_tag_known(tag),
{
    tag == TAG_STRING || tag == TAG_LOAD_CLASS || tag == TAG_UNLOAD_CLASS || tag
        == TAG_STACK_FRAME || tag == TAG_STACK_TRACE || tag == TAG_ALLOC_SITES || tag
        == TAG_HEAP_SUMMARY || tag == TAG_START_THREAD || tag == TAG_END_THREAD || tag
        == TAG_HEAP_DUMP || tag == TAG_CPU_SAMPLES || tag == TAG_CONTROL_SETTING || tag
        == TAG_HEAP_DUMP_SEGMENT || tag == TAG_HEAP_DUMP_END
}

fn body_len_ok(tag: u8, len: u32) -> (r: bool)
    ensures
        r == body_len_fits(tag, len as nat),
{
    if tag == TAG_STRING {
        len >= 8
    } else if tag == TAG_LOAD_CLASS || tag == TAG_HEAP_SUMMARY {
        len == 24
    } else if tag == TAG_UNLOAD_CLASS || tag == TAG_END_THREAD {
        len == 4
    } else if tag == TAG_STACK_FRAME || tag == TAG_START_THREAD {
        len == 40
    } else if tag == TAG_STACK_TRACE {
        len >= 12 && (len - 12) % 8 == 0
    } else if tag == TAG_ALLOC_SITES {
        len >= 34 && (len - 34) % 25 == 0
    } else if tag == TAG_CPU_SAMPLES {
        len >= 8 && (len - 8) % 8 == 0
    } else if tag == TAG_CONTROL_SETTING {
        len == 6
    } else {
        true
    }
}

fn read_ids(b: &[u8], p: usize, n: usize) -> (r: Vec<u64>)
    requires
        p + 8 * n <= b@.len(),
    ensures
        r@ == ids_at(b@, p as int, n as nat),
{
    let mut v: Vec<u64> = Vec::new();
    let mut i: usize = 0;
    assert(b@.len() == b.len());
    while i < n
        invariant
            p + 8 * n <= b@.len() <= usize::MAX,
            i <= n,
            v@ == ids_at(b@, p as int, i as nat),
        decreases n - i,
    {
        v.push(parse_u64(b, p + 8 * i));
        i = i + 1;
        assert(v@ =~= ids_at(b@, p as int, i as nat));
    }
    v
}

fn read_sites(b: &[u8], p: usize, n: usize) -> (r: Vec<AllocationSite>)
    requires
        p + 25 * n <= b@.len(),
    ensures
        r@ == sites_at(b@, p as int, n as nat),
{
    let mut v: Vec<AllocationSite> = Vec::new();
    let mut i: usize = 0;
    assert(b@.len() == b.len());
    while i < n
        invariant
            p + 25 * n <= b@.len() <= usize::MAX,
            i <= n,
            v@ == sites_at(b@, p as int, i as nat),
        decreases n - i,
    {
        let q = p + 25 * i;
        v.push(
            AllocationSite {
                is_array: parse_u8(b, q),
                class_serial_number: parse_u32(b, q + 1),
                stack_trace_serial_number: parse_u32(b, q + 5),
                bytes_alive: parse_u32(b, q + 9),
                instances_alive: parse_u32(b, q + 13),
                bytes_allocated: parse_u32(b, q + 17),
                instances_allocated: parse_u32(b, q + 21),
            },
        );
        i = i + 1;
        assert(v@ =~= sites_at(b@, p as int, i as nat));
    }
    v
}

fn read_samples(b: &[u8], p: usize, n: usize) -> (r: Vec<CpuSample>)
    requires
        p + 8 * n <= b@.len(),
    ensures
        r@ == samples_at(b@, p as int, n as nat),
{
    let mut v: Vec<CpuSample> = Vec::new();
    let mut i: usize = 0;
    assert(b@.len() == b.len());
    while i < n
        invariant
            p + 8 * n <= b@.len() <= usize::MAX,
            i <= n,
            v@ == samples_at(b@, p as int, i as nat),
        decreases n - i,
    {
        let q = p + 8 * i;
        v.push(
            CpuSample {
                number_of_samples: parse_u32(b, q),
                stack_trace_serial_number: parse_u32(b, q + 4),
            },
        );
        i = i + 1;
        assert(v@ =~= samples_at(b@, p as int, i as nat));
    }
    v
}

/// Decodes the top-level record at the start of `b`.
pub fn parse_top_record(b: &[u8]) -> (r: Step<Record>)
    ensures
        agrees(top_frame(b@), r),
        r matches Step::Done(_, n) ==> 1 <= n <= b@.len(),
        r matches Step::Done(rec, _) ==> record_matches(b@, rec),
{
    if b.len() < 1 {
        return Step::NeedMore(1);
    }
    let tag = b[0];
    if !is_top_tag(tag) {
        return Step::Invalid(ParseError::UnknownTag(tag));
    }
    if b.len() < RECORD_HEADER_LEN {
        return Step::NeedMore((RECORD_HEADER_LEN - b.len()) as u64);
    }
    let length = parse_header_record(b).length;
    if tag == TAG_HEAP_DUMP || tag == TAG_HEAP_DUMP_SEGMENT {
        return Step::Done(Record::HeapDumpStart { length }, RECORD_HEADER_LEN);
    }
    if tag == TAG_HEAP_DUMP_END {
        return Step::Done(Record::HeapDumpEnd { length }, RECORD_HEADER_LEN);
    }
    if !body_len_ok(tag, length) {
        return Step::Invalid(ParseError::BadRecordLength(tag));
    }
    let total = RECORD_HEADER_LEN as u64 + length as u64;
    if (b.len() as u64) < total {
        return Step::NeedMore(total - b.len() as u64);
    }
    let end = total as usize;
    let rec = if tag == TAG_STRING {
        let text = lossy_string(slice_subrange(b, 17, end));
        Record::Utf8String { id: parse_u64(b, 9), str: text }
    } else if tag == TAG_LOAD_CLASS {
        Record::LoadClass(
            LoadClassData {
                serial_number: parse_u32(b, 9),
                class_object_id: parse_u64(b, 13),
                stack_trace_serial_number: parse_u32(b, 21),
                class_name_id: parse_u64(b, 25),
            },
        )
    } else if tag == TAG_UNLOAD_CLASS {
        Record::UnloadClass { serial_number: parse_u32(b, 9) }
    } else if tag == TAG_STACK_FRAME {
        Record::StackFrame(
            StackFrameData {
                stack_frame_id: parse_u64(b, 9),
                method_name_id: parse_u64(b, 17),
                method_signature_id: parse_u64(b, 25),
                source_file_name_id: parse_u64(b, 33),
                class_serial_number: parse_u32(b, 41),
                line_number: parse_i32(b, 45),
            },
        )
    } else if tag == TAG_STACK_TRACE {
        let n = ((length - 12) / 8) as usize;
        Record::StackTrace(
            StackTraceData {
                serial_number: parse_u32(b, 9),
                thread_serial_number: parse_u32(b, 13),
                number_of_frames: parse_u32(b, 17),
                stack_frame_ids: read_ids(b, 21, n),
            },
        )
    } else if tag == TAG_ALLOC_SITES {
        let n = ((length - 34) / 25) as usize;
        Record::AllocationSites {
            flags: parse_u16(b, 9),
            cutoff_ratio: parse_u32(b, 11),
            total_live_bytes: parse_u32(b, 15),
            total_live_instances: parse_u32(b, 19),
            total_bytes_allocated: parse_u64(b, 23),
            total_instances_allocated: parse_u64(b, 31),
            number_of_sites: parse_u32(b, 39),
            allocation_sites: read_sites(b, 43, n),
        }
    } else if tag == TAG_HEAP_SUMMARY {
        Record::HeapSummary {
            total_live_bytes: parse_u32(b, 9),
            total_live_instances: parse_u32(b, 13),
            total_bytes_allocated: parse_u64(b, 17),
            total_instances_allocated: parse_u64(b, 25),
        }
    } else if tag == TAG_START_THREAD {
        Record::StartThread {
            thread_serial_number: parse_u32(b, 9),
            thread_object_id: parse_u64(b, 13),
            stack_trace_serial_number: parse_u32(b, 21),
            thread_name_id: parse_u64(b, 25),
            thread_group_name_id: parse_u64(b, 33),
            thread_group_parent_name_id: parse_u64(b, 41),
        }
    } else if tag == TAG_END_THREAD {
        Record::EndThread { thread_serial_number: parse_u32(b, 9) }
    } else if tag == TAG_CPU_SAMPLES {
        let n = ((length - 8) / 8) as usize;
        Record::CpuSamples {
            total_number_of_samples: parse_u32(b, 9),
            number_of_traces: parse_u32(b, 13),
            cpu_samples: read_samples(b, 17, n),
        }
    } else {
        Record::ControlSettings { flags: parse_u32(b, 9), stack_trace_depth: parse_u16(b, 13) }
    };
    Step::Done(rec, end)
}

} // verus!
