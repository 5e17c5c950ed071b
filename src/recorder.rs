//! The recorder stage: folds batches of records into the aggregation state that the
//! reports are rendered from.
use vstd::prelude::*;
use crate::errors::HprofSlurpError;
use crate::grammar::field_type_of;
use crate::keyed::Keyed;
use crate::records::field_type_code;
use crate::rendered_result::{ClassAllocationStats, RenderedResult};
use crate::strings::{
    adjacent_equal, array_element_name, array_element_name_of, dotted, dotted_name, push_char,
    sort_ids, sort_texts, sorted_texts_of, text_lines, texts,
};
use crate::utils::{decimal, push_decimal, push_signed_decimal, signed_decimal};
use crate::records::{FieldType, GcRecord, LoadClassData, Record, StackFrameData, StackTraceData};

verus! {

/// Size information of a class, from its class dump.
#[derive(Clone, Copy, Debug, PartialEq, Eq, Structural)]
pub struct ClassInfo {
    pub super_class_object_id: u64,
    pub instance_size: u32,
}

impl ClassInfo {
    pub fn new(super_class_object_id: u64, instance_size: u32) -> (r: Self)
        ensures
            r.super_class_object_id == super_class_object_id,
            r.instance_size == instance_size,
    {
        ClassInfo { super_class_object_id, instance_size }
    }
}

/// The number of instance dumps seen for a class.
#[derive(Clone, Copy, Debug, PartialEq, Eq, Structural)]
pub struct ClassInstanceCounter {
    pub number_of_instances: u64,
}

impl ClassInstanceCounter {
    pub fn add_instance(&mut self)
        requires
            old(self).number_of_instances < u64::MAX,
        ensures
            final(self).number_of_instances == old(self).number_of_instances + 1,
    {
        self.number_of_instances = self.number_of_instances + 1;
    }

    pub fn empty() -> (r: ClassInstanceCounter)
        ensures
            r.number_of_instances == 0,
    {
        ClassInstanceCounter { number_of_instances: 0 }
    }
}

/// Arrays seen for one element type or one array class: how many, the longest, and
/// the elements of all of them.
#[derive(Clone, Copy, Debug, PartialEq, Eq, Structural)]
pub struct ArrayCounter {
    pub number_of_arrays: u64,
    pub max_size_seen: u32,
    pub total_number_of_elements: u64,
}

/// The counter after one more array of `elements` elements.
pub open spec fn array_added(c: ArrayCounter, elements: u32) -> ArrayCounter {
    ArrayCounter {
        number_of_arrays: (c.number_of_arrays + 1) as u64,
        max_size_seen: if elements > c.max_size_seen {
            elements
        } else {
            c.max_size_seen
        },
        total_number_of_elements: (c.total_number_of_elements + elements) as u64,
    }
}

/// One more array fits in the counter without overflow.
pub open spec fn array_room(c: ArrayCounter, elements: u32) -> bool {
    c.number_of_arrays < u64::MAX && c.total_number_of_elements + elements <= u64::MAX
}

impl ArrayCounter {
    pub fn add_elements_from_array(&mut self, elements: u32)
        requires
            array_room(*old(self), elements),
        ensures
            *final(self) == array_added(*old(self), elements),
    {
        self.number_of_arrays = self.number_of_arrays + 1;
        self.total_number_of_elements = self.total_number_of_elements + elements as u64;
        if elements > self.max_size_seen {
            self.max_size_seen = elements;
        }
    }

    pub fn empty() -> (r: ArrayCounter)
        ensures
            r == (ArrayCounter { number_of_arrays: 0, max_size_seen: 0, total_number_of_elements: 0 }),
    {
        ArrayCounter { number_of_arrays: 0, total_number_of_elements: 0, max_size_seen: 0 }
    }
}

/// Counters of the records seen, by kind, at these positions.
pub const COUNT_CLASSES_UNLOADED: usize = 0;
pub const COUNT_STACK_FRAMES: usize = 1;
pub const COUNT_STACK_TRACES: usize = 2;
pub const COUNT_START_THREADS: usize = 3;
pub const COUNT_END_THREADS: usize = 4;
pub const COUNT_HEAP_SUMMARIES: usize = 5;
pub const COUNT_HEAP_DUMPS: usize = 6;
pub const COUNT_ALLOCATION_SITES: usize = 7;
pub const COUNT_CONTROL_SETTINGS: usize = 8;
pub const COUNT_CPU_SAMPLES: usize = 9;
pub const COUNT_ALL_SUB_RECORDS: usize = 10;
pub const COUNT_ROOT_UNKNOWN: usize = 11;
pub const COUNT_ROOT_THREAD_OBJECT: usize = 12;
pub const COUNT_ROOT_JNI_GLOBAL: usize = 13;
pub const COUNT_ROOT_JNI_LOCAL: usize = 14;
pub const COUNT_ROOT_JAVA_FRAME: usize = 15;
pub const COUNT_ROOT_NATIVE_STACK: usize = 16;
pub const COUNT_ROOT_STICKY_CLASS: usize = 17;
pub const COUNT_ROOT_THREAD_BLOCK: usize = 18;
pub const COUNT_ROOT_MONITOR_USED: usize = 19;
pub const COUNT_OBJECT_ARRAY_DUMP: usize = 20;
pub const COUNT_INSTANCE_DUMP: usize = 21;
pub const COUNT_PRIMITIVE_ARRAY_DUMP: usize = 22;
pub const COUNT_CLASS_DUMP: usize = 23;
pub const NUMBER_OF_COUNTERS: usize = 24;

/// The counter that a record adds to (none: -1); a sub-record adds to the count of all
/// sub-records.
pub open spec fn record_counter(r: Record) -> int {
    match r {
        Record::UnloadClass { .. } => COUNT_CLASSES_UNLOADED as int,
        Record::StackFrame(_) => COUNT_STACK_FRAMES as int,
        Record::StackTrace(_) => COUNT_STACK_TRACES as int,
        Record::StartThread { .. } => COUNT_START_THREADS as int,
        Record::EndThread { .. } => COUNT_END_THREADS as int,
        Record::HeapSummary { .. } => COUNT_HEAP_SUMMARIES as int,
        Record::HeapDumpStart { .. } => COUNT_HEAP_DUMPS as int,
        Record::AllocationSites { .. } => COUNT_ALLOCATION_SITES as int,
        Record::ControlSettings { .. } => COUNT_CONTROL_SETTINGS as int,
        Record::CpuSamples { .. } => COUNT_CPU_SAMPLES as int,
        Record::GcSegment(_) => COUNT_ALL_SUB_RECORDS as int,
        _ => -1,
    }
}

/// The counter of the kind of sub-record (none: -1).
pub open spec fn sub_record_counter(r: Record) -> int {
    match r {
        Record::GcSegment(g) => match g {
            GcRecord::RootUnknown { .. } => COUNT_ROOT_UNKNOWN as int,
            GcRecord::RootThreadObject { .. } => COUNT_ROOT_THREAD_OBJECT as int,
            GcRecord::RootJniGlobal { .. } => COUNT_ROOT_JNI_GLOBAL as int,
            GcRecord::RootJniLocal { .. } => COUNT_ROOT_JNI_LOCAL as int,
            GcRecord::RootJavaFrame { .. } => COUNT_ROOT_JAVA_FRAME as int,
            GcRecord::RootNativeStack { .. } => COUNT_ROOT_NATIVE_STACK as int,
            GcRecord::RootStickyClass { .. } => COUNT_ROOT_STICKY_CLASS as int,
            GcRecord::RootThreadBlock { .. } => COUNT_ROOT_THREAD_BLOCK as int,
            GcRecord::RootMonitorUsed { .. } => COUNT_ROOT_MONITOR_USED as int,
            GcRecord::ObjectArrayDump { .. } => COUNT_OBJECT_ARRAY_DUMP as int,
            GcRecord::InstanceDump { .. } => COUNT_INSTANCE_DUMP as int,
            GcRecord::PrimitiveArrayDump { .. } => COUNT_PRIMITIVE_ARRAY_DUMP as int,
            GcRecord::ClassDump { .. } => COUNT_CLASS_DUMP as int,
        },
        _ => -1,
    }
}

/// Adds one to counter `k`, if there is one; a counter stops at its maximum.
pub open spec fn bump(s: Seq<u64>, k: int) -> Seq<u64> {
    if 0 <= k < s.len() && s[k] < u64::MAX {
        s.update(k, (s[k] + 1) as u64)
    } else {
        s
    }
}

/// The number that the dump format gives a field type.
pub open spec fn field_type_number(t: FieldType) -> u64 {
    match t {
        FieldType::Object => 2,
        FieldType::Bool => 4,
        FieldType::Char => 5,
        FieldType::Float => 6,
        FieldType::Double => 7,
        FieldType::Byte => 8,
        FieldType::Short => 9,
        FieldType::Int => 10,
        FieldType::Long => 11,
    }
}

pub fn type_number(t: FieldType) -> (r: u64)
    ensures
        r == field_type_number(t),
{
    match t {
        FieldType::Object => 2,
        FieldType::Bool => 4,
        FieldType::Char => 5,
        FieldType::Float => 6,
        FieldType::Double => 7,
        FieldType::Byte => 8,
        FieldType::Short => 9,
        FieldType::Int => 10,
        FieldType::Long => 11,
    }
}

/// The width of one element of a primitive array; object references are not primitives.
pub fn primitive_byte_size(field_type: FieldType) -> (r: u64)
    requires
        field_type != FieldType::Object,
    ensures
        r as nat == crate::records::field_width(field_type),
{
    match field_type {
        FieldType::Byte | FieldType::Bool => 1,
        FieldType::Char | FieldType::Short => 2,
        FieldType::Float | FieldType::Int => 4,
        FieldType::Double | FieldType::Long | FieldType::Object => 8,
    }
}

/// The counter after one more array, unless it would overflow.
pub open spec fn array_counted(m: Map<u64, ArrayCounter>, k: u64, elements: u32) -> Map<u64, ArrayCounter> {
    let c = if m.contains_key(k) {
        m[k]
    } else {
        ArrayCounter { number_of_arrays: 0, max_size_seen: 0, total_number_of_elements: 0 }
    };
    m.insert(
        k,
        if array_room(c, elements) {
            array_added(c, elements)
        } else {
            c
        },
    )
}

/// The aggregation state, as mathematical maps from ids.
pub struct RecorderModel {
    pub strings: Map<u64, String>,
    pub classes_by_id: Map<u64, LoadClassData>,
    pub classes_by_serial: Map<u64, LoadClassData>,
    pub class_info: Map<u64, ClassInfo>,
    pub instances: Map<u64, ClassInstanceCounter>,
    pub primitive_arrays: Map<u64, ArrayCounter>,
    pub object_arrays: Map<u64, ArrayCounter>,
    pub stack_frames: Map<u64, StackFrameData>,
    pub stack_traces: Map<u64, StackTraceData>,
    pub counts: Seq<u64>,
}

/// The state after one more record. A string, a loaded class, a stack frame or a stack
/// trace replaces an earlier one with the same id; the first class dump of a class is
/// the one kept.
pub open spec fn model_step(m: RecorderModel, r: Record) -> RecorderModel {
    let counts = bump(bump(m.counts, record_counter(r)), sub_record_counter(r));
    match r {
        Record::Utf8String { id, str } => RecorderModel { strings: m.strings.insert(id, str), counts, ..m },
        Record::LoadClass(d) => RecorderModel {
            classes_by_id: m.classes_by_id.insert(d.class_object_id, d),
            classes_by_serial: m.classes_by_serial.insert(d.serial_number as u64, d),
            counts,
            ..m
        },
        Record::StackFrame(d) => RecorderModel {
            stack_frames: m.stack_frames.insert(d.stack_frame_id, d),
            counts,
            ..m
        },
        Record::StackTrace(d) => RecorderModel {
            stack_traces: m.stack_traces.insert(d.serial_number as u64, d),
            counts,
            ..m
        },
        Record::GcSegment(GcRecord::InstanceDump { class_object_id, .. }) => {
            let c = if m.instances.contains_key(class_object_id) {
                m.instances[class_object_id].number_of_instances
            } else {
                0
            };
            let n = if c < u64::MAX {
                (c + 1) as u64
            } else {
                c
            };
            RecorderModel {
                instances: m.instances.insert(class_object_id, ClassInstanceCounter { number_of_instances: n }),
                counts,
                ..m
            }
        },
        Record::GcSegment(GcRecord::ObjectArrayDump { number_of_elements, array_class_id, .. }) =>
            RecorderModel {
            object_arrays: array_counted(m.object_arrays, array_class_id, number_of_elements),
            counts,
            ..m
        },
        Record::GcSegment(GcRecord::PrimitiveArrayDump { number_of_elements, element_type, .. }) =>
            RecorderModel {
            primitive_arrays: array_counted(
                m.primitive_arrays,
                field_type_number(element_type),
                number_of_elements,
            ),
            counts,
            ..m
        },
        Record::GcSegment(
            GcRecord::ClassDump { class_object_id, super_class_object_id, instance_size, .. },
        ) => RecorderModel {
            class_info: if m.class_info.contains_key(class_object_id) {
                m.class_info
            } else {
                m.class_info.insert(
                    class_object_id,
                    ClassInfo { super_class_object_id, instance_size },
                )
            },
            counts,
            ..m
        },
        _ => RecorderModel { counts, ..m },
    }
}

/// The state after the records, in order.
pub open spec fn model_fold(m: RecorderModel, recs: Seq<Record>) -> RecorderModel
    decreases recs.len(),
{
    if recs.len() == 0 {
        m
    } else {
        model_step(model_fold(m, recs.drop_last()), recs.last())
    }
}

/// The display name of a class, if its load record and name string are known.
pub open spec fn class_name(m: RecorderModel, id: u64) -> Option<Seq<char>> {
    if m.classes_by_id.contains_key(id) && m.strings.contains_key(
        m.classes_by_id[id].class_name_id,
    ) {
        Some(dotted(m.strings[m.classes_by_id[id].class_name_id]@))
    } else {
        None
    }
}

pub open spec fn add_opt(a: nat, o: Option<nat>) -> Option<nat> {
    match o {
        Some(s) => Some(a + s),
        None => None,
    }
}

/// The field bytes along the superclass chain of `id`, if the chain reaches id 0 within
/// `fuel` classes, all of them known.
pub open spec fn chain_size(ci: Map<u64, ClassInfo>, id: u64, fuel: nat) -> Option<nat>
    decreases fuel,
{
    if fuel == 0 || !ci.contains_key(id) {
        None
    } else if ci[id].super_class_object_id == 0 {
        Some(ci[id].instance_size as nat)
    } else {
        add_opt(ci[id].instance_size as nat, chain_size(ci, ci[id].super_class_object_id, (fuel - 1) as nat))
    }
}

/// The object header of a 64-bit layout: mark word, class word and alignment gap.
pub open spec fn object_header() -> nat {
    16
}

/// The size of one instance: header plus fields, padded by `size % 8`.
pub open spec fn padded(size: nat) -> nat {
    size + size % 8
}

/// A row of the memory report: name, count, largest allocation, total allocation.
pub open spec fn entry_fits(e: Option<(Seq<char>, nat, nat, nat)>) -> bool {
    match e {
        Some((_, c, l, t)) => c <= u64::MAX && l <= u64::MAX && t <= u64::MAX,
        None => false,
    }
}

pub open spec fn stats_match(s: ClassAllocationStats, e: Option<(Seq<char>, nat, nat, nat)>) -> bool {
    match e {
        Some((name, c, l, t)) => s.class_name@ == name && s.instance_count == c
            && s.largest_allocation_bytes == l && s.allocation_size_bytes == t,
        None => false,
    }
}

/// The row of a class with instances: every instance has the padded size of header and
/// fields.
pub open spec fn instance_entry(m: RecorderModel, fuel: nat, id: u64) -> Option<(Seq<char>, nat, nat, nat)> {
    match (class_name(m, id), chain_size(m.class_info, id, fuel)) {
        (Some(name), Some(owned)) => {
            let c = m.instances[id].number_of_instances as nat;
            let size = padded(owned + object_header());
            Some((name, c, size, size * c))
        },
        _ => None,
    }
}

/// The name of the arrays of a primitive element type.
pub open spec fn primitive_label(t: FieldType) -> Seq<char> {
    match t {
        FieldType::Object => "object[]"@,
        FieldType::Bool => "bool[]"@,
        FieldType::Char => "char[]"@,
        FieldType::Float => "float[]"@,
        FieldType::Double => "double[]"@,
        FieldType::Byte => "byte[]"@,
        FieldType::Short => "short[]"@,
        FieldType::Int => "int[]"@,
        FieldType::Long => "long[]"@,
    }
}

/// The row of the arrays of one primitive element type: headers, values and an
/// estimated 4 bytes of padding per array; the largest array is padded exactly.
pub open spec fn primitive_entry(m: RecorderModel, code: u64) -> Option<(Seq<char>, nat, nat, nat)> {
    match field_type_code(code as int) {
        Some(t) if t != FieldType::Object => {
            let c = m.primitive_arrays[code];
            let w = crate::records::field_width(t);
            let n = c.number_of_arrays as nat;
            let largest = object_header() + w * (c.max_size_seen as nat);
            Some((
                primitive_label(t),
                n,
                padded(largest),
                object_header() * n + w * (c.total_number_of_elements as nat) + n * 4,
            ))
        },
        _ => None,
    }
}

/// The row of the arrays of one object-array class: headers and one reference per element.
pub open spec fn object_array_entry(m: RecorderModel, id: u64) -> Option<(Seq<char>, nat, nat, nat)> {
    match class_name(m, id) {
        Some(name) => {
            let c = m.object_arrays[id];
            let n = c.number_of_arrays as nat;
            Some((
                array_element_name(name) + "[]"@,
                n,
                object_header() + 8 * (c.max_size_seen as nat),
                object_header() * n + 8 * (c.total_number_of_elements as nat),
            ))
        },
        None => None,
    }
}

pub open spec fn text_of(o: Option<String>) -> Option<Seq<char>> {
    match o {
        Some(s) => Some(s@),
        None => None,
    }
}

/// The duplicated-strings line: only where some text occurs more than once.
pub open spec fn duplicated_text(sorted: Seq<Seq<char>>) -> Option<Seq<char>> {
    let d = adjacent_equal(sorted);
    if d == 0 {
        None
    } else {
        Some(
            "\nFound "@ + decimal(d) + " duplicated strings out of "@ + decimal(sorted.len())
                + " unique strings\n"@,
        )
    }
}

pub open spec fn count_line(label: Seq<char>, v: nat) -> Seq<char> {
    label + decimal(v) + seq!['\n']
}

/// The summary of the records seen: `strings` UTF-8 strings, `classes` loaded classes,
/// and the counters `c`.
pub open spec fn summary_text(strings: nat, classes: nat, c: Seq<u64>) -> Seq<char> {
    "\nFile content summary:\n\n"@ + count_line("UTF-8 Strings: "@, strings) + count_line(
        "Classes loaded: "@,
        classes,
    ) + count_line("Classes unloaded: "@, c[0] as nat) + count_line("Stack traces: "@, c[2] as nat)
        + count_line("Stack frames: "@, c[1] as nat) + count_line("Start threads: "@, c[3] as nat)
        + count_line("Allocation sites: "@, c[7] as nat) + count_line("End threads: "@, c[4] as nat)
        + count_line("Control settings: "@, c[8] as nat) + count_line("CPU samples: "@, c[9] as nat)
        + count_line("Heap summaries: "@, c[5] as nat) + decimal(c[6] as nat)
        + " heap dumps containing in total "@ + decimal(
        c[10] as nat,
    ) + " segments:\n"@ + count_line("..GC root unknown: "@, c[11] as nat) + count_line(
        "..GC root thread objects: "@,
        c[12] as nat,
    ) + count_line("..GC root JNI global: "@, c[13] as nat) + count_line(
        "..GC root JNI local: "@,
        c[14] as nat,
    ) + count_line("..GC root Java frame: "@, c[15] as nat) + count_line(
        "..GC root native stack: "@,
        c[16] as nat,
    ) + count_line("..GC root sticky class: "@, c[17] as nat) + count_line(
        "..GC root thread block: "@,
        c[18] as nat,
    ) + count_line("..GC root monitor used: "@, c[19] as nat) + count_line(
        "..GC primitive array dump: "@,
        c[22] as nat,
    ) + count_line("..GC object array dump: "@, c[20] as nat) + count_line(
        "..GC class dump: "@,
        c[23] as nat,
    ) + "..GC instance dump: "@ + decimal(c[21] as nat)
}

fn push_count_line(s: &mut String, label: &str, v: u64)
    ensures
        final(s)@ == old(s)@ + count_line(label@, v as nat),
{
    s.append(label);
    push_decimal(s, v);
    push_char(s, '\n');
}

/// The text of a line number: positive numbers as they are, negative ones by meaning.
pub open spec fn line_number_text(n: i32) -> Seq<char> {
    if n == -1 {
        "unknown line number"@
    } else if n == -2 {
        "compiled method"@
    } else if n == -3 {
        "native method"@
    } else {
        signed_decimal(n as int)
    }
}

pub open spec fn string_or(m: RecorderModel, id: u64, default: Seq<char>) -> Seq<char> {
    if m.strings.contains_key(id) {
        m.strings[id]@
    } else {
        default
    }
}

/// The line of a stack frame, if the frame and its class can be resolved.
pub open spec fn frame_text(m: RecorderModel, frame_id: u64) -> Option<Seq<char>> {
    if !m.stack_frames.contains_key(frame_id) {
        None
    } else {
        let f = m.stack_frames[frame_id];
        if !m.classes_by_serial.contains_key(f.class_serial_number as u64) {
            None
        } else {
            match class_name(m, m.classes_by_serial[f.class_serial_number as u64].class_object_id) {
                None => None,
                Some(cn) => Some(
                    "  at "@ + cn + "."@ + string_or(m, f.method_name_id, "unknown method name"@)
                        + " ("@ + string_or(m, f.source_file_name_id, "unknown source file"@)
                        + ":"@ + line_number_text(f.line_number) + ")\n"@,
                ),
            }
        }
    }
}

pub open spec fn frames_text(m: RecorderModel, ids: Seq<u64>) -> Option<Seq<char>>
    decreases ids.len(),
{
    if ids.len() == 0 {
        Some(seq![])
    } else {
        match (frames_text(m, ids.drop_last()), frame_text(m, ids.last())) {
            (Some(a), Some(b)) => Some(a + b),
            _ => None,
        }
    }
}

/// The sections of the threads with these stack-trace serials, numbered from 1.
pub open spec fn threads_text(m: RecorderModel, serials: Seq<u64>) -> Option<Seq<char>>
    decreases serials.len(),
{
    if serials.len() == 0 {
        Some(seq![])
    } else if !m.stack_traces.contains_key(serials.last()) {
        None
    } else {
        match (
            threads_text(m, serials.drop_last()),
            frames_text(m, m.stack_traces[serials.last()].stack_frame_ids@),
        ) {
            (Some(a), Some(b)) => Some(a + "\nThread "@ + decimal(serials.len()) + "\n"@ + b),
            _ => None,
        }
    }
}

proof fn lemma_frames_none(m: RecorderModel, ids: Seq<u64>, k: nat)
    requires
        k <= ids.len(),
        frames_text(m, ids.subrange(0, k as int)) is None,
    ensures
        frames_text(m, ids) is None,
    decreases ids.len(),
{
    if k < ids.len() {
        assert(ids.drop_last().subrange(0, k as int) =~= ids.subrange(0, k as int));
        lemma_frames_none(m, ids.drop_last(), k);
    } else {
        assert(ids.subrange(0, k as int) =~= ids);
    }
}

proof fn lemma_threads_none(m: RecorderModel, serials: Seq<u64>, k: nat)
    requires
        k <= serials.len(),
        threads_text(m, serials.subrange(0, k as int)) is None,
    ensures
        threads_text(m, serials) is None,
    decreases serials.len(),
{
    if k < serials.len() {
        assert(serials.drop_last().subrange(0, k as int) =~= serials.subrange(0, k as int));
        lemma_threads_none(m, serials.drop_last(), k);
    } else {
        assert(serials.subrange(0, k as int) =~= serials);
    }
}

fn unresolved_stack() -> (e: HprofSlurpError)
    ensures
        e matches HprofSlurpError::InvalidHprofFile { .. },
{
    HprofSlurpError::InvalidHprofFile { message: String::from_str("stack trace cannot be resolved") }
}

pub open spec fn thread_info_text(m: RecorderModel, serials: Seq<u64>) -> Option<Seq<char>> {
    match threads_text(m, serials) {
        Some(t) => Some("\nFound "@ + decimal(serials.len()) + " threads with stacktraces:\n"@ + t),
        None => None,
    }
}

/// The serials, among `keys`, of the stack traces that have frames.
pub open spec fn traced(m: RecorderModel, keys: Seq<u64>) -> Seq<u64>
    decreases keys.len(),
{
    if keys.len() == 0 {
        seq![]
    } else if m.stack_traces[keys.last()].stack_frame_ids@.len() > 0 {
        traced(m, keys.drop_last()).push(keys.last())
    } else {
        traced(m, keys.drop_last())
    }
}

pub open spec fn result_text(r: Result<String, HprofSlurpError>) -> Option<Seq<char>> {
    match r {
        Ok(s) => Some(s@),
        Err(_) => None,
    }
}

/// A class with instances has a row in the memory report only where its class dump is
/// known and its superclass chain reaches id 0 through known classes within `fuel`
/// steps (the number of classes with a class dump, so a chain that comes back to a
/// class it has visited never qualifies).
pub proof fn lemma_instance_class_known(m: RecorderModel, fuel: nat, id: u64)
    requires
        instance_entry(m, fuel, id) is Some,
    ensures
        m.class_info.contains_key(id),
        chain_size(m.class_info, id, fuel) is Some,
{
}

/// The class `i` steps up the superclass chain of `id`.
pub open spec fn chain_node(ci: Map<u64, ClassInfo>, id: u64, i: nat) -> u64
    decreases i,
{
    if i == 0 {
        id
    } else {
        ci[chain_node(ci, id, (i - 1) as nat)].super_class_object_id
    }
}

/// The number of steps from `id` to the class whose superclass id is 0.
pub open spec fn chain_steps(ci: Map<u64, ClassInfo>, id: u64, fuel: nat) -> nat
    decreases fuel,
{
    if fuel == 0 || ci[id].super_class_object_id == 0 {
        0
    } else {
        1 + chain_steps(ci, ci[id].super_class_object_id, (fuel - 1) as nat)
    }
}

proof fn lemma_chain_node_shift(ci: Map<u64, ClassInfo>, id: u64, i: nat)
    ensures
        chain_node(ci, ci[id].super_class_object_id, i) == chain_node(ci, id, i + 1),
    decreases i,
{
    reveal_with_fuel(chain_node, 2);
    let sup = ci[id].super_class_object_id;
    assert(chain_node(ci, id, 1) == sup);
    if i > 0 {
        lemma_chain_node_shift(ci, id, (i - 1) as nat);
        assert(chain_node(ci, sup, i) == ci[chain_node(ci, sup, (i - 1) as nat)].super_class_object_id);
        assert(chain_node(ci, id, i + 1) == ci[chain_node(ci, id, i)].super_class_object_id);
    }
}

/// A resolved chain: every class on it is known, only the last has superclass id 0.
proof fn lemma_chain_shape(ci: Map<u64, ClassInfo>, id: u64, fuel: nat)
    requires
        chain_size(ci, id, fuel) is Some,
    ensures
        forall|j: nat| j <= chain_steps(ci, id, fuel) ==> ci.contains_key(#[trigger] chain_node(ci, id, j)),
        forall|j: nat| j < chain_steps(ci, id, fuel) ==> ci[#[trigger] chain_node(ci, id, j)].super_class_object_id != 0,
        ci[chain_node(ci, id, chain_steps(ci, id, fuel))].super_class_object_id == 0,
    decreases fuel,
{
    if ci[id].super_class_object_id != 0 {
        let sup = ci[id].super_class_object_id;
        lemma_chain_shape(ci, sup, (fuel - 1) as nat);
        let n = chain_steps(ci, sup, (fuel - 1) as nat);
        assert forall|j: nat| j <= n + 1 implies ci.contains_key(#[trigger] chain_node(ci, id, j)) by {
            if j > 0 {
                lemma_chain_node_shift(ci, id, (j - 1) as nat);
            }
        }
        assert forall|j: nat| j < n + 1 implies ci[#[trigger] chain_node(ci, id, j)].super_class_object_id != 0 by {
            if j > 0 {
                lemma_chain_node_shift(ci, id, (j - 1) as nat);
            }
        }
        lemma_chain_node_shift(ci, id, n);
    }
}

proof fn lemma_chain_repeats(ci: Map<u64, ClassInfo>, id: u64, i: nat, j: nat, t: nat)
    requires
        chain_node(ci, id, i) == chain_node(ci, id, j),
    ensures
        chain_node(ci, id, i + t) == chain_node(ci, id, j + t),
    decreases t,
{
    if t > 0 {
        lemma_chain_repeats(ci, id, i, j, (t - 1) as nat);
    }
}

/// Following the superclass ids of a class whose chain resolves reaches id 0 without
/// coming back to a class it has visited.
pub proof fn lemma_chain_no_revisit(ci: Map<u64, ClassInfo>, id: u64, fuel: nat, i: nat, j: nat)
    requires
        chain_size(ci, id, fuel) is Some,
        i < j <= chain_steps(ci, id, fuel),
    ensures
        chain_node(ci, id, i) != chain_node(ci, id, j),
        ci[chain_node(ci, id, chain_steps(ci, id, fuel))].super_class_object_id == 0,
{
    lemma_chain_shape(ci, id, fuel);
    let k = chain_steps(ci, id, fuel);
    if chain_node(ci, id, i) == chain_node(ci, id, j) {
        lemma_chain_repeats(ci, id, i, j, (k - j) as nat);
        assert(chain_node(ci, id, (i + (k - j)) as nat) == chain_node(ci, id, k));
        assert(ci[chain_node(ci, id, (i + (k - j)) as nat)].super_class_object_id != 0);
    }
}

/// The ids of a store after a record that may touch id `k`: a new id goes last, a known
/// one leaves the order as it was.
pub open spec fn ids_after(ids: Seq<u64>, known: Set<u64>, k: Option<u64>) -> Seq<u64> {
    match k {
        Some(k) => if known.contains(k) {
            ids
        } else {
            ids.push(k)
        },
        None => ids,
    }
}

/// The string id that a record sets.
pub open spec fn string_key(r: Record) -> Option<u64> {
    match r {
        Record::Utf8String { id, .. } => Some(id),
        _ => None,
    }
}

/// The class id that a record loads.
pub open spec fn loaded_class_key(r: Record) -> Option<u64> {
    match r {
        Record::LoadClass(d) => Some(d.class_object_id),
        _ => None,
    }
}

/// The class id whose class dump a record holds.
pub open spec fn class_dump_key(r: Record) -> Option<u64> {
    match r {
        Record::GcSegment(GcRecord::ClassDump { class_object_id, .. }) => Some(class_object_id),
        _ => None,
    }
}

/// The class id that an instance dump counts for.
pub open spec fn instance_key(r: Record) -> Option<u64> {
    match r {
        Record::GcSegment(GcRecord::InstanceDump { class_object_id, .. }) => Some(class_object_id),
        _ => None,
    }
}

/// The element type number that a primitive array dump counts for.
pub open spec fn primitive_array_key(r: Record) -> Option<u64> {
    match r {
        Record::GcSegment(GcRecord::PrimitiveArrayDump { element_type, .. }) => Some(
            field_type_number(element_type),
        ),
        _ => None,
    }
}

/// The array class id that an object array dump counts for.
pub open spec fn object_array_key(r: Record) -> Option<u64> {
    match r {
        Record::GcSegment(GcRecord::ObjectArrayDump { array_class_id, .. }) => Some(array_class_id),
        _ => None,
    }
}

/// The serial that a stack trace record sets.
pub open spec fn trace_key(r: Record) -> Option<u64> {
    match r {
        Record::StackTrace(d) => Some(d.serial_number as u64),
        _ => None,
    }
}

/// `serials` are the serials of the stack traces with frames, in increasing order.
pub open spec fn thread_order(rec: ResultRecorder, serials: Seq<u64>) -> bool {
    &&& serials.to_multiset() == traced(rec.model(), rec.trace_serials()).to_multiset()
    &&& forall|i: int, j: int| 0 <= i < j < serials.len() ==> serials[i] <= serials[j]
}

/// Every row of the memory report resolves and fits in 64 bits.
pub open spec fn rows_fit(rec: ResultRecorder) -> bool {
    &&& forall|i: int|
        0 <= i < rec.instance_ids().len() ==> entry_fits(
            instance_entry(rec.model(), rec.class_count(), #[trigger] rec.instance_ids()[i]),
        )
    &&& forall|i: int|
        0 <= i < rec.primitive_type_ids().len() ==> entry_fits(
            primitive_entry(rec.model(), #[trigger] rec.primitive_type_ids()[i]),
        )
    &&& forall|i: int|
        0 <= i < rec.object_array_ids().len() ==> entry_fits(
            object_array_entry(rec.model(), #[trigger] rec.object_array_ids()[i]),
        )
}

/// `v` holds the rows of the classes with instances, then of the primitive element
/// types, then of the object-array classes, each in the order first seen.
pub open spec fn rows_match(rec: ResultRecorder, v: Seq<ClassAllocationStats>) -> bool {
    &&& v.len() == rec.instance_ids().len() + rec.primitive_type_ids().len()
        + rec.object_array_ids().len()
    &&& forall|i: int|
        0 <= i < rec.instance_ids().len() ==> stats_match(
            #[trigger] v[i],
            instance_entry(rec.model(), rec.class_count(), rec.instance_ids()[i]),
        )
    &&& forall|i: int|
        0 <= i < rec.primitive_type_ids().len() ==> stats_match(
            #[trigger] v[rec.instance_ids().len() + i],
            primitive_entry(rec.model(), rec.primitive_type_ids()[i]),
        )
    &&& forall|i: int|
        0 <= i < rec.object_array_ids().len() ==> stats_match(
            #[trigger] v[rec.instance_ids().len() + rec.primitive_type_ids().len() + i],
            object_array_entry(rec.model(), rec.object_array_ids()[i]),
        )
}

proof fn lemma_matching_rows_fit(rec: ResultRecorder, v: Seq<ClassAllocationStats>)
    requires
        rows_match(rec, v),
    ensures
        rows_fit(rec),
{
    let a = rec.instance_ids().len();
    let b = rec.primitive_type_ids().len();
    assert forall|i: int| 0 <= i < a implies entry_fits(
        instance_entry(rec.model(), rec.class_count(), #[trigger] rec.instance_ids()[i]),
    ) by {
        assert(stats_match(v[i], instance_entry(rec.model(), rec.class_count(), rec.instance_ids()[i])));
    }
    assert forall|i: int| 0 <= i < b implies entry_fits(
        primitive_entry(rec.model(), #[trigger] rec.primitive_type_ids()[i]),
    ) by {
        assert(stats_match(v[a + i], primitive_entry(rec.model(), rec.primitive_type_ids()[i])));
    }
    assert forall|i: int| 0 <= i < rec.object_array_ids().len() implies entry_fits(
        object_array_entry(rec.model(), #[trigger] rec.object_array_ids()[i]),
    ) by {
        assert(stats_match(v[a + b + i], object_array_entry(rec.model(), rec.object_array_ids()[i])));
    }
}

pub struct ResultRecorder {
    id_size: u32,
    list_strings: bool,
    top: usize,
    counts: Vec<u64>,
    utf8_strings_by_id: Keyed<String>,
    class_data_by_id: Keyed<LoadClassData>,
    class_data_by_serial_number: Keyed<LoadClassData>,
    classes_single_instance_size_by_id: Keyed<ClassInfo>,
    classes_all_instance_total_size_by_id: Keyed<ClassInstanceCounter>,
    primitive_array_counters: Keyed<ArrayCounter>,
    object_array_counters: Keyed<ArrayCounter>,
    stack_trace_by_serial_number: Keyed<StackTraceData>,
    stack_frame_by_id: Keyed<StackFrameData>,
    reversed: Vec<Record>,
}

impl ResultRecorder {
    pub closed spec fn wf(&self) -> bool {
        &&& self.counts@.len() == NUMBER_OF_COUNTERS
        &&& self.utf8_strings_by_id.wf()
        &&& self.class_data_by_id.wf()
        &&& self.class_data_by_serial_number.wf()
        &&& self.classes_single_instance_size_by_id.wf()
        &&& self.classes_all_instance_total_size_by_id.wf()
        &&& self.primitive_array_counters.wf()
        &&& self.object_array_counters.wf()
        &&& self.stack_trace_by_serial_number.wf()
        &&& self.stack_frame_by_id.wf()
    }

    pub closed spec fn model(&self) -> RecorderModel {
        RecorderModel {
            strings: self.utf8_strings_by_id.view(),
            classes_by_id: self.class_data_by_id.view(),
            classes_by_serial: self.class_data_by_serial_number.view(),
            class_info: self.classes_single_instance_size_by_id.view(),
            instances: self.classes_all_instance_total_size_by_id.view(),
            primitive_arrays: self.primitive_array_counters.view(),
            object_arrays: self.object_array_counters.view(),
            stack_frames: self.stack_frame_by_id.view(),
            stack_traces: self.stack_trace_by_serial_number.view(),
            counts: self.counts@,
        }
    }

    pub closed spec fn spec_id_size(&self) -> u32 {
        self.id_size
    }

    pub closed spec fn spec_top(&self) -> usize {
        self.top
    }

    pub closed spec fn spec_list_strings(&self) -> bool {
        self.list_strings
    }

    pub fn new(id_size: u32, list_strings: bool, top: usize) -> (r: Self)
        ensures
            r.wf(),
            r.spec_id_size() == id_size,
            r.spec_top() == top,
            r.spec_list_strings() == list_strings,
            r.model().strings.is_empty(),
            r.model().classes_by_id.is_empty(),
            r.model().classes_by_serial.is_empty(),
            r.model().class_info.is_empty(),
            r.model().instances.is_empty(),
            r.model().primitive_arrays.is_empty(),
            r.model().object_arrays.is_empty(),
            r.model().stack_frames.is_empty(),
            r.model().stack_traces.is_empty(),
            r.model().counts == Seq::new(NUMBER_OF_COUNTERS as nat, |i: int| 0u64),
            r.string_ids().len() == 0,
            r.loaded_class_ids().len() == 0,
            r.class_ids().len() == 0,
            r.instance_ids().len() == 0,
            r.primitive_type_ids().len() == 0,
            r.object_array_ids().len() == 0,
            r.trace_serials().len() == 0,
    {
        let mut counts: Vec<u64> = Vec::new();
        let mut i: usize = 0;
        while i < NUMBER_OF_COUNTERS
            invariant
                i <= NUMBER_OF_COUNTERS,
                counts@ == Seq::new(i as nat, |j: int| 0u64),
            decreases NUMBER_OF_COUNTERS - i,
        {
            counts.push(0);
            i = i + 1;
            assert(counts@ =~= Seq::new(i as nat, |j: int| 0u64));
        }
        ResultRecorder {
            id_size,
            list_strings,
            top,
            counts,
            utf8_strings_by_id: Keyed::new(),
            class_data_by_id: Keyed::new(),
            class_data_by_serial_number: Keyed::new(),
            classes_single_instance_size_by_id: Keyed::new(),
            classes_all_instance_total_size_by_id: Keyed::new(),
            primitive_array_counters: Keyed::new(),
            object_array_counters: Keyed::new(),
            stack_trace_by_serial_number: Keyed::new(),
            stack_frame_by_id: Keyed::new(),
            reversed: Vec::new(),
        }
    }

    fn bump_counter(&mut self, k: usize)
        requires
            old(self).wf(),
            k < NUMBER_OF_COUNTERS,
        ensures
            final(self).wf(),
            final(self).model() == (RecorderModel { counts: bump(old(self).model().counts, k as int), ..old(self).model() }),
            final(self).utf8_strings_by_id == old(self).utf8_strings_by_id,
            final(self).class_data_by_id == old(self).class_data_by_id,
            final(self).class_data_by_serial_number == old(self).class_data_by_serial_number,
            final(self).classes_single_instance_size_by_id == old(self).classes_single_instance_size_by_id,
            final(self).classes_all_instance_total_size_by_id == old(self).classes_all_instance_total_size_by_id,
            final(self).primitive_array_counters == old(self).primitive_array_counters,
            final(self).object_array_counters == old(self).object_array_counters,
            final(self).stack_trace_by_serial_number == old(self).stack_trace_by_serial_number,
            final(self).stack_frame_by_id == old(self).stack_frame_by_id,
            final(self).spec_id_size() == old(self).spec_id_size(),
            final(self).spec_top() == old(self).spec_top(),
            final(self).spec_list_strings() == old(self).spec_list_strings(),
    {
        let c = self.counts[k];
        if c < u64::MAX {
            self.counts.set(k, c + 1);
        }
    }

    fn count_array(counters: &mut Keyed<ArrayCounter>, k: u64, elements: u32)
        requires
            old(counters).wf(),
        ensures
            final(counters).wf(),
            final(counters).view() == array_counted(old(counters).view(), k, elements),
            final(counters).key_seq() == ids_after(old(counters).key_seq(), old(counters).view().dom(), Some(k)),
    {
        let mut c = match counters.get(k) {
            Some(c) => *c,
            None => ArrayCounter::empty(),
        };
        if c.number_of_arrays < u64::MAX && c.total_number_of_elements <= u64::MAX - elements as u64 {
            c.add_elements_from_array(elements);
        }
        counters.insert(k, c);
    }

    /// Folds one record into the state.
    pub fn record_record(&mut self, r: Record)
        requires
            old(self).wf(),
        ensures
            final(self).wf(),
            final(self).string_ids() == ids_after(old(self).string_ids(), old(self).model().strings.dom(), string_key(r)),
            final(self).loaded_class_ids() == ids_after(old(self).loaded_class_ids(), old(self).model().classes_by_id.dom(), loaded_class_key(r)),
            final(self).class_ids() == ids_after(old(self).class_ids(), old(self).model().class_info.dom(), class_dump_key(r)),
            final(self).instance_ids() == ids_after(old(self).instance_ids(), old(self).model().instances.dom(), instance_key(r)),
            final(self).primitive_type_ids() == ids_after(old(self).primitive_type_ids(), old(self).model().primitive_arrays.dom(), primitive_array_key(r)),
            final(self).object_array_ids() == ids_after(old(self).object_array_ids(), old(self).model().object_arrays.dom(), object_array_key(r)),
            final(self).trace_serials() == ids_after(old(self).trace_serials(), old(self).model().stack_traces.dom(), trace_key(r)),
            final(self).model() == model_step(old(self).model(), r),
            final(self).spec_id_size() == old(self).spec_id_size(),
            final(self).spec_top() == old(self).spec_top(),
            final(self).spec_list_strings() == old(self).spec_list_strings(),
    {
        let ghost m0 = self.model();
        let ghost counts = bump(bump(m0.counts, record_counter(r)), sub_record_counter(r));
        match r {
            Record::Utf8String { id, str } => {
                self.utf8_strings_by_id.insert(id, str);
            },
            Record::LoadClass(d) => {
                self.class_data_by_id.insert(d.class_object_id, d);
                self.class_data_by_serial_number.insert(d.serial_number as u64, d);
            },
            Record::UnloadClass { .. } => self.bump_counter(COUNT_CLASSES_UNLOADED),
            Record::StackFrame(d) => {
                self.bump_counter(COUNT_STACK_FRAMES);
                self.stack_frame_by_id.insert(d.stack_frame_id, d);
            },
            Record::StackTrace(d) => {
                self.bump_counter(COUNT_STACK_TRACES);
                self.stack_trace_by_serial_number.insert(d.serial_number as u64, d);
            },
            Record::StartThread { .. } => self.bump_counter(COUNT_START_THREADS),
            Record::EndThread { .. } => self.bump_counter(COUNT_END_THREADS),
            Record::AllocationSites { .. } => self.bump_counter(COUNT_ALLOCATION_SITES),
            Record::HeapSummary { .. } => self.bump_counter(COUNT_HEAP_SUMMARIES),
            Record::ControlSettings { .. } => self.bump_counter(COUNT_CONTROL_SETTINGS),
            Record::CpuSamples { .. } => self.bump_counter(COUNT_CPU_SAMPLES),
            Record::HeapDumpEnd { .. } => {},
            Record::HeapDumpStart { .. } => self.bump_counter(COUNT_HEAP_DUMPS),
            Record::GcSegment(g) => {
                self.bump_counter(COUNT_ALL_SUB_RECORDS);
                match g {
                    GcRecord::RootUnknown { .. } => self.bump_counter(COUNT_ROOT_UNKNOWN),
                    GcRecord::RootThreadObject { .. } => self.bump_counter(COUNT_ROOT_THREAD_OBJECT),
                    GcRecord::RootJniGlobal { .. } => self.bump_counter(COUNT_ROOT_JNI_GLOBAL),
                    GcRecord::RootJniLocal { .. } => self.bump_counter(COUNT_ROOT_JNI_LOCAL),
                    GcRecord::RootJavaFrame { .. } => self.bump_counter(COUNT_ROOT_JAVA_FRAME),
                    GcRecord::RootNativeStack { .. } => self.bump_counter(COUNT_ROOT_NATIVE_STACK),
                    GcRecord::RootStickyClass { .. } => self.bump_counter(COUNT_ROOT_STICKY_CLASS),
                    GcRecord::RootThreadBlock { .. } => self.bump_counter(COUNT_ROOT_THREAD_BLOCK),
                    GcRecord::RootMonitorUsed { .. } => self.bump_counter(COUNT_ROOT_MONITOR_USED),
                    GcRecord::InstanceDump { class_object_id, .. } => {
                        let mut c = match self.classes_all_instance_total_size_by_id.get(class_object_id) {
                            Some(c) => *c,
                            None => ClassInstanceCounter::empty(),
                        };
                        if c.number_of_instances < u64::MAX {
                            c.add_instance();
                        }
                        self.classes_all_instance_total_size_by_id.insert(class_object_id, c);
                        self.bump_counter(COUNT_INSTANCE_DUMP);
                    },
                    GcRecord::ObjectArrayDump { number_of_elements, array_class_id, .. } => {
                        Self::count_array(&mut self.object_array_counters, array_class_id, number_of_elements);
                        self.bump_counter(COUNT_OBJECT_ARRAY_DUMP);
                    },
                    GcRecord::PrimitiveArrayDump { number_of_elements, element_type, .. } => {
                        Self::count_array(
                            &mut self.primitive_array_counters,
                            type_number(element_type),
                            number_of_elements,
                        );
                        self.bump_counter(COUNT_PRIMITIVE_ARRAY_DUMP);
                    },
                    GcRecord::ClassDump { class_object_id, super_class_object_id, instance_size, .. } => {
                        if self.classes_single_instance_size_by_id.get(class_object_id).is_none() {
                            self.classes_single_instance_size_by_id.insert(
                                class_object_id,
                                ClassInfo::new(super_class_object_id, instance_size),
                            );
                        }
                        self.bump_counter(COUNT_CLASS_DUMP);
                    },
                }
            },
        }
        assert(self.model() =~= model_step(m0, r));
    }

    /// Folds a batch of records into the state, in order, and leaves the batch empty
    /// (its storage is kept for reuse).
    pub fn record_records(&mut self, records: &mut Vec<Record>)
        requires
            old(self).wf(),
        ensures
            final(self).wf(),
            final(self).model() == model_fold(old(self).model(), old(records)@),
            final(records)@.len() == 0,
            final(self).spec_id_size() == old(self).spec_id_size(),
            final(self).spec_top() == old(self).spec_top(),
            final(self).spec_list_strings() == old(self).spec_list_strings(),
    {
        let ghost orig = records@;
        let n = records.len();
        // the records move through a kept buffer, so that neither vector is reallocated
        let mut reversed: Vec<Record> = Vec::new();
        std::mem::swap(&mut reversed, &mut self.reversed);
        reversed.clear();
        assert(orig.subrange(0, n as int) =~= orig);
        while records.len() > 0
            invariant
                records@ == orig.subrange(0, records@.len() as int),
                n == orig.len(),
                reversed@.len() + records@.len() == n,
                forall|j: int| 0 <= j < reversed@.len() ==> #[trigger] reversed@[j] == orig[n - 1 - j],
            decreases records@.len(),
        {
            let r = records.pop().unwrap();
            reversed.push(r);
        }
        let mut i: usize = 0;
        assert(orig.subrange(0, 0) =~= Seq::<Record>::empty());
        while reversed.len() > 0
            invariant
                self.wf(),
                n == orig.len(),
                reversed@.len() + i == n,
                forall|j: int| 0 <= j < reversed@.len() ==> #[trigger] reversed@[j] == orig[n - 1 - j],
                self.model() == model_fold(old(self).model(), orig.subrange(0, i as int)),
                self.spec_id_size() == old(self).spec_id_size(),
                self.spec_top() == old(self).spec_top(),
                self.spec_list_strings() == old(self).spec_list_strings(),
            decreases reversed@.len(),
        {
            let r = reversed.pop().unwrap();
            proof {
                assert(r == orig[i as int]);
                assert(orig.subrange(0, i + 1).drop_last() =~= orig.subrange(0, i as int));
            }
            self.record_record(r);
            i = i + 1;
        }
        assert(orig.subrange(0, n as int) =~= orig);
        std::mem::swap(&mut reversed, &mut self.reversed);
    }

    /// The ids of the classes with instances, in the order of their first instance.
    pub closed spec fn instance_ids(&self) -> Seq<u64> {
        self.classes_all_instance_total_size_by_id.key_seq()
    }

    /// The numbers of the element types of primitive arrays, in the order first seen.
    pub closed spec fn primitive_type_ids(&self) -> Seq<u64> {
        self.primitive_array_counters.key_seq()
    }

    /// The ids of the classes of object arrays, in the order first seen.
    pub closed spec fn object_array_ids(&self) -> Seq<u64> {
        self.object_array_counters.key_seq()
    }

    /// The number of classes with a class dump.
    pub closed spec fn class_count(&self) -> nat {
        self.classes_single_instance_size_by_id.key_seq().len()
    }

    /// The ids of the classes with a class dump, in the order first seen.
    pub closed spec fn class_ids(&self) -> Seq<u64> {
        self.classes_single_instance_size_by_id.key_seq()
    }

    /// The ids of the loaded classes, in the order first seen.
    pub closed spec fn loaded_class_ids(&self) -> Seq<u64> {
        self.class_data_by_id.key_seq()
    }

    /// The ids of the UTF-8 strings, in the order first seen.
    pub closed spec fn string_ids(&self) -> Seq<u64> {
        self.utf8_strings_by_id.key_seq()
    }

    /// Each id sequence lists the ids of its map once each, and the string texts are
    /// those of the strings, in the order of their ids.
    pub proof fn lemma_recorded_sequences(&self)
        requires
            self.wf(),
        ensures
            self.instance_ids().no_duplicates(),
            self.instance_ids().to_set() == self.model().instances.dom(),
            self.primitive_type_ids().no_duplicates(),
            self.primitive_type_ids().to_set() == self.model().primitive_arrays.dom(),
            self.object_array_ids().no_duplicates(),
            self.object_array_ids().to_set() == self.model().object_arrays.dom(),
            self.trace_serials().no_duplicates(),
            self.trace_serials().to_set() == self.model().stack_traces.dom(),
            self.string_ids().no_duplicates(),
            self.string_ids().to_set() == self.model().strings.dom(),
            self.class_ids().no_duplicates(),
            self.class_ids().to_set() == self.model().class_info.dom(),
            self.loaded_class_ids().no_duplicates(),
            self.loaded_class_ids().to_set() == self.model().classes_by_id.dom(),
            self.class_count() == self.class_ids().len(),
            self.class_count() == self.model().class_info.dom().len(),
            self.loaded_class_count() == self.model().classes_by_id.dom().len(),
            self.string_values() == Seq::new(
                self.string_ids().len(),
                |i: int| self.model().strings[self.string_ids()[i]]@,
            ),
    {
        self.classes_all_instance_total_size_by_id.lemma_seqs();
        self.primitive_array_counters.lemma_seqs();
        self.object_array_counters.lemma_seqs();
        self.stack_trace_by_serial_number.lemma_seqs();
        self.utf8_strings_by_id.lemma_seqs();
        self.classes_single_instance_size_by_id.lemma_seqs();
        self.class_data_by_id.lemma_seqs();
        assert(self.string_values() =~= Seq::new(
            self.string_ids().len(),
            |i: int| self.model().strings[self.string_ids()[i]]@,
        ));
    }

    /// The display name of a class: its loaded name with `/` turned into `.`.
    pub fn get_class_name_string(&self, class_id: u64) -> (r: Option<String>)
        requires
            self.wf(),
        ensures
            r matches Some(s) ==> class_name(self.model(), class_id) == Some(s@),
            r is None ==> class_name(self.model(), class_id) is None,
    {
        match self.class_data_by_id.get(class_id) {
            Some(data) => match self.utf8_strings_by_id.get(data.class_name_id) {
                Some(name) => Some(dotted_name(name.as_str())),
                None => None,
            },
            None => None,
        }
    }

    /// The bytes of fields that instances of a class hold: its own and those of its
    /// superclasses, following the chain up to a superclass id of 0.
    pub fn owned_size(&self, class_id: u64) -> (r: Option<u64>)
        requires
            self.wf(),
        ensures
            r matches Some(s) ==> chain_size(self.model().class_info, class_id, self.class_count())
                == Some(s as nat),
            r is None ==> match chain_size(self.model().class_info, class_id, self.class_count()) {
                Some(s) => s > u64::MAX,
                None => true,
            },
    {
        let ghost ci = self.model().class_info;
        let fuel = self.classes_single_instance_size_by_id.len();
        let mut f: usize = fuel;
        let mut cur = class_id;
        let mut acc: u64 = 0;
        loop
            invariant
                self.wf(),
                ci == self.model().class_info,
                f <= fuel,
                fuel == self.class_count(),
                chain_size(ci, class_id, fuel as nat) == add_opt(acc as nat, chain_size(ci, cur, f as nat)),
            decreases f,
        {
            if f == 0 {
                return None;
            }
            let info = match self.classes_single_instance_size_by_id.get(cur) {
                Some(info) => *info,
                None => {
                    return None;
                },
            };
            acc = match acc.checked_add(info.instance_size as u64) {
                Some(a) => a,
                None => {
                    return None;
                },
            };
            if info.super_class_object_id == 0 {
                return Some(acc);
            }
            cur = info.super_class_object_id;
            f = f - 1;
        }
    }

    /// The allocation statistics of the classes with instances, then of the arrays of each
    /// primitive element type, then of the arrays of each object-array class, each in
    /// the order first seen. A class whose name or superclass chain cannot be resolved
    /// makes the dump invalid.
    pub fn memory_usage(&self) -> (r: Result<Vec<ClassAllocationStats>, HprofSlurpError>)
        requires
            self.wf(),
            self.spec_id_size() == 8,
        ensures
            r matches Ok(v) ==> {
                &&& v@.len() == self.instance_ids().len() + self.primitive_type_ids().len()
                    + self.object_array_ids().len()
                &&& forall|i: int|
                    0 <= i < self.instance_ids().len() ==> stats_match(
                        #[trigger] v@[i],
                        instance_entry(self.model(), self.class_count(), self.instance_ids()[i]),
                    )
                &&& forall|i: int|
                    0 <= i < self.primitive_type_ids().len() ==> stats_match(
                        #[trigger] v@[self.instance_ids().len() + i],
                        primitive_entry(self.model(), self.primitive_type_ids()[i]),
                    )
                &&& forall|i: int|
                    0 <= i < self.object_array_ids().len() ==> stats_match(
                        #[trigger] v@[self.instance_ids().len() + self.primitive_type_ids().len() + i],
                        object_array_entry(self.model(), self.object_array_ids()[i]),
                    )
            },
            r is Ok ==> forall|k: u64|
                #[trigger] self.model().instances.contains_key(k) ==> self.model().class_info.contains_key(k),
            r is Err ==> {
                ||| exists|i: int|
                    0 <= i < self.instance_ids().len() && !entry_fits(
                        instance_entry(self.model(), self.class_count(), #[trigger] self.instance_ids()[i]),
                    )
                ||| exists|i: int|
                    0 <= i < self.primitive_type_ids().len() && !entry_fits(
                        primitive_entry(self.model(), #[trigger] self.primitive_type_ids()[i]),
                    )
                ||| exists|i: int|
                    0 <= i < self.object_array_ids().len() && !entry_fits(
                        object_array_entry(self.model(), #[trigger] self.object_array_ids()[i]),
                    )
            },
    {
        let mut v: Vec<ClassAllocationStats> = Vec::new();
        let n = self.classes_all_instance_total_size_by_id.len();
        let mut i: usize = 0;
        while i < n
            invariant
                self.wf(),
                self.spec_id_size() == 8,
                n == self.instance_ids().len(),
                i <= n,
                v@.len() == i,
                forall|j: int|
                    0 <= j < i ==> stats_match(
                        #[trigger] v@[j],
                        instance_entry(self.model(), self.class_count(), self.instance_ids()[j]),
                    ),
            decreases n - i,
        {
            let (class_id, counter) = self.classes_all_instance_total_size_by_id.entry_at(i);
            proof {
                self.classes_all_instance_total_size_by_id.lemma_seqs();
            }
            let count = counter.number_of_instances;
            let name = self.get_class_name_string(class_id);
            let owned = self.owned_size(class_id);
            let fail = Err(HprofSlurpError::InvalidHprofFile {
                message: String::from_str("class of an instance dump cannot be resolved"),
            });
            let (name, owned) = match (name, owned) {
                (Some(name), Some(owned)) => (name, owned),
                _ => {
                    return fail;
                },
            };
            let header = self.id_size as u64 + 8;
            let size = match owned.checked_add(header) {
                Some(s) => match s.checked_add(s % 8) {
                    Some(t) => t,
                    None => {
                        return fail;
                    },
                },
                None => {
                    return fail;
                },
            };
            let total = match size.checked_mul(count) {
                Some(t) => t,
                None => {
                    return fail;
                },
            };
            v.push(ClassAllocationStats::new(name, count, size, total));
            i = i + 1;
        }
        proof {
            assert forall|j: int| 0 <= j < self.instance_ids().len() implies entry_fits(
                instance_entry(self.model(), self.class_count(), #[trigger] self.instance_ids()[j]),
            ) by {
                assert(stats_match(v@[j], instance_entry(self.model(), self.class_count(), self.instance_ids()[j])));
            }
        }
        let ghost v1 = v@;
        match self.push_primitive_array_stats(&mut v) {
            Ok(()) => {},
            Err(e) => {
                return Err(e);
            },
        }
        let ghost v2 = v@;
        match self.push_object_array_stats(&mut v) {
            Ok(()) => {},
            Err(e) => {
                return Err(e);
            },
        }
        proof {
            self.classes_all_instance_total_size_by_id.lemma_seqs();
            assert forall|k: u64| #[trigger] self.model().instances.contains_key(k) implies self.model().class_info.contains_key(k) by {
                let i = choose|i: int| 0 <= i < self.instance_ids().len() && self.instance_ids()[i] == k;
                assert(stats_match(v1[i], instance_entry(self.model(), self.class_count(), self.instance_ids()[i])));
                lemma_instance_class_known(self.model(), self.class_count(), k);
            }
            assert forall|i: int| 0 <= i < self.instance_ids().len() implies stats_match(
                #[trigger] v@[i],
                instance_entry(self.model(), self.class_count(), self.instance_ids()[i]),
            ) by {
                assert(v@[i] == v2[i]);
                assert(v2[i] == v1[i]);
            }
            assert forall|i: int| 0 <= i < self.primitive_type_ids().len() implies stats_match(
                #[trigger] v@[self.instance_ids().len() + i],
                primitive_entry(self.model(), self.primitive_type_ids()[i]),
            ) by {
                assert(v@[self.instance_ids().len() + i] == v2[v1.len() + i]);
            }
        }
        Ok(v)
    }

    fn push_primitive_array_stats(&self, v: &mut Vec<ClassAllocationStats>) -> (r: Result<(), HprofSlurpError>)
        requires
            self.wf(),
            self.spec_id_size() == 8,
        ensures
            r is Ok ==> final(v)@.len() == old(v)@.len() + self.primitive_type_ids().len()
                && final(v)@.subrange(0, old(v)@.len() as int) == old(v)@
                && forall|i: int|
                0 <= i < self.primitive_type_ids().len() ==> stats_match(
                    #[trigger] final(v)@[old(v)@.len() + i],
                    primitive_entry(self.model(), self.primitive_type_ids()[i]),
                ),
            r is Err ==> exists|i: int|
                0 <= i < self.primitive_type_ids().len() && !entry_fits(
                    primitive_entry(self.model(), #[trigger] self.primitive_type_ids()[i]),
                ),
    {
        let ghost v0 = v@;
        let n = self.primitive_array_counters.len();
        let mut i: usize = 0;
        let header: u64 = self.id_size as u64 + 8;
        while i < n
            invariant
                self.wf(),
                self.spec_id_size() == 8,
                header == 16,
                n == self.primitive_type_ids().len(),
                i <= n,
                v@.len() == v0.len() + i,
                v@.subrange(0, v0.len() as int) == v0,
                forall|j: int|
                    0 <= j < i ==> stats_match(
                        #[trigger] v@[v0.len() + j],
                        primitive_entry(self.model(), self.primitive_type_ids()[j]),
                    ),
            decreases n - i,
        {
            let (code, counter) = self.primitive_array_counters.entry_at(i);
            proof {
                self.primitive_array_counters.lemma_seqs();
            }
            let c = *counter;
            let ghost e = primitive_entry(self.model(), code);
            let fail = Err(HprofSlurpError::InvalidHprofFile {
                message: String::from_str("primitive array sizes overflow"),
            });
            let t = match field_type_of(code as u8) {
                Some(t) => t,
                None => {
                    return fail;
                },
            };
            if code > 255 || t == FieldType::Object {
                return fail;
            }
            let w = primitive_byte_size(t);
            let largest = match w.checked_mul(c.max_size_seen as u64) {
                Some(d) => match d.checked_add(header) {
                    Some(l) => match l.checked_add(l % 8) {
                        Some(p) => p,
                        None => {
                            return fail;
                        },
                    },
                    None => {
                        return fail;
                    },
                },
                None => {
                    return fail;
                },
            };
            let headers = match header.checked_mul(c.number_of_arrays) {
                Some(h) => h,
                None => {
                    return fail;
                },
            };
            let values = match w.checked_mul(c.total_number_of_elements) {
                Some(x) => x,
                None => {
                    return fail;
                },
            };
            let padding = match c.number_of_arrays.checked_mul(4) {
                Some(x) => x,
                None => {
                    return fail;
                },
            };
            let total = match headers.checked_add(values) {
                Some(x) => match x.checked_add(padding) {
                    Some(y) => y,
                    None => {
                        return fail;
                    },
                },
                None => {
                    return fail;
                },
            };
            let label = match t {
                FieldType::Object => String::from_str("object[]"),
                FieldType::Bool => String::from_str("bool[]"),
                FieldType::Char => String::from_str("char[]"),
                FieldType::Float => String::from_str("float[]"),
                FieldType::Double => String::from_str("double[]"),
                FieldType::Byte => String::from_str("byte[]"),
                FieldType::Short => String::from_str("short[]"),
                FieldType::Int => String::from_str("int[]"),
                FieldType::Long => String::from_str("long[]"),
            };
            v.push(ClassAllocationStats::new(label, c.number_of_arrays, largest, total));
            i = i + 1;
            proof {
                assert(v@.subrange(0, v0.len() as int) =~= v0);
            }
        }
        Ok(())
    }

    fn push_object_array_stats(&self, v: &mut Vec<ClassAllocationStats>) -> (r: Result<(), HprofSlurpError>)
        requires
            self.wf(),
            self.spec_id_size() == 8,
        ensures
            r is Ok ==> final(v)@.len() == old(v)@.len() + self.object_array_ids().len()
                && final(v)@.subrange(0, old(v)@.len() as int) == old(v)@
                && forall|i: int|
                0 <= i < self.object_array_ids().len() ==> stats_match(
                    #[trigger] final(v)@[old(v)@.len() + i],
                    object_array_entry(self.model(), self.object_array_ids()[i]),
                ),
            r is Err ==> exists|i: int|
                0 <= i < self.object_array_ids().len() && !entry_fits(
                    object_array_entry(self.model(), #[trigger] self.object_array_ids()[i]),
                ),
    {
        let ghost v0 = v@;
        let n = self.object_array_counters.len();
        let mut i: usize = 0;
        let header: u64 = self.id_size as u64 + 8;
        let ref_size: u64 = self.id_size as u64;
        while i < n
            invariant
                self.wf(),
                self.spec_id_size() == 8,
                header == 16,
                ref_size == 8,
                n == self.object_array_ids().len(),
                i <= n,
                v@.len() == v0.len() + i,
                v@.subrange(0, v0.len() as int) == v0,
                forall|j: int|
                    0 <= j < i ==> stats_match(
                        #[trigger] v@[v0.len() + j],
                        object_array_entry(self.model(), self.object_array_ids()[j]),
                    ),
            decreases n - i,
        {
            let (class_id, counter) = self.object_array_counters.entry_at(i);
            proof {
                self.object_array_counters.lemma_seqs();
            }
            let c = *counter;
            let fail = Err(HprofSlurpError::InvalidHprofFile {
                message: String::from_str("class of an object array cannot be resolved"),
            });
            let raw = match self.get_class_name_string(class_id) {
                Some(name) => name,
                None => {
                    return fail;
                },
            };
            let largest = header + ref_size * c.max_size_seen as u64;
            let headers = match header.checked_mul(c.number_of_arrays) {
                Some(h) => h,
                None => {
                    return fail;
                },
            };
            let refs = match ref_size.checked_mul(c.total_number_of_elements) {
                Some(x) => x,
                None => {
                    return fail;
                },
            };
            let total = match headers.checked_add(refs) {
                Some(x) => x,
                None => {
                    return fail;
                },
            };
            let mut label = array_element_name_of(raw.as_str());
            label.append("[]");
            v.push(ClassAllocationStats::new(label, c.number_of_arrays, largest, total));
            i = i + 1;
            proof {
                assert(v@.subrange(0, v0.len() as int) =~= v0);
            }
        }
        Ok(())
    }

    /// The texts of the UTF-8 strings, in the order of their ids' first appearance.
    pub closed spec fn string_values(&self) -> Seq<Seq<char>> {
        texts(self.utf8_strings_by_id.value_seq())
    }

    fn collect_strings(&self) -> (r: Vec<String>)
        requires
            self.wf(),
        ensures
            texts(r@) == self.string_values(),
    {
        let n = self.utf8_strings_by_id.len();
        let mut v: Vec<String> = Vec::new();
        let mut i: usize = 0;
        proof {
            self.utf8_strings_by_id.lemma_seqs();
        }
        while i < n
            invariant
                self.wf(),
                i <= n == self.utf8_strings_by_id.value_seq().len(),
                n == self.utf8_strings_by_id.key_seq().len(),
                texts(v@) == self.string_values().subrange(0, i as int),
            decreases n - i,
        {
            let entry = self.utf8_strings_by_id.entry_at(i);
            let text = entry.1.clone();
            assert(text@ == self.string_values()[i as int]);
            let ghost v0 = v@;
            v.push(text);
            assert(texts(v@) =~= texts(v0).push(text@));
            assert(self.string_values().subrange(0, i + 1) =~= self.string_values().subrange(0, i as int).push(text@));
            i = i + 1;
            assert(texts(v@) =~= self.string_values().subrange(0, i as int));
        }
        assert(self.string_values().subrange(0, n as int) =~= self.string_values());
        v
    }

    fn sorted_strings(&self) -> (r: Vec<String>)
        requires
            self.wf(),
        ensures
            sorted_texts_of(self.string_values(), texts(r@)),
    {
        let mut v = self.collect_strings();
        sort_texts(&mut v);
        v
    }

    /// The count of strings whose text an earlier string already has, if any.
    pub fn render_duplicated_strings(&self) -> (r: Option<String>)
        requires
            self.wf(),
        ensures
            exists|sorted: Seq<Seq<char>>|
                sorted_texts_of(self.string_values(), sorted) && #[trigger] duplicated_text(sorted)
                    == text_of(r),
    {
        let v = self.sorted_strings();
        let ghost sorted = texts(v@);
        let n = v.len();
        if n == 0 {
            return None;
        }
        let mut d: u64 = 0;
        let mut i: usize = 1;
        assert(sorted.subrange(0, 1).len() < 2);
        while i < n
            invariant
                1 <= i <= n,
                n == v@.len(),
                sorted == texts(v@),
                d as nat == adjacent_equal(sorted.subrange(0, i as int)),
                d <= i,
            decreases n - i,
        {
            if v[i] == v[i - 1] {
                d = d + 1;
            }
            i = i + 1;
            assert(sorted.subrange(0, i as int).drop_last() =~= sorted.subrange(0, i - 1));
        }
        assert(sorted.subrange(0, n as int) =~= sorted);
        if d == 0 {
            None
        } else {
            let mut s = String::new();
            s.append("\nFound ");
            push_decimal(&mut s, d);
            s.append(" duplicated strings out of ");
            push_decimal(&mut s, n as u64);
            s.append(" unique strings\n");
            proof {
                reveal_strlit("\nFound ");
                reveal_strlit(" duplicated strings out of ");
                reveal_strlit(" unique strings\n");
                assert(s@ =~= duplicated_text(sorted)->Some_0);
            }
            Some(s)
        }
    }

    /// The list of all strings, in byte order.
    pub fn render_captured_strings(&self) -> (r: String)
        requires
            self.wf(),
        ensures
            exists|sorted: Seq<Seq<char>>|
                sorted_texts_of(self.string_values(), sorted) && r@ == "\nList of Strings\n"@
                    + #[trigger] text_lines(sorted),
    {
        let v = self.sorted_strings();
        let ghost sorted = texts(v@);
        let mut result = String::new();
        result.append("\nList of Strings\n");
        let ghost head = result@;
        let mut i: usize = 0;
        assert(sorted.subrange(0, 0) =~= Seq::<Seq<char>>::empty());
        while i < v.len()
            invariant
                i <= v@.len(),
                sorted == texts(v@),
                result@ == head + text_lines(sorted.subrange(0, i as int)),
            decreases v@.len() - i,
        {
            result.append(v[i].as_str());
            push_char(&mut result, '\n');
            i = i + 1;
            assert(sorted.subrange(0, i as int).drop_last() =~= sorted.subrange(0, i - 1));
            assert(result@ =~= head + text_lines(sorted.subrange(0, i as int)));
        }
        assert(sorted.subrange(0, v@.len() as int) =~= sorted);
        proof {
            reveal_strlit("\nList of Strings\n");
        }
        result
    }

    /// The number of distinct ids of loaded classes.
    pub closed spec fn loaded_class_count(&self) -> nat {
        self.class_data_by_id.key_seq().len()
    }

    /// The table of how many records of each kind were seen.
    pub fn render_summary(&self) -> (r: String)
        requires
            self.wf(),
        ensures
            r@ == summary_text(
                self.string_values().len(),
                self.loaded_class_count(),
                self.model().counts,
            ),
    {
        let c = &self.counts;
        let mut s = String::new();
        s.append("\nFile content summary:\n\n");
        push_count_line(&mut s, "UTF-8 Strings: ", self.utf8_strings_by_id.len() as u64);
        push_count_line(&mut s, "Classes loaded: ", self.class_data_by_id.len() as u64);
        push_count_line(&mut s, "Classes unloaded: ", c[COUNT_CLASSES_UNLOADED]);
        push_count_line(&mut s, "Stack traces: ", c[COUNT_STACK_TRACES]);
        push_count_line(&mut s, "Stack frames: ", c[COUNT_STACK_FRAMES]);
        push_count_line(&mut s, "Start threads: ", c[COUNT_START_THREADS]);
        push_count_line(&mut s, "Allocation sites: ", c[COUNT_ALLOCATION_SITES]);
        push_count_line(&mut s, "End threads: ", c[COUNT_END_THREADS]);
        push_count_line(&mut s, "Control settings: ", c[COUNT_CONTROL_SETTINGS]);
        push_count_line(&mut s, "CPU samples: ", c[COUNT_CPU_SAMPLES]);
        push_count_line(&mut s, "Heap summaries: ", c[COUNT_HEAP_SUMMARIES]);
        push_decimal(&mut s, c[COUNT_HEAP_DUMPS]);
        s.append(" heap dumps containing in total ");
        push_decimal(&mut s, c[COUNT_ALL_SUB_RECORDS]);
        s.append(" segments:\n");
        push_count_line(&mut s, "..GC root unknown: ", c[COUNT_ROOT_UNKNOWN]);
        push_count_line(&mut s, "..GC root thread objects: ", c[COUNT_ROOT_THREAD_OBJECT]);
        push_count_line(&mut s, "..GC root JNI global: ", c[COUNT_ROOT_JNI_GLOBAL]);
        push_count_line(&mut s, "..GC root JNI local: ", c[COUNT_ROOT_JNI_LOCAL]);
        push_count_line(&mut s, "..GC root Java frame: ", c[COUNT_ROOT_JAVA_FRAME]);
        push_count_line(&mut s, "..GC root native stack: ", c[COUNT_ROOT_NATIVE_STACK]);
        push_count_line(&mut s, "..GC root sticky class: ", c[COUNT_ROOT_STICKY_CLASS]);
        push_count_line(&mut s, "..GC root thread block: ", c[COUNT_ROOT_THREAD_BLOCK]);
        push_count_line(&mut s, "..GC root monitor used: ", c[COUNT_ROOT_MONITOR_USED]);
        push_count_line(&mut s, "..GC primitive array dump: ", c[COUNT_PRIMITIVE_ARRAY_DUMP]);
        push_count_line(&mut s, "..GC object array dump: ", c[COUNT_OBJECT_ARRAY_DUMP]);
        push_count_line(&mut s, "..GC class dump: ", c[COUNT_CLASS_DUMP]);
        s.append("..GC instance dump: ");
        push_decimal(&mut s, c[COUNT_INSTANCE_DUMP]);
        proof {
            self.utf8_strings_by_id.lemma_seqs();
            reveal_strlit("\nFile content summary:\n\n");
            reveal_strlit(" heap dumps containing in total ");
            reveal_strlit(" segments:\n");
            reveal_strlit("..GC instance dump: ");
            assert(s@ =~= summary_text(
                self.string_values().len(),
                self.loaded_class_count(),
                self.model().counts,
            ));
        }
        s
    }

    /// The serials of the stack traces, in the order first seen.
    pub closed spec fn trace_serials(&self) -> Seq<u64> {
        self.stack_trace_by_serial_number.key_seq()
    }

    fn frame_line(&self, frame_id: u64) -> (r: Option<String>)
        requires
            self.wf(),
        ensures
            text_of(r) == frame_text(self.model(), frame_id),
    {
        let f = match self.stack_frame_by_id.get(frame_id) {
            Some(f) => *f,
            None => {
                return None;
            },
        };
        let class_object_id = match self.class_data_by_serial_number.get(f.class_serial_number as u64) {
            Some(d) => d.class_object_id,
            None => {
                return None;
            },
        };
        let class_name = match self.get_class_name_string(class_object_id) {
            Some(n) => n,
            None => {
                return None;
            },
        };
        let mut s = String::new();
        s.append("  at ");
        s.append(class_name.as_str());
        s.append(".");
        match self.utf8_strings_by_id.get(f.method_name_id) {
            Some(m) => s.append(m.as_str()),
            None => s.append("unknown method name"),
        }
        s.append(" (");
        match self.utf8_strings_by_id.get(f.source_file_name_id) {
            Some(n) => s.append(n.as_str()),
            None => s.append("unknown source file"),
        }
        s.append(":");
        if f.line_number == -1 {
            s.append("unknown line number");
        } else if f.line_number == -2 {
            s.append("compiled method");
        } else if f.line_number == -3 {
            s.append("native method");
        } else {
            push_signed_decimal(&mut s, f.line_number as i64);
        }
        s.append(")\n");
        proof {
            reveal_strlit("  at ");
            reveal_strlit(".");
            reveal_strlit(" (");
            reveal_strlit(":");
            reveal_strlit(")\n");
            reveal_strlit("unknown method name");
            reveal_strlit("unknown source file");
            reveal_strlit("unknown line number");
            reveal_strlit("compiled method");
            reveal_strlit("native method");
            assert(s@ =~= frame_text(self.model(), frame_id)->Some_0);
        }
        Some(s)
    }

    /// The serials of the stack traces that have frames, in the order first seen.
    fn traced_serials(&self) -> (r: Vec<u64>)
        requires
            self.wf(),
        ensures
            r@ == traced(self.model(), self.trace_serials()),
    {
        let n = self.stack_trace_by_serial_number.len();
        let mut v: Vec<u64> = Vec::new();
        let mut i: usize = 0;
        proof {
            self.stack_trace_by_serial_number.lemma_seqs();
        }
        while i < n
            invariant
                self.wf(),
                i <= n == self.trace_serials().len(),
                v@ == traced(self.model(), self.trace_serials().subrange(0, i as int)),
            decreases n - i,
        {
            let (serial, trace) = self.stack_trace_by_serial_number.entry_at(i);
            proof {
                self.stack_trace_by_serial_number.lemma_seqs();
                assert(self.trace_serials().subrange(0, i + 1).drop_last() =~= self.trace_serials().subrange(0, i as int));
            }
            if trace.stack_frame_ids.len() > 0 {
                v.push(serial);
            }
            i = i + 1;
        }
        assert(self.trace_serials().subrange(0, n as int) =~= self.trace_serials());
        v
    }

    /// Appends the lines of the frames; false if one cannot be resolved.
    fn push_frames(&self, body: &mut String, frames: &Vec<u64>) -> (ok: bool)
        requires
            self.wf(),
        ensures
            ok ==> frames_text(self.model(), frames@) == Some(final(body)@.subrange(old(body)@.len() as int, final(body)@.len() as int))
                && final(body)@.subrange(0, old(body)@.len() as int) == old(body)@
                && old(body)@.len() <= final(body)@.len(),
            !ok ==> frames_text(self.model(), frames@) is None,
    {
        let ghost m = self.model();
        let ghost head = body@;
        let mut k: usize = 0;
        assert(frames@.subrange(0, 0) =~= Seq::<u64>::empty());
        assert(body@.subrange(head.len() as int, body@.len() as int) =~= Seq::<char>::empty());
        assert(body@.subrange(0, head.len() as int) =~= head);
        while k < frames.len()
            invariant
                self.wf(),
                m == self.model(),
                head == old(body)@,
                k <= frames@.len(),
                frames_text(m, frames@.subrange(0, k as int)) == Some(body@.subrange(head.len() as int, body@.len() as int)),
                head.len() <= body@.len(),
                body@.subrange(0, head.len() as int) == head,
            decreases frames@.len() - k,
        {
            let line = match self.frame_line(frames[k]) {
                Some(l) => l,
                None => {
                    proof {
                        assert(frames@.subrange(0, k + 1).drop_last() =~= frames@.subrange(0, k as int));
                        lemma_frames_none(m, frames@, k as nat + 1);
                    }
                    return false;
                },
            };
            let ghost b0 = body@;
            body.append(line.as_str());
            k = k + 1;
            proof {
                assert(frames@.subrange(0, k as int).drop_last() =~= frames@.subrange(0, k - 1));
                assert(body@.subrange(head.len() as int, body@.len() as int) =~= b0.subrange(head.len() as int, b0.len() as int) + line@);
                assert(body@.subrange(0, head.len() as int) =~= head);
            }
        }
        assert(frames@.subrange(0, frames@.len() as int) =~= frames@);
        true
    }

    /// The stack traces of the threads, in the order of their serials; each frame shows
    /// class, method, source file and line.
    #[verifier::rlimit(60)]
    pub fn render_thread_info(&self) -> (r: Result<String, HprofSlurpError>)
        requires
            self.wf(),
        ensures
            exists|serials: Seq<u64>|
                serials.to_multiset() == traced(self.model(), self.trace_serials()).to_multiset()
                    && (forall|i: int, j: int| 0 <= i < j < serials.len() ==> serials[i] <= serials[j])
                    && #[trigger] thread_info_text(self.model(), serials) == result_text(r),
    {
        let mut serials = self.traced_serials();
        sort_ids(&mut serials);
        let ghost m = self.model();
        let mut body = String::new();
        let mut i: usize = 0;
        assert(serials@.subrange(0, 0) =~= Seq::<u64>::empty());
        while i < serials.len()
            invariant
                self.wf(),
                m == self.model(),
                i <= serials@.len(),
                serials@.to_multiset() == traced(self.model(), self.trace_serials()).to_multiset(),
                forall|a: int, b: int| 0 <= a < b < serials@.len() ==> serials@[a] <= serials@[b],
                threads_text(m, serials@.subrange(0, i as int)) == Some(body@),
            decreases serials@.len() - i,
        {
            let ghost prefix = serials@.subrange(0, i + 1);
            assert(prefix.drop_last() =~= serials@.subrange(0, i as int));
            let trace = match self.stack_trace_by_serial_number.get(serials[i]) {
                Some(t) => t,
                None => {
                    proof {
                        assert(prefix.last() == serials@[i as int]);
                        assert(threads_text(m, prefix) is None);
                        lemma_threads_none(m, serials@, i as nat + 1);
                        assert(thread_info_text(m, serials@) is None);
                    }
                    return Err(unresolved_stack());
                },
            };
            let ghost before = body@;
            body.append("\nThread ");
            push_decimal(&mut body, (i + 1) as u64);
            body.append("\n");
            let ghost head = body@;
            let frames = &trace.stack_frame_ids;
            if !self.push_frames(&mut body, frames) {
                proof {
                    assert(prefix.last() == serials@[i as int]);
                    assert(threads_text(m, prefix) is None);
                    lemma_threads_none(m, serials@, i as nat + 1);
                    assert(thread_info_text(m, serials@) is None);
                }
                return Err(unresolved_stack());
            }
            proof {
                reveal_strlit("\nThread ");
                reveal_strlit("\n");
                assert(body@ =~= head + body@.subrange(head.len() as int, body@.len() as int));
                assert(body@ =~= threads_text(m, prefix)->Some_0);
            }
            i = i + 1;
        }
        assert(serials@.subrange(0, serials@.len() as int) =~= serials@);
        let mut r = String::new();
        r.append("\nFound ");
        push_decimal(&mut r, serials.len() as u64);
        r.append(" threads with stacktraces:\n");
        r.append(body.as_str());
        proof {
            reveal_strlit("\nFound ");
            reveal_strlit(" threads with stacktraces:\n");
            assert(r@ =~= thread_info_text(m, serials@)->Some_0);
        }
        Ok(r)
    }

    /// The rendered result at the end of the stream: summary, thread information, memory
    /// statistics, the duplicated-strings line and, when asked for, the list of strings.
    /// It fails exactly when a stack trace or a row of the memory report cannot be
    /// resolved.
    pub fn render_result(&self) -> (r: Result<RenderedResult, HprofSlurpError>)
        requires
            self.wf(),
            self.spec_id_size() == 8,
        ensures
            exists|serials: Seq<u64>|
                #[trigger] thread_order(*self, serials) && (r is Err <==> (thread_info_text(
                    self.model(),
                    serials,
                ) is None || !rows_fit(*self))) && (r matches Ok(rr) ==> thread_info_text(
                    self.model(),
                    serials,
                ) == Some(rr.thread_info@)),
            r matches Ok(rr) ==> {
                &&& rr.summary@ == summary_text(
                    self.string_values().len(),
                    self.loaded_class_count(),
                    self.model().counts,
                )
                &&& rows_match(*self, rr.memory_usage@)
                &&& (self.spec_list_strings() ==> exists|sorted: Seq<Seq<char>>|
                    sorted_texts_of(self.string_values(), sorted) && text_of(rr.captured_strings)
                        == Some("\nList of Strings\n"@ + #[trigger] text_lines(sorted)))
                &&& (!self.spec_list_strings() ==> rr.captured_strings is None)
                &&& exists|sorted: Seq<Seq<char>>|
                    sorted_texts_of(self.string_values(), sorted) && #[trigger] duplicated_text(sorted)
                        == text_of(rr.duplicated_strings)
            },
    {
        let thread_result = self.render_thread_info();
        let ghost serials = choose|serials: Seq<u64>|
            serials.to_multiset() == traced(self.model(), self.trace_serials()).to_multiset()
                && (forall|i: int, j: int| 0 <= i < j < serials.len() ==> serials[i] <= serials[j])
                && #[trigger] thread_info_text(self.model(), serials) == result_text(thread_result);
        assert(thread_order(*self, serials));
        let thread_info = match thread_result {
            Ok(t) => t,
            Err(e) => {
                return Err(e);
            },
        };
        let memory_usage = match self.memory_usage() {
            Ok(m) => m,
            Err(e) => {
                proof {
                    assert(!rows_fit(*self));
                }
                return Err(e);
            },
        };
        proof {
            assert(rows_match(*self, memory_usage@));
            lemma_matching_rows_fit(*self, memory_usage@);
        }
        let captured_strings = if self.list_strings {
            Some(self.render_captured_strings())
        } else {
            None
        };
        Ok(RenderedResult {
            summary: self.render_summary(),
            thread_info,
            memory_usage,
            duplicated_strings: self.render_duplicated_strings(),
            captured_strings,
        })
    }
}

} // verus!
