use hprof_slurp::errors::HprofSlurpError;
use hprof_slurp::grammar::{parse_gc_record, parse_top_record, ParseError, Step};
use hprof_slurp::header::{slurp_header, FILE_HEADER_LENGTH};
use hprof_slurp::record_parser::HprofRecordParser;
use hprof_slurp::recorder::ResultRecorder;
use hprof_slurp::rendered_result::{ClassAllocationStats, JsonResult, RenderedResult};
use hprof_slurp::records::{FieldType, GcRecord, Record};
use hprof_slurp::stream_parser::HprofRecordStreamParser;

fn header(id_size: u8) -> Vec<u8> {
    let mut b = b"JAVA PROFILE 1.0.2".to_vec();
    b.push(0);
    b.extend_from_slice(&[0, 0, 0, id_size]);
    b.extend_from_slice(&[0x00, 0x00, 0x01, 0x76, 0x6F, 0xBA, 0xAD, 0xA7]);
    b
}

fn u32b(v: u32) -> [u8; 4] {
    v.to_be_bytes()
}

fn u64b(v: u64) -> [u8; 8] {
    v.to_be_bytes()
}

fn record(tag: u8, body: &[u8]) -> Vec<u8> {
    let mut b = vec![tag];
    b.extend_from_slice(&u32b(0));
    b.extend_from_slice(&u32b(body.len() as u32));
    b.extend_from_slice(body);
    b
}

fn utf8(id: u64, text: &str) -> Vec<u8> {
    let mut body = u64b(id).to_vec();
    body.extend_from_slice(text.as_bytes());
    record(0x01, &body)
}

fn load_class(serial: u32, class_id: u64, name_id: u64) -> Vec<u8> {
    let mut body = u32b(serial).to_vec();
    body.extend_from_slice(&u64b(class_id));
    body.extend_from_slice(&u32b(0));
    body.extend_from_slice(&u64b(name_id));
    record(0x02, &body)
}

fn segment(subs: &[Vec<u8>]) -> Vec<u8> {
    let body: Vec<u8> = subs.concat();
    record(0x1C, &body)
}

fn class_dump(class_id: u64, super_id: u64, instance_size: u32) -> Vec<u8> {
    let mut b = vec![0x20];
    b.extend_from_slice(&u64b(class_id));
    b.extend_from_slice(&u32b(0));
    b.extend_from_slice(&u64b(super_id));
    b.extend_from_slice(&[0u8; 40]);
    b.extend_from_slice(&u32b(instance_size));
    b.extend_from_slice(&[0, 0, 0, 0, 0, 0]);
    b
}

fn instance_dump(object_id: u64, class_id: u64, data_size: u32) -> Vec<u8> {
    let mut b = vec![0x21];
    b.extend_from_slice(&u64b(object_id));
    b.extend_from_slice(&u32b(0));
    b.extend_from_slice(&u64b(class_id));
    b.extend_from_slice(&u32b(data_size));
    b.extend(std::iter::repeat(0u8).take(data_size as usize));
    b
}

fn primitive_array(object_id: u64, n: u32, type_code: u8, width: usize) -> Vec<u8> {
    let mut b = vec![0x23];
    b.extend_from_slice(&u64b(object_id));
    b.extend_from_slice(&u32b(0));
    b.extend_from_slice(&u32b(n));
    b.push(type_code);
    b.extend(std::iter::repeat(7u8).take(n as usize * width));
    b
}

fn object_array(object_id: u64, n: u32, class_id: u64) -> Vec<u8> {
    let mut b = vec![0x22];
    b.extend_from_slice(&u64b(object_id));
    b.extend_from_slice(&u32b(0));
    b.extend_from_slice(&u32b(n));
    b.extend_from_slice(&u64b(class_id));
    b.extend(std::iter::repeat(0u8).take(n as usize * 8));
    b
}

/// Header, a string record, one instance of a class of size 16, an int array of 5 and
/// an array of 3 strings.
fn scenario_dump() -> Vec<u8> {
    let mut b = header(8);
    b.extend(vec![0x01, 0, 0, 0, 0, 0, 0, 0, 0x0B, 0, 0, 0, 0, 0, 0, 0, 0x2A, 0x66, 0x6F, 0x6F]);
    b.extend(load_class(1, 1, 2));
    b.extend(utf8(2, "java/lang/Object"));
    b.extend(load_class(2, 3, 4));
    b.extend(utf8(4, "[Ljava/lang/String;"));
    b.extend(segment(&[
        class_dump(1, 0, 16),
        instance_dump(99, 1, 16),
        primitive_array(100, 5, 10, 4),
        object_array(101, 3, 3),
    ]));
    b.extend(record(0x2C, &[]));
    b
}

struct Analysis {
    records: Vec<Record>,
    rendered: RenderedResult,
}

fn analyze(bytes: &[u8], chunks: &[usize]) -> Result<Analysis, HprofSlurpError> {
    let header = slurp_header(&bytes[..FILE_HEADER_LENGTH.min(bytes.len())])?;
    let mut parser = HprofRecordStreamParser::new(false, bytes.len(), FILE_HEADER_LENGTH, Vec::new());
    let mut recorder = ResultRecorder::new(header.size_pointers, true, 20);
    let mut all = Vec::new();
    let mut pos = FILE_HEADER_LENGTH;
    let mut sizes = chunks.to_vec();
    while pos < bytes.len() {
        let size = if sizes.is_empty() { bytes.len() - pos } else { sizes.remove(0) };
        let end = (pos + size).min(bytes.len());
        let mut chunk = bytes[pos..end].to_vec();
        pos = end;
        let mut records = Vec::new();
        parser.parse_chunk(&mut chunk, &mut records)?;
        assert!(chunk.is_empty());
        all.extend(records.iter().cloned());
        recorder.record_records(&mut records);
        assert!(records.is_empty());
    }
    parser.finish()?;
    assert_eq!(parser.processed_len(), bytes.len());
    let rendered = recorder.render_result()?;
    Ok(Analysis { records: all, rendered })
}

fn row<'a>(rows: &'a [ClassAllocationStats], name: &str) -> &'a ClassAllocationStats {
    rows.iter().find(|r| r.class_name == name).expect("row present")
}

#[test]
fn supported_64_bits() {
    let result = analyze(&scenario_dump(), &[]);
    assert!(result.is_ok());
}

#[test]
fn unsupported_32_bits() {
    let mut dump = scenario_dump();
    dump[22] = 4;
    let result = analyze(&dump, &[]);
    assert!(result.is_err());
}

#[test]
fn header_only_dump() {
    let dump = header(8);
    let a = analyze(&dump, &[]).unwrap();
    assert!(a.records.is_empty());
    assert!(a.rendered.memory_usage.is_empty());
}

#[test]
fn single_utf8_string_record() {
    let bytes = [0x01, 0, 0, 0, 0, 0, 0, 0, 0x0B, 0, 0, 0, 0, 0, 0, 0, 0x2A, 0x66, 0x6F, 0x6F];
    match parse_top_record(&bytes) {
        Step::Done(Record::Utf8String { id, str }, consumed) => {
            assert_eq!(id, 42);
            assert_eq!(str, "foo");
            assert_eq!(consumed, 20);
        }
        other => panic!("unexpected {:?}", other),
    }
    let mut dump = header(8);
    dump.extend_from_slice(&bytes);
    let a = analyze(&dump, &[]).unwrap();
    assert!(a.rendered.summary.contains("UTF-8 Strings: 1\n"));
    assert_eq!(a.rendered.captured_strings, Some("\nList of Strings\nfoo\n".to_string()));
}

#[test]
fn one_instance_of_one_class() {
    let a = analyze(&scenario_dump(), &[]).unwrap();
    let r = row(&a.rendered.memory_usage, "java.lang.Object");
    assert_eq!(r.instance_count, 1);
    assert_eq!(r.largest_allocation_bytes, 32);
    assert_eq!(r.allocation_size_bytes, 32);
}

#[test]
fn primitive_int_array_of_five() {
    let a = analyze(&scenario_dump(), &[]).unwrap();
    let r = row(&a.rendered.memory_usage, "int[]");
    assert_eq!(r.instance_count, 1);
    assert_eq!(r.largest_allocation_bytes, 40);
    assert_eq!(r.allocation_size_bytes, 40);
}

#[test]
fn object_array_of_three_strings() {
    let a = analyze(&scenario_dump(), &[]).unwrap();
    let r = row(&a.rendered.memory_usage, "java.lang.String[]");
    assert_eq!(r.instance_count, 1);
    assert_eq!(r.largest_allocation_bytes, 40);
    assert_eq!(r.allocation_size_bytes, 40);
}

#[test]
fn instance_size_follows_superclass_chain() {
    let mut dump = header(8);
    dump.extend(load_class(1, 1, 10));
    dump.extend(utf8(10, "pkg/Child"));
    dump.extend(segment(&[
        class_dump(1, 2, 12),
        class_dump(2, 0, 4),
        instance_dump(7, 1, 16),
        instance_dump(8, 1, 16),
    ]));
    let a = analyze(&dump, &[]).unwrap();
    let r = row(&a.rendered.memory_usage, "pkg.Child");
    // 12 + 4 + 16 = 32, no padding
    assert_eq!(r.instance_count, 2);
    assert_eq!(r.largest_allocation_bytes, 32);
    assert_eq!(r.allocation_size_bytes, 64);
}

#[test]
fn padding_adds_size_modulo_eight() {
    let mut dump = header(8);
    dump.extend(load_class(1, 1, 10));
    dump.extend(utf8(10, "pkg/Odd"));
    dump.extend(segment(&[class_dump(1, 0, 5), instance_dump(7, 1, 5)]));
    let a = analyze(&dump, &[]).unwrap();
    let r = row(&a.rendered.memory_usage, "pkg.Odd");
    // 5 + 16 = 21, plus 21 % 8 = 5
    assert_eq!(r.largest_allocation_bytes, 26);
}

#[test]
fn superclass_cycle_is_rejected() {
    let mut dump = header(8);
    dump.extend(load_class(1, 1, 10));
    dump.extend(utf8(10, "pkg/Loop"));
    dump.extend(segment(&[class_dump(1, 2, 4), class_dump(2, 1, 4), instance_dump(7, 1, 0)]));
    assert!(matches!(analyze(&dump, &[]), Err(HprofSlurpError::InvalidHprofFile { .. })));
}

#[test]
fn instance_of_unknown_class_is_rejected() {
    let mut dump = header(8);
    dump.extend(load_class(1, 1, 10));
    dump.extend(utf8(10, "pkg/Missing"));
    dump.extend(segment(&[instance_dump(7, 1, 0)]));
    assert!(matches!(analyze(&dump, &[]), Err(HprofSlurpError::InvalidHprofFile { .. })));
}

#[test]
fn chunked_parse_equivalence() {
    let dump = scenario_dump();
    let whole = analyze(&dump, &[]).unwrap();
    let chunked = analyze(&dump, &[1, 7, 3, 64]).unwrap();
    assert_eq!(whole.records, chunked.records);
    let byte_by_byte = analyze(&dump, &vec![1; dump.len()]).unwrap();
    assert_eq!(whole.records, byte_by_byte.records);
    assert_eq!(whole.rendered.serialize(20), chunked.rendered.serialize(20));
}

#[test]
fn analysis_is_deterministic() {
    let dump = scenario_dump();
    let first = analyze(&dump, &[]).unwrap();
    let second = analyze(&dump, &[]).unwrap();
    let mut m1 = first.rendered.memory_usage.clone();
    let mut m2 = second.rendered.memory_usage.clone();
    let j1 = JsonResult::new(&mut m1, 20);
    let j2 = JsonResult::new(&mut m2, 20);
    assert_eq!(j1.top_allocated_classes, j2.top_allocated_classes);
    assert_eq!(j1.top_largest_instances, j2.top_largest_instances);
    assert_eq!(first.rendered.serialize(20), second.rendered.serialize(20));
}

#[test]
fn truncated_final_record_is_rejected() {
    let mut dump = scenario_dump();
    dump.truncate(dump.len() - 12);
    assert!(matches!(analyze(&dump, &[]), Err(HprofSlurpError::InvalidHprofFile { .. })));
}

#[test]
fn object_element_type_in_primitive_array_is_rejected() {
    let sub = primitive_array(1, 2, 2, 8);
    assert_eq!(parse_gc_record(&sub), Step::Invalid(ParseError::ObjectPrimitiveArray));
}

#[test]
fn unknown_tags_are_rejected() {
    assert_eq!(parse_top_record(&[0x99, 0, 0, 0, 0, 0, 0, 0, 0]), Step::Invalid(ParseError::UnknownTag(0x99)));
    assert_eq!(parse_gc_record(&[0x42]), Step::Invalid(ParseError::UnknownSubTag(0x42)));
    let mut bad = primitive_array(1, 1, 3, 1);
    bad[17] = 3;
    assert_eq!(parse_gc_record(&bad), Step::Invalid(ParseError::UnknownFieldType(3)));
}

#[test]
fn bad_record_length_is_rejected() {
    let rec = record(0x03, &[0, 0, 0, 1, 0]);
    assert_eq!(parse_top_record(&rec), Step::Invalid(ParseError::BadRecordLength(0x03)));
}

#[test]
fn sub_record_crossing_segment_end_is_rejected() {
    let sub = instance_dump(1, 1, 4);
    let mut seg = vec![0x1C];
    seg.extend_from_slice(&u32b(0));
    seg.extend_from_slice(&u32b(10));
    seg.extend_from_slice(&sub);
    let mut parser = HprofRecordParser::new(false);
    let mut out = Vec::new();
    let r = parser.parse_streaming(&seg, &mut out);
    assert_eq!(r, Err(ParseError::SegmentOverrun));
    assert_eq!(out, vec![Record::HeapDumpStart { length: 10 }]);
}

#[test]
fn record_consumes_length_plus_nine() {
    let rec = load_class(5, 6, 7);
    match parse_top_record(&rec) {
        Step::Done(Record::LoadClass(d), consumed) => {
            assert_eq!(consumed, 24 + 9);
            assert_eq!(d.serial_number, 5);
            assert_eq!(d.class_object_id, 6);
            assert_eq!(d.class_name_id, 7);
        }
        other => panic!("unexpected {:?}", other),
    }
    assert_eq!(parse_top_record(&rec[..20]), Step::NeedMore(13));
    assert_eq!(parse_top_record(&rec[..4]), Step::NeedMore(5));
}

#[test]
fn segment_sub_records_fill_declared_length() {
    let subs = vec![class_dump(1, 0, 16), instance_dump(99, 1, 16)];
    let total: usize = subs.iter().map(|s| s.len()).sum();
    let seg = segment(&subs);
    let mut parser = HprofRecordParser::new(false);
    let mut out = Vec::new();
    let batch = parser.parse_streaming(&seg, &mut out).unwrap();
    assert_eq!(batch.consumed, 9 + total);
    assert_eq!(out.len(), 3);
    assert_eq!(parser.heap_dump_remaining(), 0);
    assert!(matches!(out[2], Record::GcSegment(GcRecord::InstanceDump { class_object_id: 1, data_size: 16, .. })));
}

#[test]
fn primitive_array_record_fields() {
    let sub = primitive_array(100, 5, 10, 4);
    match parse_gc_record(&sub) {
        Step::Done(GcRecord::PrimitiveArrayDump { object_id, number_of_elements, element_type, .. }, n) => {
            assert_eq!(object_id, 100);
            assert_eq!(number_of_elements, 5);
            assert_eq!(element_type, FieldType::Int);
            assert_eq!(n, 18 + 20);
        }
        other => panic!("unexpected {:?}", other),
    }
}

#[test]
fn duplicated_strings_are_counted() {
    let mut dump = header(8);
    dump.extend(utf8(1, "a"));
    dump.extend(utf8(2, "b"));
    dump.extend(utf8(3, "a"));
    dump.extend(utf8(4, "a"));
    let a = analyze(&dump, &[]).unwrap();
    assert_eq!(
        a.rendered.duplicated_strings,
        Some("\nFound 2 duplicated strings out of 4 unique strings\n".to_string())
    );
    assert_eq!(a.rendered.captured_strings, Some("\nList of Strings\na\na\na\nb\n".to_string()));
}

#[test]
fn thread_info_lists_frames() {
    let mut dump = header(8);
    dump.extend(load_class(7, 1, 10));
    dump.extend(utf8(10, "pkg/Main"));
    dump.extend(utf8(11, "run"));
    dump.extend(utf8(12, "Main.java"));
    let mut frame = u64b(50).to_vec();
    frame.extend_from_slice(&u64b(11));
    frame.extend_from_slice(&u64b(0));
    frame.extend_from_slice(&u64b(12));
    frame.extend_from_slice(&u32b(7));
    frame.extend_from_slice(&(-3i32).to_be_bytes());
    dump.extend(record(0x04, &frame));
    let mut trace = u32b(3).to_vec();
    trace.extend_from_slice(&u32b(1));
    trace.extend_from_slice(&u32b(1));
    trace.extend_from_slice(&u64b(50));
    dump.extend(record(0x05, &trace));
    let a = analyze(&dump, &[]).unwrap();
    assert_eq!(
        a.rendered.thread_info,
        "\nFound 1 threads with stacktraces:\n\nThread 1\n  at pkg.Main.run (Main.java:native method)\n"
    );
}

#[test]
fn memory_report_tables() {
    let a = analyze(&scenario_dump(), &[]).unwrap();
    let text = a.rendered.serialize(2);
    assert!(text.contains("Found a total of 112.00bytes of instances allocated on the heap.\n"));
    assert!(text.contains("\nTop 2 allocated classes:\n\n"));
    assert!(text.contains("| Total size | Instances |    Largest | Class name         |\n"));
}

#[test]
fn json_result_takes_top_rows() {
    let mut rows = vec![
        ClassAllocationStats::new("a".to_string(), 1, 10, 100),
        ClassAllocationStats::new("b".to_string(), 1, 30, 50),
        ClassAllocationStats::new("c".to_string(), 1, 20, 70),
    ];
    let json = JsonResult::new(&mut rows, 2);
    let names: Vec<_> = json.top_allocated_classes.iter().map(|r| r.class_name.clone()).collect();
    assert_eq!(names, vec!["a", "c"]);
    let names: Vec<_> = json.top_largest_instances.iter().map(|r| r.class_name.clone()).collect();
    assert_eq!(names, vec!["b", "c"]);
}

fn frame_record(frame_id: u64, method_id: u64, class_serial: u32, line: i32) -> Vec<u8> {
    let mut frame = u64b(frame_id).to_vec();
    frame.extend_from_slice(&u64b(method_id));
    frame.extend_from_slice(&u64b(0));
    frame.extend_from_slice(&u64b(999));
    frame.extend_from_slice(&u32b(class_serial));
    frame.extend_from_slice(&line.to_be_bytes());
    record(0x04, &frame)
}

fn trace_record(serial: u32, frames: &[u64]) -> Vec<u8> {
    let mut trace = u32b(serial).to_vec();
    trace.extend_from_slice(&u32b(1));
    trace.extend_from_slice(&u32b(frames.len() as u32));
    for f in frames {
        trace.extend_from_slice(&u64b(*f));
    }
    record(0x05, &trace)
}

#[test]
fn threads_are_ordered_by_serial() {
    let mut dump = header(8);
    dump.extend(load_class(7, 1, 10));
    dump.extend(utf8(10, "a/B"));
    dump.extend(utf8(11, "first"));
    dump.extend(utf8(12, "second"));
    dump.extend(frame_record(50, 11, 7, 12));
    dump.extend(frame_record(51, 12, 7, -1));
    dump.extend(frame_record(52, 12, 7, -2));
    dump.extend(trace_record(9, &[51, 52]));
    dump.extend(trace_record(3, &[50]));
    dump.extend(trace_record(5, &[]));
    let a = analyze(&dump, &[]).unwrap();
    assert_eq!(
        a.rendered.thread_info,
        "\nFound 2 threads with stacktraces:\n\nThread 1\n  at a.B.first (unknown source file:12)\n\nThread 2\n  at a.B.second (unknown source file:unknown line number)\n  at a.B.second (unknown source file:compiled method)\n"
    );
}

#[test]
fn summary_counts_records() {
    let a = analyze(&scenario_dump(), &[]).unwrap();
    let s = &a.rendered.summary;
    assert!(s.starts_with("\nFile content summary:\n\nUTF-8 Strings: 3\nClasses loaded: 2\n"));
    assert!(s.contains("1 heap dumps containing in total 4 segments:\n"));
    assert!(s.contains("..GC primitive array dump: 1\n..GC object array dump: 1\n..GC class dump: 1\n"));
    assert!(s.ends_with("..GC instance dump: 1"));
}

#[test]
fn later_string_with_same_id_replaces_earlier() {
    let mut dump = header(8);
    dump.extend(utf8(1, "a"));
    dump.extend(utf8(1, "b"));
    let a = analyze(&dump, &[]).unwrap();
    assert!(a.rendered.summary.contains("UTF-8 Strings: 1\n"));
    assert_eq!(a.rendered.captured_strings, Some("\nList of Strings\nb\n".to_string()));
    assert_eq!(a.rendered.duplicated_strings, None);
}

#[test]
fn first_class_dump_of_a_class_is_kept() {
    let mut dump = header(8);
    dump.extend(load_class(1, 1, 10));
    dump.extend(utf8(10, "pkg/Twice"));
    dump.extend(segment(&[class_dump(1, 0, 16), class_dump(1, 0, 40), instance_dump(7, 1, 0)]));
    let a = analyze(&dump, &[]).unwrap();
    assert_eq!(row(&a.rendered.memory_usage, "pkg.Twice").largest_allocation_bytes, 32);
}

#[test]
fn invalid_utf8_is_replaced() {
    let mut body = u64b(5).to_vec();
    body.extend_from_slice(&[0x66, 0xFF]);
    let rec = record(0x01, &body);
    match parse_top_record(&rec) {
        Step::Done(Record::Utf8String { id, str }, _) => {
            assert_eq!(id, 5);
            assert_eq!(str, "f\u{FFFD}");
        }
        other => panic!("unexpected {:?}", other),
    }
}
