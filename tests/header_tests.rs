use hprof_slurp::args::get_args;
use hprof_slurp::errors::HprofSlurpError;
use hprof_slurp::grammar::Step;
use hprof_slurp::header::{parse_file_header, slurp_header, FileHeader};

fn header_bytes(id_size: u8, format: &str) -> Vec<u8> {
    let mut b = format.as_bytes().to_vec();
    b.push(0);
    b.extend_from_slice(&[0, 0, 0, id_size]);
    b.extend_from_slice(&[0, 0, 1, 118, 111, 186, 173, 167]);
    b
}

#[test]
fn file_header_parser_parse_well_formed_header() {
    let binary: [u8; 31] = [
        74, 65, 86, 65, 32, 80, 82, 79, 70, 73, 76, 69, 32, 49, 46, 48, 46, 50, 0, 0, 0, 0, 8,
        0, 0, 1, 118, 111, 186, 173, 167,
    ];
    let expected = FileHeader {
        format: "JAVA PROFILE 1.0.2".to_string(),
        size_pointers: 8,
        timestamp: 1_608_192_273_831,
    };
    match parse_file_header(&binary) {
        Step::Done(header, consumed) => {
            assert_eq!(header, expected);
            assert_eq!(consumed, binary.len());
        }
        other => panic!("unexpected {:?}", other),
    }
}

#[test]
fn parse_header_too_short() {
    let binary: [u8; 30] = [
        74, 65, 86, 65, 32, 80, 82, 79, 70, 73, 76, 69, 32, 49, 46, 48, 46, 50, 0, 0, 0, 0, 8,
        0, 0, 1, 118, 111, 186, 173,
    ];
    assert!(matches!(parse_file_header(&binary), Step::NeedMore(_)));
}

#[test]
fn file_header_64_bits() {
    let b = header_bytes(8, "JAVA PROFILE 1.0.1");
    assert_eq!(b.len(), 31);
    let file_header = slurp_header(&b).unwrap();
    assert_eq!(file_header.size_pointers, 8);
    assert_eq!(file_header.format, "JAVA PROFILE 1.0.1".to_string());
}

#[test]
fn file_header_32_bits() {
    let b = header_bytes(4, "JAVA PROFILE 1.0.1");
    let result = slurp_header(&b);
    assert!(result.is_err());
}

#[test]
fn header_id_size_four_is_unsupported() {
    let b = header_bytes(4, "JAVA PROFILE 1.0.2");
    assert!(matches!(slurp_header(&b), Err(HprofSlurpError::UnsupportedIdSize { .. })));
}

#[test]
fn header_invalid_id_size() {
    let b = header_bytes(5, "JAVA PROFILE 1.0.2");
    assert!(matches!(slurp_header(&b), Err(HprofSlurpError::InvalidIdSize)));
}

#[test]
fn header_shorter_than_prefix() {
    let b = header_bytes(8, "JAVA PROFILE 1.0.2");
    assert!(matches!(slurp_header(&b[..30]), Err(HprofSlurpError::InvalidHeaderSize)));
    assert!(matches!(slurp_header(&[]), Err(HprofSlurpError::InvalidHeaderSize)));
}

#[test]
fn header_with_bytes_left_over() {
    let b = header_bytes(8, "JAVA PROFILE 1.0");
    let mut padded = b.clone();
    padded.extend_from_slice(&[0, 0]);
    assert!(matches!(slurp_header(&padded), Err(HprofSlurpError::InvalidHeaderSize)));
}

#[test]
fn header_without_terminator() {
    let b = vec![65u8; 31];
    assert!(matches!(slurp_header(&b), Err(HprofSlurpError::InvalidHprofFile { .. })));
}

#[test]
fn top_zero_is_rejected() {
    assert!(matches!(get_args("dump.hprof", true, 0, false, false, false), Err(HprofSlurpError::InvalidTopPositiveInt)));
    assert!(matches!(get_args("missing.hprof", false, 0, false, false, false), Err(HprofSlurpError::InvalidTopPositiveInt)));
    match get_args("missing.hprof", false, 3, false, false, false) {
        Err(HprofSlurpError::InputFileNotFound { name }) => assert_eq!(name, "missing.hprof"),
        _ => panic!("expected a missing input"),
    }
    let args = get_args("dump.hprof", true, 5, true, false, true).unwrap();
    assert_eq!(args.file_path, "dump.hprof");
    assert_eq!(args.top, 5);
    assert!(args.debug && !args.list_strings && args.json_output);
}
