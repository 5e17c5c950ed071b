use hprof_slurp::utils::pretty_bytes_size;

#[test]
fn pretty_size_gb() {
    let size: u64 = 1_200_000_000;
    assert_eq!(pretty_bytes_size(size), "1.12GiB");
}

#[test]
fn pretty_size_mb() {
    let size: u64 = 1_200_000;
    assert_eq!(pretty_bytes_size(size), "1.14MiB");
}

#[test]
fn pretty_size_kb() {
    let size: u64 = 1_200;
    assert_eq!(pretty_bytes_size(size), "1.17KiB");
}

#[test]
fn pretty_size_bytes_and_boundaries() {
    assert_eq!(pretty_bytes_size(0), "0.00bytes");
    assert_eq!(pretty_bytes_size(40), "40.00bytes");
    assert_eq!(pretty_bytes_size(1024), "1024.00bytes");
    assert_eq!(pretty_bytes_size(1025), "1.00KiB");
    assert_eq!(pretty_bytes_size(1536), "1.50KiB");
}

#[test]
fn pretty_size_rounds_ties_to_even() {
    // 1152 bytes are exactly 1.125 KiB, 1664 bytes exactly 1.625 KiB
    assert_eq!(pretty_bytes_size(1152), "1.12KiB");
    assert_eq!(pretty_bytes_size(1664), "1.62KiB");
    assert_eq!(pretty_bytes_size(2 * 1024 * 1024 * 1024 + 1), "2.00GiB");
}
