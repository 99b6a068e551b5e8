use flow_edge::eszip_trait::{read_source_range, slice_source_range};

#[test]
fn slice_source_range_clamps() {
    assert_eq!(slice_source_range(b"hello world", 6, 5), b"world");
    assert_eq!(slice_source_range(b"hello", 3, 100), b"lo");
    assert_eq!(slice_source_range(b"hello", 10, 5), b"");
    assert_eq!(slice_source_range(b"hello", u64::MAX, usize::MAX), b"");
}

#[test]
fn default_read_source_range_honors_pos() {
    let src: &[u8] = b"0123456789";

    let ranged = read_source_range(Some(src), "x", 4, 3).unwrap();
    assert_eq!(ranged, b"456");

    let at_eof = read_source_range(Some(src), "x", 42, 3).unwrap();
    assert!(at_eof.is_empty());

    let clamped = read_source_range(Some(src), "x", 8, 100).unwrap();
    assert_eq!(clamped, b"89");
}

#[test]
fn missing_source_is_reported_with_its_specifier() {
    let e = read_source_range(None, "file:///a.ts", 0, 1).unwrap_err();
    assert_eq!(e.message(), "no content available for file:///a.ts");
}

#[test]
fn ranged_reads_continue_where_the_last_one_stopped() {
    let src: &[u8] = b"abcdefgh";
    let mut whole = slice_source_range(src, 1, 3);
    whole.extend(slice_source_range(src, 4, 3));
    assert_eq!(whole, slice_source_range(src, 1, 6));
}
