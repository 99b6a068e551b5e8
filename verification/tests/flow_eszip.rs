use flow_edge::flow_eszip::{
    check_bundle_request, parse_checksum, unbundle_source, BundleOutcome, BundleStream, Checksum,
    RequestError, UnbundleSource,
};

#[test]
fn checksums_are_known_by_name() {
    assert_eq!(parse_checksum(None).unwrap(), None);
    assert_eq!(parse_checksum(Some("none")).unwrap(), Some(Checksum::NoChecksum));
    assert_eq!(parse_checksum(Some("sha256")).unwrap(), Some(Checksum::Sha256));
    assert_eq!(parse_checksum(Some("xxhash3")).unwrap(), Some(Checksum::XxHash3));
    assert_eq!(
        parse_checksum(Some("md5")).unwrap_err().message(),
        "invalid checksum kind: md5 (expected \"none\", \"sha256\" or \"xxhash3\")"
    );
    assert_eq!(Checksum::from_u8(3), None);
}

#[test]
fn bundling_needs_something_to_bundle() {
    let e = check_bundle_request(false, false, Some("md5")).unwrap_err();
    assert!(matches!(e, RequestError::NothingToBundle));
    assert_eq!(
        e.message(),
        "either an entrypoint path or module code must be provided"
    );
    assert_eq!(check_bundle_request(true, false, None).unwrap(), None);
    assert!(check_bundle_request(false, true, Some("md5")).is_err());
}

#[test]
fn unbundling_needs_exactly_one_source() {
    assert!(matches!(
        unbundle_source(Some("a".into()), None),
        Ok(UnbundleSource::Path(_))
    ));
    assert!(matches!(unbundle_source(None, Some(vec![1])), Ok(UnbundleSource::Data(_))));
    let e = unbundle_source(None, None).err().unwrap();
    assert_eq!(
        e.message(),
        "exactly one of an eszip path or eszip bytes must be provided"
    );
    assert!(unbundle_source(Some("a".into()), Some(vec![])).is_err());
}

#[test]
fn reads_reassemble_the_bundle() {
    let data: Vec<u8> = (0..10).collect();
    let mut s = BundleStream::Pending;
    s.deliver(BundleOutcome::Ready(data.clone())).unwrap();
    let mut all = Vec::new();
    all.extend(s.read(3));
    all.extend(s.read(0));
    all.extend(s.read(4));
    all.extend(s.read(100));
    assert_eq!(all, data);
    assert!(s.read(5).is_empty());
    assert!(matches!(s, BundleStream::Done));
    assert!(s.read(5).is_empty());
}

#[test]
fn a_failed_bundle_ends_the_stream() {
    let mut s = BundleStream::Pending;
    assert_eq!(s.deliver(BundleOutcome::Failed("no".into())).unwrap_err(), "no");
    assert!(s.read(1).is_empty());
    let mut s = BundleStream::Pending;
    assert_eq!(
        s.deliver(BundleOutcome::Lost).unwrap_err(),
        "the eszip bundling thread exited unexpectedly"
    );
}
