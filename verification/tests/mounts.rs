use flow_edge::runtime::mounts::{build_mounts, validate_mount_point, MountError};

fn owned(list: &[&str]) -> Vec<String> {
    list.iter().map(|s| s.to_string()).collect()
}

#[test]
fn test_validate_mount_point() {
    let existing = |points: &[&str]| -> Vec<String> { owned(points) };

    assert!(validate_mount_point("/s3", &existing(&[])).is_ok());
    assert!(validate_mount_point("/objects", &existing(&["/s3"])).is_ok());
    assert!(validate_mount_point("/s3-two", &existing(&["/s3"])).is_ok());

    assert!(validate_mount_point("s3", &existing(&[])).is_err());
    assert!(validate_mount_point("/", &existing(&[])).is_err());
    assert!(validate_mount_point("/tmp", &existing(&[])).is_err());
    assert!(validate_mount_point("/tmp/s3", &existing(&[])).is_err());
    assert!(validate_mount_point("/s3", &existing(&["/s3"])).is_err());
    assert!(validate_mount_point("/s3/inner", &existing(&["/s3"])).is_err());
    assert!(validate_mount_point("/s3", &existing(&["/s3/inner"])).is_err());
}

#[test]
fn mount_errors_say_what_is_wrong() {
    let e = validate_mount_point("s3", &vec![]).unwrap_err();
    assert!(matches!(e, MountError::NotAbsolute(_)));
    assert_eq!(
        e.message(),
        "invalid mount point 's3': must be an absolute path other than '/'"
    );
    let e = validate_mount_point("/tmp/x", &vec![]).unwrap_err();
    assert!(matches!(e, MountError::ConflictsWithTmp(_)));
    assert_eq!(e.message(), "invalid mount point '/tmp/x': conflicts with '/tmp'");
    let e = validate_mount_point("/s3/inner", &owned(&["/other", "/s3"])).unwrap_err();
    assert!(matches!(e, MountError::Conflicts { .. }));
    assert_eq!(
        e.message(),
        "invalid mount point '/s3/inner': conflicts with mount point '/s3'"
    );
}

#[test]
fn roots_in_other_spellings_are_refused() {
    assert!(validate_mount_point("//", &vec![]).is_err());
    assert!(validate_mount_point("/.", &vec![]).is_err());
    assert!(validate_mount_point("/s3/", &owned(&["/s3"])).is_err());
    assert!(validate_mount_point("//s3", &owned(&["/s3"])).is_err());
    assert!(validate_mount_point("/tmpx", &vec![]).is_ok());
    assert!(validate_mount_point("", &vec![]).is_err());
}

#[test]
fn mounts_are_layered_in_order() {
    let t = build_mounts(&owned(&["/s3", "/s3-two"]), &owned(&["/http"])).unwrap();
    assert_eq!(t.points, owned(&["/s3", "/s3-two", "/http"]));
    assert_eq!(t.s3_count, 2);
    assert!(build_mounts(&owned(&["/s3"]), &owned(&["/s3/sub"])).is_err());
    assert!(build_mounts(&owned(&["/s3", "/s3"]), &vec![]).is_err());
    assert!(build_mounts(&vec![], &vec![]).unwrap().points.is_empty());
}
