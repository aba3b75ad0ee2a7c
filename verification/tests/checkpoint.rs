use libra::checkpoint::{admit_blob, check_blob_oid, sanitize_rel_path, CheckpointInputFile};

#[test]
fn sanitize_rejects_escapes() {
    for bad in ["../x", "a/../b", "/abs", "a//b", "", "."] {
        assert!(sanitize_rel_path(bad).is_err(), "{bad} must be rejected");
    }
    assert_eq!(
        sanitize_rel_path("transcript/claude_code").unwrap(),
        vec!["transcript".to_string(), "claude_code".to_string()]
    );
}

#[test]
fn sanitize_names_the_refused_path() {
    assert_eq!(
        sanitize_rel_path("a/../b").unwrap_err(),
        "checkpoint input path 'a/../b' contains an unsafe component; refusing"
    );
}

#[test]
fn sanitize_accepts_dotted_names_and_single_components() {
    assert_eq!(sanitize_rel_path("metadata.json").unwrap(), vec!["metadata.json".to_string()]);
    assert_eq!(
        sanitize_rel_path("...").unwrap(),
        vec!["...".to_string()]
    );
    assert!(sanitize_rel_path("a/").is_err());
}

fn blob_file(oid: &str) -> CheckpointInputFile {
    CheckpointInputFile { rel_path: "src/lib.rs".to_string(), oid: oid.to_string() }
}

#[test]
fn blob_ids_of_the_wrong_length_are_refused_before_reading() {
    assert_eq!(
        check_blob_oid(&blob_file("abc123")),
        Err("invalid blob oid 'abc123' in checkpoint input spec: Invalid hash length".to_string())
    );
}

#[test]
fn blob_ids_in_hex_of_forty_or_sixty_four_digits_parse() {
    assert_eq!(check_blob_oid(&blob_file(&"a".repeat(40))), Ok(()));
    assert_eq!(check_blob_oid(&blob_file(&"0F".repeat(32))), Ok(()));
    let bad = check_blob_oid(&blob_file(&format!("{}g", "a".repeat(39)))).unwrap_err();
    assert!(bad.starts_with("invalid blob oid '"));
}

#[test]
fn blobs_are_admitted_against_both_caps() {
    let file = blob_file(&"a".repeat(40));
    assert_eq!(admit_blob("cp-1", &file, Ok((10, false)), 5), Ok(15));
    assert_eq!(
        admit_blob("cp-1", &file, Ok((64 * 1024 * 1024, true)), 0),
        Err(format!(
            "checkpoint blob {} (src/lib.rs) exceeds the 67108864-byte per-file cap; refusing to materialize",
            file.oid
        ))
    );
    assert_eq!(
        admit_blob("cp-1", &file, Ok((2, false)), 256 * 1024 * 1024 - 1),
        Err("checkpoint cp-1 materialization exceeds the 268435456-byte total cap; refusing".to_string())
    );
    assert_eq!(admit_blob("cp-1", &file, Ok((1, false)), 256 * 1024 * 1024 - 1), Ok(256 * 1024 * 1024));
    assert_eq!(
        admit_blob("cp-1", &file, Err("object missing".to_string()), 0),
        Err(format!(
            "checkpoint blob {} (src/lib.rs) is not readable from the local object store: object missing",
            file.oid
        ))
    );
}
