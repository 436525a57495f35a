use flow_migrate::archive::FileEntry;
use flow_migrate::errs::MigrateError;
use flow_migrate::manifest::{apply_migration, serialize_manifest, Manifest, RawField};
use flow_migrate::mjson::parse_manifest;
use flow_migrate::zipstore::{from_directory_tree, from_existing_archive, read_all_entries};

fn sample_manifest() -> Manifest {
    Manifest {
        identity: "abc".to_string(),
        display_name: "Bot1".to_string(),
        encrypted: true,
        extra: vec![
            RawField { key: b"description".to_vec(), value: b"\"a bot\"".to_vec() },
            RawField { key: b"flows".to_vec(), value: b"[1, 2]".to_vec() },
        ],
    }
}

#[test]
fn serializer_produces_expected_text() {
    let m = Manifest {
        identity: "abc".to_string(),
        display_name: "Bot1".to_string(),
        encrypted: false,
        extra: vec![RawField { key: b"extra_key".to_vec(), value: b"123".to_vec() }],
    };
    let out = serialize_manifest(&m);
    let expected = "{\n  \"uuid\": \"abc\",\n  \"name\": \"Bot1\",\n  \"encrypt_bot\": false,\n  \"extra_key\": 123\n}";
    assert_eq!(String::from_utf8(out).unwrap(), expected);
}

#[test]
fn serializer_escapes_strings() {
    let m = Manifest {
        identity: "a\"b".to_string(),
        display_name: "line\nbreak".to_string(),
        encrypted: false,
        extra: vec![],
    };
    let out = String::from_utf8(serialize_manifest(&m)).unwrap();
    assert!(out.contains("\"uuid\": \"a\\\"b\""));
    assert!(out.contains("\"name\": \"line\\nbreak\""));
}

#[test]
fn parse_round_trips_serialization() {
    let m = sample_manifest();
    let bytes = serialize_manifest(&m);
    let back = parse_manifest(&bytes).unwrap();
    assert_eq!(back.identity, m.identity);
    assert_eq!(back.display_name, m.display_name);
    assert_eq!(back.encrypted, m.encrypted);
    assert_eq!(back.extra.len(), 2);
    assert_eq!(back.extra[0].key, b"description".to_vec());
    assert_eq!(back.extra[0].value, b"\"a bot\"".to_vec());
    assert_eq!(back.extra[1].value, b"[1, 2]".to_vec());
}

#[test]
fn parse_reads_plain_document() {
    let doc = b"{\"uuid\":\"abc\",\"name\":\"Bot1\",\"encrypt_bot\":true}".to_vec();
    let m = parse_manifest(&doc).unwrap();
    assert_eq!(m.identity, "abc");
    assert_eq!(m.display_name, "Bot1");
    assert!(m.encrypted);
    assert!(m.extra.is_empty());
}

#[test]
fn parse_decodes_escapes() {
    let doc = b"{\"uuid\":\"a\\\"b\",\"name\":\"B\\u00e9t\\n\",\"encrypt_bot\":false}".to_vec();
    let m = parse_manifest(&doc).unwrap();
    assert_eq!(m.identity, "a\"b");
    assert_eq!(m.display_name, "B\u{e9}t\n");
}

#[test]
fn parse_decodes_surrogate_pairs() {
    let doc = b"{\"uuid\":\"abc\",\"name\":\"\\ud83d\\ude00\"}".to_vec();
    let m = parse_manifest(&doc).unwrap();
    assert_eq!(m.display_name, "\u{1f600}");
}

#[test]
fn parse_rejects_malformed_documents() {
    assert!(matches!(
        parse_manifest(&b"not json".to_vec()),
        Err(MigrateError::ArchiveFormat)
    ));
    assert!(matches!(
        parse_manifest(&b"{\"name\":\"Bot1\"}".to_vec()),
        Err(MigrateError::ArchiveFormat)
    ));
    assert!(matches!(
        parse_manifest(&b"{\"uuid\":\"a\",\"name\":\"b\",\"encrypt_bot\":\"x\"}".to_vec()),
        Err(MigrateError::ArchiveFormat)
    ));
    assert!(matches!(
        parse_manifest(&b"{\"uuid\":1,\"name\":\"b\"}".to_vec()),
        Err(MigrateError::ArchiveFormat)
    ));
}

#[test]
fn migration_clears_encryption_flag() {
    let m = sample_manifest();
    assert!(m.encrypted);
    let migrated = apply_migration(m, "new-id".to_string(), "New Name".to_string());
    assert!(!migrated.encrypted);
    assert_eq!(migrated.identity, "new-id");
    assert_eq!(migrated.display_name, "New Name");
    assert_eq!(migrated.extra.len(), 2);
}

fn build_source_archive() -> Vec<u8> {
    let files = vec![
        FileEntry { path: b"package.json".to_vec(), data: Vec::new() },
        FileEntry { path: b"script.js".to_vec(), data: b"console.log(1);".to_vec() },
        FileEntry { path: b"sub\\res.txt".to_vec(), data: b"resource".to_vec() },
    ];
    from_directory_tree(files, &sample_manifest()).unwrap()
}

#[test]
fn directory_build_normalizes_paths_and_substitutes_manifest() {
    let blob = build_source_archive();
    let pkg = read_all_entries(&blob).unwrap();
    let names: Vec<String> = pkg.entries.iter().map(|e| e.name.clone()).collect();
    assert_eq!(names, vec!["package.json", "script.js", "sub/res.txt"]);
    assert_eq!(pkg.entries[1].data, b"console.log(1);".to_vec());
    assert_eq!(pkg.entries[2].data, b"resource".to_vec());
    let m = parse_manifest(&pkg.entries[0].data).unwrap();
    assert_eq!(m.identity, "abc");
    assert!(m.encrypted);
}

#[test]
fn transform_preserves_every_other_entry() {
    let blob = build_source_archive();
    let (out, migrated) = from_existing_archive(&blob, "fresh-id".to_string(), "Bot1_migrated"
        .to_string())
        .unwrap();
    assert_eq!(migrated.identity, "fresh-id");
    assert!(!migrated.encrypted);
    let before = read_all_entries(&blob).unwrap();
    let after = read_all_entries(&out).unwrap();
    assert_eq!(after.entries.len(), before.entries.len());
    for (a, b) in after.entries.iter().zip(before.entries.iter()) {
        assert_eq!(a.name, b.name);
        if a.name != "package.json" {
            assert_eq!(a.data, b.data);
        }
    }
    let m = parse_manifest(&after.entries[0].data).unwrap();
    assert_eq!(m.identity, "fresh-id");
    assert_ne!(m.identity, "abc");
    assert_eq!(m.display_name, "Bot1_migrated");
    assert!(!m.encrypted);
    assert_eq!(m.extra.len(), 2);
    assert_eq!(m.extra[0].value, b"\"a bot\"".to_vec());
    assert_eq!(m.extra[1].value, b"[1, 2]".to_vec());
}

#[test]
fn transform_without_manifest_entry_fails() {
    let files = vec![FileEntry { path: b"script.js".to_vec(), data: b"x".to_vec() }];
    let blob = from_directory_tree(files, &sample_manifest()).unwrap();
    let r = from_existing_archive(&blob, "id".to_string(), "n".to_string());
    assert!(matches!(r, Err(MigrateError::ManifestMissing)));
}

#[test]
fn unreadable_blob_is_a_format_error() {
    let r = read_all_entries(&b"this is not a zip".to_vec());
    assert!(matches!(r, Err(MigrateError::ArchiveFormat)));
    let r2 = from_existing_archive(&Vec::new(), "id".to_string(), "n".to_string());
    assert!(matches!(r2, Err(MigrateError::ArchiveFormat)));
}

#[test]
fn empty_archive_has_no_manifest() {
    let blob = from_directory_tree(Vec::new(), &sample_manifest()).unwrap();
    let pkg = read_all_entries(&blob).unwrap();
    assert!(pkg.entries.is_empty());
    let r = from_existing_archive(&blob, "id".to_string(), "n".to_string());
    assert!(matches!(r, Err(MigrateError::ManifestMissing)));
}

#[test]
fn parse_tolerates_whitespace_and_nesting() {
    let doc = b" {\n  \"uuid\" : \"abc\" ,\n  \"name\" : \"Bot1\" ,\n  \"deep\" : { \"a\": [1, {\"b\": \"}{\"}] }\n } ".to_vec();
    let m = parse_manifest(&doc).unwrap();
    assert_eq!(m.identity, "abc");
    assert_eq!(m.extra.len(), 1);
    assert_eq!(m.extra[0].key, b"deep".to_vec());
    assert_eq!(m.extra[0].value, b"{ \"a\": [1, {\"b\": \"}{\"}] }".to_vec());
}

#[test]
fn reserialization_keeps_passthrough_values_byte_for_byte() {
    let doc = b"{\"uuid\":\"abc\",\"name\":\"Bot1\",\"weird\":  [1,  2,\t3]}".to_vec();
    let m = parse_manifest(&doc).unwrap();
    let out = String::from_utf8(serialize_manifest(&m)).unwrap();
    assert!(out.contains("\"weird\": [1,  2,\t3]"));
}

#[test]
fn parse_rejects_malformed_fragment_values() {
    assert!(matches!(
        parse_manifest(&b"{\"uuid\":\"a\",\"name\":\"b\",\"x\":12abc}".to_vec()),
        Err(MigrateError::ArchiveFormat)
    ));
    assert!(matches!(
        parse_manifest(&b"{\"uuid\":\"a\",\"name\":\"b\",\"x\":}".to_vec()),
        Err(MigrateError::ArchiveFormat)
    ));
    assert!(matches!(
        parse_manifest(&b"{\"uuid\":\"a\",\"name\":\"b\",\"x\":[1,}]}".to_vec()),
        Err(MigrateError::ArchiveFormat)
    ));
    assert!(matches!(
        parse_manifest(&b"{\"uuid\":\"a\",\"name\":\"b\",\"x\":\"\\q\"}".to_vec()),
        Err(MigrateError::ArchiveFormat)
    ));
    assert!(matches!(
        parse_manifest(&b"{\"uuid\":\"a\",\"name\":\"b\",\"x\":01}".to_vec()),
        Err(MigrateError::ArchiveFormat)
    ));
    let ok = parse_manifest(
        &b"{\"uuid\":\"a\",\"name\":\"b\",\"x\":[1.5e-3, {\"y\": null}, true]}".to_vec(),
    )
    .unwrap();
    assert_eq!(ok.extra[0].value, b"[1.5e-3, {\"y\": null}, true]".to_vec());
}

#[test]
fn duplicate_entry_names_cannot_be_packed() {
    let files = vec![
        FileEntry { path: b"package.json".to_vec(), data: Vec::new() },
        FileEntry { path: b"dir\\a.txt".to_vec(), data: b"x".to_vec() },
        FileEntry { path: b"dir/a.txt".to_vec(), data: b"y".to_vec() },
    ];
    let r = from_directory_tree(files, &sample_manifest());
    assert!(matches!(r, Err(MigrateError::Io)));
}
