use flow_migrate::archive::FileEntry;
use flow_migrate::client::{AppDetail, CloudFlow, UploadInfo};
use flow_migrate::errs::{MigrateError, MigrateResult};
use flow_migrate::ident::{new_identity, Timestamp};
use flow_migrate::manifest::Manifest;
use flow_migrate::mjson::parse_manifest;
use flow_migrate::pipeline::{start, step, Action, ArtifactKind, Event, FlowDescriptor, LocalFlow, Phase};

fn ts() -> Timestamp {
    Timestamp { year: 2024, month: 5, day: 1, hour: 12, minute: 3, second: 9 }
}

fn slot(tag: &str) -> UploadInfo {
    UploadInfo {
        upload_url: format!("https://oss.example/{tag}"),
        file_key: format!("key-{tag}"),
        read_url: format!("https://read.example/{tag}"),
        file_key_md5: format!("md5-{tag}"),
    }
}

fn local_descriptor(name: &str, root: &str) -> FlowDescriptor {
    let doc = format!(
        "{{\"uuid\":\"abc\",\"name\":\"{name}\",\"encrypt_bot\":true}}"
    );
    let manifest: Manifest = parse_manifest(&doc.into_bytes()).unwrap();
    FlowDescriptor::Local(LocalFlow {
        user_id: "u1".to_string(),
        app_id: "app1".to_string(),
        uuid: "abc".to_string(),
        name: name.to_string(),
        update_time: "2024-05-01 00:00:00".to_string(),
        robot_path: root.to_string(),
        package_data: manifest,
    })
}

fn local_files() -> Vec<FileEntry> {
    vec![
        FileEntry { path: b"package.json".to_vec(), data: Vec::new() },
        FileEntry { path: b"script.js".to_vec(), data: b"console.log(1);".to_vec() },
    ]
}

/// A stub remote that always succeeds: performs each emitted action by
/// recording it, and produces the matching success event.  Returns the
/// item's final outcome and what the remote saw.
struct RemoteLog {
    slots: Vec<(String, ArtifactKind)>,
    uploads: Vec<(String, Vec<u8>)>,
    registers: Vec<(String, Manifest, String)>,
}

fn run_item(desc: FlowDescriptor, files: Result<Vec<FileEntry>, MigrateError>) -> (MigrateResult, RemoteLog) {
    let mut log = RemoteLog { slots: Vec::new(), uploads: Vec::new(), registers: Vec::new() };
    let (mut phase, mut action) = start(desc, new_identity(), ts());
    let mut files = Some(files);
    let mut slot_count = 0u32;
    loop {
        let event = match action {
            Action::ReadDirectory { root: _ } => Event::LocalFiles { result: files.take().unwrap() },
            Action::FetchDetail { app_id: _ } => unreachable!("local items fetch no detail"),
            Action::DownloadArchive { url: _ } => unreachable!("local items download nothing"),
            Action::AcquireSlot { app_id, kind } => {
                slot_count += 1;
                let s = slot(&format!("{slot_count}"));
                log.slots.push((app_id, kind));
                Event::SlotAcquired { result: Ok(s) }
            },
            Action::UploadBytes { upload_url, data } => {
                log.uploads.push((upload_url, data));
                Event::Uploaded { result: Ok(()) }
            },
            Action::Register { app_id, manifest, checksum } => {
                log.registers.push((app_id, manifest, checksum));
                Event::Registered { result: Ok(()) }
            },
            Action::Finish { result } => return (result, log),
        };
        let next = step(phase, event);
        phase = next.0;
        action = next.1;
    }
}

#[test]
fn end_to_end_local_migration() {
    let (result, log) = run_item(local_descriptor("Bot1", "pkg"), Ok(local_files()));
    assert!(result.success);
    assert!(result.name.starts_with("Bot1_migrated_at_"));
    assert_eq!(result.name, "Bot1_migrated_at_2024-05-01 12:03:09");

    assert_eq!(log.slots.len(), 2);
    assert_eq!(log.slots[0].1, ArtifactKind::Binary);
    assert_eq!(log.slots[1].1, ArtifactKind::ManifestDoc);
    assert_eq!(log.slots[0].0, log.slots[1].0);

    assert_eq!(log.uploads.len(), 2);
    assert_eq!(log.uploads[0].0, "https://oss.example/1");
    assert_eq!(log.uploads[1].0, "https://oss.example/2");

    assert_eq!(log.registers.len(), 1);
    let (reg_app_id, reg_manifest, reg_checksum) = &log.registers[0];
    assert_eq!(reg_app_id, &reg_manifest.identity);
    assert_eq!(reg_checksum, "md5-2");
    assert!(!reg_manifest.encrypted);
    assert_ne!(reg_manifest.identity, "abc");

    let uploaded_manifest = parse_manifest(&log.uploads[1].1).unwrap();
    assert!(!uploaded_manifest.encrypted);
    assert_ne!(uploaded_manifest.identity, "abc");
    assert_eq!(uploaded_manifest.display_name, result.name);
}

#[test]
fn slots_are_not_reused_within_one_item() {
    let doc = b"{\"uuid\":\"abc\",\"name\":\"Bot1\",\"encrypt_bot\":true}".to_vec();
    let manifest = parse_manifest(&doc).unwrap();
    let desc = FlowDescriptor::Local(LocalFlow {
        user_id: "u1".to_string(),
        app_id: "app1".to_string(),
        uuid: "abc".to_string(),
        name: "Bot1".to_string(),
        update_time: String::new(),
        robot_path: "pkg".to_string(),
        package_data: manifest,
    });
    let (phase, action) = start(desc, new_identity(), ts());
    let (phase, action) = match action {
        Action::ReadDirectory { .. } => step(phase, Event::LocalFiles { result: Ok(local_files()) }),
        other => panic!("unexpected action {other:?}"),
    };
    assert!(matches!(&action, Action::AcquireSlot { kind: ArtifactKind::Binary, .. }));
    let (phase, action) = step(phase, Event::SlotAcquired { result: Ok(slot("bin")) });
    assert!(matches!(&action, Action::UploadBytes { .. }));
    let (phase, action) = step(phase, Event::Uploaded { result: Ok(()) });
    assert!(matches!(&action, Action::AcquireSlot { kind: ArtifactKind::ManifestDoc, .. }));
    let (phase, action) = step(phase, Event::SlotAcquired { result: Ok(slot("man")) });
    assert!(matches!(&action, Action::UploadBytes { .. }));
    let (phase, _action) = step(phase, Event::Uploaded { result: Ok(()) });
    match &phase {
        Phase::AwaitRegister { binary_key, manifest_key, .. } => {
            assert_eq!(binary_key, "key-bin");
            assert_eq!(manifest_key, "key-man");
            assert_ne!(binary_key, manifest_key);
        },
        other => panic!("unexpected phase {other:?}"),
    }
}

#[test]
fn batch_isolates_one_failure() {
    let batch = vec![
        (local_descriptor("One", "p1"), Ok(local_files())),
        (local_descriptor("Two", "p2"), Err(MigrateError::SourceUnavailable)),
        (local_descriptor("Three", "p3"), Ok(local_files())),
    ];
    let mut results: Vec<MigrateResult> = Vec::new();
    for (desc, files) in batch {
        let (result, _log) = run_item(desc, files);
        results.push(result);
    }
    assert_eq!(results.len(), 3);
    assert!(results[0].success);
    assert!(!results[1].success);
    assert!(results[2].success);
    assert!(results[0].name.starts_with("One_migrated_at_"));
    assert_eq!(results[1].name, "Two");
    assert_eq!(results[1].message, "source archive unavailable");
    assert!(results[2].name.starts_with("Three_migrated_at_"));
}

#[test]
fn identities_do_not_repeat() {
    let mut prev = new_identity();
    assert_eq!(prev.len(), 36);
    for _ in 0..10_000 {
        let next = new_identity();
        assert_eq!(next.len(), 36);
        assert_ne!(prev, next);
        prev = next;
    }
}

#[test]
fn cloud_item_walks_the_download_path() {
    let files = local_files();
    let source_manifest = parse_manifest(
        &b"{\"uuid\":\"abc\",\"name\":\"CloudBot\",\"encrypt_bot\":true}".to_vec(),
    )
    .unwrap();
    let blob = flow_migrate::zipstore::from_directory_tree(files, &source_manifest).unwrap();

    let desc = FlowDescriptor::Cloud(CloudFlow {
        app_id: "cloud-1".to_string(),
        app_name: "CloudBot".to_string(),
        update_time: None,
    });
    let (phase, action) = start(desc, "fresh".to_string(), ts());
    assert!(matches!(&action, Action::FetchDetail { app_id } if app_id == "cloud-1"));
    let detail = AppDetail {
        app_id: "cloud-1".to_string(),
        bot_read_url: Some("https://dl.example/bot".to_string()),
        package_bot_url: None,
        package_schema_url: None,
    };
    let (phase, action) = step(phase, Event::Detail { result: Ok(detail) });
    assert!(matches!(&action, Action::DownloadArchive { url } if url == "https://dl.example/bot"));
    let (_phase, action) = step(phase, Event::Downloaded { result: Ok(blob) });
    match &action {
        Action::AcquireSlot { app_id, kind } => {
            assert_eq!(app_id, "fresh");
            assert_eq!(*kind, ArtifactKind::Binary);
        },
        other => panic!("unexpected action {other:?}"),
    }
}

#[test]
fn cloud_item_without_archive_location_fails() {
    let desc = FlowDescriptor::Cloud(CloudFlow {
        app_id: "cloud-2".to_string(),
        app_name: "NoUrl".to_string(),
        update_time: None,
    });
    let (phase, _action) = start(desc, "fresh".to_string(), ts());
    let detail = AppDetail {
        app_id: "cloud-2".to_string(),
        bot_read_url: None,
        package_bot_url: None,
        package_schema_url: None,
    };
    let (phase, action) = step(phase, Event::Detail { result: Ok(detail) });
    assert!(matches!(phase, Phase::Failed));
    match action {
        Action::Finish { result } => {
            assert!(!result.success);
            assert_eq!(result.name, "NoUrl");
            assert_eq!(result.message, "source archive unavailable");
        },
        other => panic!("unexpected action {other:?}"),
    }
}

#[test]
fn mid_pipeline_auth_failure_ends_the_item() {
    let (phase, action) = start(local_descriptor("Bot1", "pkg"), new_identity(), ts());
    assert!(matches!(&action, Action::ReadDirectory { .. }));
    let (phase, _action) = step(phase, Event::LocalFiles { result: Ok(local_files()) });
    let (phase, action) = step(phase, Event::SlotAcquired { result: Err(MigrateError::Auth) });
    assert!(matches!(phase, Phase::Failed));
    match action {
        Action::Finish { result } => {
            assert!(!result.success);
            assert_eq!(result.message, "credential rejected");
        },
        other => panic!("unexpected action {other:?}"),
    }
}
