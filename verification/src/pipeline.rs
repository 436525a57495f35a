//! The per-item migration orchestrator: a strictly sequential state
//! machine from source descriptor to registration, with a terminal failure
//! reachable from every phase and no retry anywhere.  The caller performs
//! each emitted action (a download, an upload, a registration call) and
//! hands the outcome back as the next event.

use vstd::prelude::*;
use crate::client::{AppDetail, CloudFlow, UploadInfo, spec_download_url, choose_download_url};
use crate::errs::{MigrateError, MigrateResult, failure_result, success_result};
use crate::archive::{FileEntry, files_view, all_paths_utf8, build_view, spec_replace};
use crate::ident::{Timestamp, spec_derive_name, derive_name};
use crate::manifest::{Manifest, manifest_json, spec_migrate, apply_migration, serialize_manifest};
use crate::zipstore::{
    zip_ok, zip_entries, transformed_manifest_ok, from_existing_archive, from_directory_tree,
    transformable, packable, transformed_entries,
};

verus! {

/// A candidate package of the local store, as discovery parsed it.
#[derive(Debug)]
pub struct LocalFlow {
    pub user_id: String,
    pub app_id: String,
    pub uuid: String,
    pub name: String,
    pub update_time: String,
    pub robot_path: String,
    pub package_data: Manifest,
}

/// What is to be migrated: a local package or a remote one.
#[derive(Debug)]
pub enum FlowDescriptor {
    Local(LocalFlow),
    Cloud(CloudFlow),
}

/// Which artifact an upload slot is for.
#[derive(Clone, Copy, Debug, PartialEq, Eq, Structural)]
pub enum ArtifactKind {
    Binary,
    ManifestDoc,
}

/// Where one item's migration stands.  Each phase holds exactly what the
/// remaining phases still need.
#[derive(Debug)]
pub enum Phase {
    /// A remote detail record was requested.
    AwaitDetail { orig_name: String, new_id: String, new_name: String },
    /// The source archive blob was requested.
    AwaitDownload { orig_name: String, new_id: String, new_name: String },
    /// The local package directory's files were requested.
    AwaitLocalFiles { orig_name: String, new_id: String, new_name: String, manifest: Manifest },
    /// A slot for the transformed archive was requested.
    AwaitBinarySlot {
        orig_name: String,
        new_id: String,
        new_name: String,
        manifest: Manifest,
        archive: Vec<u8>,
    },
    /// The archive is being uploaded into its slot.
    AwaitBinaryUpload {
        orig_name: String,
        new_id: String,
        new_name: String,
        manifest: Manifest,
        binary_key: String,
    },
    /// A slot for the serialized manifest was requested.
    AwaitManifestSlot {
        orig_name: String,
        new_id: String,
        new_name: String,
        manifest: Manifest,
        binary_key: String,
    },
    /// The manifest is being uploaded into its own, distinct slot.
    AwaitManifestUpload {
        orig_name: String,
        new_id: String,
        new_name: String,
        manifest: Manifest,
        binary_key: String,
        manifest_key: String,
        checksum: String,
    },
    /// The registration call is outstanding.
    AwaitRegister { orig_name: String, new_name: String, binary_key: String, manifest_key: String },
    /// Terminal: registered.
    Done,
    /// Terminal: this item failed; the rest of the batch is unaffected.
    Failed,
}

/// The outcome of the action the last phase emitted.
#[derive(Debug)]
pub enum Event {
    Detail { result: Result<AppDetail, MigrateError> },
    Downloaded { result: Result<Vec<u8>, MigrateError> },
    LocalFiles { result: Result<Vec<FileEntry>, MigrateError> },
    SlotAcquired { result: Result<UploadInfo, MigrateError> },
    Uploaded { result: Result<(), MigrateError> },
    Registered { result: Result<(), MigrateError> },
}

/// What the caller must do next.
#[derive(Debug)]
pub enum Action {
    /// Fetch the remote detail record of this package.
    FetchDetail { app_id: String },
    /// Download the archive blob from this location.
    DownloadArchive { url: String },
    /// Read every regular file under this directory.
    ReadDirectory { root: String },
    /// Ask the remote for a fresh single-use upload slot.
    AcquireSlot { app_id: String, kind: ArtifactKind },
    /// Transmit these bytes to the slot's destination.
    UploadBytes { upload_url: String, data: Vec<u8> },
    /// Register the package under the destination account.
    Register { app_id: String, manifest: Manifest, checksum: String },
    /// The item is finished; report this outcome.
    Finish { result: MigrateResult },
}

/// A terminal failure step: the item's original name with the error's
/// description.
pub open spec fn failed_with(r: (Phase, Action), name: String, e: MigrateError) -> bool {
    &&& r.0 is Failed
    &&& r.1 matches Action::Finish { result } && !result.success && result.name == name
        && result.message@ == e.spec_message()
}

fn fail_step(name: String, e: MigrateError) -> (r: (Phase, Action))
    ensures
        failed_with(r, name, e),
{
    (Phase::Failed, Action::Finish { result: failure_result(name, e) })
}

/// Whether an event answers the action the phase is waiting on.
pub open spec fn event_matches(p: Phase, e: Event) -> bool {
    match (p, e) {
        (Phase::AwaitDetail { .. }, Event::Detail { .. }) => true,
        (Phase::AwaitDownload { .. }, Event::Downloaded { .. }) => true,
        (Phase::AwaitLocalFiles { .. }, Event::LocalFiles { .. }) => true,
        (Phase::AwaitBinarySlot { .. }, Event::SlotAcquired { .. }) => true,
        (Phase::AwaitBinaryUpload { .. }, Event::Uploaded { .. }) => true,
        (Phase::AwaitManifestSlot { .. }, Event::SlotAcquired { .. }) => true,
        (Phase::AwaitManifestUpload { .. }, Event::Uploaded { .. }) => true,
        (Phase::AwaitRegister { .. }, Event::Registered { .. }) => true,
        _ => false,
    }
}

/// Starts one item's migration: assigns the fresh identity and the derived
/// display name, applies the manifest mutation for local sources, and emits
/// the first action — a directory read for a local descriptor, a detail
/// fetch for a remote one.
pub fn start(desc: FlowDescriptor, new_id: String, ts: Timestamp) -> (r: (Phase, Action))
    requires
        ts.valid(),
    ensures
        match desc {
            FlowDescriptor::Local(f) => {
                &&& r.0 matches Phase::AwaitLocalFiles { orig_name, new_id: id2, new_name, manifest }
                    && orig_name == f.name && id2 == new_id && new_name@ == spec_derive_name(
                    f.name@,
                    ts,
                ) && manifest == spec_migrate(f.package_data, new_id, new_name)
                &&& r.1 matches Action::ReadDirectory { root } && root == f.robot_path
            },
            FlowDescriptor::Cloud(f) => {
                &&& r.0 matches Phase::AwaitDetail { orig_name, new_id: id2, new_name }
                    && orig_name == f.app_name && id2 == new_id && new_name@ == spec_derive_name(
                    f.app_name@,
                    ts,
                )
                &&& r.1 matches Action::FetchDetail { app_id } && app_id == f.app_id
            },
        },
{
    match desc {
        FlowDescriptor::Local(f) => {
            let new_name = derive_name(f.name.as_str(), ts);
            let manifest = apply_migration(f.package_data, new_id.clone(), new_name.clone());
            (
                Phase::AwaitLocalFiles { orig_name: f.name, new_id, new_name, manifest },
                Action::ReadDirectory { root: f.robot_path },
            )
        },
        FlowDescriptor::Cloud(f) => {
            let new_name = derive_name(f.app_name.as_str(), ts);
            (
                Phase::AwaitDetail { orig_name: f.app_name, new_id, new_name },
                Action::FetchDetail { app_id: f.app_id },
            )
        },
    }
}

/// Advances one item's migration by one phase.  Strictly sequential: each
/// success moves to the single next phase and emits its single action; any
/// failure moves to the terminal failure with that error, and nothing is
/// retried.  The binary upload slot and the manifest upload slot come from
/// two separate acquisitions, one per artifact kind; each slot's
/// destination is used by exactly one upload, and the registration carries
/// the checksum of the manifest slot.
pub fn step(phase: Phase, ev: Event) -> (r: (Phase, Action))
    requires
        event_matches(phase, ev),
    ensures
        match (phase, ev) {
            (
                Phase::AwaitDetail { orig_name, new_id, new_name },
                Event::Detail { result },
            ) => match result {
                Ok(d) => match spec_download_url(d) {
                    Some(url) => {
                        &&& r.0 matches Phase::AwaitDownload {
                            orig_name: on2,
                            new_id: id2,
                            new_name: nn2,
                        } && on2 == orig_name && id2 == new_id && nn2 == new_name
                        &&& r.1 matches Action::DownloadArchive { url: u2 } && u2 == url
                    },
                    None => failed_with(r, orig_name, MigrateError::SourceUnavailable),
                },
                Err(e) => failed_with(r, orig_name, e),
            },
            (
                Phase::AwaitDownload { orig_name, new_id, new_name },
                Event::Downloaded { result },
            ) => match result {
                Ok(bytes) => {
                    &&& (r.0 matches Phase::AwaitBinarySlot {
                        orig_name: on2,
                        new_id: id2,
                        new_name: nn2,
                        manifest,
                        archive,
                    } ==> on2 == orig_name && id2 == new_id && nn2 == new_name
                        && transformed_manifest_ok(bytes@, new_id@, new_name@, manifest) && zip_ok(
                        archive@,
                    ) && zip_entries(archive@) == spec_replace(
                        zip_entries(bytes@),
                        manifest_json(manifest),
                    ) && (r.1 matches Action::AcquireSlot { app_id, kind } && app_id == new_id
                        && kind == ArtifactKind::Binary))
                    &&& (r.0 is Failed ==> (r.1 matches Action::Finish { result }
                        && !result.success && result.name == orig_name))
                    &&& (r.0 is AwaitBinarySlot || r.0 is Failed)
                    &&& (!transformable(bytes@) ==> r.0 is Failed)
                    &&& (transformable(bytes@) && packable(
                        transformed_entries(bytes@, new_id@, new_name@),
                    ) ==> r.0 is AwaitBinarySlot)
                },
                Err(e) => failed_with(r, orig_name, e),
            },
            (
                Phase::AwaitLocalFiles { orig_name, new_id, new_name, manifest },
                Event::LocalFiles { result },
            ) => match result {
                Ok(files) => {
                    &&& (r.0 matches Phase::AwaitBinarySlot {
                        orig_name: on2,
                        new_id: id2,
                        new_name: nn2,
                        manifest: m2,
                        archive,
                    } ==> on2 == orig_name && id2 == new_id && nn2 == new_name && m2 == manifest
                        && zip_ok(archive@) && zip_entries(archive@) == build_view(
                        files_view(files@),
                        manifest_json(manifest),
                    ) && (r.1 matches Action::AcquireSlot { app_id, kind } && app_id == new_id
                        && kind == ArtifactKind::Binary))
                    &&& (r.0 is Failed ==> (r.1 matches Action::Finish { result }
                        && !result.success && result.name == orig_name))
                    &&& (r.0 is AwaitBinarySlot || r.0 is Failed)
                    &&& (!all_paths_utf8(files_view(files@)) ==> r.0 is Failed)
                    &&& (all_paths_utf8(files_view(files@)) && packable(
                        build_view(files_view(files@), manifest_json(manifest)),
                    ) ==> r.0 is AwaitBinarySlot)
                },
                Err(e) => failed_with(r, orig_name, e),
            },
            (
                Phase::AwaitBinarySlot { orig_name, new_id, new_name, manifest, archive },
                Event::SlotAcquired { result },
            ) => match result {
                Ok(slot) => {
                    &&& r.0 matches Phase::AwaitBinaryUpload {
                        orig_name: on2,
                        new_id: id2,
                        new_name: nn2,
                        manifest: m2,
                        binary_key,
                    } && on2 == orig_name && id2 == new_id && nn2 == new_name && m2 == manifest
                        && binary_key == slot.file_key
                    &&& r.1 matches Action::UploadBytes { upload_url, data } && upload_url
                        == slot.upload_url && data == archive
                },
                Err(e) => failed_with(r, orig_name, e),
            },
            (
                Phase::AwaitBinaryUpload { orig_name, new_id, new_name, manifest, binary_key },
                Event::Uploaded { result },
            ) => match result {
                Ok(_) => {
                    &&& r.0 matches Phase::AwaitManifestSlot {
                        orig_name: on2,
                        new_id: id2,
                        new_name: nn2,
                        manifest: m2,
                        binary_key: bk2,
                    } && on2 == orig_name && id2 == new_id && nn2 == new_name && m2 == manifest
                        && bk2 == binary_key
                    &&& r.1 matches Action::AcquireSlot { app_id, kind } && app_id == new_id
                        && kind == ArtifactKind::ManifestDoc
                },
                Err(e) => failed_with(r, orig_name, e),
            },
            (
                Phase::AwaitManifestSlot { orig_name, new_id, new_name, manifest, binary_key },
                Event::SlotAcquired { result },
            ) => match result {
                Ok(slot) => {
                    &&& r.0 matches Phase::AwaitManifestUpload {
                        orig_name: on2,
                        new_id: id2,
                        new_name: nn2,
                        manifest: m2,
                        binary_key: bk2,
                        manifest_key,
                        checksum,
                    } && on2 == orig_name && id2 == new_id && nn2 == new_name && m2 == manifest
                        && bk2 == binary_key && manifest_key == slot.file_key && checksum
                        == slot.file_key_md5
                    &&& r.1 matches Action::UploadBytes { upload_url, data } && upload_url
                        == slot.upload_url && data@ == manifest_json(manifest)
                },
                Err(e) => failed_with(r, orig_name, e),
            },
            (
                Phase::AwaitManifestUpload {
                    orig_name,
                    new_id,
                    new_name,
                    manifest,
                    binary_key,
                    manifest_key,
                    checksum,
                },
                Event::Uploaded { result },
            ) => match result {
                Ok(_) => {
                    &&& r.0 matches Phase::AwaitRegister {
                        orig_name: on2,
                        new_name: nn2,
                        binary_key: bk2,
                        manifest_key: mk2,
                    } && on2 == orig_name && nn2 == new_name && bk2 == binary_key && mk2
                        == manifest_key
                    &&& r.1 matches Action::Register { app_id, manifest: m2, checksum: c2 }
                        && app_id == new_id && m2 == manifest && c2 == checksum
                },
                Err(e) => failed_with(r, orig_name, e),
            },
            (
                Phase::AwaitRegister { orig_name, new_name, binary_key, manifest_key },
                Event::Registered { result },
            ) => match result {
                Ok(_) => {
                    &&& r.0 is Done
                    &&& r.1 matches Action::Finish { result } && result.success && result.name
                        == new_name && result.message@ == "migrated"@
                },
                Err(e) => failed_with(r, orig_name, e),
            },
            _ => true,
        },
{
    match (phase, ev) {
        (Phase::AwaitDetail { orig_name, new_id, new_name }, Event::Detail { result }) => match result {
            Ok(d) => match choose_download_url(&d) {
                Some(url) => (
                    Phase::AwaitDownload { orig_name, new_id, new_name },
                    Action::DownloadArchive { url },
                ),
                None => fail_step(orig_name, MigrateError::SourceUnavailable),
            },
            Err(e) => fail_step(orig_name, e),
        },
        (Phase::AwaitDownload { orig_name, new_id, new_name }, Event::Downloaded { result }) => match result {
            Ok(bytes) => match from_existing_archive(&bytes, new_id.clone(), new_name.clone()) {
                Ok((archive, manifest)) => (
                    Phase::AwaitBinarySlot {
                        orig_name,
                        new_id: new_id.clone(),
                        new_name,
                        manifest,
                        archive,
                    },
                    Action::AcquireSlot { app_id: new_id, kind: ArtifactKind::Binary },
                ),
                Err(e) => fail_step(orig_name, e),
            },
            Err(e) => fail_step(orig_name, e),
        },
        (
            Phase::AwaitLocalFiles { orig_name, new_id, new_name, manifest },
            Event::LocalFiles { result },
        ) => match result {
            Ok(files) => match from_directory_tree(files, &manifest) {
                Ok(archive) => (
                    Phase::AwaitBinarySlot {
                        orig_name,
                        new_id: new_id.clone(),
                        new_name,
                        manifest,
                        archive,
                    },
                    Action::AcquireSlot { app_id: new_id, kind: ArtifactKind::Binary },
                ),
                Err(e) => fail_step(orig_name, e),
            },
            Err(e) => fail_step(orig_name, e),
        },
        (
            Phase::AwaitBinarySlot { orig_name, new_id, new_name, manifest, archive },
            Event::SlotAcquired { result },
        ) => match result {
            Ok(slot) => (
                Phase::AwaitBinaryUpload {
                    orig_name,
                    new_id,
                    new_name,
                    manifest,
                    binary_key: slot.file_key,
                },
                Action::UploadBytes { upload_url: slot.upload_url, data: archive },
            ),
            Err(e) => fail_step(orig_name, e),
        },
        (
            Phase::AwaitBinaryUpload { orig_name, new_id, new_name, manifest, binary_key },
            Event::Uploaded { result },
        ) => match result {
            Ok(_) => (
                Phase::AwaitManifestSlot {
                    orig_name,
                    new_id: new_id.clone(),
                    new_name,
                    manifest,
                    binary_key,
                },
                Action::AcquireSlot { app_id: new_id, kind: ArtifactKind::ManifestDoc },
            ),
            Err(e) => fail_step(orig_name, e),
        },
        (
            Phase::AwaitManifestSlot { orig_name, new_id, new_name, manifest, binary_key },
            Event::SlotAcquired { result },
        ) => match result {
            Ok(slot) => {
                let data = serialize_manifest(&manifest);
                (
                    Phase::AwaitManifestUpload {
                        orig_name,
                        new_id,
                        new_name,
                        manifest,
                        binary_key,
                        manifest_key: slot.file_key,
                        checksum: slot.file_key_md5,
                    },
                    Action::UploadBytes { upload_url: slot.upload_url, data },
                )
            },
            Err(e) => fail_step(orig_name, e),
        },
        (
            Phase::AwaitManifestUpload {
                orig_name,
                new_id,
                new_name,
                manifest,
                binary_key,
                manifest_key,
                checksum,
            },
            Event::Uploaded { result },
        ) => match result {
            Ok(_) => (
                Phase::AwaitRegister { orig_name, new_name: new_name.clone(), binary_key, manifest_key },
                Action::Register { app_id: new_id, manifest, checksum },
            ),
            Err(e) => fail_step(orig_name, e),
        },
        (
            Phase::AwaitRegister { orig_name, new_name, binary_key, manifest_key },
            Event::Registered { result },
        ) => match result {
            Ok(_) => (Phase::Done, Action::Finish { result: success_result(new_name) }),
            Err(e) => fail_step(orig_name, e),
        },
        _ => {
            proof {
                assert(false);
            }
            (Phase::Failed, Action::Finish {
                result: failure_result(String::new(), MigrateError::Protocol),
            })
        },
    }
}

/// The two upload slots of one item come from two acquisitions that name
/// different artifact kinds; a remote that issues per-kind slots therefore
/// never sees one slot consumed by both uploads.
pub proof fn lemma_slot_kinds_distinct(a: Action, b: Action)
    requires
        a matches Action::AcquireSlot { kind: ka, .. } && ka == ArtifactKind::Binary,
        b matches Action::AcquireSlot { kind: kb, .. } && kb == ArtifactKind::ManifestDoc,
    ensures
        a != b,
{
}

} // verus!
