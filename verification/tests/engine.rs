//! Event-level behaviour of the download manager.

use download_engine::manager::{
    Action, ChunkPart, ChunkStatus, DownloadManager, DownloadMsg, DownloadStatus, FileManifest,
};
use download_engine::worker::ThreadMessages;

fn manifest(file: u64, parts: &[(u64, u64)]) -> FileManifest {
    FileManifest {
        file,
        parts: parts.iter().map(|&(guid, size)| ChunkPart { guid, size }).collect(),
    }
}

fn started(m: &mut DownloadManager, asset: u64, file: u64, guid: u64, size: u64) {
    m.update(DownloadMsg::StartAssetDownload {
        asset,
        target: None,
        manifests: vec![manifest(file, &[(guid, size)])],
    });
    m.update(DownloadMsg::PerformChunkDownload { guid });
}

/// Delivering `FileAlreadyDownloaded` for the same file twice produces
/// exactly one terminal item state, not two.
#[test]
fn file_already_downloaded_is_idempotent() {
    let mut m = DownloadManager::new(3);
    m.update(DownloadMsg::StartAssetDownload {
        asset: 1,
        target: None,
        manifests: vec![manifest(101, &[(11, 100)])],
    });
    let acts = m.update(DownloadMsg::FileAlreadyDownloaded { asset: 1, file: 101 });
    assert_eq!(acts, vec![Action::RemoveItem { asset: 1 }, Action::Tick]);
    assert_eq!(m.item_count(), 0);
    // Second delivery: no state change, no actions, still one terminal state.
    let acts = m.update(DownloadMsg::FileAlreadyDownloaded { asset: 1, file: 101 });
    assert!(acts.is_empty());
    assert_eq!(m.item_count(), 0);
}

#[test]
fn file_done_counts_each_file_once() {
    let mut m = DownloadManager::new(3);
    m.update(DownloadMsg::StartAssetDownload {
        asset: 1,
        target: None,
        manifests: vec![
            manifest(101, &[(11, 100)]),
            manifest(102, &[(12, 100)]),
        ],
    });
    let acts = m.update(DownloadMsg::FileAlreadyDownloaded { asset: 1, file: 101 });
    assert_eq!(acts, vec![Action::Tick]);
    assert_eq!(m.item_files_done(1), Some(1));
    // Repeating the same file changes nothing.
    let acts = m.update(DownloadMsg::FileAlreadyDownloaded { asset: 1, file: 101 });
    assert!(acts.is_empty());
    assert_eq!(m.item_files_done(1), Some(1));
    // The second file completes the item.
    let acts = m.update(DownloadMsg::FileAlreadyDownloaded { asset: 1, file: 102 });
    assert_eq!(acts, vec![Action::RemoveItem { asset: 1 }, Action::Tick]);
    assert_eq!(m.item_count(), 0);
}

/// Progress is monotonically non-decreasing across ordinary reports and is
/// clamped to the declared size.
#[test]
fn chunk_progress_updates_and_clamps() {
    let mut m = DownloadManager::new(3);
    started(&mut m, 1, 101, 11, 1000);
    m.update(DownloadMsg::ChunkDownloadProgress { guid: 11, bytes: 100, finished: false });
    assert_eq!(m.chunk_bytes(11), Some(100));
    m.update(DownloadMsg::ChunkDownloadProgress { guid: 11, bytes: 250, finished: false });
    assert_eq!(m.chunk_bytes(11), Some(250));
    m.update(DownloadMsg::ChunkDownloadProgress { guid: 11, bytes: 2000, finished: false });
    assert_eq!(m.chunk_bytes(11), Some(1000));
    m.update(DownloadMsg::ChunkDownloadProgress { guid: 11, bytes: 1000, finished: true });
    assert_eq!(m.chunk_status(11), Some(ChunkStatus::Done));
}

/// The temp-file law observed end to end: a chunk's temp artifact exists
/// exactly while its reference count is positive.
#[test]
fn temp_file_tracks_reference_count() {
    let mut m = DownloadManager::new(3);
    m.update(DownloadMsg::StartAssetDownload {
        asset: 1,
        target: None,
        manifests: vec![manifest(101, &[(11, 100)]), manifest(102, &[(11, 100)])],
    });
    assert_eq!(m.chunk_ref_count(11), Some(2));
    assert_eq!(m.chunk_present(11), Some(true));
    m.update(DownloadMsg::CancelChunk { guid: 11, file: 101 });
    assert_eq!(m.chunk_ref_count(11), Some(1));
    assert_eq!(m.chunk_present(11), Some(true));
    let acts = m.update(DownloadMsg::CancelChunk { guid: 11, file: 102 });
    assert_eq!(acts, vec![Action::DeleteChunkTemp { guid: 11 }]);
    assert_eq!(m.chunk_ref_count(11), Some(0));
    assert_eq!(m.chunk_present(11), Some(false));
}

/// A cancelled chunk restarts from byte zero when a fresh request
/// re-creates it.
#[test]
fn fresh_request_after_cancel_restarts_at_zero() {
    let mut m = DownloadManager::new(3);
    started(&mut m, 1, 101, 11, 1000);
    m.update(DownloadMsg::ChunkDownloadProgress { guid: 11, bytes: 700, finished: false });
    m.update(DownloadMsg::CancelChunk { guid: 11, file: 101 });
    assert_eq!(m.chunk_bytes(11), Some(0));
    assert_eq!(m.chunk_present(11), Some(false));
    // A later fresh request re-creates the chunk instance.
    let acts = m.update(DownloadMsg::StartAssetDownload {
        asset: 2,
        target: None,
        manifests: vec![manifest(201, &[(11, 1000)])],
    });
    assert_eq!(acts, vec![Action::QueueChunkDownload { guid: 11 }]);
    assert_eq!(m.chunk_status(11), Some(ChunkStatus::Pending));
    assert_eq!(m.chunk_bytes(11), Some(0));
    let acts = m.update(DownloadMsg::PerformChunkDownload { guid: 11 });
    assert_eq!(acts, vec![Action::SubmitChunk { guid: 11, offset: 0 }]);
}

/// Pause fans the signal out to every registered listener and the
/// registration is one-shot.
#[test]
fn control_registry_is_one_shot() {
    let mut m = DownloadManager::new(3);
    started(&mut m, 1, 101, 11, 1000);
    m.add_thread_sender(11, 900);
    m.add_thread_sender(11, 901);
    let acts = m.update(DownloadMsg::PauseChunk { guid: 11 });
    assert_eq!(
        acts,
        vec![
            Action::Signal { listener: 900, message: ThreadMessages::Pause },
            Action::Signal { listener: 901, message: ThreadMessages::Pause },
        ]
    );
    // The key was cleared: a second signal reaches nobody.
    let acts = m.send_to_thread_sender(11, ThreadMessages::Pause);
    assert!(acts.is_empty());
    // A paused chunk ignores a second pause.
    let acts = m.update(DownloadMsg::PauseChunk { guid: 11 });
    assert!(acts.is_empty());
}

/// Starting an already-registered asset changes nothing.
#[test]
fn duplicate_start_is_ignored() {
    let mut m = DownloadManager::new(3);
    m.update(DownloadMsg::StartAssetDownload {
        asset: 1,
        target: None,
        manifests: vec![manifest(101, &[(11, 100)])],
    });
    let acts = m.update(DownloadMsg::StartAssetDownload {
        asset: 1,
        target: None,
        manifests: vec![manifest(999, &[(99, 100)])],
    });
    assert!(acts.is_empty());
    assert_eq!(m.chunk_status(99), None);
}

/// An I/O error is surfaced as a notification and leaves every item's state
/// exactly as it was.
#[test]
fn io_error_is_non_fatal() {
    let mut m = DownloadManager::new(3);
    started(&mut m, 1, 101, 11, 1000);
    m.update(DownloadMsg::ChunkDownloadProgress { guid: 11, bytes: 300, finished: false });
    let acts = m.update(DownloadMsg::IOError { message: String::from("disk full") });
    assert_eq!(acts, vec![Action::NotifyError]);
    assert_eq!(m.chunk_bytes(11), Some(300));
    assert_eq!(m.chunk_status(11), Some(ChunkStatus::Downloading));
    assert_eq!(m.item_count(), 1);
}

/// A digest out of retries stays in `Init` and the failure is surfaced.
#[test]
fn docker_retries_are_bounded() {
    let mut m = DownloadManager::new(1);
    m.update(DownloadMsg::PerformDockerEngineDownload {
        version: 7,
        total: 100,
        digests: vec![(1, 100)],
    });
    let acts = m.update(DownloadMsg::DockerBlobFailed { version: 7, digest: 1 });
    assert_eq!(acts, vec![Action::SubmitBlob { version: 7, digest: 1, size: 100 }]);
    let acts = m.update(DownloadMsg::DockerBlobFailed { version: 7, digest: 1 });
    assert_eq!(acts, vec![Action::NotifyError]);
    assert_eq!(m.digest_status(7, 1), Some(DownloadStatus::Init));
}

/// Docker pause and resume mirror the chunk protocol.
#[test]
fn docker_pause_resume() {
    let mut m = DownloadManager::new(3);
    m.update(DownloadMsg::PerformDockerEngineDownload {
        version: 7,
        total: 200,
        digests: vec![(1, 100), (2, 100)],
    });
    m.update(DownloadMsg::DockerPaused { version: 7, digest: 1 });
    assert_eq!(m.digest_status(7, 1), Some(DownloadStatus::Paused));
    assert_eq!(m.digest_status(7, 2), Some(DownloadStatus::Downloading));
    let acts = m.resume_docker_digest(7, 1);
    assert_eq!(acts, vec![Action::SubmitBlob { version: 7, digest: 1, size: 100 }]);
    assert_eq!(m.digest_status(7, 1), Some(DownloadStatus::Downloading));
    m.update(DownloadMsg::DockerCanceled { version: 7, digest: 2 });
    assert_eq!(m.digest_status(7, 2), Some(DownloadStatus::Cancelled));
}

/// Engine byte progress is recorded and clamped to the declared total.
#[test]
fn docker_progress_clamps() {
    let mut m = DownloadManager::new(3);
    m.update(DownloadMsg::PerformDockerEngineDownload {
        version: 7,
        total: 100,
        digests: vec![(1, 100)],
    });
    m.update(DownloadMsg::DockerDownloadProgress { version: 7, bytes: 40 });
    assert_eq!(m.engine_received(7), Some(40));
    m.update(DownloadMsg::DockerDownloadProgress { version: 7, bytes: 400 });
    assert_eq!(m.engine_received(7), Some(100));
}

/// A chunk with no declared size counts as complete in the aggregate.
#[test]
fn zero_size_chunk_counts_complete() {
    let mut m = DownloadManager::new(3);
    m.update(DownloadMsg::StartAssetDownload {
        asset: 1,
        target: None,
        manifests: vec![manifest(101, &[(11, 0)])],
    });
    assert_eq!(m.item_progress(1), 10000);
}

/// Events for unknown ids are ignored without disturbing anything.
#[test]
fn unknown_ids_are_ignored() {
    let mut m = DownloadManager::new(3);
    assert!(m.update(DownloadMsg::PerformChunkDownload { guid: 5 }).is_empty());
    assert!(m.update(DownloadMsg::RedownloadChunk { guid: 5 }).is_empty());
    assert!(m.update(DownloadMsg::PauseChunk { guid: 5 }).is_empty());
    assert!(m.update(DownloadMsg::CancelChunk { guid: 5, file: 6 }).is_empty());
    assert!(
        m.update(DownloadMsg::ChunkDownloadProgress { guid: 5, bytes: 1, finished: false })
            .is_empty()
    );
    assert!(m.update(DownloadMsg::FinalizeFileDownload { file: 5 }).is_empty());
    assert!(m.update(DownloadMsg::FileExtracted { asset: 5, file: 6 }).is_empty());
    assert!(m.update(DownloadMsg::DockerBlobFinished { version: 5, digest: 6 }).is_empty());
    assert!(m.update(DownloadMsg::DockerBlobFailed { version: 5, digest: 6 }).is_empty());
    assert_eq!(m.item_count(), 0);
}
