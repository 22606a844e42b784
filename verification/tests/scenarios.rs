//! End-to-end scenarios driven through the mailbox.

use download_engine::manager::{
    Action, ChunkPart, ChunkStatus, DownloadManager, DownloadMsg, DownloadStatus, FileManifest,
};
use download_engine::worker::{apply_increment, resume_offset};

fn manifest(file: u64, parts: &[(u64, u64)]) -> FileManifest {
    FileManifest {
        file,
        parts: parts.iter().map(|&(guid, size)| ChunkPart { guid, size }).collect(),
    }
}

/// Asset X has chunks {A, B, C}; asset Y also references chunk A.
/// Cancelling X leaves A's temp file present (Y still references it) while
/// B and C's temp files are deleted.
#[test]
fn shared_chunk_survives_cancel() {
    let mut m = DownloadManager::new(3);
    let acts = m.update(DownloadMsg::StartAssetDownload {
        asset: 1,
        target: None,
        manifests: vec![manifest(101, &[(11, 100), (12, 100), (13, 100)])],
    });
    assert_eq!(
        acts,
        vec![
            Action::QueueChunkDownload { guid: 11 },
            Action::QueueChunkDownload { guid: 12 },
            Action::QueueChunkDownload { guid: 13 },
        ]
    );
    // Asset Y shares chunk A (guid 11): no re-fetch, only a new reference.
    let acts = m.update(DownloadMsg::StartAssetDownload {
        asset: 2,
        target: None,
        manifests: vec![manifest(201, &[(11, 100)])],
    });
    assert!(acts.is_empty());
    assert_eq!(m.chunk_ref_count(11), Some(2));

    // Cancel X's download chunk by chunk.
    let acts = m.update(DownloadMsg::CancelChunk { guid: 11, file: 101 });
    assert!(acts.is_empty());
    let acts = m.update(DownloadMsg::CancelChunk { guid: 12, file: 101 });
    assert_eq!(acts, vec![Action::DeleteChunkTemp { guid: 12 }]);
    let acts = m.update(DownloadMsg::CancelChunk { guid: 13, file: 101 });
    assert_eq!(acts, vec![Action::DeleteChunkTemp { guid: 13 }]);

    // A stays on disk for Y; B and C are gone.
    assert_eq!(m.chunk_present(11), Some(true));
    assert_eq!(m.chunk_ref_count(11), Some(1));
    assert_eq!(m.chunk_present(12), Some(false));
    assert_eq!(m.chunk_present(13), Some(false));
    assert_eq!(m.chunk_status(12), Some(ChunkStatus::Cancelled));
}

/// A chunk download reaches 40% (400 of 1000 bytes), is paused, then
/// resumed: the resumed fetch starts at byte offset 400 and the assembled
/// artifact is byte-identical to an uninterrupted fetch.
#[test]
fn pause_resume_is_byte_identical() {
    let mut m = DownloadManager::new(3);
    m.update(DownloadMsg::StartAssetDownload {
        asset: 1,
        target: None,
        manifests: vec![manifest(101, &[(11, 1000)])],
    });
    let acts = m.update(DownloadMsg::PerformChunkDownload { guid: 11 });
    assert_eq!(acts, vec![Action::SubmitChunk { guid: 11, offset: 0 }]);
    m.update(DownloadMsg::ChunkDownloadProgress { guid: 11, bytes: 400, finished: false });
    let acts = m.update(DownloadMsg::PauseChunk { guid: 11 });
    assert!(acts.is_empty()); // no control listener was registered
    assert_eq!(m.chunk_status(11), Some(ChunkStatus::Paused));
    assert_eq!(m.chunk_bytes(11), Some(400));

    // The resumed fetch starts exactly at the paused offset.
    let acts = m.update(DownloadMsg::RedownloadChunk { guid: 11 });
    assert_eq!(acts, vec![Action::SubmitChunk { guid: 11, offset: 400 }]);

    // Byte-level resume: the partial buffer plus the remainder equals the
    // source exactly.
    let source: Vec<u8> = (0..1000u32).map(|i| (i % 251) as u8).collect();
    let mut partial: Vec<u8> = source[..400].to_vec();
    assert_eq!(resume_offset(&partial), 400);
    let rest: Vec<u8> = source[400..].to_vec();
    apply_increment(&mut partial, &rest);
    assert_eq!(partial, source);
}

/// A container-image version declares 3 digests; the 2nd digest's download
/// fails once — it is automatically resubmitted and, once all 3 reach
/// downloaded, extraction begins and ends extracted.
#[test]
fn docker_retry_then_extract() {
    let mut m = DownloadManager::new(3);
    let acts = m.update(DownloadMsg::PerformDockerEngineDownload {
        version: 7,
        total: 300,
        digests: vec![(1, 100), (2, 100), (3, 100)],
    });
    assert_eq!(
        acts,
        vec![
            Action::SubmitBlob { version: 7, digest: 1, size: 100 },
            Action::SubmitBlob { version: 7, digest: 2, size: 100 },
            Action::SubmitBlob { version: 7, digest: 3, size: 100 },
        ]
    );
    // The 2nd digest fails once and is automatically resubmitted.
    let acts = m.update(DownloadMsg::DockerBlobFailed { version: 7, digest: 2 });
    assert_eq!(acts, vec![Action::SubmitBlob { version: 7, digest: 2, size: 100 }]);
    assert_eq!(m.digest_status(7, 2), Some(DownloadStatus::Downloading));

    let acts = m.update(DownloadMsg::DockerBlobFinished { version: 7, digest: 1 });
    assert!(acts.is_empty());
    let acts = m.update(DownloadMsg::DockerBlobFinished { version: 7, digest: 2 });
    assert!(acts.is_empty());
    let acts = m.update(DownloadMsg::DockerBlobFinished { version: 7, digest: 3 });
    assert_eq!(acts, vec![Action::StartDockerExtraction { version: 7 }]);
    assert_eq!(m.digest_status(7, 1), Some(DownloadStatus::Extracting));
    assert_eq!(m.digest_status(7, 2), Some(DownloadStatus::Extracting));
    assert_eq!(m.digest_status(7, 3), Some(DownloadStatus::Extracting));

    let acts = m.update(DownloadMsg::DockerExtractionFinished { version: 7 });
    assert_eq!(acts, vec![Action::Tick]);
    assert_eq!(m.digest_status(7, 1), Some(DownloadStatus::Extracted));
    assert_eq!(m.digest_status(7, 2), Some(DownloadStatus::Extracted));
    assert_eq!(m.digest_status(7, 3), Some(DownloadStatus::Extracted));
}

/// With zero active items, aggregate progress reads exactly 0; with two
/// items at 50% and 100%, aggregate progress reads exactly 0.75.
#[test]
fn aggregate_progress_means() {
    let mut m = DownloadManager::new(3);
    assert_eq!(m.progress(), 0);
    assert_eq!(0.0f64, m.progress() as f64 / 10000.0);

    m.update(DownloadMsg::StartAssetDownload {
        asset: 1,
        target: None,
        manifests: vec![manifest(101, &[(11, 1000)])],
    });
    m.update(DownloadMsg::PerformChunkDownload { guid: 11 });
    m.update(DownloadMsg::ChunkDownloadProgress { guid: 11, bytes: 500, finished: false });

    m.update(DownloadMsg::StartAssetDownload {
        asset: 2,
        target: None,
        manifests: vec![manifest(201, &[(21, 200)])],
    });
    m.update(DownloadMsg::PerformChunkDownload { guid: 21 });
    m.update(DownloadMsg::ChunkDownloadProgress { guid: 21, bytes: 200, finished: true });

    assert_eq!(m.item_progress(1), 5000);
    assert_eq!(m.item_progress(2), 10000);
    assert_eq!(m.progress(), 7500);
    assert_eq!(0.75f64, m.progress() as f64 / 10000.0);
}

/// A finished chunk sends every now-complete dependent file to assembly;
/// finalizing releases references, deletes unshared temp files and queues
/// the file-extracted completion, which removes the item when its last file
/// is done.
#[test]
fn finish_finalize_extract_lifecycle() {
    let mut m = DownloadManager::new(3);
    m.update(DownloadMsg::StartAssetDownload {
        asset: 1,
        target: None,
        manifests: vec![manifest(101, &[(11, 100), (12, 100)])],
    });
    // Second asset shares chunk 11.
    m.update(DownloadMsg::StartAssetDownload {
        asset: 2,
        target: None,
        manifests: vec![manifest(201, &[(11, 100)])],
    });
    m.update(DownloadMsg::PerformChunkDownload { guid: 11 });
    m.update(DownloadMsg::PerformChunkDownload { guid: 12 });
    let acts = m.update(DownloadMsg::ChunkDownloadProgress { guid: 11, bytes: 100, finished: true });
    // File 201 is complete (only chunk 11); file 101 still needs chunk 12.
    assert_eq!(acts, vec![Action::AssembleFile { file: 201 }]);
    let acts = m.update(DownloadMsg::ChunkDownloadProgress { guid: 12, bytes: 100, finished: true });
    assert_eq!(acts, vec![Action::AssembleFile { file: 101 }]);

    // Finalize file 101: chunk 12 is unshared and its temp file goes; chunk
    // 11 is still referenced by file 201 and stays.
    let acts = m.update(DownloadMsg::FinalizeFileDownload { file: 101 });
    assert_eq!(
        acts,
        vec![
            Action::DeleteChunkTemp { guid: 12 },
            Action::QueueFileExtracted { asset: 1, file: 101 },
        ]
    );
    assert_eq!(m.chunk_present(11), Some(true));
    assert_eq!(m.chunk_present(12), Some(false));

    // The item's only file completed: the item reaches its terminal state.
    let acts = m.update(DownloadMsg::FileExtracted { asset: 1, file: 101 });
    assert_eq!(acts, vec![Action::RemoveItem { asset: 1 }, Action::Tick]);
    assert_eq!(m.item_count(), 1);
    assert!(m.has_items());

    // Finalize and extract the second asset's file as well.
    let acts = m.update(DownloadMsg::FinalizeFileDownload { file: 201 });
    assert_eq!(
        acts,
        vec![
            Action::DeleteChunkTemp { guid: 11 },
            Action::QueueFileExtracted { asset: 2, file: 201 },
        ]
    );
    let acts = m.update(DownloadMsg::FileExtracted { asset: 2, file: 201 });
    assert_eq!(acts, vec![Action::RemoveItem { asset: 2 }, Action::Tick]);
    assert!(!m.has_items());
    assert_eq!(m.progress(), 0);
}
