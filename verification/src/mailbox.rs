//! The manager's mailbox: one ordered consumer applying events in arrival
//! order.  `update` dispatches each event to its handler; the per-event
//! contracts say exactly what each event does to the state and which actions
//! come back.

use vstd::prelude::*;
use crate::chunks::{
    cancel_chunk_post, chunk_progress_post, finalize_post, pause_chunk_post, perform_chunk_post,
    redownload_post,
};
use crate::docker::{
    docker_canceled_post, docker_extracted_post, docker_failed_post, docker_finished_post,
    docker_paused_post, docker_progress_post, docker_start_post,
};
use crate::intake::{manifests_view, start_asset_post};
use crate::manager::{Action, DownloadManager, DownloadMsg, file_done_post};

verus! {

impl DownloadManager {
    /// Apply one mailbox event.  Events for a given chunk or digest are
    /// applied in the order received; each returns the actions the caller
    /// must perform.
    pub fn update(&mut self, msg: DownloadMsg) -> (acts: Vec<Action>)
        requires
            old(self).inv(),
        ensures
            final(self).inv(),
            match msg {
                DownloadMsg::StartAssetDownload { asset, target, manifests } => start_asset_post(
                    *old(self),
                    *final(self),
                    acts@,
                    asset,
                    match target {
                        Some(t) => Some(t@),
                        None => None,
                    },
                    manifests_view(manifests@),
                ),
                DownloadMsg::PerformChunkDownload { guid } => perform_chunk_post(
                    *old(self),
                    *final(self),
                    acts@,
                    guid,
                ),
                DownloadMsg::RedownloadChunk { guid } => redownload_post(
                    *old(self),
                    *final(self),
                    acts@,
                    guid,
                ),
                DownloadMsg::PauseChunk { guid } => pause_chunk_post(
                    *old(self),
                    *final(self),
                    acts@,
                    guid,
                ),
                DownloadMsg::CancelChunk { guid, file } => cancel_chunk_post(
                    *old(self),
                    *final(self),
                    acts@,
                    guid,
                    file,
                ),
                DownloadMsg::ChunkDownloadProgress { guid, bytes, finished } => chunk_progress_post(
                    *old(self),
                    *final(self),
                    acts@,
                    guid,
                    bytes,
                    finished,
                ),
                DownloadMsg::FinalizeFileDownload { file } => finalize_post(
                    *old(self),
                    *final(self),
                    acts@,
                    file,
                ),
                DownloadMsg::FileAlreadyDownloaded { asset, file } => file_done_post(
                    *old(self),
                    *final(self),
                    acts@,
                    asset,
                    file,
                ),
                DownloadMsg::FileExtracted { asset, file } => file_done_post(
                    *old(self),
                    *final(self),
                    acts@,
                    asset,
                    file,
                ),
                DownloadMsg::PerformDockerEngineDownload { version, total, digests } => docker_start_post(
                    *old(self),
                    *final(self),
                    acts@,
                    version,
                    total,
                    digests@,
                ),
                DownloadMsg::DockerDownloadProgress { version, bytes } => docker_progress_post(
                    *old(self),
                    *final(self),
                    acts@,
                    version,
                    bytes,
                ),
                DownloadMsg::DockerBlobFinished { version, digest } => docker_finished_post(
                    *old(self),
                    *final(self),
                    acts@,
                    version,
                    digest,
                ),
                DownloadMsg::DockerBlobFailed { version, digest } => docker_failed_post(
                    *old(self),
                    *final(self),
                    acts@,
                    version,
                    digest,
                ),
                DownloadMsg::DockerExtractionFinished { version } => docker_extracted_post(
                    *old(self),
                    *final(self),
                    acts@,
                    version,
                ),
                DownloadMsg::DockerCanceled { version, digest } => docker_canceled_post(
                    *old(self),
                    *final(self),
                    acts@,
                    version,
                    digest,
                ),
                DownloadMsg::DockerPaused { version, digest } => docker_paused_post(
                    *old(self),
                    *final(self),
                    acts@,
                    version,
                    digest,
                ),
                DownloadMsg::IOError { .. } => *final(self) == *old(self) && acts@ == seq![
                    Action::NotifyError,
                ],
            },
    {
        match msg {
            DownloadMsg::StartAssetDownload { asset, target, manifests } => self
                .start_asset_download(asset, target, &manifests),
            DownloadMsg::PerformChunkDownload { guid } => self.perform_chunk_download(guid),
            DownloadMsg::RedownloadChunk { guid } => self.redownload_chunk(guid),
            DownloadMsg::PauseChunk { guid } => self.pause_chunk(guid),
            DownloadMsg::CancelChunk { guid, file } => self.cancel_chunk(guid, file),
            DownloadMsg::ChunkDownloadProgress { guid, bytes, finished } => self
                .chunk_download_progress(guid, bytes, finished),
            DownloadMsg::FinalizeFileDownload { file } => self.finalize_file_download(file),
            DownloadMsg::FileAlreadyDownloaded { asset, file } => self.file_already_downloaded(
                asset,
                file,
            ),
            DownloadMsg::FileExtracted { asset, file } => self.file_extracted(asset, file),
            DownloadMsg::PerformDockerEngineDownload { version, total, digests } => self
                .perform_docker_engine_download(version, total, &digests),
            DownloadMsg::DockerDownloadProgress { version, bytes } => self.docker_download_progress(
                version,
                bytes,
            ),
            DownloadMsg::DockerBlobFinished { version, digest } => self.docker_blob_finished(
                version,
                digest,
            ),
            DownloadMsg::DockerBlobFailed { version, digest } => self.docker_blob_failed(
                version,
                digest,
            ),
            DownloadMsg::DockerExtractionFinished { version } => self.docker_extraction_finished(
                version,
            ),
            DownloadMsg::DockerCanceled { version, digest } => self.docker_canceled(version, digest),
            DownloadMsg::DockerPaused { version, digest } => self.docker_paused(version, digest),
            DownloadMsg::IOError { .. } => self.io_error(),
        }
    }
}

} // verus!
