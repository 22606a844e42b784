//! The download orchestrator: single owner of all shared download state.
//!
//! All other components communicate with the manager exclusively through an
//! ordered event mailbox ([`DownloadMsg`]); the manager is the only place
//! state mutates.  Each handler returns the [`Action`]s the surrounding
//! process must perform: submit a fetch to a worker pool, delete a temp
//! file, assemble a finished file, notify observers.
//!
//! Identities (assets, files, chunk GUIDs, container-image versions and
//! digests, control listeners) are `u64` ids; the caller owns the mapping
//! from ids to URLs, paths and digest strings.

use vstd::prelude::*;
use crate::table::Table;
use crate::seqs::vec_contains;
use crate::worker::ThreadMessages;

verus! {

/// Life cycle of one content-addressed chunk.
#[derive(Clone, Copy, Debug, PartialEq, Eq, Structural)]
pub enum ChunkStatus {
    Pending,
    Downloading,
    Paused,
    Cancelled,
    Done,
}

/// Life cycle of one container-image digest.
#[derive(Clone, Copy, Debug, PartialEq, Eq, Structural)]
pub enum DownloadStatus {
    Init,
    Downloading,
    Downloaded,
    Paused,
    Cancelled,
    Extracting,
    Extracted,
}

/// One content-addressed piece: its declared size, cumulative bytes
/// downloaded, status, whether its temp artifact exists on disk, and the ids
/// of the files still depending on it (the reference list).
#[derive(Clone, Debug)]
pub struct Chunk {
    pub size: u64,
    pub bytes: u64,
    pub status: ChunkStatus,
    pub present: bool,
    pub refs: Vec<u64>,
}

/// Abstract value of a [`Chunk`].
#[verifier::ext_equal]
pub struct ChunkModel {
    pub size: u64,
    pub bytes: u64,
    pub status: ChunkStatus,
    pub present: bool,
    pub refs: Seq<u64>,
}

impl View for Chunk {
    type V = ChunkModel;

    open spec fn view(&self) -> ChunkModel {
        ChunkModel {
            size: self.size,
            bytes: self.bytes,
            status: self.status,
            present: self.present,
            refs: self.refs@,
        }
    }
}

/// One active download item: how many files it expects, which of them have
/// completed, and an optional per-item target directory override.
#[derive(Clone, Debug)]
pub struct DownloadItem {
    pub files_total: usize,
    pub files_done: Vec<u64>,
    pub target: Option<String>,
}

/// Abstract value of a [`DownloadItem`].
#[verifier::ext_equal]
pub struct ItemModel {
    pub files_total: usize,
    pub files_done: Seq<u64>,
    pub target: Option<Seq<char>>,
}

impl View for DownloadItem {
    type V = ItemModel;

    open spec fn view(&self) -> ItemModel {
        ItemModel {
            files_total: self.files_total,
            files_done: self.files_done@,
            target: match self.target {
                Some(ref t) => Some(t@),
                None => None,
            },
        }
    }
}

/// One output file: the asset it belongs to and the chunk GUIDs composing it.
#[derive(Clone, Debug)]
pub struct FileDownload {
    pub asset: u64,
    pub chunks: Vec<u64>,
}

/// Abstract value of a [`FileDownload`].
#[verifier::ext_equal]
pub struct FileModel {
    pub asset: u64,
    pub chunks: Seq<u64>,
}

impl View for FileDownload {
    type V = FileModel;

    open spec fn view(&self) -> FileModel {
        FileModel { asset: self.asset, chunks: self.chunks@ }
    }
}

/// One container-image layer digest and its retry bookkeeping.
#[derive(Clone, Copy, Debug, PartialEq, Eq, Structural)]
pub struct Digest {
    pub digest: u64,
    pub size: u64,
    pub status: DownloadStatus,
    pub retries: u64,
}

/// One container-image engine download: declared total size, cumulative
/// bytes received, and its digest list.
#[derive(Clone, Debug)]
pub struct EngineDownload {
    pub total: u64,
    pub received: u64,
    pub digests: Vec<Digest>,
}

/// Abstract value of an [`EngineDownload`].
#[verifier::ext_equal]
pub struct EngineModel {
    pub total: u64,
    pub received: u64,
    pub digests: Seq<Digest>,
}

impl View for EngineDownload {
    type V = EngineModel;

    open spec fn view(&self) -> EngineModel {
        EngineModel { total: self.total, received: self.received, digests: self.digests@ }
    }
}

/// One piece of a file manifest: a chunk GUID and its byte size.
#[derive(Clone, Copy, Debug, PartialEq, Eq, Structural)]
pub struct ChunkPart {
    pub guid: u64,
    pub size: u64,
}

/// The manifest of one output file: its id and the pieces composing it.
#[derive(Clone, Debug)]
pub struct FileManifest {
    pub file: u64,
    pub parts: Vec<ChunkPart>,
}

/// Abstract value of a [`FileManifest`].
#[verifier::ext_equal]
pub struct ManifestModel {
    pub file: u64,
    pub parts: Seq<ChunkPart>,
}

impl View for FileManifest {
    type V = ManifestModel;

    open spec fn view(&self) -> ManifestModel {
        ManifestModel { file: self.file, parts: self.parts@ }
    }
}

/// What the surrounding process must do after a handler returns.
#[derive(Clone, Copy, Debug, PartialEq, Eq, Structural)]
pub enum Action {
    /// Queue a `PerformChunkDownload` event for this chunk.
    QueueChunkDownload { guid: u64 },
    /// Hand the chunk to a download worker, fetching from this byte offset.
    SubmitChunk { guid: u64, offset: u64 },
    /// Delete the chunk's temp file and try to remove emptied parent
    /// directories (best effort).
    DeleteChunkTemp { guid: u64 },
    /// All chunks of this file are done: assemble it, then queue
    /// `FinalizeFileDownload`.
    AssembleFile { file: u64 },
    /// Queue a `FileExtracted` event for this file of this asset.
    QueueFileExtracted { asset: u64, file: u64 },
    /// The item completed or was cancelled: drop it from the display.
    RemoveItem { asset: u64 },
    /// Notify observers that aggregate state changed.
    Tick,
    /// Surface a non-fatal error notification.
    NotifyError,
    /// Hand a container-image digest to a blob worker.
    SubmitBlob { version: u64, digest: u64, size: u64 },
    /// Every digest of this version is downloaded: start extraction.
    StartDockerExtraction { version: u64 },
    /// Deliver a control signal to this registered listener.
    Signal { listener: u64, message: ThreadMessages },
}

/// The events consumed from the manager's mailbox.
#[derive(Clone, Debug)]
pub enum DownloadMsg {
    StartAssetDownload { asset: u64, target: Option<String>, manifests: Vec<FileManifest> },
    PerformChunkDownload { guid: u64 },
    RedownloadChunk { guid: u64 },
    PauseChunk { guid: u64 },
    CancelChunk { guid: u64, file: u64 },
    ChunkDownloadProgress { guid: u64, bytes: u64, finished: bool },
    FinalizeFileDownload { file: u64 },
    FileAlreadyDownloaded { asset: u64, file: u64 },
    FileExtracted { asset: u64, file: u64 },
    PerformDockerEngineDownload { version: u64, total: u64, digests: Vec<(u64, u64)> },
    DockerDownloadProgress { version: u64, bytes: u64 },
    DockerBlobFinished { version: u64, digest: u64 },
    DockerBlobFailed { version: u64, digest: u64 },
    DockerExtractionFinished { version: u64 },
    DockerCanceled { version: u64, digest: u64 },
    DockerPaused { version: u64, digest: u64 },
    IOError { message: String },
}

/// A chunk's temp file exists on disk if and only if its reference count
/// (files still depending on it) is greater than zero.
pub open spec fn temp_files_match_refs(chunks: Map<u64, ChunkModel>) -> bool {
    forall|g: u64|
        chunks.contains_key(g) ==> (#[trigger] chunks[g].present <==> chunks[g].refs.len() > 0)
}

/// The download orchestrator state.
pub struct DownloadManager {
    /// Active items, by asset id.
    pub items: Table<DownloadItem>,
    /// Files awaiting assembly, by file id.
    pub files: Table<FileDownload>,
    /// Chunk registry, by content GUID.
    pub chunks: Table<Chunk>,
    /// Asset id to the chunk GUIDs it references (deduplicated).
    pub asset_guids: Table<Vec<u64>>,
    /// Container-image engine downloads, by version id.
    pub engines: Table<EngineDownload>,
    /// Control registry: transfer key to registered control listeners.
    pub thread_senders: Table<Vec<u64>>,
    /// How many automatic resubmissions a failed digest is allowed.
    pub retry_limit: u64,
}

impl DownloadManager {
    /// Structural well-formedness plus the temp-file/reference-count
    /// invariant, preserved by every handler.
    pub open spec fn inv(&self) -> bool {
        &&& self.items.wf()
        &&& self.files.wf()
        &&& self.chunks.wf()
        &&& self.asset_guids.wf()
        &&& self.engines.wf()
        &&& self.thread_senders.wf()
        &&& temp_files_match_refs(self.chunks@)
    }

    pub fn new(retry_limit: u64) -> (r: Self)
        ensures
            r.inv(),
            r.items@ == Map::<u64, ItemModel>::empty(),
            r.files@ == Map::<u64, FileModel>::empty(),
            r.chunks@ == Map::<u64, ChunkModel>::empty(),
            r.asset_guids@ == Map::<u64, Seq<u64>>::empty(),
            r.engines@ == Map::<u64, EngineModel>::empty(),
            r.thread_senders@ == Map::<u64, Seq<u64>>::empty(),
            r.retry_limit == retry_limit,
    {
        DownloadManager {
            items: Table::new(),
            files: Table::new(),
            chunks: Table::new(),
            asset_guids: Table::new(),
            engines: Table::new(),
            thread_senders: Table::new(),
            retry_limit,
        }
    }

    /// Register a control listener under a transfer key.
    pub fn add_thread_sender(&mut self, key: u64, listener: u64)
        requires
            old(self).inv(),
        ensures
            final(self).inv(),
            final(self).thread_senders@ == old(self).thread_senders@.insert(
                key,
                if old(self).thread_senders@.contains_key(key) {
                    old(self).thread_senders@[key].push(listener)
                } else {
                    seq![listener]
                },
            ),
            final(self).items@ == old(self).items@,
            final(self).files@ == old(self).files@,
            final(self).chunks@ == old(self).chunks@,
            final(self).asset_guids@ == old(self).asset_guids@,
            final(self).engines@ == old(self).engines@,
            final(self).retry_limit == old(self).retry_limit,
    {
        let cur = self.thread_senders.remove(key);
        let mut listeners = match cur {
            Some(v) => v,
            None => Vec::new(),
        };
        listeners.push(listener);
        let ghost pre = old(self).thread_senders@;
        self.thread_senders.insert(key, listeners);
        proof {
            if pre.contains_key(key) {
                assert(pre.remove(key).insert(key, pre[key].push(listener)) =~= pre.insert(
                    key,
                    pre[key].push(listener),
                ));
            } else {
                assert(pre.remove(key) =~= pre);
                assert(Seq::<u64>::empty().push(listener) =~= seq![listener]);
            }
        }
    }

    /// Fan a control signal out to every listener registered for the key,
    /// then clear the registration (one-shot).
    pub fn send_to_thread_sender(&mut self, key: u64, msg: ThreadMessages) -> (acts: Vec<Action>)
        requires
            old(self).inv(),
        ensures
            final(self).inv(),
            final(self).thread_senders@ == old(self).thread_senders@.remove(key),
            acts@ == signals_for(listeners_of(*old(self), key), msg),
            final(self).items@ == old(self).items@,
            final(self).files@ == old(self).files@,
            final(self).chunks@ == old(self).chunks@,
            final(self).asset_guids@ == old(self).asset_guids@,
            final(self).engines@ == old(self).engines@,
            final(self).retry_limit == old(self).retry_limit,
    {
        let cur = self.thread_senders.remove(key);
        let mut acts: Vec<Action> = Vec::new();
        match cur {
            None => {
                proof {
                    assert(acts@ =~= signals_for(listeners_of(*old(self), key), msg));
                }
                acts
            },
            Some(listeners) => {
                let ghost ls = listeners@;
                let mut i: usize = 0;
                while i < listeners.len()
                    invariant
                        0 <= i <= ls.len(),
                        listeners@ == ls,
                        acts@ == signals_for(ls.take(i as int), msg),
                    decreases ls.len() - i,
                {
                    acts.push(Action::Signal { listener: listeners[i], message: msg });
                    proof {
                        assert(signals_for(ls.take(i + 1), msg) =~= signals_for(
                            ls.take(i as int),
                            msg,
                        ).push(Action::Signal { listener: ls[i as int], message: msg }));
                    }
                    i = i + 1;
                }
                proof {
                    assert(ls.take(ls.len() as int) =~= ls);
                    assert(ls == listeners_of(*old(self), key));
                }
                acts
            },
        }
    }

    /// An I/O failure is surfaced as a non-fatal notification; the state of
    /// every item is left exactly as it was.
    pub fn io_error(&mut self) -> (acts: Vec<Action>)
        requires
            old(self).inv(),
        ensures
            final(self).inv(),
            *final(self) == *old(self),
            acts@ == seq![Action::NotifyError],
    {
        let mut acts: Vec<Action> = Vec::new();
        acts.push(Action::NotifyError);
        proof {
            assert(acts@ =~= seq![Action::NotifyError]);
        }
        acts
    }

    /// Mark one file of an item as completed; remove the item once all its
    /// files are done.  Shared by `FileExtracted` and the short-circuit
    /// `FileAlreadyDownloaded` path, so both are idempotent.
    pub fn mark_file_done(&mut self, asset: u64, file: u64) -> (acts: Vec<Action>)
        requires
            old(self).inv(),
        ensures
            final(self).inv(),
            file_done_post(*old(self), *final(self), acts@, asset, file),
    {
        let touch = match self.items.get(asset) {
            None => false,
            Some(it) => !vec_contains(&it.files_done, file),
        };
        if !touch {
            return Vec::new();
        }
        let it = self.items.remove(asset).unwrap();
        let ghost pre_items = old(self).items@;
        let mut done = it.files_done;
        done.push(file);
        if done.len() >= it.files_total {
            let _ = self.asset_guids.remove(asset);
            let mut acts: Vec<Action> = Vec::new();
            acts.push(Action::RemoveItem { asset });
            acts.push(Action::Tick);
            proof {
                assert(acts@ =~= seq![Action::RemoveItem { asset }, Action::Tick]);
            }
            acts
        } else {
            let replacement = DownloadItem {
                files_total: it.files_total,
                files_done: done,
                target: it.target,
            };
            self.items.insert(asset, replacement);
            proof {
                let m = ItemModel { files_done: pre_items[asset].files_done.push(file), ..pre_items[asset] };
                assert(replacement@ =~= m);
                assert(pre_items.remove(asset).insert(asset, m) =~= pre_items.insert(asset, m));
            }
            let mut acts: Vec<Action> = Vec::new();
            acts.push(Action::Tick);
            proof {
                assert(acts@ =~= seq![Action::Tick]);
            }
            acts
        }
    }

    /// Validation found a previously completed artifact: emit the same
    /// completion as a fresh download, without re-fetching anything.
    pub fn file_already_downloaded(&mut self, asset: u64, file: u64) -> (acts: Vec<Action>)
        requires
            old(self).inv(),
        ensures
            final(self).inv(),
            file_done_post(*old(self), *final(self), acts@, asset, file),
    {
        self.mark_file_done(asset, file)
    }

    /// A file finished extraction: mark it done on its item, recompute the
    /// active set, and tick observers.
    pub fn file_extracted(&mut self, asset: u64, file: u64) -> (acts: Vec<Action>)
        requires
            old(self).inv(),
        ensures
            final(self).inv(),
            file_done_post(*old(self), *final(self), acts@, asset, file),
    {
        self.mark_file_done(asset, file)
    }
}

/// The listeners registered for a key, or the empty sequence.
pub open spec fn listeners_of(m: DownloadManager, key: u64) -> Seq<u64> {
    if m.thread_senders@.contains_key(key) {
        m.thread_senders@[key]
    } else {
        Seq::empty()
    }
}

/// One `Signal` action per listener, in registration order.
pub open spec fn signals_for(ls: Seq<u64>, msg: ThreadMessages) -> Seq<Action> {
    ls.map_values(|l: u64| Action::Signal { listener: l, message: msg })
}

/// Exact effect of delivering a file-completion event (`FileExtracted` or
/// `FileAlreadyDownloaded`) for `file` of `asset`: the file is marked done at
/// most once; the item reaches its terminal state (removal) exactly when the
/// last file completes; a repeated delivery changes nothing.
pub open spec fn file_done_post(
    pre: DownloadManager,
    post: DownloadManager,
    acts: Seq<Action>,
    asset: u64,
    file: u64,
) -> bool {
    &&& post.files@ == pre.files@
    &&& post.chunks@ == pre.chunks@
    &&& post.engines@ == pre.engines@
    &&& post.thread_senders@ == pre.thread_senders@
    &&& post.retry_limit == pre.retry_limit
    &&& if pre.items@.contains_key(asset) && !pre.items@[asset].files_done.contains(file) {
        let it = pre.items@[asset];
        let done = it.files_done.push(file);
        if done.len() >= it.files_total {
            &&& post.items@ == pre.items@.remove(asset)
            &&& post.asset_guids@ == pre.asset_guids@.remove(asset)
            &&& acts == seq![Action::RemoveItem { asset }, Action::Tick]
        } else {
            &&& post.items@ == pre.items@.insert(asset, ItemModel { files_done: done, ..it })
            &&& post.asset_guids@ == pre.asset_guids@
            &&& acts == seq![Action::Tick]
        }
    } else {
        &&& post.items@ == pre.items@
        &&& post.asset_guids@ == pre.asset_guids@
        &&& acts == Seq::<Action>::empty()
    }
}

/// Delivering the same file completion twice produces exactly one terminal
/// item state, not two: the second delivery leaves the state unchanged and
/// emits nothing.
pub proof fn lemma_file_done_idempotent(
    pre: DownloadManager,
    mid: DownloadManager,
    post: DownloadManager,
    acts1: Seq<Action>,
    acts2: Seq<Action>,
    asset: u64,
    file: u64,
)
    requires
        file_done_post(pre, mid, acts1, asset, file),
        file_done_post(mid, post, acts2, asset, file),
    ensures
        post.items@ == mid.items@,
        post.asset_guids@ == mid.asset_guids@,
        post.files@ == mid.files@,
        post.chunks@ == mid.chunks@,
        acts2 == Seq::<Action>::empty(),
{
    if pre.items@.contains_key(asset) && !pre.items@[asset].files_done.contains(file) {
        let it = pre.items@[asset];
        let done = it.files_done.push(file);
        if done.len() >= it.files_total {
            assert(!mid.items@.contains_key(asset));
        } else {
            assert(mid.items@[asset].files_done.contains(file)) by {
                assert(done[done.len() - 1] == file);
            }
        }
    }
}

/// The temp-file law: under the manager invariant, a chunk's temp artifact
/// exists exactly when some file still depends on it.
pub proof fn lemma_temp_file_iff_referenced(m: DownloadManager, guid: u64)
    requires
        m.inv(),
        m.chunks@.contains_key(guid),
    ensures
        m.chunks@[guid].present <==> m.chunks@[guid].refs.len() > 0,
{
}

} // verus!
