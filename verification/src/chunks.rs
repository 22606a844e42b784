//! Chunk life-cycle handlers: submit, resume, pause, cancel, progress, and
//! the reference-count cleanup that runs when a file is finalized.

use vstd::prelude::*;
use crate::manager::{
    Action, Chunk, ChunkModel, ChunkStatus, DownloadManager, listeners_of, signals_for,
    temp_files_match_refs,
};
use crate::seqs::{remove_all, vec_remove_all};
use crate::worker::ThreadMessages;

verus! {

/// `b` limited to the chunk's declared size.
pub open spec fn clamped(b: u64, size: u64) -> u64 {
    if b > size {
        size
    } else {
        b
    }
}

/// The chunk exists and is fully downloaded.
pub open spec fn chunk_done_at(chunks: Map<u64, ChunkModel>, g: u64) -> bool {
    chunks.contains_key(g) && chunks[g].status == ChunkStatus::Done
}

/// Every chunk of the file is done, so the file can be assembled.
pub open spec fn file_fully_done(
    files: Map<u64, crate::manager::FileModel>,
    chunks: Map<u64, ChunkModel>,
    fid: u64,
) -> bool {
    &&& files.contains_key(fid)
    &&& forall|j: int|
        0 <= j < files[fid].chunks.len() ==> #[trigger] chunk_done_at(chunks, files[fid].chunks[j])
}

/// One `AssembleFile` action per dependent file (among the first `n` of
/// `refs`) whose chunk set is now fully done.
pub open spec fn assemble_actions(
    files: Map<u64, crate::manager::FileModel>,
    chunks: Map<u64, ChunkModel>,
    refs: Seq<u64>,
    n: int,
) -> Seq<Action>
    decreases n,
{
    if n <= 0 {
        Seq::empty()
    } else {
        let rest = assemble_actions(files, chunks, refs, n - 1);
        if file_fully_done(files, chunks, refs[n - 1]) {
            rest.push(Action::AssembleFile { file: refs[n - 1] })
        } else {
            rest
        }
    }
}

/// The chunk map after dropping `fid`'s reference from the first `n` chunks
/// of `gs`; a chunk whose reference list empties loses its temp artifact.
pub open spec fn deref_chunks(
    chunks: Map<u64, ChunkModel>,
    gs: Seq<u64>,
    fid: u64,
    n: int,
) -> Map<u64, ChunkModel>
    decreases n,
{
    if n <= 0 {
        chunks
    } else {
        let m = deref_chunks(chunks, gs, fid, n - 1);
        let g = gs[n - 1];
        if m.contains_key(g) {
            let c = m[g];
            let nr = remove_all(c.refs, fid);
            if nr.len() == 0 {
                m.insert(g, ChunkModel { present: false, refs: nr, ..c })
            } else {
                m.insert(g, ChunkModel { refs: nr, ..c })
            }
        } else {
            m
        }
    }
}

/// One `DeleteChunkTemp` action per chunk whose reference list empties while
/// dropping `fid`'s references from the first `n` chunks of `gs`.
pub open spec fn deref_actions(
    chunks: Map<u64, ChunkModel>,
    gs: Seq<u64>,
    fid: u64,
    n: int,
) -> Seq<Action>
    decreases n,
{
    if n <= 0 {
        Seq::empty()
    } else {
        let m = deref_chunks(chunks, gs, fid, n - 1);
        let a = deref_actions(chunks, gs, fid, n - 1);
        let g = gs[n - 1];
        if m.contains_key(g) && m[g].refs.len() > 0 && remove_all(m[g].refs, fid).len() == 0 {
            a.push(Action::DeleteChunkTemp { guid: g })
        } else {
            a
        }
    }
}

/// Inserting a chunk that itself satisfies the temp-file law preserves it.
pub proof fn lemma_temp_refs_insert(pre: Map<u64, ChunkModel>, g: u64, c: ChunkModel)
    requires
        temp_files_match_refs(pre),
        c.present <==> c.refs.len() > 0,
    ensures
        temp_files_match_refs(pre.insert(g, c)),
{
    assert forall|x: u64| pre.insert(g, c).contains_key(x) implies (
    #[trigger] pre.insert(g, c)[x].present <==> pre.insert(g, c)[x].refs.len() > 0) by {
        if x != g {
            assert(pre.insert(g, c)[x] == pre[x]);
        }
    }
}

/// Exact effect of `PerformChunkDownload`: a pending chunk is handed to a
/// worker, fetching from its current byte offset; any other state is left
/// untouched.
pub open spec fn perform_chunk_post(
    pre: DownloadManager,
    post: DownloadManager,
    acts: Seq<Action>,
    guid: u64,
) -> bool {
    &&& post.items@ == pre.items@
    &&& post.files@ == pre.files@
    &&& post.asset_guids@ == pre.asset_guids@
    &&& post.engines@ == pre.engines@
    &&& post.thread_senders@ == pre.thread_senders@
    &&& post.retry_limit == pre.retry_limit
    &&& if pre.chunks@.contains_key(guid) && pre.chunks@[guid].status == ChunkStatus::Pending {
        let c = pre.chunks@[guid];
        &&& post.chunks@ == pre.chunks@.insert(
            guid,
            ChunkModel { status: ChunkStatus::Downloading, ..c },
        )
        &&& acts == seq![Action::SubmitChunk { guid, offset: c.bytes }]
    } else {
        &&& post.chunks@ == pre.chunks@
        &&& acts == Seq::<Action>::empty()
    }
}

/// Exact effect of `RedownloadChunk`: a paused chunk resumes from the byte
/// offset of its partial file — never below the paused offset.
pub open spec fn redownload_post(
    pre: DownloadManager,
    post: DownloadManager,
    acts: Seq<Action>,
    guid: u64,
) -> bool {
    &&& post.items@ == pre.items@
    &&& post.files@ == pre.files@
    &&& post.asset_guids@ == pre.asset_guids@
    &&& post.engines@ == pre.engines@
    &&& post.thread_senders@ == pre.thread_senders@
    &&& post.retry_limit == pre.retry_limit
    &&& if pre.chunks@.contains_key(guid) && pre.chunks@[guid].status == ChunkStatus::Paused {
        let c = pre.chunks@[guid];
        &&& post.chunks@ == pre.chunks@.insert(
            guid,
            ChunkModel { status: ChunkStatus::Downloading, ..c },
        )
        &&& acts == seq![Action::SubmitChunk { guid, offset: c.bytes }]
    } else {
        &&& post.chunks@ == pre.chunks@
        &&& acts == Seq::<Action>::empty()
    }
}

/// Exact effect of `PauseChunk`: a downloading chunk is marked paused, its
/// partial file stays, and the pause signal fans out to every registered
/// listener for the key, which is then cleared (one-shot).
pub open spec fn pause_chunk_post(
    pre: DownloadManager,
    post: DownloadManager,
    acts: Seq<Action>,
    guid: u64,
) -> bool {
    &&& post.items@ == pre.items@
    &&& post.files@ == pre.files@
    &&& post.asset_guids@ == pre.asset_guids@
    &&& post.engines@ == pre.engines@
    &&& post.retry_limit == pre.retry_limit
    &&& if pre.chunks@.contains_key(guid) && pre.chunks@[guid].status == ChunkStatus::Downloading {
        let c = pre.chunks@[guid];
        &&& post.chunks@ == pre.chunks@.insert(
            guid,
            ChunkModel { status: ChunkStatus::Paused, ..c },
        )
        &&& post.thread_senders@ == pre.thread_senders@.remove(guid)
        &&& acts == signals_for(listeners_of(pre, guid), ThreadMessages::Pause)
    } else {
        &&& post.chunks@ == pre.chunks@
        &&& post.thread_senders@ == pre.thread_senders@
        &&& acts == Seq::<Action>::empty()
    }
}

/// Exact effect of `CancelChunk` for one dependent file: the file's
/// references leave the chunk's list; only when no file depends on the chunk
/// any more is the transfer cancelled, the cancel signal fanned out, its
/// progress reset and its temp file deleted.
pub open spec fn cancel_chunk_post(
    pre: DownloadManager,
    post: DownloadManager,
    acts: Seq<Action>,
    guid: u64,
    file: u64,
) -> bool {
    &&& post.items@ == pre.items@
    &&& post.files@ == pre.files@
    &&& post.asset_guids@ == pre.asset_guids@
    &&& post.engines@ == pre.engines@
    &&& post.retry_limit == pre.retry_limit
    &&& if pre.chunks@.contains_key(guid) && pre.chunks@[guid].refs.contains(file) {
        let c = pre.chunks@[guid];
        let nr = remove_all(c.refs, file);
        if nr.len() == 0 {
            &&& post.chunks@ == pre.chunks@.insert(
                guid,
                ChunkModel {
                    size: c.size,
                    bytes: 0,
                    status: ChunkStatus::Cancelled,
                    present: false,
                    refs: nr,
                },
            )
            &&& post.thread_senders@ == pre.thread_senders@.remove(guid)
            &&& acts == signals_for(listeners_of(pre, guid), ThreadMessages::Cancel).push(
                Action::DeleteChunkTemp { guid },
            )
        } else {
            &&& post.chunks@ == pre.chunks@.insert(guid, ChunkModel { refs: nr, ..c })
            &&& post.thread_senders@ == pre.thread_senders@
            &&& acts == Seq::<Action>::empty()
        }
    } else {
        &&& post.chunks@ == pre.chunks@
        &&& post.thread_senders@ == pre.thread_senders@
        &&& acts == Seq::<Action>::empty()
    }
}

/// Exact effect of `ChunkDownloadProgress`: cumulative progress is recorded
/// (clamped to the declared size); on completion the chunk becomes done and
/// every dependent file whose chunk set is now complete is sent to assembly.
pub open spec fn chunk_progress_post(
    pre: DownloadManager,
    post: DownloadManager,
    acts: Seq<Action>,
    guid: u64,
    bytes: u64,
    finished: bool,
) -> bool {
    &&& post.items@ == pre.items@
    &&& post.files@ == pre.files@
    &&& post.asset_guids@ == pre.asset_guids@
    &&& post.engines@ == pre.engines@
    &&& post.thread_senders@ == pre.thread_senders@
    &&& post.retry_limit == pre.retry_limit
    &&& if pre.chunks@.contains_key(guid) && pre.chunks@[guid].status == ChunkStatus::Downloading {
        let c = pre.chunks@[guid];
        if !finished {
            &&& post.chunks@ == pre.chunks@.insert(
                guid,
                ChunkModel { bytes: clamped(bytes, c.size), ..c },
            )
            &&& acts == Seq::<Action>::empty()
        } else {
            let c2 = ChunkModel { bytes: c.size, status: ChunkStatus::Done, ..c };
            &&& post.chunks@ == pre.chunks@.insert(guid, c2)
            &&& acts == assemble_actions(
                pre.files@,
                pre.chunks@.insert(guid, c2),
                c.refs,
                c.refs.len() as int,
            )
        }
    } else {
        &&& post.chunks@ == pre.chunks@
        &&& acts == Seq::<Action>::empty()
    }
}

/// Exact effect of `FinalizeFileDownload`: the file leaves the pending set,
/// its references leave every chunk it used, chunks nobody references any
/// more lose their temp files, and the file's extraction is queued.
pub open spec fn finalize_post(
    pre: DownloadManager,
    post: DownloadManager,
    acts: Seq<Action>,
    file: u64,
) -> bool {
    &&& post.items@ == pre.items@
    &&& post.asset_guids@ == pre.asset_guids@
    &&& post.engines@ == pre.engines@
    &&& post.thread_senders@ == pre.thread_senders@
    &&& post.retry_limit == pre.retry_limit
    &&& if pre.files@.contains_key(file) {
        let f = pre.files@[file];
        &&& post.files@ == pre.files@.remove(file)
        &&& post.chunks@ == deref_chunks(pre.chunks@, f.chunks, file, f.chunks.len() as int)
        &&& acts == deref_actions(pre.chunks@, f.chunks, file, f.chunks.len() as int).push(
            Action::QueueFileExtracted { asset: f.asset, file },
        )
    } else {
        &&& post.files@ == pre.files@
        &&& post.chunks@ == pre.chunks@
        &&& acts == Seq::<Action>::empty()
    }
}

impl DownloadManager {
    /// Start the worker for a pending chunk.
    pub fn perform_chunk_download(&mut self, guid: u64) -> (acts: Vec<Action>)
        requires
            old(self).inv(),
        ensures
            final(self).inv(),
            perform_chunk_post(*old(self), *final(self), acts@, guid),
    {
        let run = match self.chunks.get(guid) {
            Some(c) => c.status == ChunkStatus::Pending,
            None => false,
        };
        if !run {
            return Vec::new();
        }
        let c = match self.chunks.remove(guid) {
            Some(c) => c,
            None => {
                return Vec::new();
            },
        };
        let offset = c.bytes;
        let c2 = Chunk {
            size: c.size,
            bytes: c.bytes,
            status: ChunkStatus::Downloading,
            present: c.present,
            refs: c.refs,
        };
        proof {
            assert(c2@ =~= ChunkModel {
                status: ChunkStatus::Downloading,
                ..old(self).chunks@[guid]
            });
        }
        self.chunks.insert(guid, c2);
        proof {
            assert(old(self).chunks@.remove(guid).insert(guid, c2@) =~= old(
                self,
            ).chunks@.insert(guid, c2@));
            lemma_temp_refs_insert(old(self).chunks@, guid, c2@);
        }
        let mut acts: Vec<Action> = Vec::new();
        acts.push(Action::SubmitChunk { guid, offset });
        proof {
            assert(acts@ =~= seq![Action::SubmitChunk { guid, offset }]);
        }
        acts
    }

    /// Resume a paused chunk from its partial file's byte offset.
    pub fn redownload_chunk(&mut self, guid: u64) -> (acts: Vec<Action>)
        requires
            old(self).inv(),
        ensures
            final(self).inv(),
            redownload_post(*old(self), *final(self), acts@, guid),
    {
        let run = match self.chunks.get(guid) {
            Some(c) => c.status == ChunkStatus::Paused,
            None => false,
        };
        if !run {
            return Vec::new();
        }
        let c = match self.chunks.remove(guid) {
            Some(c) => c,
            None => {
                return Vec::new();
            },
        };
        let offset = c.bytes;
        let c2 = Chunk {
            size: c.size,
            bytes: c.bytes,
            status: ChunkStatus::Downloading,
            present: c.present,
            refs: c.refs,
        };
        proof {
            assert(c2@ =~= ChunkModel {
                status: ChunkStatus::Downloading,
                ..old(self).chunks@[guid]
            });
        }
        self.chunks.insert(guid, c2);
        proof {
            assert(old(self).chunks@.remove(guid).insert(guid, c2@) =~= old(
                self,
            ).chunks@.insert(guid, c2@));
            lemma_temp_refs_insert(old(self).chunks@, guid, c2@);
        }
        let mut acts: Vec<Action> = Vec::new();
        acts.push(Action::SubmitChunk { guid, offset });
        proof {
            assert(acts@ =~= seq![Action::SubmitChunk { guid, offset }]);
        }
        acts
    }

    /// Pause a downloading chunk: record the pause, keep the partial file,
    /// and signal the worker through its one-shot control channel.
    pub fn pause_chunk(&mut self, guid: u64) -> (acts: Vec<Action>)
        requires
            old(self).inv(),
        ensures
            final(self).inv(),
            pause_chunk_post(*old(self), *final(self), acts@, guid),
    {
        let run = match self.chunks.get(guid) {
            Some(c) => c.status == ChunkStatus::Downloading,
            None => false,
        };
        if !run {
            return Vec::new();
        }
        let c = match self.chunks.remove(guid) {
            Some(c) => c,
            None => {
                return Vec::new();
            },
        };
        let c2 = Chunk {
            size: c.size,
            bytes: c.bytes,
            status: ChunkStatus::Paused,
            present: c.present,
            refs: c.refs,
        };
        proof {
            assert(c2@ =~= ChunkModel { status: ChunkStatus::Paused, ..old(self).chunks@[guid] });
        }
        self.chunks.insert(guid, c2);
        proof {
            assert(old(self).chunks@.remove(guid).insert(guid, c2@) =~= old(
                self,
            ).chunks@.insert(guid, c2@));
            lemma_temp_refs_insert(old(self).chunks@, guid, c2@);
        }
        self.send_to_thread_sender(guid, ThreadMessages::Pause)
    }

    /// Drop one file's dependence on a chunk because its download was
    /// cancelled; cancel the transfer and delete the temp file only when no
    /// other file still needs the chunk.
    pub fn cancel_chunk(&mut self, guid: u64, file: u64) -> (acts: Vec<Action>)
        requires
            old(self).inv(),
        ensures
            final(self).inv(),
            cancel_chunk_post(*old(self), *final(self), acts@, guid, file),
    {
        let run = match self.chunks.get(guid) {
            Some(c) => crate::seqs::vec_contains(&c.refs, file),
            None => false,
        };
        if !run {
            return Vec::new();
        }
        let c = match self.chunks.remove(guid) {
            Some(c) => c,
            None => {
                return Vec::new();
            },
        };
        let nrefs = vec_remove_all(&c.refs, file);
        if nrefs.is_empty() {
            let c2 = Chunk {
                size: c.size,
                bytes: 0,
                status: ChunkStatus::Cancelled,
                present: false,
                refs: nrefs,
            };
            self.chunks.insert(guid, c2);
            proof {
                assert(old(self).chunks@.remove(guid).insert(guid, c2@) =~= old(
                    self,
                ).chunks@.insert(guid, c2@));
                lemma_temp_refs_insert(old(self).chunks@, guid, c2@);
            }
            let mut acts = self.send_to_thread_sender(guid, ThreadMessages::Cancel);
            acts.push(Action::DeleteChunkTemp { guid });
            acts
        } else {
            let c2 = Chunk {
                size: c.size,
                bytes: c.bytes,
                status: c.status,
                present: c.present,
                refs: nrefs,
            };
            proof {
                assert(c2@ =~= ChunkModel {
                    refs: remove_all(old(self).chunks@[guid].refs, file),
                    ..old(self).chunks@[guid]
                });
            }
            self.chunks.insert(guid, c2);
            proof {
                assert(old(self).chunks@.remove(guid).insert(guid, c2@) =~= old(
                    self,
                ).chunks@.insert(guid, c2@));
                lemma_temp_refs_insert(old(self).chunks@, guid, c2@);
            }
            Vec::new()
        }
    }

    /// Whether every chunk of `fid` is done.
    fn is_file_done(&self, fid: u64) -> (r: bool)
        requires
            self.inv(),
        ensures
            r == file_fully_done(self.files@, self.chunks@, fid),
    {
        let f = match self.files.get(fid) {
            None => {
                return false;
            },
            Some(f) => f,
        };
        let mut j: usize = 0;
        while j < f.chunks.len()
            invariant
                self.inv(),
                0 <= j <= f.chunks@.len(),
                self.files@.contains_key(fid),
                f@ == self.files@[fid],
                forall|x: int| 0 <= x < j ==> chunk_done_at(self.chunks@, f.chunks@[x]),
            decreases f.chunks@.len() - j,
        {
            let g = f.chunks[j];
            let ok = match self.chunks.get(g) {
                None => false,
                Some(c) => c.status == ChunkStatus::Done,
            };
            if !ok {
                proof {
                    assert(!chunk_done_at(self.chunks@, self.files@[fid].chunks[j as int]));
                }
                return false;
            }
            j = j + 1;
        }
        true
    }

    /// Record cumulative progress for a downloading chunk; on completion,
    /// mark it done and send every now-complete dependent file to assembly.
    pub fn chunk_download_progress(&mut self, guid: u64, bytes: u64, finished: bool) -> (acts: Vec<
        Action,
    >)
        requires
            old(self).inv(),
        ensures
            final(self).inv(),
            chunk_progress_post(*old(self), *final(self), acts@, guid, bytes, finished),
    {
        let run = match self.chunks.get(guid) {
            Some(c) => c.status == ChunkStatus::Downloading,
            None => false,
        };
        if !run {
            return Vec::new();
        }
        let c = match self.chunks.remove(guid) {
            Some(c) => c,
            None => {
                return Vec::new();
            },
        };
        if !finished {
            let nb = if bytes > c.size {
                c.size
            } else {
                bytes
            };
            let c2 = Chunk {
                size: c.size,
                bytes: nb,
                status: c.status,
                present: c.present,
                refs: c.refs,
            };
            proof {
                assert(c2@ =~= ChunkModel {
                    bytes: clamped(bytes, old(self).chunks@[guid].size),
                    ..old(self).chunks@[guid]
                });
            }
            self.chunks.insert(guid, c2);
            proof {
                assert(old(self).chunks@.remove(guid).insert(guid, c2@) =~= old(
                    self,
                ).chunks@.insert(guid, c2@));
                lemma_temp_refs_insert(old(self).chunks@, guid, c2@);
            }
            Vec::new()
        } else {
            let c2 = Chunk {
                size: c.size,
                bytes: c.size,
                status: ChunkStatus::Done,
                present: c.present,
                refs: c.refs,
            };
            proof {
                assert(c2@ =~= ChunkModel {
                    bytes: old(self).chunks@[guid].size,
                    status: ChunkStatus::Done,
                    ..old(self).chunks@[guid]
                });
            }
            self.chunks.insert(guid, c2);
            proof {
                assert(old(self).chunks@.remove(guid).insert(guid, c2@) =~= old(
                    self,
                ).chunks@.insert(guid, c2@));
                lemma_temp_refs_insert(old(self).chunks@, guid, c2@);
            }
            let cref = match self.chunks.get(guid) {
                Some(cr) => cr,
                None => {
                    return Vec::new();
                },
            };
            let ghost refs = old(self).chunks@[guid].refs;
            let mut acts: Vec<Action> = Vec::new();
            let mut i: usize = 0;
            while i < cref.refs.len()
                invariant
                    self.inv(),
                    0 <= i <= refs.len(),
                    cref.refs@ == refs,
                    acts@ == assemble_actions(self.files@, self.chunks@, refs, i as int),
                decreases refs.len() - i,
            {
                let fid = cref.refs[i];
                if self.is_file_done(fid) {
                    acts.push(Action::AssembleFile { file: fid });
                }
                i = i + 1;
            }
            acts
        }
    }

    /// A file finished assembling: drop it from the pending set, release its
    /// chunk references, delete chunk temp files nobody needs any more, and
    /// queue the file-extracted completion for its asset.
    pub fn finalize_file_download(&mut self, file: u64) -> (acts: Vec<Action>)
        requires
            old(self).inv(),
        ensures
            final(self).inv(),
            finalize_post(*old(self), *final(self), acts@, file),
    {
        let f = match self.files.remove(file) {
            None => {
                proof {
                    assert(old(self).files@.remove(file) =~= old(self).files@);
                }
                return Vec::new();
            },
            Some(f) => f,
        };
        let ghost pre_chunks = old(self).chunks@;
        let ghost gs = f.chunks@;
        let mut acts: Vec<Action> = Vec::new();
        let mut i: usize = 0;
        while i < f.chunks.len()
            invariant
                0 <= i <= gs.len(),
                f.chunks@ == gs,
                self.items.wf(),
                self.files.wf(),
                self.chunks.wf(),
                self.asset_guids.wf(),
                self.engines.wf(),
                self.thread_senders.wf(),
                temp_files_match_refs(self.chunks@),
                self.chunks@ == deref_chunks(pre_chunks, gs, file, i as int),
                acts@ == deref_actions(pre_chunks, gs, file, i as int),
                self.items@ == old(self).items@,
                self.files@ == old(self).files@.remove(file),
                self.asset_guids@ == old(self).asset_guids@,
                self.engines@ == old(self).engines@,
                self.thread_senders@ == old(self).thread_senders@,
                self.retry_limit == old(self).retry_limit,
            decreases gs.len() - i,
        {
            let g = f.chunks[i];
            let ghost m = self.chunks@;
            match self.chunks.remove(g) {
                None => {},
                Some(c) => {
                    let had_refs = c.refs.len() > 0;
                    let nrefs = vec_remove_all(&c.refs, file);
                    let empty_now = nrefs.is_empty();
                    let c2 = Chunk {
                        size: c.size,
                        bytes: c.bytes,
                        status: c.status,
                        present: if empty_now {
                            false
                        } else {
                            c.present
                        },
                        refs: nrefs,
                    };
                    proof {
                        if empty_now {
                            assert(c2@ =~= ChunkModel {
                                present: false,
                                refs: remove_all(m[g].refs, file),
                                ..m[g]
                            });
                        } else {
                            assert(c2@ =~= ChunkModel {
                                refs: remove_all(m[g].refs, file),
                                ..m[g]
                            });
                        }
                    }
                    self.chunks.insert(g, c2);
                    proof {
                        assert(m.remove(g).insert(g, c2@) =~= m.insert(g, c2@));
                        lemma_temp_refs_insert(m, g, c2@);
                    }
                    if had_refs && empty_now {
                        acts.push(Action::DeleteChunkTemp { guid: g });
                    }
                },
            }
            i = i + 1;
        }
        proof {
            assert(gs.len() as int == f.chunks@.len() as int);
        }
        acts.push(Action::QueueFileExtracted { asset: f.asset, file });
        acts
    }
}

/// After a pause, a redownload resumes exactly at the paused byte offset:
/// the submitted fetch starts at the recorded progress, so progress never
/// falls below the paused offset.
pub proof fn lemma_redownload_resumes_at_offset(
    pre: DownloadManager,
    post: DownloadManager,
    acts: Seq<Action>,
    guid: u64,
)
    requires
        redownload_post(pre, post, acts, guid),
        pre.chunks@.contains_key(guid),
        pre.chunks@[guid].status == ChunkStatus::Paused,
    ensures
        acts == seq![Action::SubmitChunk { guid, offset: pre.chunks@[guid].bytes }],
        post.chunks@[guid].bytes == pre.chunks@[guid].bytes,
{
}

/// Pause-then-redownload never decreases progress below the paused offset:
/// the resumed worker starts from the partial file of the paused length, and
/// every cumulative report it makes covers at least those bytes.
pub proof fn lemma_progress_never_below_paused_offset(
    pre: DownloadManager,
    post: DownloadManager,
    acts: Seq<Action>,
    guid: u64,
    partial: Seq<u8>,
    incs: Seq<Seq<u8>>,
    n: int,
)
    requires
        redownload_post(pre, post, acts, guid),
        pre.chunks@.contains_key(guid),
        pre.chunks@[guid].status == ChunkStatus::Paused,
        partial.len() == pre.chunks@[guid].bytes,
        0 <= n <= incs.len(),
    ensures
        acts == seq![Action::SubmitChunk { guid, offset: pre.chunks@[guid].bytes }],
        crate::worker::fetched(partial, incs.take(n)).len() >= pre.chunks@[guid].bytes,
{
    crate::worker::lemma_fetched_extends(partial, incs, n);
}

/// A cancel deletes the partial artifact and resets progress to zero, so a
/// chunk re-created after an explicit cancel restarts from byte zero.
pub proof fn lemma_cancel_resets_progress(
    pre: DownloadManager,
    post: DownloadManager,
    acts: Seq<Action>,
    guid: u64,
    file: u64,
)
    requires
        cancel_chunk_post(pre, post, acts, guid, file),
        pre.chunks@.contains_key(guid),
        pre.chunks@[guid].refs.contains(file),
        remove_all(pre.chunks@[guid].refs, file).len() == 0,
    ensures
        post.chunks@[guid].bytes == 0,
        !post.chunks@[guid].present,
        post.chunks@[guid].status == ChunkStatus::Cancelled,
{
}

} // verus!
