//! Registering a new asset download: expanding its file manifests into chunk
//! work, deduplicating chunks shared with other files by reference counting
//! instead of re-fetching.

use vstd::prelude::*;
use crate::manager::{
    Action, Chunk, ChunkModel, ChunkPart, ChunkStatus, DownloadItem, DownloadManager,
    FileDownload, FileManifest, FileModel, ItemModel, ManifestModel, temp_files_match_refs,
};
use crate::seqs::vec_contains;

verus! {

/// The views of a manifest list.
pub open spec fn manifests_view(s: Seq<FileManifest>) -> Seq<ManifestModel> {
    s.map_values(|fm: FileManifest| fm@)
}

/// The chunk GUIDs of a part list, in order.
pub open spec fn guids_of(parts: Seq<ChunkPart>) -> Seq<u64> {
    parts.map_values(|p: ChunkPart| p.guid)
}

/// Register one file's dependence on one part.  A GUID with a live chunk
/// (its temp artifact exists) only gains a reference; a GUID whose earlier
/// chunk instance was cancelled is re-created from scratch; an unknown GUID
/// gets a fresh pending chunk.
pub open spec fn register_part(
    chunks: Map<u64, ChunkModel>,
    fid: u64,
    p: ChunkPart,
) -> Map<u64, ChunkModel> {
    if chunks.contains_key(p.guid) {
        let c = chunks[p.guid];
        if !c.present {
            chunks.insert(
                p.guid,
                ChunkModel {
                    size: p.size,
                    bytes: 0,
                    status: ChunkStatus::Pending,
                    present: true,
                    refs: c.refs.push(fid),
                },
            )
        } else if c.refs.contains(fid) {
            chunks
        } else {
            chunks.insert(p.guid, ChunkModel { refs: c.refs.push(fid), ..c })
        }
    } else {
        chunks.insert(
            p.guid,
            ChunkModel {
                size: p.size,
                bytes: 0,
                status: ChunkStatus::Pending,
                present: true,
                refs: seq![fid],
            },
        )
    }
}

/// Whether registering this part starts a fetch (no live chunk for it yet).
pub open spec fn part_needs_fetch(chunks: Map<u64, ChunkModel>, p: ChunkPart) -> bool {
    !chunks.contains_key(p.guid) || !chunks[p.guid].present
}

/// The chunk map after registering the first `n` parts of one file.
pub open spec fn register_parts(
    chunks: Map<u64, ChunkModel>,
    fid: u64,
    parts: Seq<ChunkPart>,
    n: int,
) -> Map<u64, ChunkModel>
    decreases n,
{
    if n <= 0 {
        chunks
    } else {
        register_part(register_parts(chunks, fid, parts, n - 1), fid, parts[n - 1])
    }
}

/// One `QueueChunkDownload` per part that needed a fresh fetch, in order.
pub open spec fn parts_actions(
    chunks: Map<u64, ChunkModel>,
    fid: u64,
    parts: Seq<ChunkPart>,
    n: int,
) -> Seq<Action>
    decreases n,
{
    if n <= 0 {
        Seq::empty()
    } else {
        let m = register_parts(chunks, fid, parts, n - 1);
        let a = parts_actions(chunks, fid, parts, n - 1);
        if part_needs_fetch(m, parts[n - 1]) {
            a.push(Action::QueueChunkDownload { guid: parts[n - 1].guid })
        } else {
            a
        }
    }
}

/// `gs` extended with the GUIDs of the first `n` parts, without duplicates.
pub open spec fn add_guids(gs: Seq<u64>, parts: Seq<ChunkPart>, n: int) -> Seq<u64>
    decreases n,
{
    if n <= 0 {
        gs
    } else {
        let g0 = add_guids(gs, parts, n - 1);
        if g0.contains(parts[n - 1].guid) {
            g0
        } else {
            g0.push(parts[n - 1].guid)
        }
    }
}

/// The chunk map after registering the first `n` manifests.
pub open spec fn reg_files_chunks(
    chunks: Map<u64, ChunkModel>,
    ms: Seq<ManifestModel>,
    n: int,
) -> Map<u64, ChunkModel>
    decreases n,
{
    if n <= 0 {
        chunks
    } else {
        let m = reg_files_chunks(chunks, ms, n - 1);
        register_parts(m, ms[n - 1].file, ms[n - 1].parts, ms[n - 1].parts.len() as int)
    }
}

/// The file table after registering the first `n` manifests.
pub open spec fn reg_files_files(
    files: Map<u64, FileModel>,
    asset: u64,
    ms: Seq<ManifestModel>,
    n: int,
) -> Map<u64, FileModel>
    decreases n,
{
    if n <= 0 {
        files
    } else {
        reg_files_files(files, asset, ms, n - 1).insert(
            ms[n - 1].file,
            FileModel { asset, chunks: guids_of(ms[n - 1].parts) },
        )
    }
}

/// The fetch actions emitted while registering the first `n` manifests.
pub open spec fn reg_files_actions(
    chunks: Map<u64, ChunkModel>,
    ms: Seq<ManifestModel>,
    n: int,
) -> Seq<Action>
    decreases n,
{
    if n <= 0 {
        Seq::empty()
    } else {
        let m = reg_files_chunks(chunks, ms, n - 1);
        reg_files_actions(chunks, ms, n - 1) + parts_actions(
            m,
            ms[n - 1].file,
            ms[n - 1].parts,
            ms[n - 1].parts.len() as int,
        )
    }
}

/// The deduplicated GUID list of the first `n` manifests.
pub open spec fn reg_files_guids(gs: Seq<u64>, ms: Seq<ManifestModel>, n: int) -> Seq<u64>
    decreases n,
{
    if n <= 0 {
        gs
    } else {
        add_guids(reg_files_guids(gs, ms, n - 1), ms[n - 1].parts, ms[n - 1].parts.len() as int)
    }
}

/// Exact effect of `StartAssetDownload`: a new item is registered, every
/// manifest becomes a pending file, every part either starts a fetch or adds
/// the file to an existing chunk's reference list, and the asset's
/// deduplicated GUID list is recorded.  A second start for a registered
/// asset changes nothing.
pub open spec fn start_asset_post(
    pre: DownloadManager,
    post: DownloadManager,
    acts: Seq<Action>,
    asset: u64,
    target: Option<Seq<char>>,
    ms: Seq<ManifestModel>,
) -> bool {
    &&& post.engines@ == pre.engines@
    &&& post.thread_senders@ == pre.thread_senders@
    &&& post.retry_limit == pre.retry_limit
    &&& if !pre.items@.contains_key(asset) {
        &&& post.items@ == pre.items@.insert(
            asset,
            ItemModel { files_total: ms.len() as usize, files_done: Seq::empty(), target },
        )
        &&& post.files@ == reg_files_files(pre.files@, asset, ms, ms.len() as int)
        &&& post.chunks@ == reg_files_chunks(pre.chunks@, ms, ms.len() as int)
        &&& post.asset_guids@ == pre.asset_guids@.insert(
            asset,
            reg_files_guids(Seq::empty(), ms, ms.len() as int),
        )
        &&& acts == reg_files_actions(pre.chunks@, ms, ms.len() as int)
    } else {
        &&& post.items@ == pre.items@
        &&& post.files@ == pre.files@
        &&& post.chunks@ == pre.chunks@
        &&& post.asset_guids@ == pre.asset_guids@
        &&& acts == Seq::<Action>::empty()
    }
}

/// Registering a part preserves the temp-file/reference-count law.
proof fn lemma_register_part_inv(chunks: Map<u64, ChunkModel>, fid: u64, p: ChunkPart)
    requires
        temp_files_match_refs(chunks),
    ensures
        temp_files_match_refs(register_part(chunks, fid, p)),
{
    let m = register_part(chunks, fid, p);
    assert forall|x: u64| m.contains_key(x) implies (#[trigger] m[x].present <==> m[x].refs.len()
        > 0) by {
        if x != p.guid {
            assert(m[x] == chunks[x]);
        }
    }
}

impl DownloadManager {
    /// Register a new asset download and expand its manifests into chunk
    /// work, deduplicating by GUID: a GUID that already has a live chunk is
    /// not fetched again — the new file is only added to its reference list.
    pub fn start_asset_download(
        &mut self,
        asset: u64,
        target: Option<String>,
        manifests: &Vec<FileManifest>,
    ) -> (acts: Vec<Action>)
        requires
            old(self).inv(),
        ensures
            final(self).inv(),
            start_asset_post(
                *old(self),
                *final(self),
                acts@,
                asset,
                match target {
                    Some(t) => Some(t@),
                    None => None,
                },
                manifests_view(manifests@),
            ),
    {
        if self.items.contains_key(asset) {
            return Vec::new();
        }
        let ghost ms = manifests_view(manifests@);
        let ghost tgt: Option<Seq<char>> = match target {
            Some(ref t) => Some(t@),
            None => None,
        };
        let item = DownloadItem {
            files_total: manifests.len(),
            files_done: Vec::new(),
            target,
        };
        proof {
            assert(item@ =~= ItemModel {
                files_total: ms.len() as usize,
                files_done: Seq::empty(),
                target: tgt,
            });
        }
        self.items.insert(asset, item);
        let mut guids: Vec<u64> = Vec::new();
        let mut acts: Vec<Action> = Vec::new();
        let mut i: usize = 0;
        while i < manifests.len()
            invariant
                0 <= i <= manifests@.len(),
                ms == manifests_view(manifests@),
                self.items.wf(),
                self.files.wf(),
                self.chunks.wf(),
                self.asset_guids.wf(),
                self.engines.wf(),
                self.thread_senders.wf(),
                temp_files_match_refs(self.chunks@),
                self.items@ == old(self).items@.insert(
                    asset,
                    ItemModel {
                        files_total: ms.len() as usize,
                        files_done: Seq::empty(),
                        target: tgt,
                    },
                ),
                self.files@ == reg_files_files(old(self).files@, asset, ms, i as int),
                self.chunks@ == reg_files_chunks(old(self).chunks@, ms, i as int),
                guids@ == reg_files_guids(Seq::empty(), ms, i as int),
                acts@ == reg_files_actions(old(self).chunks@, ms, i as int),
                self.asset_guids@ == old(self).asset_guids@,
                self.engines@ == old(self).engines@,
                self.thread_senders@ == old(self).thread_senders@,
                self.retry_limit == old(self).retry_limit,
            decreases manifests@.len() - i,
        {
            let fm = &manifests[i];
            let fid = fm.file;
            proof {
                assert(ms[i as int] == manifests@[i as int]@);
            }
            // Record the file itself.
            let mut fchunks: Vec<u64> = Vec::new();
            let mut j: usize = 0;
            while j < fm.parts.len()
                invariant
                    0 <= j <= fm.parts@.len(),
                    fchunks@ == guids_of(fm.parts@).take(j as int),
                decreases fm.parts@.len() - j,
            {
                fchunks.push(fm.parts[j].guid);
                proof {
                    assert(guids_of(fm.parts@).take(j + 1) =~= guids_of(fm.parts@).take(
                        j as int,
                    ).push(fm.parts@[j as int].guid));
                }
                j = j + 1;
            }
            proof {
                assert(guids_of(fm.parts@).take(fm.parts@.len() as int) =~= guids_of(fm.parts@));
            }
            let newfile = FileDownload { asset, chunks: fchunks };
            proof {
                assert(newfile@ =~= FileModel { asset, chunks: guids_of(ms[i as int].parts) });
            }
            self.files.insert(fid, newfile);
            // Register every part's chunk work.
            let ghost cstart = self.chunks@;
            let ghost astart = acts@;
            let ghost items_now = self.items@;
            let ghost files_now = self.files@;
            let mut j2: usize = 0;
            while j2 < fm.parts.len()
                invariant
                    0 <= j2 <= fm.parts@.len(),
                    fm.parts@ == ms[i as int].parts,
                    0 <= i < ms.len(),
                    fid == ms[i as int].file,
                    self.items.wf(),
                    self.files.wf(),
                    self.chunks.wf(),
                    self.asset_guids.wf(),
                    self.engines.wf(),
                    self.thread_senders.wf(),
                    temp_files_match_refs(self.chunks@),
                    self.chunks@ == register_parts(cstart, fid, fm.parts@, j2 as int),
                    acts@ == astart + parts_actions(cstart, fid, fm.parts@, j2 as int),
                    self.items@ == items_now,
                    self.files@ == files_now,
                    self.asset_guids@ == old(self).asset_guids@,
                    self.engines@ == old(self).engines@,
                    self.thread_senders@ == old(self).thread_senders@,
                    self.retry_limit == old(self).retry_limit,
                decreases fm.parts@.len() - j2,
            {
                let p = fm.parts[j2];
                let ghost mpre = self.chunks@;
                let existing = self.chunks.remove(p.guid);
                match existing {
                    None => {
                        let mut refs: Vec<u64> = Vec::new();
                        refs.push(fid);
                        let fresh = Chunk {
                            size: p.size,
                            bytes: 0,
                            status: ChunkStatus::Pending,
                            present: true,
                            refs,
                        };
                        proof {
                            assert(fresh@ =~= ChunkModel {
                                size: p.size,
                                bytes: 0,
                                status: ChunkStatus::Pending,
                                present: true,
                                refs: seq![fid],
                            });
                            assert(mpre.remove(p.guid) =~= mpre);
                        }
                        self.chunks.insert(p.guid, fresh);
                        acts.push(Action::QueueChunkDownload { guid: p.guid });
                    },
                    Some(c) => {
                        if !c.present {
                            let mut refs = c.refs;
                            refs.push(fid);
                            let revived = Chunk {
                                size: p.size,
                                bytes: 0,
                                status: ChunkStatus::Pending,
                                present: true,
                                refs,
                            };
                            proof {
                                assert(revived@ =~= ChunkModel {
                                    size: p.size,
                                    bytes: 0,
                                    status: ChunkStatus::Pending,
                                    present: true,
                                    refs: mpre[p.guid].refs.push(fid),
                                });
                            }
                            self.chunks.insert(p.guid, revived);
                            proof {
                                assert(mpre.remove(p.guid).insert(p.guid, revived@)
                                    =~= mpre.insert(p.guid, revived@));
                            }
                            acts.push(Action::QueueChunkDownload { guid: p.guid });
                        } else if vec_contains(&c.refs, fid) {
                            let ghost cm = c@;
                            self.chunks.insert(p.guid, c);
                            proof {
                                assert(mpre.remove(p.guid).insert(p.guid, cm) =~= mpre);
                            }
                        } else {
                            let mut refs = c.refs;
                            refs.push(fid);
                            let widened = Chunk {
                                size: c.size,
                                bytes: c.bytes,
                                status: c.status,
                                present: c.present,
                                refs,
                            };
                            proof {
                                assert(widened@ =~= ChunkModel {
                                    refs: mpre[p.guid].refs.push(fid),
                                    ..mpre[p.guid]
                                });
                            }
                            self.chunks.insert(p.guid, widened);
                            proof {
                                assert(mpre.remove(p.guid).insert(p.guid, widened@)
                                    =~= mpre.insert(p.guid, widened@));
                            }
                        }
                    },
                }
                proof {
                    lemma_register_part_inv(mpre, fid, p);
                    assert(self.chunks@ == register_part(mpre, fid, p));
                    if part_needs_fetch(mpre, p) {
                        assert(acts@ =~= astart + parts_actions(
                            cstart,
                            fid,
                            fm.parts@,
                            j2 + 1,
                        ));
                    }
                }
                j2 = j2 + 1;
            }
            // Accumulate the asset's deduplicated GUID list.
            let ghost gstart = guids@;
            let mut j3: usize = 0;
            while j3 < fm.parts.len()
                invariant
                    0 <= j3 <= fm.parts@.len(),
                    guids@ == add_guids(gstart, fm.parts@, j3 as int),
                decreases fm.parts@.len() - j3,
            {
                let g = fm.parts[j3].guid;
                if !vec_contains(&guids, g) {
                    guids.push(g);
                }
                j3 = j3 + 1;
            }
            proof {
                assert(self.chunks@ == reg_files_chunks(old(self).chunks@, ms, i + 1));
                assert(acts@ =~= reg_files_actions(old(self).chunks@, ms, i + 1));
                assert(self.files@ == reg_files_files(old(self).files@, asset, ms, i + 1));
                assert(guids@ == reg_files_guids(Seq::empty(), ms, i + 1));
            }
            i = i + 1;
        }
        self.asset_guids.insert(asset, guids);
        proof {
            assert(ms.len() as int == manifests@.len() as int);
        }
        acts
    }
}

} // verus!
