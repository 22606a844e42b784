//! Container-image engine downloads: the digest-keyed mirror of the chunk
//! protocol, with an explicit bounded retry policy for failed digests.
//!
//! Digest status transitions follow the machine
//! `Init -> Downloading -> {Downloaded | Paused | Cancelled}`,
//! `Paused -> Downloading`, failure `Downloading -> Init` (the one backward
//! edge) with automatic resubmission while retries remain, and — once every
//! digest of a version is downloaded — `Downloaded -> Extracting ->
//! Extracted`.  No handler ever skips a state: each event moves a digest
//! along at most two consecutive edges.

use vstd::prelude::*;
use crate::chunks::clamped;
use crate::manager::{Action, Digest, DownloadManager, DownloadStatus, EngineDownload, EngineModel};

verus! {

/// The allowed single transitions of the digest state machine.  The only
/// backward edges re-enter `Init` for retry: a failed download and an
/// explicit cancel.
pub open spec fn digest_edge(a: DownloadStatus, b: DownloadStatus) -> bool {
    ||| (a == DownloadStatus::Init && b == DownloadStatus::Downloading)
    ||| (a == DownloadStatus::Downloading && b == DownloadStatus::Downloaded)
    ||| (a == DownloadStatus::Downloading && b == DownloadStatus::Paused)
    ||| (a == DownloadStatus::Downloading && b == DownloadStatus::Cancelled)
    ||| (a == DownloadStatus::Downloading && b == DownloadStatus::Init)
    ||| (a == DownloadStatus::Paused && b == DownloadStatus::Downloading)
    ||| (a == DownloadStatus::Cancelled && b == DownloadStatus::Init)
    ||| (a == DownloadStatus::Downloaded && b == DownloadStatus::Extracting)
    ||| (a == DownloadStatus::Extracting && b == DownloadStatus::Extracted)
}

/// One mailbox event moves a digest along at most two consecutive edges
/// (e.g. a failure re-enters `Init` and is resubmitted in the same step).
pub open spec fn digest_step_ok(a: DownloadStatus, b: DownloadStatus) -> bool {
    ||| a == b
    ||| digest_edge(a, b)
    ||| exists|m: DownloadStatus| digest_edge(a, m) && #[trigger] digest_edge(m, b)
}

/// Identity and size are stable and the status moved along allowed edges.
pub open spec fn step_pair_ok(x: Digest, y: Digest) -> bool {
    x.digest == y.digest && x.size == y.size && digest_step_ok(x.status, y.status)
}

/// Pointwise transition check for a whole digest list.
pub open spec fn digests_step_ok(a: Seq<Digest>, b: Seq<Digest>) -> bool {
    b.len() == a.len() && forall|i: int| 0 <= i < a.len() ==> step_pair_ok(#[trigger] a[i], b[i])
}

/// The digest list of a registered version, or empty.
pub open spec fn digests_of(m: DownloadManager, version: u64) -> Seq<Digest> {
    if m.engines@.contains_key(version) {
        m.engines@[version].digests
    } else {
        Seq::empty()
    }
}

/// A fresh digest list: every digest submitted, no retries spent.
pub open spec fn initial_digests(ds: Seq<(u64, u64)>) -> Seq<Digest> {
    ds.map_values(
        |p: (u64, u64)|
            Digest { digest: p.0, size: p.1, status: DownloadStatus::Downloading, retries: 0 },
    )
}

/// One blob submission per declared digest.
pub open spec fn submit_all(version: u64, ds: Seq<(u64, u64)>) -> Seq<Action> {
    ds.map_values(|p: (u64, u64)| Action::SubmitBlob { version, digest: p.0, size: p.1 })
}

/// Matching digests move to `Downloaded`.
pub open spec fn finish_one(d: Digest, id: u64) -> Digest {
    if d.digest == id && d.status == DownloadStatus::Downloading {
        Digest { status: DownloadStatus::Downloaded, ..d }
    } else {
        d
    }
}

/// A failed digest re-enters `Init`; while retries remain it is resubmitted
/// (ending the step back in `Downloading` with one more retry spent),
/// otherwise it stays in `Init` awaiting user action.
pub open spec fn fail_one(d: Digest, id: u64, limit: u64) -> Digest {
    if d.digest == id && d.status == DownloadStatus::Downloading {
        if d.retries < limit {
            Digest { status: DownloadStatus::Downloading, retries: (d.retries + 1) as u64, ..d }
        } else {
            Digest { status: DownloadStatus::Init, ..d }
        }
    } else {
        d
    }
}

/// Matching downloading or paused digests move to `Cancelled`.
pub open spec fn cancel_one(d: Digest, id: u64) -> Digest {
    if d.digest == id && (d.status == DownloadStatus::Downloading || d.status
        == DownloadStatus::Paused) {
        Digest { status: DownloadStatus::Cancelled, ..d }
    } else {
        d
    }
}

/// Matching downloading digests move to `Paused`.
pub open spec fn pause_one(d: Digest, id: u64) -> Digest {
    if d.digest == id && d.status == DownloadStatus::Downloading {
        Digest { status: DownloadStatus::Paused, ..d }
    } else {
        d
    }
}

/// Matching paused digests resume `Downloading`.
pub open spec fn resume_one(d: Digest, id: u64) -> Digest {
    if d.digest == id && d.status == DownloadStatus::Paused {
        Digest { status: DownloadStatus::Downloading, ..d }
    } else {
        d
    }
}

/// Every extracting digest becomes `Extracted`.
pub open spec fn extract_one(d: Digest) -> Digest {
    if d.status == DownloadStatus::Extracting {
        Digest { status: DownloadStatus::Extracted, ..d }
    } else {
        d
    }
}

/// Every digest has this status.
pub open spec fn all_have_status(ds: Seq<Digest>, st: DownloadStatus) -> bool {
    forall|i: int| 0 <= i < ds.len() ==> (#[trigger] ds[i]).status == st
}

/// Every digest moves to this status (used when extraction begins).
pub open spec fn all_to_status(ds: Seq<Digest>, st: DownloadStatus) -> Seq<Digest> {
    Seq::new(ds.len(), |i: int| Digest { status: st, ..ds[i] })
}

/// Pointwise image of a digest transform.
pub open spec fn map_digests(ds: Seq<Digest>, f: spec_fn(Digest) -> Digest) -> Seq<Digest> {
    Seq::new(ds.len(), |i: int| f(ds[i]))
}

/// The resubmissions and error notifications emitted for a failed digest,
/// in digest-list order.
pub open spec fn fail_actions(
    version: u64,
    ds: Seq<Digest>,
    id: u64,
    limit: u64,
    n: int,
) -> Seq<Action>
    decreases n,
{
    if n <= 0 {
        Seq::empty()
    } else {
        let a = fail_actions(version, ds, id, limit, n - 1);
        let d = ds[n - 1];
        if d.digest == id && d.status == DownloadStatus::Downloading {
            if d.retries < limit {
                a.push(Action::SubmitBlob { version, digest: id, size: d.size })
            } else {
                a.push(Action::NotifyError)
            }
        } else {
            a
        }
    }
}

/// The resubmissions emitted when a paused digest resumes.
pub open spec fn resume_actions(version: u64, ds: Seq<Digest>, id: u64, n: int) -> Seq<Action>
    decreases n,
{
    if n <= 0 {
        Seq::empty()
    } else {
        let a = resume_actions(version, ds, id, n - 1);
        let d = ds[n - 1];
        if d.digest == id && d.status == DownloadStatus::Paused {
            a.push(Action::SubmitBlob { version, digest: id, size: d.size })
        } else {
            a
        }
    }
}


/// Exact effect of `PerformDockerEngineDownload`: a new version registers
/// its digest list and every digest is submitted; a known version is left
/// untouched.
pub open spec fn docker_start_post(
    pre: DownloadManager,
    post: DownloadManager,
    acts: Seq<Action>,
    version: u64,
    total: u64,
    ds: Seq<(u64, u64)>,
) -> bool {
    &&& docker_rest_unchanged(pre, post)
    &&& if !pre.engines@.contains_key(version) {
        &&& post.engines@ == pre.engines@.insert(
            version,
            EngineModel { total, received: 0, digests: initial_digests(ds) },
        )
        &&& acts == submit_all(version, ds)
    } else {
        &&& post.engines@ == pre.engines@
        &&& acts == Seq::<Action>::empty()
    }
}

/// Exact effect of `DockerDownloadProgress`: cumulative received bytes are
/// recorded, clamped to the declared total.
pub open spec fn docker_progress_post(
    pre: DownloadManager,
    post: DownloadManager,
    acts: Seq<Action>,
    version: u64,
    bytes: u64,
) -> bool {
    &&& docker_rest_unchanged(pre, post)
    &&& acts == Seq::<Action>::empty()
    &&& if pre.engines@.contains_key(version) {
        post.engines@ == pre.engines@.insert(
            version,
            EngineModel { received: clamped(bytes, pre.engines@[version].total), ..pre.engines@[version] },
        )
    } else {
        post.engines@ == pre.engines@
    }
}

/// Exact effect of `DockerBlobFinished`: the digest becomes downloaded;
/// once every digest of the version is downloaded, extraction starts and
/// all digests move to extracting together.
pub open spec fn docker_finished_post(
    pre: DownloadManager,
    post: DownloadManager,
    acts: Seq<Action>,
    version: u64,
    digest: u64,
) -> bool {
    &&& docker_rest_unchanged(pre, post)
    &&& if pre.engines@.contains_key(version) {
        let e = pre.engines@[version];
        let ds1 = map_digests(e.digests, |d: Digest| finish_one(d, digest));
        if all_have_status(ds1, DownloadStatus::Downloaded) {
            &&& post.engines@ == pre.engines@.insert(
                version,
                EngineModel { digests: all_to_status(ds1, DownloadStatus::Extracting), ..e },
            )
            &&& acts == seq![Action::StartDockerExtraction { version }]
        } else {
            &&& post.engines@ == pre.engines@.insert(version, EngineModel { digests: ds1, ..e })
            &&& acts == Seq::<Action>::empty()
        }
    } else {
        &&& post.engines@ == pre.engines@
        &&& acts == Seq::<Action>::empty()
    }
}

/// Exact effect of `DockerBlobFailed`: the digest re-enters `Init` and is
/// automatically resubmitted while retries remain, otherwise the failure is
/// surfaced.
pub open spec fn docker_failed_post(
    pre: DownloadManager,
    post: DownloadManager,
    acts: Seq<Action>,
    version: u64,
    digest: u64,
) -> bool {
    &&& docker_rest_unchanged(pre, post)
    &&& if pre.engines@.contains_key(version) {
        let e = pre.engines@[version];
        &&& post.engines@ == pre.engines@.insert(
            version,
            EngineModel {
                digests: map_digests(e.digests, |d: Digest| fail_one(d, digest, pre.retry_limit)),
                ..e
            },
        )
        &&& acts == fail_actions(version, e.digests, digest, pre.retry_limit, e.digests.len() as int)
    } else {
        &&& post.engines@ == pre.engines@
        &&& acts == Seq::<Action>::empty()
    }
}

/// Exact effect of `DockerExtractionFinished`: every extracting digest is
/// extracted and observers are ticked.
pub open spec fn docker_extracted_post(
    pre: DownloadManager,
    post: DownloadManager,
    acts: Seq<Action>,
    version: u64,
) -> bool {
    &&& docker_rest_unchanged(pre, post)
    &&& if pre.engines@.contains_key(version) {
        let e = pre.engines@[version];
        &&& post.engines@ == pre.engines@.insert(
            version,
            EngineModel { digests: map_digests(e.digests, |d: Digest| extract_one(d)), ..e },
        )
        &&& acts == seq![Action::Tick]
    } else {
        &&& post.engines@ == pre.engines@
        &&& acts == Seq::<Action>::empty()
    }
}

/// Exact effect of `DockerCanceled`: the digest is recorded cancelled.
pub open spec fn docker_canceled_post(
    pre: DownloadManager,
    post: DownloadManager,
    acts: Seq<Action>,
    version: u64,
    digest: u64,
) -> bool {
    &&& docker_rest_unchanged(pre, post)
    &&& acts == Seq::<Action>::empty()
    &&& if pre.engines@.contains_key(version) {
        let e = pre.engines@[version];
        post.engines@ == pre.engines@.insert(
            version,
            EngineModel { digests: map_digests(e.digests, |d: Digest| cancel_one(d, digest)), ..e },
        )
    } else {
        post.engines@ == pre.engines@
    }
}

/// Exact effect of `DockerPaused`: the digest is recorded paused.
pub open spec fn docker_paused_post(
    pre: DownloadManager,
    post: DownloadManager,
    acts: Seq<Action>,
    version: u64,
    digest: u64,
) -> bool {
    &&& docker_rest_unchanged(pre, post)
    &&& acts == Seq::<Action>::empty()
    &&& if pre.engines@.contains_key(version) {
        let e = pre.engines@[version];
        post.engines@ == pre.engines@.insert(
            version,
            EngineModel { digests: map_digests(e.digests, |d: Digest| pause_one(d, digest)), ..e },
        )
    } else {
        post.engines@ == pre.engines@
    }
}

/// Exact effect of resuming a paused digest.
pub open spec fn docker_resume_post(
    pre: DownloadManager,
    post: DownloadManager,
    acts: Seq<Action>,
    version: u64,
    digest: u64,
) -> bool {
    &&& docker_rest_unchanged(pre, post)
    &&& if pre.engines@.contains_key(version) {
        let e = pre.engines@[version];
        &&& post.engines@ == pre.engines@.insert(
            version,
            EngineModel { digests: map_digests(e.digests, |d: Digest| resume_one(d, digest)), ..e },
        )
        &&& acts == resume_actions(version, e.digests, digest, e.digests.len() as int)
    } else {
        &&& post.engines@ == pre.engines@
        &&& acts == Seq::<Action>::empty()
    }
}

/// Docker handlers touch only the engine table.
pub open spec fn docker_rest_unchanged(pre: DownloadManager, post: DownloadManager) -> bool {
    &&& post.items@ == pre.items@
    &&& post.files@ == pre.files@
    &&& post.chunks@ == pre.chunks@
    &&& post.asset_guids@ == pre.asset_guids@
    &&& post.thread_senders@ == pre.thread_senders@
    &&& post.retry_limit == pre.retry_limit
}

impl DownloadManager {
    /// Register a container-image engine download and submit every declared
    /// digest to the blob worker pool.
    pub fn perform_docker_engine_download(
        &mut self,
        version: u64,
        total: u64,
        digests: &Vec<(u64, u64)>,
    ) -> (acts: Vec<Action>)
        requires
            old(self).inv(),
        ensures
            final(self).inv(),
            docker_start_post(*old(self), *final(self), acts@, version, total, digests@),
    {
        if self.engines.contains_key(version) {
            return Vec::new();
        }
        let mut nds: Vec<Digest> = Vec::new();
        let mut acts: Vec<Action> = Vec::new();
        let mut i: usize = 0;
        while i < digests.len()
            invariant
                0 <= i <= digests@.len(),
                nds@.len() == i,
                acts@.len() == i,
                forall|x: int| 0 <= x < i ==> nds@[x] == initial_digests(digests@)[x],
                forall|x: int| 0 <= x < i ==> acts@[x] == submit_all(version, digests@)[x],
            decreases digests@.len() - i,
        {
            let (d, sz) = digests[i];
            nds.push(Digest { digest: d, size: sz, status: DownloadStatus::Downloading, retries: 0 });
            acts.push(Action::SubmitBlob { version, digest: d, size: sz });
            i = i + 1;
        }
        proof {
            assert(nds@ =~= initial_digests(digests@));
            assert(acts@ =~= submit_all(version, digests@));
        }
        self.engines.insert(version, EngineDownload { total, received: 0, digests: nds });
        acts
    }

    /// Record cumulative byte progress for an engine download.
    pub fn docker_download_progress(&mut self, version: u64, bytes: u64) -> (acts: Vec<Action>)
        requires
            old(self).inv(),
        ensures
            final(self).inv(),
            docker_progress_post(*old(self), *final(self), acts@, version, bytes),
    {
        let e = match self.engines.remove(version) {
            None => {
                proof {
                    assert(old(self).engines@.remove(version) =~= old(self).engines@);
                }
                return Vec::new();
            },
            Some(e) => e,
        };
        let nb = if bytes > e.total {
            e.total
        } else {
            bytes
        };
        let e2 = EngineDownload { total: e.total, received: nb, digests: e.digests };
        proof {
            assert(e2@ =~= EngineModel {
                received: clamped(bytes, old(self).engines@[version].total),
                ..old(self).engines@[version]
            });
        }
        self.engines.insert(version, e2);
        proof {
            assert(old(self).engines@.remove(version).insert(version, e2@) =~= old(
                self,
            ).engines@.insert(version, e2@));
        }
        Vec::new()
    }

    /// A digest finished downloading.  Once every digest of the version is
    /// downloaded, extraction starts and all digests move to `Extracting`.
    pub fn docker_blob_finished(&mut self, version: u64, digest: u64) -> (acts: Vec<Action>)
        requires
            old(self).inv(),
        ensures
            final(self).inv(),
            docker_finished_post(*old(self), *final(self), acts@, version, digest),
            digests_step_ok(digests_of(*old(self), version), digests_of(*final(self), version)),
    {
        let e = match self.engines.remove(version) {
            None => {
                proof {
                    assert(old(self).engines@.remove(version) =~= old(self).engines@);
                }
                return Vec::new();
            },
            Some(e) => e,
        };
        let ghost ds0 = old(self).engines@[version].digests;
        let ghost spec_ds1 = map_digests(ds0, |d: Digest| finish_one(d, digest));
        let mut nds: Vec<Digest> = Vec::new();
        let mut all_done = true;
        let mut i: usize = 0;
        while i < e.digests.len()
            invariant
                0 <= i <= e.digests@.len(),
                e.digests@ == ds0,
                spec_ds1 == map_digests(ds0, |d: Digest| finish_one(d, digest)),
                nds@.len() == i,
                forall|x: int| 0 <= x < i ==> nds@[x] == spec_ds1[x],
                all_done == forall|x: int|
                    0 <= x < i ==> (#[trigger] spec_ds1[x]).status == DownloadStatus::Downloaded,
            decreases e.digests@.len() - i,
        {
            let d = e.digests[i];
            let nd = if d.digest == digest && matches!(d.status, DownloadStatus::Downloading) {
                Digest { digest: d.digest, size: d.size, status: DownloadStatus::Downloaded, retries: d.retries }
            } else {
                d
            };
            if !matches!(nd.status, DownloadStatus::Downloaded) {
                all_done = false;
            }
            nds.push(nd);
            proof {
                assert(spec_ds1[i as int] == finish_one(ds0[i as int], digest));
                assert(nd == finish_one(ds0[i as int], digest));
                assert forall|x: int|
                    0 <= x < i + 1 implies nds@[x] == spec_ds1[x] by {}
            }
            i = i + 1;
        }
        proof {
            assert(nds@ =~= spec_ds1);
        }
        if all_done {
            let mut eds: Vec<Digest> = Vec::new();
            let mut j: usize = 0;
            while j < nds.len()
                invariant
                    0 <= j <= nds@.len(),
                    nds@ == spec_ds1,
                    eds@.len() == j,
                    forall|x: int|
                        0 <= x < j ==> eds@[x] == all_to_status(
                            spec_ds1,
                            DownloadStatus::Extracting,
                        )[x],
                decreases nds@.len() - j,
            {
                let d = nds[j];
                eds.push(Digest {
                    digest: d.digest,
                    size: d.size,
                    status: DownloadStatus::Extracting,
                    retries: d.retries,
                });
                j = j + 1;
            }
            proof {
                assert(eds@ =~= all_to_status(spec_ds1, DownloadStatus::Extracting));
            }
            let e2 = EngineDownload { total: e.total, received: e.received, digests: eds };
            proof {
                assert(e2@ =~= EngineModel {
                    digests: all_to_status(spec_ds1, DownloadStatus::Extracting),
                    ..old(self).engines@[version]
                });
            }
            self.engines.insert(version, e2);
            proof {
                assert(old(self).engines@.remove(version).insert(version, e2@) =~= old(
                    self,
                ).engines@.insert(version, e2@));
                assert forall|x: int| 0 <= x < ds0.len() implies step_pair_ok(
                    ds0[x],
                    #[trigger] e2@.digests[x],
                ) by {
                    assert(digest_edge(DownloadStatus::Downloading, DownloadStatus::Downloaded));
                    assert(digest_edge(DownloadStatus::Downloaded, DownloadStatus::Extracting));
                }
            }
            let mut acts: Vec<Action> = Vec::new();
            acts.push(Action::StartDockerExtraction { version });
            proof {
                assert(acts@ =~= seq![Action::StartDockerExtraction { version }]);
            }
            acts
        } else {
            let e2 = EngineDownload { total: e.total, received: e.received, digests: nds };
            proof {
                assert(e2@ =~= EngineModel { digests: spec_ds1, ..old(self).engines@[version] });
            }
            self.engines.insert(version, e2);
            proof {
                assert(old(self).engines@.remove(version).insert(version, e2@) =~= old(
                    self,
                ).engines@.insert(version, e2@));
                assert forall|x: int| 0 <= x < ds0.len() implies step_pair_ok(
                    ds0[x],
                    #[trigger] e2@.digests[x],
                ) by {
                    assert(digest_edge(DownloadStatus::Downloading, DownloadStatus::Downloaded));
                }
            }
            Vec::new()
        }
    }

    /// A digest download failed: it re-enters `Init` and, while retries
    /// remain, is automatically resubmitted; otherwise the failure is
    /// surfaced as a notification.
    pub fn docker_blob_failed(&mut self, version: u64, digest: u64) -> (acts: Vec<Action>)
        requires
            old(self).inv(),
        ensures
            final(self).inv(),
            docker_failed_post(*old(self), *final(self), acts@, version, digest),
            digests_step_ok(digests_of(*old(self), version), digests_of(*final(self), version)),
    {
        let e = match self.engines.remove(version) {
            None => {
                proof {
                    assert(old(self).engines@.remove(version) =~= old(self).engines@);
                }
                return Vec::new();
            },
            Some(e) => e,
        };
        let ghost ds0 = old(self).engines@[version].digests;
        let limit = self.retry_limit;
        let ghost spec_ds1 = map_digests(ds0, |d: Digest| fail_one(d, digest, limit));
        let mut nds: Vec<Digest> = Vec::new();
        let mut acts: Vec<Action> = Vec::new();
        let mut i: usize = 0;
        while i < e.digests.len()
            invariant
                0 <= i <= e.digests@.len(),
                e.digests@ == ds0,
                spec_ds1 == map_digests(ds0, |d: Digest| fail_one(d, digest, limit)),
                limit == old(self).retry_limit,
                nds@.len() == i,
                forall|x: int| 0 <= x < i ==> nds@[x] == spec_ds1[x],
                acts@ == fail_actions(version, ds0, digest, limit, i as int),
            decreases e.digests@.len() - i,
        {
            let d = e.digests[i];
            if d.digest == digest && matches!(d.status, DownloadStatus::Downloading) {
                if d.retries < limit {
                    nds.push(Digest {
                        digest: d.digest,
                        size: d.size,
                        status: DownloadStatus::Downloading,
                        retries: d.retries + 1,
                    });
                    acts.push(Action::SubmitBlob { version, digest, size: d.size });
                } else {
                    nds.push(Digest {
                        digest: d.digest,
                        size: d.size,
                        status: DownloadStatus::Init,
                        retries: d.retries,
                    });
                    acts.push(Action::NotifyError);
                }
            } else {
                nds.push(d);
            }
            proof {
                assert(spec_ds1[i as int] == fail_one(ds0[i as int], digest, limit));
                assert(nds@[i as int] == fail_one(ds0[i as int], digest, limit));
            }
            i = i + 1;
        }
        proof {
            assert(nds@ =~= spec_ds1);
        }
        let e2 = EngineDownload { total: e.total, received: e.received, digests: nds };
        proof {
            assert(e2@ =~= EngineModel { digests: spec_ds1, ..old(self).engines@[version] });
        }
        self.engines.insert(version, e2);
        proof {
            assert(old(self).engines@.remove(version).insert(version, e2@) =~= old(
                self,
            ).engines@.insert(version, e2@));
            assert forall|x: int| 0 <= x < ds0.len() implies step_pair_ok(
                ds0[x],
                #[trigger] e2@.digests[x],
            ) by {
                assert(digest_edge(DownloadStatus::Downloading, DownloadStatus::Init));
                assert(digest_edge(DownloadStatus::Init, DownloadStatus::Downloading));
            }
        }
        acts
    }

    /// Extraction of a version finished: every extracting digest becomes
    /// `Extracted` and observers are ticked.
    pub fn docker_extraction_finished(&mut self, version: u64) -> (acts: Vec<Action>)
        requires
            old(self).inv(),
        ensures
            final(self).inv(),
            docker_extracted_post(*old(self), *final(self), acts@, version),
            digests_step_ok(digests_of(*old(self), version), digests_of(*final(self), version)),
    {
        let e = match self.engines.remove(version) {
            None => {
                proof {
                    assert(old(self).engines@.remove(version) =~= old(self).engines@);
                }
                return Vec::new();
            },
            Some(e) => e,
        };
        let ghost ds0 = old(self).engines@[version].digests;
        let ghost spec_ds1 = map_digests(ds0, |d: Digest| extract_one(d));
        let mut nds: Vec<Digest> = Vec::new();
        let mut i: usize = 0;
        while i < e.digests.len()
            invariant
                0 <= i <= e.digests@.len(),
                e.digests@ == ds0,
                spec_ds1 == map_digests(ds0, |d: Digest| extract_one(d)),
                nds@.len() == i,
                forall|x: int| 0 <= x < i ==> nds@[x] == spec_ds1[x],
            decreases e.digests@.len() - i,
        {
            let d = e.digests[i];
            let nd = if matches!(d.status, DownloadStatus::Extracting) {
                Digest { digest: d.digest, size: d.size, status: DownloadStatus::Extracted, retries: d.retries }
            } else {
                d
            };
            proof {
                assert(spec_ds1[i as int] == extract_one(ds0[i as int]));
                assert(nd == extract_one(ds0[i as int]));
            }
            nds.push(nd);
            i = i + 1;
        }
        proof {
            assert(nds@ =~= spec_ds1);
        }
        let e2 = EngineDownload { total: e.total, received: e.received, digests: nds };
        proof {
            assert(e2@ =~= EngineModel { digests: spec_ds1, ..old(self).engines@[version] });
        }
        self.engines.insert(version, e2);
        proof {
            assert(old(self).engines@.remove(version).insert(version, e2@) =~= old(
                self,
            ).engines@.insert(version, e2@));
            assert forall|x: int| 0 <= x < ds0.len() implies step_pair_ok(
                ds0[x],
                #[trigger] e2@.digests[x],
            ) by {
                assert(digest_edge(DownloadStatus::Extracting, DownloadStatus::Extracted));
            }
        }
        let mut acts: Vec<Action> = Vec::new();
        acts.push(Action::Tick);
        proof {
            assert(acts@ =~= seq![Action::Tick]);
        }
        acts
    }

    /// A worker confirmed a digest's cancellation.
    pub fn docker_canceled(&mut self, version: u64, digest: u64) -> (acts: Vec<Action>)
        requires
            old(self).inv(),
        ensures
            final(self).inv(),
            docker_canceled_post(*old(self), *final(self), acts@, version, digest),
            digests_step_ok(digests_of(*old(self), version), digests_of(*final(self), version)),
    {
        let e = match self.engines.remove(version) {
            None => {
                proof {
                    assert(old(self).engines@.remove(version) =~= old(self).engines@);
                }
                return Vec::new();
            },
            Some(e) => e,
        };
        let ghost ds0 = old(self).engines@[version].digests;
        let ghost spec_ds1 = map_digests(ds0, |d: Digest| cancel_one(d, digest));
        let mut nds: Vec<Digest> = Vec::new();
        let mut i: usize = 0;
        while i < e.digests.len()
            invariant
                0 <= i <= e.digests@.len(),
                e.digests@ == ds0,
                spec_ds1 == map_digests(ds0, |d: Digest| cancel_one(d, digest)),
                nds@.len() == i,
                forall|x: int| 0 <= x < i ==> nds@[x] == spec_ds1[x],
            decreases e.digests@.len() - i,
        {
            let d = e.digests[i];
            let nd = if d.digest == digest && (matches!(d.status, DownloadStatus::Downloading)
                || matches!(d.status, DownloadStatus::Paused)) {
                Digest { digest: d.digest, size: d.size, status: DownloadStatus::Cancelled, retries: d.retries }
            } else {
                d
            };
            proof {
                assert(spec_ds1[i as int] == cancel_one(ds0[i as int], digest));
                assert(nd == cancel_one(ds0[i as int], digest));
            }
            nds.push(nd);
            i = i + 1;
        }
        proof {
            assert(nds@ =~= spec_ds1);
        }
        let e2 = EngineDownload { total: e.total, received: e.received, digests: nds };
        proof {
            assert(e2@ =~= EngineModel { digests: spec_ds1, ..old(self).engines@[version] });
        }
        self.engines.insert(version, e2);
        proof {
            assert(old(self).engines@.remove(version).insert(version, e2@) =~= old(
                self,
            ).engines@.insert(version, e2@));
            assert forall|x: int| 0 <= x < ds0.len() implies step_pair_ok(
                ds0[x],
                #[trigger] e2@.digests[x],
            ) by {
                assert(digest_edge(DownloadStatus::Downloading, DownloadStatus::Cancelled));
                assert(digest_edge(DownloadStatus::Paused, DownloadStatus::Downloading));
                assert(digest_edge(DownloadStatus::Downloading, DownloadStatus::Cancelled));
                if ds0[x].digest == digest && ds0[x].status == DownloadStatus::Paused {
                    assert(digest_edge(ds0[x].status, DownloadStatus::Downloading) && digest_edge(
                        DownloadStatus::Downloading,
                        e2@.digests[x].status,
                    ));
                }
            }
        }
        Vec::new()
    }

    /// A worker confirmed a digest's pause.
    pub fn docker_paused(&mut self, version: u64, digest: u64) -> (acts: Vec<Action>)
        requires
            old(self).inv(),
        ensures
            final(self).inv(),
            docker_paused_post(*old(self), *final(self), acts@, version, digest),
            digests_step_ok(digests_of(*old(self), version), digests_of(*final(self), version)),
    {
        let e = match self.engines.remove(version) {
            None => {
                proof {
                    assert(old(self).engines@.remove(version) =~= old(self).engines@);
                }
                return Vec::new();
            },
            Some(e) => e,
        };
        let ghost ds0 = old(self).engines@[version].digests;
        let ghost spec_ds1 = map_digests(ds0, |d: Digest| pause_one(d, digest));
        let mut nds: Vec<Digest> = Vec::new();
        let mut i: usize = 0;
        while i < e.digests.len()
            invariant
                0 <= i <= e.digests@.len(),
                e.digests@ == ds0,
                spec_ds1 == map_digests(ds0, |d: Digest| pause_one(d, digest)),
                nds@.len() == i,
                forall|x: int| 0 <= x < i ==> nds@[x] == spec_ds1[x],
            decreases e.digests@.len() - i,
        {
            let d = e.digests[i];
            let nd = if d.digest == digest && matches!(d.status, DownloadStatus::Downloading) {
                Digest { digest: d.digest, size: d.size, status: DownloadStatus::Paused, retries: d.retries }
            } else {
                d
            };
            proof {
                assert(spec_ds1[i as int] == pause_one(ds0[i as int], digest));
                assert(nd == pause_one(ds0[i as int], digest));
            }
            nds.push(nd);
            i = i + 1;
        }
        proof {
            assert(nds@ =~= spec_ds1);
        }
        let e2 = EngineDownload { total: e.total, received: e.received, digests: nds };
        proof {
            assert(e2@ =~= EngineModel { digests: spec_ds1, ..old(self).engines@[version] });
        }
        self.engines.insert(version, e2);
        proof {
            assert(old(self).engines@.remove(version).insert(version, e2@) =~= old(
                self,
            ).engines@.insert(version, e2@));
            assert forall|x: int| 0 <= x < ds0.len() implies step_pair_ok(
                ds0[x],
                #[trigger] e2@.digests[x],
            ) by {
                assert(digest_edge(DownloadStatus::Downloading, DownloadStatus::Paused));
            }
        }
        Vec::new()
    }

    /// Resume a paused digest: it re-enters `Downloading` and is resubmitted
    /// to the blob pool.
    pub fn resume_docker_digest(&mut self, version: u64, digest: u64) -> (acts: Vec<Action>)
        requires
            old(self).inv(),
        ensures
            final(self).inv(),
            docker_resume_post(*old(self), *final(self), acts@, version, digest),
            digests_step_ok(digests_of(*old(self), version), digests_of(*final(self), version)),
    {
        let e = match self.engines.remove(version) {
            None => {
                proof {
                    assert(old(self).engines@.remove(version) =~= old(self).engines@);
                }
                return Vec::new();
            },
            Some(e) => e,
        };
        let ghost ds0 = old(self).engines@[version].digests;
        let ghost spec_ds1 = map_digests(ds0, |d: Digest| resume_one(d, digest));
        let mut nds: Vec<Digest> = Vec::new();
        let mut acts: Vec<Action> = Vec::new();
        let mut i: usize = 0;
        while i < e.digests.len()
            invariant
                0 <= i <= e.digests@.len(),
                e.digests@ == ds0,
                spec_ds1 == map_digests(ds0, |d: Digest| resume_one(d, digest)),
                nds@.len() == i,
                forall|x: int| 0 <= x < i ==> nds@[x] == spec_ds1[x],
                acts@ == resume_actions(version, ds0, digest, i as int),
            decreases e.digests@.len() - i,
        {
            let d = e.digests[i];
            if d.digest == digest && matches!(d.status, DownloadStatus::Paused) {
                nds.push(Digest {
                    digest: d.digest,
                    size: d.size,
                    status: DownloadStatus::Downloading,
                    retries: d.retries,
                });
                acts.push(Action::SubmitBlob { version, digest, size: d.size });
            } else {
                nds.push(d);
            }
            proof {
                assert(spec_ds1[i as int] == resume_one(ds0[i as int], digest));
                assert(nds@[i as int] == resume_one(ds0[i as int], digest));
            }
            i = i + 1;
        }
        proof {
            assert(nds@ =~= spec_ds1);
        }
        let e2 = EngineDownload { total: e.total, received: e.received, digests: nds };
        proof {
            assert(e2@ =~= EngineModel { digests: spec_ds1, ..old(self).engines@[version] });
        }
        self.engines.insert(version, e2);
        proof {
            assert(old(self).engines@.remove(version).insert(version, e2@) =~= old(
                self,
            ).engines@.insert(version, e2@));
            assert forall|x: int| 0 <= x < ds0.len() implies step_pair_ok(
                ds0[x],
                #[trigger] e2@.digests[x],
            ) by {
                assert(digest_edge(DownloadStatus::Paused, DownloadStatus::Downloading));
            }
        }
        acts
    }
}

} // verus!
