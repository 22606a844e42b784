//! The progress aggregator: pure derived state, recomputed on demand.
//!
//! Per-item progress is the mean of its chunks' fractional completion;
//! global progress is the mean of all active items' progress, or zero when
//! no item is active.  Fractions are reported in ten-thousandths, so `10000`
//! is complete and `7500` is three quarters.

use vstd::prelude::*;
use crate::manager::{Chunk, ChunkModel, ChunkStatus, DownloadManager, DownloadStatus};

verus! {

/// Full completion in the fixed-point progress scale.
pub const PROGRESS_SCALE: u64 = 10000;

/// Fractional completion of one chunk, in ten-thousandths.  A chunk with no
/// declared size counts as complete.
pub open spec fn chunk_frac(c: ChunkModel) -> int {
    if c.size == 0 {
        10000
    } else if c.bytes >= c.size {
        10000
    } else {
        (c.bytes as int * 10000) / (c.size as int)
    }
}

pub proof fn lemma_chunk_frac_bounds(c: ChunkModel)
    ensures
        0 <= chunk_frac(c) <= 10000,
{
    if c.size != 0 && c.bytes < c.size {
        assert(0 <= (c.bytes as int * 10000) / (c.size as int) <= 10000) by (nonlinear_arith)
            requires
                0 <= c.bytes < c.size,
        ;
    }
}

/// Sum of the completion fractions of the first `n` GUIDs; a GUID with no
/// registered chunk contributes nothing.
pub open spec fn guids_frac_sum(chunks: Map<u64, ChunkModel>, gs: Seq<u64>, n: int) -> int
    decreases n,
{
    if n <= 0 {
        0
    } else {
        guids_frac_sum(chunks, gs, n - 1) + (if chunks.contains_key(gs[n - 1]) {
            chunk_frac(chunks[gs[n - 1]])
        } else {
            0
        })
    }
}

pub proof fn lemma_guids_frac_sum_bounds(chunks: Map<u64, ChunkModel>, gs: Seq<u64>, n: int)
    requires
        0 <= n <= gs.len(),
    ensures
        0 <= guids_frac_sum(chunks, gs, n) <= n * 10000,
    decreases n,
{
    if n > 0 {
        lemma_guids_frac_sum_bounds(chunks, gs, n - 1);
        if chunks.contains_key(gs[n - 1]) {
            lemma_chunk_frac_bounds(chunks[gs[n - 1]]);
        }
    }
}

/// Mean completion of an item's chunks, or zero for an item without chunks.
pub open spec fn item_progress_of(m: DownloadManager, asset: u64) -> int {
    if m.asset_guids@.contains_key(asset) && m.asset_guids@[asset].len() > 0 {
        let gs = m.asset_guids@[asset];
        guids_frac_sum(m.chunks@, gs, gs.len() as int) / (gs.len() as int)
    } else {
        0
    }
}

pub proof fn lemma_item_progress_bounds(m: DownloadManager, asset: u64)
    ensures
        0 <= item_progress_of(m, asset) <= 10000,
{
    if m.asset_guids@.contains_key(asset) && m.asset_guids@[asset].len() > 0 {
        let gs = m.asset_guids@[asset];
        let n = gs.len() as int;
        lemma_guids_frac_sum_bounds(m.chunks@, gs, n);
        let s = guids_frac_sum(m.chunks@, gs, n);
        assert(0 <= s / n <= 10000) by (nonlinear_arith)
            requires
                n > 0,
                0 <= s <= n * 10000,
        ;
    }
}

/// Sum of the first `n` active items' progress, in item-table order.
pub open spec fn items_progress_sum(m: DownloadManager, n: int) -> int
    decreases n,
{
    if n <= 0 {
        0
    } else {
        items_progress_sum(m, n - 1) + item_progress_of(m, m.items.entries()[n - 1].0)
    }
}

pub proof fn lemma_items_progress_sum_bounds(m: DownloadManager, n: int)
    requires
        0 <= n <= m.items.entries().len(),
    ensures
        0 <= items_progress_sum(m, n) <= n * 10000,
    decreases n,
{
    if n > 0 {
        lemma_items_progress_sum_bounds(m, n - 1);
        lemma_item_progress_bounds(m, m.items.entries()[n - 1].0);
    }
}

/// Global progress: the mean of all active items' progress, or exactly zero
/// with no active items.
pub open spec fn aggregate_progress(m: DownloadManager) -> int {
    if m.items.entries().len() == 0 {
        0
    } else {
        items_progress_sum(m, m.items.entries().len() as int) / (m.items.entries().len() as int)
    }
}

/// Fractional completion of one chunk.
fn chunk_frac_exec(c: &Chunk) -> (r: u64)
    ensures
        r as int == chunk_frac(c@),
        r <= 10000,
{
    if c.size == 0 {
        10000
    } else if c.bytes >= c.size {
        10000
    } else {
        let q: u128 = (c.bytes as u128) * 10000 / (c.size as u128);
        proof {
            lemma_chunk_frac_bounds(c@);
        }
        q as u64
    }
}

impl DownloadManager {
    /// Mean completion of one item's chunks, in ten-thousandths.
    pub fn item_progress(&self, asset: u64) -> (r: u64)
        requires
            self.inv(),
        ensures
            r as int == item_progress_of(*self, asset),
            r <= 10000,
    {
        let gs = match self.asset_guids.get(asset) {
            None => {
                return 0;
            },
            Some(gs) => gs,
        };
        if gs.len() == 0 {
            return 0;
        }
        let ghost gseq = gs@;
        let mut sum: u128 = 0;
        let mut i: usize = 0;
        while i < gs.len()
            invariant
                self.inv(),
                0 <= i <= gseq.len(),
                gs@ == gseq,
                self.asset_guids@.contains_key(asset),
                self.asset_guids@[asset] == gseq,
                sum as int == guids_frac_sum(self.chunks@, gseq, i as int),
                sum <= (i as u128) * 10000,
            decreases gseq.len() - i,
        {
            let g = gs[i];
            match self.chunks.get(g) {
                None => {},
                Some(c) => {
                    let f = chunk_frac_exec(c);
                    proof {
                        lemma_chunk_frac_bounds(c@);
                    }
                    sum = sum + (f as u128);
                },
            }
            i = i + 1;
        }
        let n = gs.len();
        let q: u128 = sum / (n as u128);
        proof {
            lemma_guids_frac_sum_bounds(self.chunks@, gseq, gseq.len() as int);
            assert(0 <= (sum as int) / (n as int) <= 10000) by (nonlinear_arith)
                requires
                    n > 0,
                    0 <= sum as int <= (n as int) * 10000,
            ;
        }
        q as u64
    }

    /// Global progress across all active items, in ten-thousandths: the mean
    /// of the items' progress, or exactly zero when no item is active.
    pub fn progress(&self) -> (r: u64)
        requires
            self.inv(),
        ensures
            r as int == aggregate_progress(*self),
            r <= 10000,
    {
        let n = self.items.len();
        if n == 0 {
            return 0;
        }
        let mut sum: u128 = 0;
        let mut i: usize = 0;
        while i < n
            invariant
                self.inv(),
                0 <= i <= n,
                n == self.items.entries().len(),
                sum as int == items_progress_sum(*self, i as int),
                sum <= (i as u128) * 10000,
            decreases n - i,
        {
            let asset = self.items.key_at(i);
            let p = self.item_progress(asset);
            proof {
                lemma_item_progress_bounds(*self, asset);
            }
            sum = sum + (p as u128);
            i = i + 1;
        }
        let q: u128 = sum / (n as u128);
        proof {
            lemma_items_progress_sum_bounds(*self, n as int);
            assert(0 <= (sum as int) / (n as int) <= 10000) by (nonlinear_arith)
                requires
                    n > 0,
                    0 <= sum as int <= (n as int) * 10000,
            ;
        }
        q as u64
    }

    /// Whether any item is still active.
    pub fn has_items(&self) -> (r: bool)
        requires
            self.inv(),
        ensures
            r == (self.items@.dom().len() > 0),
    {
        self.items.len() > 0
    }

    /// The number of active items.
    pub fn item_count(&self) -> (r: usize)
        requires
            self.inv(),
        ensures
            r == self.items@.dom().len(),
    {
        self.items.len()
    }

    /// How many of an item's files have completed.
    pub fn item_files_done(&self, asset: u64) -> (r: Option<usize>)
        requires
            self.inv(),
        ensures
            match r {
                Some(k) => self.items@.contains_key(asset) && k == self.items@[asset].files_done.len(),
                None => !self.items@.contains_key(asset),
            },
    {
        match self.items.get(asset) {
            None => None,
            Some(it) => Some(it.files_done.len()),
        }
    }

    /// A chunk's status.
    pub fn chunk_status(&self, guid: u64) -> (r: Option<ChunkStatus>)
        requires
            self.inv(),
        ensures
            match r {
                Some(st) => self.chunks@.contains_key(guid) && st == self.chunks@[guid].status,
                None => !self.chunks@.contains_key(guid),
            },
    {
        match self.chunks.get(guid) {
            None => None,
            Some(c) => Some(c.status),
        }
    }

    /// A chunk's cumulative downloaded bytes.
    pub fn chunk_bytes(&self, guid: u64) -> (r: Option<u64>)
        requires
            self.inv(),
        ensures
            match r {
                Some(b) => self.chunks@.contains_key(guid) && b == self.chunks@[guid].bytes,
                None => !self.chunks@.contains_key(guid),
            },
    {
        match self.chunks.get(guid) {
            None => None,
            Some(c) => Some(c.bytes),
        }
    }

    /// Whether a chunk's temp artifact exists.
    pub fn chunk_present(&self, guid: u64) -> (r: Option<bool>)
        requires
            self.inv(),
        ensures
            match r {
                Some(p) => self.chunks@.contains_key(guid) && p == self.chunks@[guid].present,
                None => !self.chunks@.contains_key(guid),
            },
    {
        match self.chunks.get(guid) {
            None => None,
            Some(c) => Some(c.present),
        }
    }

    /// How many files still depend on a chunk.
    pub fn chunk_ref_count(&self, guid: u64) -> (r: Option<usize>)
        requires
            self.inv(),
        ensures
            match r {
                Some(k) => self.chunks@.contains_key(guid) && k == self.chunks@[guid].refs.len(),
                None => !self.chunks@.contains_key(guid),
            },
    {
        match self.chunks.get(guid) {
            None => None,
            Some(c) => Some(c.refs.len()),
        }
    }

    /// The status of one digest of one engine version (the first matching
    /// entry in the version's digest list).
    pub fn digest_status(&self, version: u64, digest: u64) -> (r: Option<DownloadStatus>)
        requires
            self.inv(),
        ensures
            match r {
                Some(st) => self.engines@.contains_key(version) && exists|i: int|
                    0 <= i < self.engines@[version].digests.len()
                        && (#[trigger] self.engines@[version].digests[i]).digest == digest
                        && self.engines@[version].digests[i].status == st,
                None => !self.engines@.contains_key(version) || forall|i: int|
                    0 <= i < self.engines@[version].digests.len()
                        ==> (#[trigger] self.engines@[version].digests[i]).digest != digest,
            },
    {
        let e = match self.engines.get(version) {
            None => {
                return None;
            },
            Some(e) => e,
        };
        let mut i: usize = 0;
        while i < e.digests.len()
            invariant
                0 <= i <= e.digests@.len(),
                e@ == self.engines@[version],
                self.engines@.contains_key(version),
                forall|x: int| 0 <= x < i ==> (#[trigger] e.digests@[x]).digest != digest,
            decreases e.digests@.len() - i,
        {
            let d = e.digests[i];
            if d.digest == digest {
                return Some(d.status);
            }
            i = i + 1;
        }
        None
    }

    /// An item's per-item target directory override, if any.
    pub fn item_target(&self, asset: u64) -> (r: Option<&String>)
        requires
            self.inv(),
        ensures
            match r {
                Some(t) => self.items@.contains_key(asset) && self.items@[asset].target == Some(
                    t@,
                ),
                None => !self.items@.contains_key(asset) || self.items@[asset].target is None,
            },
    {
        match self.items.get(asset) {
            None => None,
            Some(it) => match &it.target {
                Some(t) => Some(t),
                None => None,
            },
        }
    }

    /// The asset a pending file belongs to.
    pub fn file_asset(&self, file: u64) -> (r: Option<u64>)
        requires
            self.inv(),
        ensures
            match r {
                Some(a) => self.files@.contains_key(file) && a == self.files@[file].asset,
                None => !self.files@.contains_key(file),
            },
    {
        match self.files.get(file) {
            None => None,
            Some(f) => Some(f.asset),
        }
    }

    /// The cumulative received bytes of an engine download.
    pub fn engine_received(&self, version: u64) -> (r: Option<u64>)
        requires
            self.inv(),
        ensures
            match r {
                Some(b) => self.engines@.contains_key(version) && b == self.engines@[version].received,
                None => !self.engines@.contains_key(version),
            },
    {
        match self.engines.get(version) {
            None => None,
            Some(e) => Some(e.received),
        }
    }
}

} // verus!
