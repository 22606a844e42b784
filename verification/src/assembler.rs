//! File assembly: concatenating finished chunk contents into the final
//! artifact and choosing where the artifact goes.
//!
//! The assembler runs once every chunk of a file is done.  Reading the chunk
//! temp files and writing the artifact are the caller's; the byte-level
//! concatenation and the placement decision are verified here.

use vstd::prelude::*;
use crate::worker::concat_incs;

verus! {

/// What to do with a finished artifact besides the default vault placement.
#[derive(Clone, Debug, PartialEq)]
pub enum PostDownloadAction {
    /// Place the artifact under this explicit per-item target directory;
    /// the flag asks for the temporary copy to be kept as well.
    Copy(String, bool),
    /// No vault placement was requested for this item.
    NoVault,
}

/// The directory family a finished artifact is written under.
#[derive(Clone, Copy, Debug, PartialEq, Eq, Structural)]
pub enum TargetChoice {
    /// The first user-configured vault directory.
    FirstVault,
    /// The per-item override target named by `PostDownloadAction::Copy`.
    OverrideTarget,
    /// The temporary-download directory.
    TempDir,
}

/// Placement policy: the first configured vault directory, falling back to a
/// per-item override target, falling back to the temporary-download
/// directory.
pub fn select_target(has_vault: bool, action: &PostDownloadAction) -> (r: TargetChoice)
    ensures
        has_vault ==> r == TargetChoice::FirstVault,
        (!has_vault && action matches PostDownloadAction::Copy(..)) ==> r
            == TargetChoice::OverrideTarget,
        (!has_vault && action matches PostDownloadAction::NoVault) ==> r == TargetChoice::TempDir,
{
    if has_vault {
        TargetChoice::FirstVault
    } else {
        match action {
            PostDownloadAction::Copy(_, _) => TargetChoice::OverrideTarget,
            PostDownloadAction::NoVault => TargetChoice::TempDir,
        }
    }
}

/// The views of a sequence of byte vectors.
pub open spec fn views_of(s: Seq<Vec<u8>>) -> Seq<Seq<u8>> {
    s.map_values(|v: Vec<u8>| v@)
}

/// Concatenate the chunk contents, in order, into the final artifact bytes.
pub fn assemble(pieces: &Vec<Vec<u8>>) -> (r: Vec<u8>)
    requires
        concat_incs(views_of(pieces@)).len() <= usize::MAX,
    ensures
        r@ == concat_incs(views_of(pieces@)),
{
    let mut out: Vec<u8> = Vec::new();
    let mut i: usize = 0;
    while i < pieces.len()
        invariant
            0 <= i <= pieces@.len(),
            out@ == concat_incs(views_of(pieces@.take(i as int))),
            concat_incs(views_of(pieces@)).len() <= usize::MAX,
        decreases pieces@.len() - i,
    {
        proof {
            lemma_concat_take_succ(pieces@, i as int);
            lemma_concat_take_len(pieces@, i + 1);
        }
        crate::worker::apply_increment(&mut out, &pieces[i]);
        i = i + 1;
    }
    proof {
        assert(views_of(pieces@.take(pieces@.len() as int)) =~= views_of(pieces@));
    }
    out
}

proof fn lemma_concat_take_succ(s: Seq<Vec<u8>>, i: int)
    requires
        0 <= i < s.len(),
    ensures
        concat_incs(views_of(s.take(i + 1))) == concat_incs(views_of(s.take(i))) + s[i]@,
{
    assert(views_of(s.take(i + 1)).drop_last() =~= views_of(s.take(i)));
    assert(views_of(s.take(i + 1)).last() == s[i]@);
}

proof fn lemma_concat_take_len(s: Seq<Vec<u8>>, n: int)
    requires
        0 <= n <= s.len(),
    ensures
        concat_incs(views_of(s.take(n))).len() <= concat_incs(views_of(s)).len(),
    decreases s.len() - n,
{
    if n < s.len() {
        lemma_concat_take_succ(s, n);
        lemma_concat_take_len(s, n + 1);
    } else {
        assert(s.take(n) =~= s);
    }
}

} // verus!
