//! Model of one transfer worker job.
//!
//! A worker fetches one URL to one temp file, streaming bytes in bounded
//! increments.  After each increment it reports cumulative progress and polls
//! a process-wide "still running" flag plus its one-shot control channel for
//! a pause or cancel signal.  The byte-level bookkeeping and the decision
//! taken at each checkpoint are implemented here; the blocking network read
//! and the file writes are the caller's.

use vstd::prelude::*;

verus! {

/// Control signal sent to a running worker through its control channel.
#[derive(Clone, Copy, Debug, PartialEq, Eq, Structural)]
pub enum ThreadMessages {
    Cancel,
    Pause,
}

/// What a worker does after one streamed increment.
#[derive(Clone, Copy, Debug, PartialEq, Eq, Structural)]
pub enum StepDecision {
    /// Keep streaming the next increment.
    Proceed,
    /// Pause: stop cleanly and leave the partial file for a later resume.
    StopKeepPartial,
    /// Cancel: stop and delete the partial file.
    StopDeletePartial,
    /// Process shutdown: abort without reporting completion or an error.
    AbortSilently,
}

/// The checkpoint decision between increments: shutdown wins, then the
/// control signal, otherwise the transfer proceeds.
pub fn poll_control(running: bool, signal: Option<ThreadMessages>) -> (r: StepDecision)
    ensures
        !running ==> r == StepDecision::AbortSilently,
        running && signal == Some(ThreadMessages::Cancel) ==> r == StepDecision::StopDeletePartial,
        running && signal == Some(ThreadMessages::Pause) ==> r == StepDecision::StopKeepPartial,
        running && signal is None ==> r == StepDecision::Proceed,
{
    if !running {
        StepDecision::AbortSilently
    } else {
        match signal {
            Some(ThreadMessages::Cancel) => StepDecision::StopDeletePartial,
            Some(ThreadMessages::Pause) => StepDecision::StopKeepPartial,
            None => StepDecision::Proceed,
        }
    }
}

/// A resumed fetch starts at the byte offset of the existing partial file.
pub fn resume_offset(partial: &Vec<u8>) -> (r: usize)
    ensures
        r == partial@.len(),
{
    partial.len()
}

/// Append one streamed increment to the partial buffer.  Cumulative progress
/// (the buffer length) never decreases across increments.
pub fn apply_increment(buf: &mut Vec<u8>, data: &Vec<u8>)
    requires
        old(buf)@.len() + data@.len() <= usize::MAX,
    ensures
        final(buf)@ == old(buf)@ + data@,
        final(buf)@.len() >= old(buf)@.len(),
{
    let mut i: usize = 0;
    while i < data.len()
        invariant
            0 <= i <= data@.len(),
            buf@ == old(buf)@ + data@.take(i as int),
            old(buf)@.len() + data@.len() <= usize::MAX,
        decreases data@.len() - i,
    {
        buf.push(data[i]);
        proof {
            assert(old(buf)@ + data@.take(i + 1) =~= (old(buf)@ + data@.take(i as int)).push(
                data@[i as int],
            ));
        }
        i = i + 1;
    }
    proof {
        assert(old(buf)@ + data@.take(data@.len() as int) =~= old(buf)@ + data@);
    }
}

/// The bytes held after starting from `init` and applying `incs` in order.
pub open spec fn fetched(init: Seq<u8>, incs: Seq<Seq<u8>>) -> Seq<u8>
    decreases incs.len(),
{
    if incs.len() == 0 {
        init
    } else {
        fetched(init, incs.drop_last()) + incs.last()
    }
}

/// The buffer never shrinks: the bytes held after any prefix of the
/// increments include at least the initial partial file.
pub proof fn lemma_fetched_extends(init: Seq<u8>, incs: Seq<Seq<u8>>, n: int)
    requires
        0 <= n <= incs.len(),
    ensures
        init.len() <= fetched(init, incs.take(n)).len(),
    decreases n,
{
    if n == 0 {
        assert(incs.take(0) =~= Seq::<Seq<u8>>::empty());
    } else {
        lemma_fetched_extends(init, incs, n - 1);
        assert(incs.take(n).drop_last() =~= incs.take(n - 1));
    }
}

/// Progress a worker reports is monotonically non-decreasing: each increment
/// extends the partial buffer, so the cumulative byte count after any prefix
/// of the increments is at most the count after a longer prefix.
pub proof fn lemma_progress_monotonic(init: Seq<u8>, incs: Seq<Seq<u8>>, n: int, m: int)
    requires
        0 <= n <= m <= incs.len(),
    ensures
        fetched(init, incs.take(n)).len() <= fetched(init, incs.take(m)).len(),
        init.len() <= fetched(init, incs.take(m)).len(),
    decreases m - n,
{
    lemma_fetched_extends(init, incs, n);
    if n < m {
        lemma_progress_monotonic(init, incs, n, m - 1);
        assert(incs.take(m).drop_last() =~= incs.take(m - 1));
        assert(fetched(init, incs.take(m)) == fetched(init, incs.take(m - 1)) + incs[m - 1]);
    }
}

/// The concatenation of a sequence of increments.
pub open spec fn concat_incs(incs: Seq<Seq<u8>>) -> Seq<u8>
    decreases incs.len(),
{
    if incs.len() == 0 {
        Seq::empty()
    } else {
        concat_incs(incs.drop_last()) + incs.last()
    }
}

pub proof fn lemma_fetched_is_init_plus_concat(init: Seq<u8>, incs: Seq<Seq<u8>>)
    ensures
        fetched(init, incs) == init + concat_incs(incs),
    decreases incs.len(),
{
    if incs.len() == 0 {
        assert(fetched(init, incs) =~= init + concat_incs(incs));
    } else {
        lemma_fetched_is_init_plus_concat(init, incs.drop_last());
        assert(fetched(init, incs) =~= init + concat_incs(incs));
    }
}

/// A fetch paused at byte offset `k` and resumed from the existing partial
/// file yields the same bytes as an uninterrupted fetch: if the resumed
/// increments deliver exactly the rest of the source, the assembled artifact
/// is byte-identical to the source.
pub proof fn lemma_resume_byte_identical(source: Seq<u8>, k: int, incs: Seq<Seq<u8>>)
    requires
        0 <= k <= source.len(),
        concat_incs(incs) == source.skip(k),
    ensures
        fetched(source.take(k), incs) == source,
{
    lemma_fetched_is_init_plus_concat(source.take(k), incs);
    assert(source.take(k) + source.skip(k) =~= source);
}

} // verus!
