use vstd::prelude::*;

verus! {

/// The long-poll timeout handed to each `getUpdates` request.
pub const POLL_TIMEOUT_SECS: u32 = 10;

/// Each failed request in a row adds this much to the wait before the next one.
pub const BACKOFF_STEP_SECS: u64 = 5;

/// The wait before a retry never exceeds this.
pub const MAX_BACKOFF_SECS: u64 = 60;

/// The watermark after scanning a batch in order from `offset`: one past the highest id seen,
/// and never below `offset`.
pub open spec fn scan_offset(offset: int, ids: Seq<i32>) -> int
    decreases ids.len(),
{
    if ids.len() == 0 {
        offset
    } else {
        let o = scan_offset(offset, ids.drop_last());
        if ids.last() >= o {
            ids.last() + 1
        } else {
            o
        }
    }
}

/// The positions of a batch that are delivered when it is scanned in order from `offset`: those
/// whose id is at or above the watermark when they are reached.
pub open spec fn scan_delivered(offset: int, ids: Seq<i32>) -> Seq<int>
    decreases ids.len(),
{
    if ids.len() == 0 {
        Seq::empty()
    } else {
        let o = scan_offset(offset, ids.drop_last());
        let d = scan_delivered(offset, ids.drop_last());
        if ids.last() >= o {
            d.push(ids.len() - 1)
        } else {
            d
        }
    }
}

/// The wait before the next request after `failures` failed requests in a row.
pub open spec fn backoff(failures: u32) -> u64 {
    if failures as int * BACKOFF_STEP_SECS >= MAX_BACKOFF_SECS {
        MAX_BACKOFF_SECS
    } else {
        (failures as int * BACKOFF_STEP_SECS) as u64
    }
}

/// What the runner of the polling loop does next.
pub enum PollAction {
    /// Wait `delay_secs`, then ask for the updates from `offset` on with a long-poll timeout.
    Request { offset: i64, timeout_secs: u32, delay_secs: u64 },
    /// The listener is stopped: end the sequence and make no further request.
    Finish,
}

/// The decisions of the polling listener: the offset watermark, whether a stop was asked for,
/// and the failed requests in a row.
pub struct PollingListener {
    pub offset: i64,
    pub stop_requested: bool,
    pub failures: u32,
}

/// The next step of a listener: see `PollingListener::next_action`.
pub open spec fn action_of(l: PollingListener) -> PollAction {
    if l.stop_requested {
        PollAction::Finish
    } else {
        PollAction::Request { offset: l.offset, timeout_secs: POLL_TIMEOUT_SECS, delay_secs: backoff(l.failures) }
    }
}

/// A listener after it took a batch, and the positions it delivered: see
/// `PollingListener::on_batch`.
pub open spec fn after_batch(l: PollingListener, ids: Seq<i32>) -> (PollingListener, Seq<int>) {
    if l.stop_requested {
        (PollingListener { failures: 0, ..l }, Seq::empty())
    } else {
        (
            PollingListener { offset: scan_offset(l.offset as int, ids) as i64, failures: 0, ..l },
            scan_delivered(l.offset as int, ids),
        )
    }
}

/// A listener after a run of batches, and how many updates it delivered in all.
pub open spec fn after_batches(l: PollingListener, batches: Seq<Seq<i32>>) -> (PollingListener, int)
    decreases batches.len(),
{
    if batches.len() == 0 {
        (l, 0)
    } else {
        let (before, n) = after_batches(l, batches.drop_last());
        let (after, d) = after_batch(before, batches.last());
        (after, n + d.len())
    }
}

/// Once a stop was asked for, no run of batches delivers anything more, and the listener's next
/// step is to finish without another request.
pub proof fn lemma_stopped_listener_is_silent(l: PollingListener, batches: Seq<Seq<i32>>)
    requires
        l.stop_requested,
    ensures
        after_batches(l, batches).1 == 0,
        after_batches(l, batches).0.stop_requested,
        action_of(after_batches(l, batches).0) is Finish,
    decreases batches.len(),
{
    if batches.len() > 0 {
        lemma_stopped_listener_is_silent(l, batches.drop_last());
    }
}

impl PollingListener {
    pub open spec fn wf(&self) -> bool {
        i32::MIN <= self.offset <= i32::MAX as int + 1
    }

    /// A listener that has seen nothing yet.
    pub fn new() -> (r: PollingListener)
        ensures
            r.wf(),
            r.offset == 0,
            !r.stop_requested,
            r.failures == 0,
    {
        PollingListener { offset: 0, stop_requested: false, failures: 0 }
    }

    /// The next step: a request from the watermark, after the backoff that the failures in a row
    /// call for, or the end once a stop was asked for.
    pub fn next_action(&self) -> (r: PollAction)
        ensures
            self.stop_requested ==> r is Finish,
            r == action_of(*self),
            !self.stop_requested ==> r == (PollAction::Request {
                offset: self.offset,
                timeout_secs: POLL_TIMEOUT_SECS,
                delay_secs: backoff(self.failures),
            }),
    {
        if self.stop_requested {
            PollAction::Finish
        } else {
            PollAction::Request {
                offset: self.offset,
                timeout_secs: POLL_TIMEOUT_SECS,
                delay_secs: backoff_secs(self.failures),
            }
        }
    }

    /// Takes the ids of a batch that a request returned, in the platform's order, and gives the
    /// positions to deliver, in order. Ids below the watermark were delivered before and are
    /// skipped; the watermark moves one past each delivered id. Once a stop was asked for,
    /// nothing more is delivered and the watermark stays.
    pub fn on_batch(&mut self, ids: &Vec<i32>) -> (r: Vec<usize>)
        requires
            old(self).wf(),
        ensures
            final(self).wf(),
            (*final(self), r@.map_values(|k: usize| k as int)) == after_batch(*old(self), ids@),
            final(self).stop_requested == old(self).stop_requested,
            final(self).failures == 0,
            old(self).stop_requested ==> r@.len() == 0 && final(self).offset == old(self).offset,
            !old(self).stop_requested ==> {
                &&& r@.map_values(|k: usize| k as int) == scan_delivered(old(self).offset as int, ids@)
                &&& final(self).offset == scan_offset(old(self).offset as int, ids@)
            },
    {
        let mut out: Vec<usize> = Vec::new();
        self.failures = 0;
        if self.stop_requested {
            return out;
        }
        let ghost start = self.offset as int;
        let mut i: usize = 0;
        while i < ids.len()
            invariant
                self.wf(),
                !self.stop_requested,
                self.failures == 0,
                i <= ids@.len(),
                self.offset == scan_offset(start, ids@.take(i as int)),
                out@.map_values(|k: usize| k as int) == scan_delivered(start, ids@.take(i as int)),
            decreases ids@.len() - i,
        {
            proof {
                assert(ids@.take(i as int + 1).drop_last() =~= ids@.take(i as int));
            }
            if ids[i] as i64 >= self.offset {
                out.push(i);
                self.offset = ids[i] as i64 + 1;
            }
            proof {
                assert(out@.map_values(|k: usize| k as int) =~= scan_delivered(start, ids@.take(i as int + 1)));
            }
            i = i + 1;
        }
        proof {
            assert(ids@.take(i as int) =~= ids@);
        }
        out
    }

    /// Records a failed request; the next one waits longer, up to the bound.
    pub fn on_failure(&mut self)
        ensures
            final(self).offset == old(self).offset,
            final(self).stop_requested == old(self).stop_requested,
            final(self).failures == (if old(self).failures == u32::MAX {
                u32::MAX
            } else {
                (old(self).failures + 1) as u32
            }),
    {
        if self.failures < u32::MAX {
            self.failures = self.failures + 1;
        }
    }

    /// Asks the listener to stop. Asking again changes nothing.
    pub fn stop(&mut self)
        ensures
            final(self).stop_requested,
            final(self).offset == old(self).offset,
            final(self).failures == old(self).failures,
    {
        self.stop_requested = true;
    }
}

/// The wait before the next request after `failures` failed requests in a row.
pub fn backoff_secs(failures: u32) -> (r: u64)
    ensures
        r == backoff(failures),
        r <= MAX_BACKOFF_SECS,
{
    let step = failures as u64 * BACKOFF_STEP_SECS;
    if step >= MAX_BACKOFF_SECS {
        MAX_BACKOFF_SECS
    } else {
        step
    }
}

/// Scanning a batch from `offset` moves the watermark past every id in the batch and never back;
/// each delivered position holds an id at or above `offset`, and the delivered ids rise strictly
/// in delivery order, so none is delivered twice.
pub proof fn lemma_scan_window(offset: int, ids: Seq<i32>)
    ensures
        scan_offset(offset, ids) >= offset,
        forall|j: int| 0 <= j < ids.len() ==> ids[j] < scan_offset(offset, ids),
        forall|k: int|
            #![trigger scan_delivered(offset, ids)[k]]
            0 <= k < scan_delivered(offset, ids).len() ==> {
                &&& 0 <= scan_delivered(offset, ids)[k] < ids.len()
                &&& offset <= ids[scan_delivered(offset, ids)[k]]
            },
        forall|a: int, b: int|
            #![trigger scan_delivered(offset, ids)[a], scan_delivered(offset, ids)[b]]
            0 <= a < b < scan_delivered(offset, ids).len() ==> ids[scan_delivered(offset, ids)[a]]
                < ids[scan_delivered(offset, ids)[b]],
    decreases ids.len(),
{
    if ids.len() > 0 {
        let prefix = ids.drop_last();
        lemma_scan_window(offset, prefix);
        let o = scan_offset(offset, prefix);
        let d = scan_delivered(offset, prefix);
        assert forall|j: int| 0 <= j < prefix.len() implies #[trigger] prefix[j] == ids[j] by {}
        assert forall|j: int| 0 <= j < ids.len() implies ids[j] < scan_offset(offset, ids) by {
            if j < prefix.len() {
                assert(prefix[j] == ids[j]);
            }
        }
        assert forall|k: int| 0 <= k < d.len() implies 0 <= #[trigger] d[k] < prefix.len()
            && ids[d[k]] < o by {
            assert(prefix[d[k]] == ids[d[k]]);
        }
    }
}

/// Two polls in a row deliver disjoint ids: every id the second delivers, from the watermark
/// the first left, is above every id the first delivered.
pub proof fn lemma_no_redelivery(offset: int, first: Seq<i32>, second: Seq<i32>)
    ensures
        forall|a: int, b: int|
            #![trigger scan_delivered(offset, first)[a], scan_delivered(scan_offset(offset, first), second)[b]]
            0 <= a < scan_delivered(offset, first).len() && 0 <= b < scan_delivered(
                scan_offset(offset, first),
                second,
            ).len() ==> first[scan_delivered(offset, first)[a]] < second[scan_delivered(
                scan_offset(offset, first),
                second,
            )[b]],
{
    lemma_scan_window(offset, first);
    lemma_scan_window(scan_offset(offset, first), second);
}

} // verus!
