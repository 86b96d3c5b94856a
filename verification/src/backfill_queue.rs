//! The in-memory view of the backfill action queue: what is pending and
//! being processed, the most recent completed and failed actions, and the
//! rate at which actions complete.

use vstd::prelude::*;

verus! {

/// Most completed or failed actions kept in the recent lists.
pub const RECENT_ITEMS: usize = 50;

/// Most completion times kept for the rate.
pub const RECENT_COMPLETION_TIMES: usize = 60;

/// The window of the processing rate, in milliseconds.
pub const RATE_WINDOW_MS: i64 = 60_000;

/// An action of the backfill queue (times in milliseconds since the epoch).
#[derive(Debug)]
pub struct QueuedAction {
    pub id: i64,
    pub round_id: i64,
    pub action: String,
    pub status: String,
    pub queued_at: i64,
    pub started_at: Option<i64>,
    pub completed_at: Option<i64>,
    pub error: Option<String>,
}

impl QueuedAction {
    /// A copy of this action.
    pub fn copy(&self) -> (r: Self)
        ensures
            r == *self,
    {
        QueuedAction {
            id: self.id,
            round_id: self.round_id,
            action: self.action.clone(),
            status: self.status.clone(),
            queued_at: self.queued_at,
            started_at: self.started_at,
            completed_at: self.completed_at,
            error: match &self.error {
                Some(e) => Some(e.clone()),
                None => None,
            },
        }
    }
}

/// The queue as the service keeps it in memory (times in milliseconds since
/// the epoch).
#[derive(Debug)]
pub struct BackfillQueueCache {
    /// Number of pending actions.
    pub pending_count: u64,
    /// The action being processed.
    pub processing: Option<QueuedAction>,
    /// Most recently completed actions, newest first.
    pub recent_completed: Vec<QueuedAction>,
    /// Most recently failed actions, newest first.
    pub recent_failed: Vec<QueuedAction>,
    pub paused: bool,
    /// Actions completed since startup.
    pub total_processed: u64,
    /// Actions failed since startup.
    pub total_failed: u64,
    /// Actions completed in the last minute.
    pub processing_rate: u64,
    /// Most recent completion times, newest first.
    pub recent_completion_times: Vec<i64>,
    /// When the cache was last read back from the database.
    pub last_sync: Option<i64>,
}

/// `x` put in front of `s`, and the last entry dropped when that makes `s`
/// longer than `cap`.
pub open spec fn pushed_front<T>(s: Seq<T>, x: T, cap: nat) -> Seq<T> {
    let t = seq![x] + s;
    if t.len() > cap {
        t.drop_last()
    } else {
        t
    }
}

/// Number of times strictly after `cutoff`.
pub open spec fn count_after(times: Seq<i64>, cutoff: int) -> nat
    decreases times.len(),
{
    if times.len() == 0 {
        0
    } else {
        count_after(times.drop_last(), cutoff) + if times.last() > cutoff { 1nat } else { 0nat }
    }
}

/// The processing rate: completions in the minute before `now`, or zero
/// with fewer than two completion times.
pub open spec fn rate_of(times: Seq<i64>, now: i64) -> nat {
    if times.len() < 2 {
        0
    } else {
        count_after(times, now - RATE_WINDOW_MS)
    }
}

proof fn lemma_count_after_bound(times: Seq<i64>, cutoff: int)
    ensures
        count_after(times, cutoff) <= times.len(),
    decreases times.len(),
{
    if times.len() > 0 {
        lemma_count_after_bound(times.drop_last(), cutoff);
    }
}

/// Put `x` in front of `v`, dropping the last entry when `v` grows past `cap`.
fn push_front_capped<T>(v: &mut Vec<T>, x: T, cap: usize)
    ensures
        final(v)@ == pushed_front(old(v)@, x, cap as nat),
{
    v.insert(0, x);
    proof {
        assert(v@ =~= seq![x] + old(v)@);
    }
    if v.len() > cap {
        let _ = v.pop();
    }
}

impl BackfillQueueCache {
    /// The recent lists stay within their caps.
    pub open spec fn well_formed(&self) -> bool {
        &&& self.recent_completed@.len() <= RECENT_ITEMS
        &&& self.recent_failed@.len() <= RECENT_ITEMS
        &&& self.recent_completion_times@.len() <= RECENT_COMPLETION_TIMES
    }

    /// An empty cache: nothing pending, nothing recent, not paused.
    pub fn new() -> (c: Self)
        ensures
            c.well_formed(),
            c.pending_count == 0,
            c.processing is None,
            c.recent_completed@.len() == 0,
            c.recent_failed@.len() == 0,
            !c.paused,
            c.total_processed == 0,
            c.total_failed == 0,
            c.processing_rate == 0,
            c.recent_completion_times@.len() == 0,
            c.last_sync is None,
    {
        BackfillQueueCache {
            pending_count: 0,
            processing: None,
            recent_completed: Vec::new(),
            recent_failed: Vec::new(),
            paused: false,
            total_processed: 0,
            total_failed: 0,
            processing_rate: 0,
            recent_completion_times: Vec::new(),
            last_sync: None,
        }
    }

    /// Record a completed action at time `now`: it leads the recent
    /// completed list (kept to 50), the total grows by one, the time leads
    /// the completion times (kept to 60) and the rate is brought up to date.
    pub fn add_completed(&mut self, item: QueuedAction, now: i64)
        requires
            old(self).total_processed < u64::MAX,
            now >= i64::MIN + RATE_WINDOW_MS,
        ensures
            final(self).recent_completed@ == pushed_front(old(self).recent_completed@, item, RECENT_ITEMS as nat),
            final(self).total_processed == old(self).total_processed + 1,
            final(self).recent_completion_times@ == pushed_front(
                old(self).recent_completion_times@,
                now,
                RECENT_COMPLETION_TIMES as nat,
            ),
            final(self).processing_rate == rate_of(final(self).recent_completion_times@, now),
            final(self).recent_failed == old(self).recent_failed,
            final(self).total_failed == old(self).total_failed,
            final(self).pending_count == old(self).pending_count,
            final(self).processing == old(self).processing,
            final(self).paused == old(self).paused,
            final(self).last_sync == old(self).last_sync,
            old(self).well_formed() ==> final(self).well_formed(),
    {
        push_front_capped(&mut self.recent_completed, item, RECENT_ITEMS);
        self.total_processed = self.total_processed + 1;
        push_front_capped(&mut self.recent_completion_times, now, RECENT_COMPLETION_TIMES);
        self.update_rate(now);
    }

    /// Record a failed action: it leads the recent failed list (kept to 50)
    /// and the failed total grows by one.
    pub fn add_failed(&mut self, item: QueuedAction)
        requires
            old(self).total_failed < u64::MAX,
        ensures
            final(self).recent_failed@ == pushed_front(old(self).recent_failed@, item, RECENT_ITEMS as nat),
            final(self).total_failed == old(self).total_failed + 1,
            final(self).recent_completed == old(self).recent_completed,
            final(self).total_processed == old(self).total_processed,
            final(self).recent_completion_times == old(self).recent_completion_times,
            final(self).processing_rate == old(self).processing_rate,
            final(self).pending_count == old(self).pending_count,
            final(self).processing == old(self).processing,
            final(self).paused == old(self).paused,
            final(self).last_sync == old(self).last_sync,
            old(self).well_formed() ==> final(self).well_formed(),
    {
        push_front_capped(&mut self.recent_failed, item, RECENT_ITEMS);
        self.total_failed = self.total_failed + 1;
    }

    /// Bring the processing rate up to date at time `now`.
    fn update_rate(&mut self, now: i64)
        requires
            now >= i64::MIN + RATE_WINDOW_MS,
        ensures
            final(self).processing_rate == rate_of(old(self).recent_completion_times@, now),
            final(self).recent_completion_times == old(self).recent_completion_times,
            final(self).recent_completed == old(self).recent_completed,
            final(self).recent_failed == old(self).recent_failed,
            final(self).total_processed == old(self).total_processed,
            final(self).total_failed == old(self).total_failed,
            final(self).pending_count == old(self).pending_count,
            final(self).processing == old(self).processing,
            final(self).paused == old(self).paused,
            final(self).last_sync == old(self).last_sync,
    {
        let times = &self.recent_completion_times;
        if times.len() < 2 {
            self.processing_rate = 0;
            return;
        }
        let cutoff = now - RATE_WINDOW_MS;
        let mut count: usize = 0;
        let mut i: usize = 0;
        while i < times.len()
            invariant
                i <= times@.len(),
                count == count_after(times@.take(i as int), cutoff as int),
            decreases times@.len() - i,
        {
            proof {
                assert(times@.take(i + 1).drop_last() =~= times@.take(i as int));
                lemma_count_after_bound(times@.take(i as int), cutoff as int);
            }
            if times[i] > cutoff {
                count = count + 1;
            }
            i = i + 1;
        }
        assert(times@.take(times@.len() as int) =~= times@);
        self.processing_rate = count as u64;
    }

    /// Start processing `item`: it is the action in progress and one fewer
    /// is pending (never below zero).
    pub fn start_processing(&mut self, item: QueuedAction)
        ensures
            final(self).processing == Some(item),
            final(self).pending_count == (if old(self).pending_count > 0 { old(self).pending_count - 1 } else { 0 }),
            final(self).recent_completed == old(self).recent_completed,
            final(self).recent_failed == old(self).recent_failed,
            final(self).total_processed == old(self).total_processed,
            final(self).total_failed == old(self).total_failed,
            final(self).processing_rate == old(self).processing_rate,
            final(self).recent_completion_times == old(self).recent_completion_times,
            final(self).paused == old(self).paused,
            final(self).last_sync == old(self).last_sync,
    {
        self.processing = Some(item);
        self.pending_count = self.pending_count.saturating_sub(1);
    }

    /// The action in progress completed at time `now` as `item`.
    pub fn finish_completed(&mut self, item: QueuedAction, now: i64)
        requires
            old(self).total_processed < u64::MAX,
            now >= i64::MIN + RATE_WINDOW_MS,
        ensures
            final(self).processing is None,
            final(self).recent_completed@ == pushed_front(old(self).recent_completed@, item, RECENT_ITEMS as nat),
            final(self).total_processed == old(self).total_processed + 1,
            final(self).recent_completion_times@ == pushed_front(
                old(self).recent_completion_times@,
                now,
                RECENT_COMPLETION_TIMES as nat,
            ),
            final(self).processing_rate == rate_of(final(self).recent_completion_times@, now),
            final(self).recent_failed == old(self).recent_failed,
            final(self).total_failed == old(self).total_failed,
            final(self).pending_count == old(self).pending_count,
            final(self).paused == old(self).paused,
            old(self).well_formed() ==> final(self).well_formed(),
    {
        self.processing = None;
        self.add_completed(item, now);
    }

    /// The action in progress failed as `item`.
    pub fn finish_failed(&mut self, item: QueuedAction)
        requires
            old(self).total_failed < u64::MAX,
        ensures
            final(self).processing is None,
            final(self).recent_failed@ == pushed_front(old(self).recent_failed@, item, RECENT_ITEMS as nat),
            final(self).total_failed == old(self).total_failed + 1,
            final(self).recent_completed == old(self).recent_completed,
            final(self).total_processed == old(self).total_processed,
            final(self).recent_completion_times == old(self).recent_completion_times,
            final(self).processing_rate == old(self).processing_rate,
            final(self).pending_count == old(self).pending_count,
            final(self).paused == old(self).paused,
            old(self).well_formed() ==> final(self).well_formed(),
    {
        self.processing = None;
        self.add_failed(item);
    }
}

/// A recorded action leads its recent list and the actions already there
/// keep their order behind it; once the list is full, the oldest drops out.
pub proof fn lemma_newest_first<T>(s: Seq<T>, x: T, cap: nat)
    requires
        s.len() <= cap,
        cap > 0,
    ensures
        pushed_front(s, x, cap)[0] == x,
        pushed_front(s, x, cap).len() == (if s.len() < cap { s.len() + 1 } else { cap }),
        forall|i: int| 1 <= i < pushed_front(s, x, cap).len() ==> #[trigger] pushed_front(s, x, cap)[i] == s[i - 1],
{
}

} // verus!
