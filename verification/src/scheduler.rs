//! Pacing of the game loop.  A scheduler waits between frames; the one used
//! in tests only counts how often it was asked to wait.
use vstd::prelude::*;

verus! {

/// Length of one frame, in milliseconds.
pub const FRAME_MS: u64 = 16;

/// Something that can make the game loop wait.
pub trait Scheduler {
    /// Whether the scheduler can take another request.
    spec fn can_sleep(&self) -> bool;

    /// The waits asked of the scheduler so far, in milliseconds, in order.
    spec fn sleeps(&self) -> Seq<u64>;

    /// Waits `duration_ms` milliseconds.
    fn sleep(&mut self, duration_ms: u64)
        requires
            old(self).can_sleep(),
        ensures
            final(self).sleeps() == old(self).sleeps().push(duration_ms);

    /// Waits for the next frame: one frame of `FRAME_MS` milliseconds.
    fn wait_for_next_frame(&mut self)
        requires
            old(self).can_sleep(),
        ensures
            final(self).sleeps() == old(self).sleeps().push(FRAME_MS),
    {
        self.sleep(FRAME_MS);
    }
}

/// A scheduler that does not wait but counts the requests (and, for the
/// proofs, records them).
pub struct DeterministicScheduler {
    sleep_count: usize,
    requests: Ghost<Seq<u64>>,
}

impl DeterministicScheduler {
    /// The counter is the number of recorded requests.
    #[verifier::type_invariant]
    closed spec fn counter_matches(&self) -> bool {
        self.sleep_count as nat == self.requests@.len()
    }

    /// Number of requests so far.
    pub closed spec fn count(&self) -> nat {
        self.sleep_count as nat
    }

    /// A scheduler with no request counted.
    pub fn new() -> (s: Self)
        ensures
            s.count() == 0,
            s.sleeps() == Seq::<u64>::empty(),
    {
        Self { sleep_count: 0, requests: Ghost(Seq::empty()) }
    }

    /// Number of requests so far: one for each `sleep` and each
    /// `wait_for_next_frame` since the scheduler was made or last reset.
    pub fn get_sleep_count(&self) -> (n: usize)
        ensures
            n == self.count(),
            n == self.sleeps().len(),
    {
        proof {
            use_type_invariant(self);
        }
        self.sleep_count
    }

    /// Forgets the requests counted so far.
    pub fn reset_sleep_count(&mut self)
        ensures
            final(self).count() == 0,
            final(self).sleeps() == Seq::<u64>::empty(),
    {
        *self = Self { sleep_count: 0, requests: Ghost(Seq::empty()) };
    }
}

impl Scheduler for DeterministicScheduler {
    open spec fn can_sleep(&self) -> bool {
        self.count() < usize::MAX
    }

    /// The requests since the scheduler was made or last reset.
    closed spec fn sleeps(&self) -> Seq<u64> {
        self.requests@
    }

    /// Counts the request; does not wait.
    fn sleep(&mut self, duration_ms: u64)
        ensures
            final(self).count() == old(self).count() + 1,
    {
        proof {
            use_type_invariant(&*self);
        }
        let ghost pushed = self.requests@.push(duration_ms);
        *self = Self { sleep_count: self.sleep_count + 1, requests: Ghost(pushed) };
    }

    /// Counts one request; does not wait.
    fn wait_for_next_frame(&mut self)
        ensures
            final(self).count() == old(self).count() + 1,
    {
        self.sleep(FRAME_MS);
    }
}

/// `b` is `a` after one request: a `sleep` of some length or, when `frame`,
/// a `wait_for_next_frame`.
pub open spec fn after_request(a: DeterministicScheduler, b: DeterministicScheduler, frame: bool) -> bool {
    if frame {
        b.sleeps() == a.sleeps().push(FRAME_MS)
    } else {
        exists|d: u64| b.sleeps() == #[trigger] a.sleeps().push(d)
    }
}

/// Number of entries of `kinds` equal to `v`.
pub open spec fn count_kind(kinds: Seq<bool>, v: bool) -> nat
    decreases kinds.len(),
{
    if kinds.len() == 0 {
        0
    } else {
        count_kind(kinds.drop_last(), v) + if kinds.last() == v { 1nat } else { 0nat }
    }
}

/// After `k` calls of `sleep` and `m` of `wait_for_next_frame`, in any
/// order, on a scheduler just made or reset (`run[0]`), the count
/// (`get_sleep_count`) is `k + m`.
pub proof fn lemma_count_after_requests(run: Seq<DeterministicScheduler>, frames: Seq<bool>)
    requires
        run.len() == frames.len() + 1,
        run[0].sleeps().len() == 0,
        forall|i: int| 0 <= i < frames.len() ==> after_request(run[i], run[i + 1], #[trigger] frames[i]),
    ensures
        run.last().sleeps().len() == count_kind(frames, false) + count_kind(frames, true),
    decreases frames.len(),
{
    if frames.len() > 0 {
        let n = frames.len() - 1;
        lemma_count_after_requests(run.drop_last(), frames.drop_last());
        assert(run.drop_last().last() == run[n]);
        assert(after_request(run[n], run[n + 1], frames[n]));
        if !frames[n] {
            let d = choose|d: u64| run[n + 1].sleeps() == #[trigger] run[n].sleeps().push(d);
        }
    }
}

} // verus!
