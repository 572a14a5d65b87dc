//! An RSS feed and the retry policy used when it is requested.

use vstd::prelude::*;

verus! {

/// One entry of a feed.
#[derive(Debug, PartialEq, Eq)]
pub struct Item {
    pub title: String,
    pub description: String,
    /// Publication date; empty when the feed leaves it out.
    pub pub_date: String,
    pub link: String,
    pub author: String,
}

/// The channel of a feed.
#[derive(Debug, PartialEq, Eq)]
pub struct Channel {
    pub title: String,
    pub description: String,
    /// Date of the last build; empty when the feed leaves it out.
    pub last_build_date: String,
    pub item: Vec<Item>,
}

/// A whole feed document.
#[derive(Debug, PartialEq, Eq)]
pub struct Rss {
    pub channel: Channel,
}

/// How many times a failed request is repeated before the feed is given up.
pub const RETRY_BUDGET: i8 = 5;

/// Seconds to wait before a failed request is repeated.
pub const RETRY_WAIT_SECS: u64 = 15;

/// What to do after a request for the feed.
#[derive(Debug, Clone, Copy, PartialEq, Eq, Structural)]
pub enum RetryAction {
    /// The response arrived: hand it on.
    Deliver,
    /// Wait `wait_secs` seconds, then make the retry numbered `attempt`.
    RetryAfter { wait_secs: u64, attempt: i8 },
    /// No retry is left: the feed is given up.
    GiveUp,
}

/// The reaction to a failed request while `left` retries remain.
pub open spec fn failure_action(left: int) -> RetryAction {
    if left == 0 {
        RetryAction::GiveUp
    } else {
        RetryAction::RetryAfter { wait_secs: 15, attempt: (6 - left) as i8 }
    }
}

/// The reactions to `k` failed requests in a row, starting with `left` retries.
pub open spec fn failure_run(left: int, k: nat) -> Seq<RetryAction>
    decreases k,
{
    if k == 0 {
        Seq::<RetryAction>::empty()
    } else {
        seq![failure_action(left)] + failure_run(left - 1, (k - 1) as nat)
    }
}

/// The retries left for one feed request.
pub struct RetryState {
    left: i8,
}

impl RetryState {
    #[verifier::type_invariant]
    spec fn inv(self) -> bool {
        0 <= self.left
    }

    /// Retries still available.
    pub closed spec fn retries_left(self) -> int {
        self.left as int
    }

    /// The state before the first request: the whole budget is left.
    pub fn new() -> (s: RetryState)
        ensures
            s.retries_left() == RETRY_BUDGET,
    {
        RetryState { left: RETRY_BUDGET }
    }

    /// The state before the first request when `retries` repeats are allowed.
    pub fn with_budget(retries: i8) -> (s: RetryState)
        requires
            0 <= retries,
        ensures
            s.retries_left() == retries,
    {
        RetryState { left: retries }
    }

    /// Retries still available.
    pub fn left(&self) -> (n: i8)
        ensures
            n == self.retries_left(),
    {
        self.left
    }

    /// Reacts to the outcome of one request. A success is delivered. A failure is
    /// retried after a pause while retries are left, numbered six minus the retries
    /// left (from one on when starting from the full budget), and the feed is given
    /// up when none is left.
    pub fn on_response(&mut self, succeeded: bool) -> (action: RetryAction)
        ensures
            0 <= final(self).retries_left() <= old(self).retries_left(),
            succeeded ==> action == RetryAction::Deliver && final(self).retries_left() == old(self).retries_left(),
            !succeeded ==> action == failure_action(old(self).retries_left()),
            !succeeded && old(self).retries_left() > 0 ==> final(self).retries_left() == old(self).retries_left() - 1,
            !succeeded && old(self).retries_left() == 0 ==> final(self).retries_left() == 0,
    {
        proof {
            use_type_invariant(&*self);
        }
        if succeeded {
            RetryAction::Deliver
        } else if self.left == 0 {
            RetryAction::GiveUp
        } else {
            let attempt = 6 - self.left;
            self.left = self.left - 1;
            RetryAction::RetryAfter { wait_secs: RETRY_WAIT_SECS, attempt }
        }
    }
}

/// With `left` retries, the first `left` failures in a row are each answered with a
/// retry after the usual pause and the next one with giving up: a feed is requested
/// at most `left + 1` times.
pub proof fn lemma_retries_run_out(left: int)
    requires
        0 <= left,
    ensures
        failure_run(left, (left + 1) as nat).len() == left + 1,
        failure_run(left, (left + 1) as nat).last() == RetryAction::GiveUp,
        forall|i: int| 0 <= i < left ==> (#[trigger] failure_run(left, (left + 1) as nat)[i]) is RetryAfter
            && failure_run(left, (left + 1) as nat)[i]->wait_secs == RETRY_WAIT_SECS,
    decreases left,
{
    lemma_run_len(left, (left + 1) as nat);
    if left == 0 {
        assert(failure_run(0, 0) =~= Seq::<RetryAction>::empty());
    } else {
        lemma_retries_run_out(left - 1);
        let run = failure_run(left, (left + 1) as nat);
        let rest = failure_run(left - 1, left as nat);
        assert(run =~= seq![failure_action(left)] + rest);
        assert forall|i: int| 0 <= i < left implies (#[trigger] run[i]) is RetryAfter
            && run[i]->wait_secs == RETRY_WAIT_SECS by {
            if i > 0 {
                assert(run[i] == rest[i - 1]);
            }
        }
    }
}

proof fn lemma_run_len(left: int, k: nat)
    ensures
        failure_run(left, k).len() == k,
    decreases k,
{
    if k > 0 {
        lemma_run_len(left - 1, (k - 1) as nat);
    }
}

/// Starting from the full budget, the retry announced after the `i`-th failure in a
/// row carries the number `i`: the numbering counts the failed requests.
pub proof fn lemma_retry_numbers_count_failures(i: int)
    requires
        1 <= i <= RETRY_BUDGET,
    ensures
        failure_run(RETRY_BUDGET as int, i as nat).last() == (RetryAction::RetryAfter {
            wait_secs: RETRY_WAIT_SECS,
            attempt: i as i8,
        }),
{
    lemma_run_shift(RETRY_BUDGET as int, i as nat);
}

proof fn lemma_run_shift(left: int, k: nat)
    requires
        k >= 1,
    ensures
        failure_run(left, k).last() == failure_action(left - (k - 1)),
    decreases k,
{
    let rest = failure_run(left - 1, (k - 1) as nat);
    assert(failure_run(left, k) == seq![failure_action(left)] + rest);
    if k > 1 {
        lemma_run_shift(left - 1, (k - 1) as nat);
        lemma_run_len(left - 1, (k - 1) as nat);
        assert((seq![failure_action(left)] + rest).last() == rest.last());
    } else {
        assert(rest =~= Seq::<RetryAction>::empty());
        assert((seq![failure_action(left)] + rest) =~= seq![failure_action(left)]);
    }
}

} // verus!
