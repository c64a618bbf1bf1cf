//! Central distributor: pushes changes (`update`) to a list of backends, one
//! at a time.
//!
//! The pass itself talks to the network; what it decides lives here as a
//! [`Distribution`]: which backend to push to next, and which outcome
//! belongs to which backend.

use vstd::prelude::*;

use crate::client::SyncResult;
use crate::error::Error;
use crate::ops::strings_view;

verus! {

broadcast use vstd::seq::group_seq_axioms;

/// Per-backend outcome of a distribution pass.
#[derive(Debug)]
pub struct DistributeResult {
    pub backend: String,
    pub result: Result<SyncResult, Error>,
}

/// Distributes operations to backends sequentially.
pub struct Distributor {
    timeout: std::time::Duration,
}

impl Distributor {
    /// The timeout of each connection and call.
    pub closed spec fn timeout_spec(&self) -> std::time::Duration {
        self.timeout
    }

    pub fn new(timeout: std::time::Duration) -> (r: Self)
        ensures
            r.timeout_spec() == timeout,
    {
        Distributor { timeout }
    }

    pub fn timeout(&self) -> (t: std::time::Duration)
        ensures
            t == self.timeout_spec(),
    {
        self.timeout
    }

    /// Starts a pass over `backends`, in list order.
    pub fn plan(&self, backends: &[String]) -> (d: Distribution)
        ensures
            d.wf(),
            d@ == (DistributionModel {
                backends: strings_view(backends@),
                outcomes: Seq::empty(),
            }),
    {
        Distribution::new(backends)
    }
}

/// A distribution pass as values: the backends in list order and the
/// outcomes recorded so far, one per backend from the front.
pub struct DistributionModel {
    pub backends: Seq<Seq<char>>,
    pub outcomes: Seq<Result<SyncResult, Error>>,
}

/// The backend that a pass in state `m` pushes to next, if any.
pub open spec fn next_backend_of(m: DistributionModel) -> Option<Seq<char>> {
    if m.outcomes.len() < m.backends.len() {
        Some(m.backends[m.outcomes.len() as int])
    } else {
        None
    }
}

/// The state of a pass once `outcome` was recorded for the current backend.
pub open spec fn record_outcome(m: DistributionModel, outcome: Result<SyncResult, Error>) -> DistributionModel {
    DistributionModel { backends: m.backends, outcomes: m.outcomes.push(outcome) }
}

/// The decisions of one distribution pass.
pub struct Distribution {
    backends: Vec<String>,
    results: Vec<DistributeResult>,
}

impl View for Distribution {
    type V = DistributionModel;

    closed spec fn view(&self) -> DistributionModel {
        DistributionModel {
            backends: strings_view(self.backends@),
            outcomes: self.results@.map_values(|r: DistributeResult| r.result),
        }
    }
}

impl Distribution {
    /// Each recorded result names the backend at its position.
    pub closed spec fn wf(&self) -> bool {
        &&& self.results.len() <= self.backends.len()
        &&& forall|i: int|
            0 <= i < self.results.len() ==> #[trigger] self.results@[i].backend@
                == self.backends@[i]@
    }

    pub fn new(backends: &[String]) -> (d: Self)
        ensures
            d.wf(),
            d@ == (DistributionModel {
                backends: strings_view(backends@),
                outcomes: Seq::empty(),
            }),
    {
        let mut list: Vec<String> = Vec::new();
        let mut i: usize = 0;
        while i < backends.len()
            invariant
                i <= backends.len(),
                list.len() == i,
                forall|k: int| 0 <= k < i ==> #[trigger] list@[k]@ == backends@[k]@,
            decreases backends.len() - i,
        {
            list.push(backends[i].clone());
            i = i + 1;
        }
        let d = Distribution { backends: list, results: Vec::new() };
        assert(d@.backends =~= strings_view(backends@));
        assert(d@.outcomes =~= Seq::<Result<SyncResult, Error>>::empty());
        d
    }

    /// The backend to push to next; `None` once every backend has its
    /// outcome.
    pub fn next_backend(&self) -> (a: Option<String>)
        requires
            self.wf(),
        ensures
            match next_backend_of(self@) {
                Some(b) => a matches Some(s) && s@ == b,
                None => a is None,
            },
    {
        let k = self.results.len();
        if k < self.backends.len() {
            Some(self.backends[k].clone())
        } else {
            None
        }
    }

    /// Whether every backend has its outcome.
    pub fn is_done(&self) -> (r: bool)
        requires
            self.wf(),
        ensures
            r == (next_backend_of(self@) is None),
    {
        self.results.len() >= self.backends.len()
    }

    /// Records the outcome of pushing to the current backend; a failure is
    /// recorded like a success and the pass goes on with the next backend.
    pub fn record(&mut self, outcome: Result<SyncResult, Error>)
        requires
            old(self).wf(),
            next_backend_of(old(self)@) is Some,
        ensures
            final(self).wf(),
            final(self)@ == record_outcome(old(self)@, outcome),
    {
        let k = self.results.len();
        let backend = self.backends[k].clone();
        self.results.push(DistributeResult { backend, result: outcome });
        assert(self@.outcomes =~= old(self)@.outcomes.push(outcome));
    }

    /// The per-backend results in list order, one per backend.
    pub fn finish(self) -> (r: Vec<DistributeResult>)
        requires
            self.wf(),
            next_backend_of(self@) is None,
        ensures
            r.len() == self@.backends.len(),
            forall|i: int|
                0 <= i < r.len() ==> #[trigger] r@[i].backend@ == self@.backends[i] && r@[i].result
                    == self@.outcomes[i],
    {
        self.results
    }
}

/// A failed push does not stop the pass: whatever the outcome recorded for
/// the current backend, the pass moves on to the same next backend.
pub proof fn lemma_failure_does_not_stop(
    m: DistributionModel,
    success: Result<SyncResult, Error>,
    failure: Result<SyncResult, Error>,
)
    requires
        next_backend_of(m) is Some,
    ensures
        next_backend_of(record_outcome(m, success)) == next_backend_of(record_outcome(m, failure)),
{
}

/// The law of a whole distribution pass: when the push to backend `i`
/// comes out as `outcomes[i]`, the pass pushes to every backend in list
/// order, asking backend `i` after the first `i` outcomes whatever they were
/// (failures neither stop nor alter the later pushes), and ends with exactly
/// one outcome per backend, `outcomes[i]` at backend `i` (which `finish`
/// hands out with the backend's name).
pub proof fn lemma_pass_covers_every_backend(
    backends: Seq<Seq<char>>,
    outcomes: Seq<Result<SyncResult, Error>>,
)
    requires
        outcomes.len() == backends.len(),
    ensures
        forall|i: int|
            0 <= i < backends.len() ==> #[trigger] next_backend_of(replay(backends, outcomes.take(i)))
                == Some(backends[i]),
        ({
            let m = replay(backends, outcomes);
            &&& next_backend_of(m) is None
            &&& m.backends == backends
            &&& m.outcomes == outcomes
        }),
{
    lemma_replay(backends, outcomes);
    assert forall|i: int| 0 <= i < backends.len() implies #[trigger] next_backend_of(
        replay(backends, outcomes.take(i)),
    ) == Some(backends[i]) by {
        lemma_replay(backends, outcomes.take(i));
    }
}

/// The state of a pass over `backends` after recording `outcomes` in turn.
pub open spec fn replay(backends: Seq<Seq<char>>, outcomes: Seq<Result<SyncResult, Error>>) -> DistributionModel
    decreases outcomes.len(),
{
    if outcomes.len() == 0 {
        DistributionModel { backends, outcomes: Seq::empty() }
    } else {
        record_outcome(replay(backends, outcomes.drop_last()), outcomes.last())
    }
}

proof fn lemma_replay(backends: Seq<Seq<char>>, outcomes: Seq<Result<SyncResult, Error>>)
    ensures
        replay(backends, outcomes).backends == backends,
        replay(backends, outcomes).outcomes == outcomes,
    decreases outcomes.len(),
{
    if outcomes.len() > 0 {
        lemma_replay(backends, outcomes.drop_last());
        assert(outcomes.drop_last().push(outcomes.last()) =~= outcomes);
    } else {
        assert(outcomes =~= Seq::<Result<SyncResult, Error>>::empty());
    }
}

} // verus!
