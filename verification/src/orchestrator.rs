use vstd::prelude::*;

use crate::aggregator::{aggregate, raw_contributions, sort_desc, top25_sum, weeks_bounded};
use crate::error::Error;
use crate::filter::{criterion, filter, RepoWithMvp};
use crate::responses::{ContributorResponse, RepoResponse};

verus! {

/// What one repository's pipeline ends in: a repository the threshold
/// rule accepted, one it passed over, or the error that stopped its
/// fetch. Exactly one of these is produced per repository.
#[derive(Debug, PartialEq)]
pub enum PipelineOutcome {
    /// The repository cleared the threshold.
    Accepted(RepoWithMvp),
    /// The repository was fetched and aggregated but did not clear the
    /// threshold: owner and name.
    Rejected(String, String),
    /// Fetching or decoding the repository's statistics failed: owner,
    /// name, and the error.
    Failed(String, String, Error),
}

/// When the fetch succeeded with these records, does the pipeline accept
/// the repository?
pub open spec fn pipeline_accepts(cs: Seq<ContributorResponse>) -> bool {
    let ranked = sort_desc(raw_contributions(cs));
    &&& ranked.len() > 0
    &&& top25_sum(ranked) != 0
    &&& ranked[0].total as int >= criterion(top25_sum(ranked))
}

/// One repository's pipeline after its fetch has come back: aggregate the
/// records, apply the threshold rule, and emit the one outcome. A failed
/// fetch becomes a failure outcome carrying the repository's identity and
/// the error; nothing is retried and nothing else is reported.
pub fn run_pipeline(repo: RepoResponse, fetched: Result<Vec<ContributorResponse>, Error>) -> (out:
    PipelineOutcome)
    requires
        fetched matches Ok(cs) ==> weeks_bounded(cs@),
    ensures
        fetched matches Err(e) ==> (out matches PipelineOutcome::Failed(o, n, err) && o
            == repo.owner.login && n == repo.name && err == e),
        fetched matches Ok(cs) ==> (pipeline_accepts(cs@) ==> (out matches
            PipelineOutcome::Accepted(m) && {
                let ranked = sort_desc(raw_contributions(cs@));
                &&& m.owner == repo.owner.login
                &&& m.name == repo.name
                &&& m.mvp == ranked[0].user
                &&& m.mvp_total == ranked[0].total
                &&& m.top25_total as int == top25_sum(ranked)
            })),
        fetched matches Ok(cs) ==> (!pipeline_accepts(cs@) ==> (out matches
            PipelineOutcome::Rejected(o, n) && o == repo.owner.login && n == repo.name)),
{
    match fetched {
        Err(e) => PipelineOutcome::Failed(repo.owner.login, repo.name, e),
        Ok(cs) => {
            let agg = aggregate(repo, cs);
            let owner = agg.owner.clone();
            let name = agg.name.clone();
            match filter(agg) {
                Some(m) => PipelineOutcome::Accepted(m),
                None => PipelineOutcome::Rejected(owner, name),
            }
        },
    }
}

/// How many of the first `n` flags are set.
pub open spec fn count_finished(s: Seq<bool>, n: int) -> int
    decreases n,
{
    if n <= 0 {
        0
    } else {
        count_finished(s, n - 1) + if s[n - 1] {
            1int
        } else {
            0int
        }
    }
}

/// The fan-in point of the orchestrator: one merge state per batch of
/// spawned pipelines. Every pipeline hands its one outcome to [`Self::absorb`]
/// under its own index, in whatever order the pipelines finish; accepted
/// results and failures are forwarded to their two output streams in
/// arrival order, and [`Self::is_complete`] reports completion exactly
/// when every pipeline has finished.
pub struct MergeState {
    /// How many pipelines were spawned.
    pub expected: usize,
    /// Which pipelines have delivered their outcome.
    pub seen: Vec<bool>,
    /// How many pipelines have delivered their outcome.
    pub finished: usize,
    /// The accepted results, in arrival order.
    pub accepted: Vec<RepoWithMvp>,
    /// The failures, in arrival order.
    pub failures: Vec<Error>,
    /// The record of every outcome, by pipeline index.
    pub outcomes: Ghost<Map<int, PipelineOutcome>>,
}

impl MergeState {
    /// The merge state's invariant: the finished count agrees with the
    /// flags, and the outcome record holds exactly the flagged indices.
    pub open spec fn wf(self) -> bool {
        &&& self.seen@.len() == self.expected
        &&& self.finished == count_finished(self.seen@, self.expected as int)
        &&& forall|i: int| self.outcomes@.dom().contains(i) ==> 0 <= i < self.expected
        &&& forall|i: int|
            0 <= i < self.expected ==> ((#[trigger] self.seen@[i]) <==> self.outcomes@.dom().contains(
                i,
            ))
    }

    /// A fresh merge state for a batch of `expected` pipelines: nothing
    /// finished, nothing forwarded.
    pub fn new(expected: usize) -> (s: Self)
        ensures
            s.wf(),
            s.expected == expected,
            s.finished == 0,
            forall|i: int| 0 <= i < expected ==> !s.seen@[i],
            s.accepted@.len() == 0,
            s.failures@.len() == 0,
            s.outcomes@ == Map::<int, PipelineOutcome>::empty(),
    {
        let mut seen: Vec<bool> = Vec::new();
        let mut i: usize = 0;
        while i < expected
            invariant
                i <= expected,
                seen@.len() == i,
                forall|k: int| 0 <= k < i ==> !seen@[k],
            decreases expected - i,
        {
            seen.push(false);
            i = i + 1;
        }
        proof {
            lemma_count_none(seen@, expected as int);
        }
        MergeState {
            expected,
            seen,
            finished: 0,
            accepted: Vec::new(),
            failures: Vec::new(),
            outcomes: Ghost(Map::empty()),
        }
    }

    /// Merges the one outcome of the pipeline at `index`. The index must
    /// not have delivered before — each pipeline reports exactly once —
    /// and the outcome is recorded and forwarded to the matching stream.
    pub fn absorb(&mut self, index: usize, outcome: PipelineOutcome)
        requires
            old(self).wf(),
            index < old(self).expected,
            !old(self).seen@[index as int],
        ensures
            final(self).wf(),
            final(self).expected == old(self).expected,
            final(self).seen@ == old(self).seen@.update(index as int, true),
            final(self).finished == old(self).finished + 1,
            final(self).outcomes@ == old(self).outcomes@.insert(index as int, outcome),
            outcome matches PipelineOutcome::Accepted(m) ==> (final(self).accepted@ == old(
                self,
            ).accepted@.push(m) && final(self).failures@ == old(self).failures@),
            outcome matches PipelineOutcome::Failed(o, n, e) ==> (final(self).failures@ == old(
                self,
            ).failures@.push(e) && final(self).accepted@ == old(self).accepted@),
            outcome matches PipelineOutcome::Rejected(o, n) ==> (final(self).accepted@ == old(
                self,
            ).accepted@ && final(self).failures@ == old(self).failures@),
    {
        proof {
            lemma_count_update(self.seen@, self.expected as int, index as int);
            lemma_count_bounds(self.seen@.update(index as int, true), self.expected as int);
        }
        let ghost recorded = outcome;
        self.seen[index] = true;
        self.finished = self.finished + 1;
        self.outcomes = Ghost(self.outcomes@.insert(index as int, recorded));
        match outcome {
            PipelineOutcome::Accepted(m) => self.accepted.push(m),
            PipelineOutcome::Failed(_, _, e) => self.failures.push(e),
            PipelineOutcome::Rejected(_, _) => (),
        }
    }

    /// Whether the merge stage is done: true exactly when as many
    /// pipelines have finished as were spawned, that is, exactly when
    /// every pipeline's outcome has arrived.
    pub fn is_complete(&self) -> (r: bool)
        requires
            self.wf(),
        ensures
            r <==> self.finished == self.expected,
            r <==> (forall|i: int| 0 <= i < self.expected ==> self.seen@[i]),
    {
        proof {
            lemma_count_all(self.seen@, self.expected as int);
        }
        self.finished == self.expected
    }
}

proof fn lemma_count_none(s: Seq<bool>, n: int)
    requires
        0 <= n <= s.len(),
        forall|k: int| 0 <= k < n ==> !s[k],
    ensures
        count_finished(s, n) == 0,
    decreases n,
{
    if n > 0 {
        lemma_count_none(s, n - 1);
    }
}

proof fn lemma_count_bounds(s: Seq<bool>, n: int)
    requires
        0 <= n,
    ensures
        0 <= count_finished(s, n) <= n,
    decreases n,
{
    if n > 0 {
        lemma_count_bounds(s, n - 1);
    }
}

proof fn lemma_count_update(s: Seq<bool>, n: int, k: int)
    requires
        0 <= k < n <= s.len(),
        !s[k],
    ensures
        count_finished(s.update(k, true), n) == count_finished(s, n) + 1,
    decreases n,
{
    if k == n - 1 {
        lemma_count_agree(s.update(k, true), s, n - 1);
    } else {
        lemma_count_update(s, n - 1, k);
    }
}

proof fn lemma_count_agree(a: Seq<bool>, b: Seq<bool>, n: int)
    requires
        0 <= n,
        forall|k: int| 0 <= k < n ==> a[k] == b[k],
    ensures
        count_finished(a, n) == count_finished(b, n),
    decreases n,
{
    if n > 0 {
        lemma_count_agree(a, b, n - 1);
    }
}

proof fn lemma_count_all(s: Seq<bool>, n: int)
    requires
        0 <= n <= s.len(),
    ensures
        count_finished(s, n) == n <==> (forall|i: int| 0 <= i < n ==> s[i]),
    decreases n,
{
    if n > 0 {
        lemma_count_all(s, n - 1);
        lemma_count_bounds(s, n - 1);
    }
}

/// Each spawned pipeline contributes exactly one outcome, none dropped
/// and none duplicated: once the merge stage is complete, the record of
/// outcomes is defined at precisely the pipeline indices `0..expected`,
/// whatever order the outcomes arrived in.
pub proof fn lemma_one_outcome_per_pipeline(s: MergeState)
    requires
        s.wf(),
        s.finished == s.expected,
    ensures
        forall|i: int| 0 <= i < s.expected ==> s.outcomes@.dom().contains(i),
        forall|i: int| s.outcomes@.dom().contains(i) ==> 0 <= i < s.expected,
{
    lemma_count_all(s.seen@, s.expected as int);
    assert forall|i: int| 0 <= i < s.expected implies s.outcomes@.dom().contains(i) by {
        assert(s.seen@[i]);
    }
}

/// The merge stage reports completion exactly when the number of
/// finished pipelines equals the number spawned — equivalently, when
/// every pipeline's outcome has been merged — under any interleaving of
/// completions.
pub proof fn lemma_complete_iff_all_finished(s: MergeState)
    requires
        s.wf(),
    ensures
        (s.finished == s.expected) <==> (forall|i: int| 0 <= i < s.expected ==> s.seen@[i]),
{
    lemma_count_all(s.seen@, s.expected as int);
}

} // verus!
