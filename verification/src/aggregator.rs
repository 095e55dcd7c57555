use vstd::prelude::*;

use crate::responses::{ContributorResponse, RepoResponse, WeeklyCommitsResponse};

verus! {

/// How many of the most active contributors count towards the combined
/// total that the threshold rule is measured against.
pub const TOP_CONTRIBUTOR_WINDOW: usize = 25;

/// Every sum stays exact in 128-bit arithmetic as long as no contributor
/// reports more weeks than this; the aggregator requires that bound.
pub const MAX_WEEKS_PER_CONTRIBUTOR: u64 = 0x1_0000_0000;

/// Totals produced by the aggregator stay within this magnitude, and the
/// filter requires its inputs to respect it so that its own arithmetic
/// stays exact.
pub const TOTAL_MAGNITUDE_LIMIT: i128 = 0x100_0000_0000_0000_0000_0000_0000;

/// What one contributor's total can amount to under the weeks bound:
/// at most `MAX_WEEKS_PER_CONTRIBUTOR` weeks of at most 2^64 churn each.
const PER_CONTRIBUTOR_LIMIT: i128 = 0x1_0000_0000_0000_0000_0000_0000;

/// One contributor's summed churn: every added and deleted line over all
/// reported weeks, signed.
#[derive(Debug, PartialEq)]
pub struct Contribution {
    pub user: String,
    pub total: i128,
}

/// A repository together with its ranked contributions: sorted by total,
/// largest first, ties keeping the order the contributors arrived in, and
/// the combined total of the top 25 of them.
#[derive(Debug, PartialEq)]
pub struct AggregatedRepo {
    pub owner: String,
    pub name: String,
    pub top25_total_contributions: i128,
    pub contributions: Vec<Contribution>,
}

/// The churn one week contributes: added plus deleted lines, signed.
pub open spec fn week_churn(w: WeeklyCommitsResponse) -> int {
    w.a + w.d
}

/// The exact signed sum of the churn of every week in the sequence.
pub open spec fn churn_total(weeks: Seq<WeeklyCommitsResponse>) -> int
    decreases weeks.len(),
{
    if weeks.len() == 0 {
        0
    } else {
        churn_total(weeks.drop_last()) + week_churn(weeks.last())
    }
}

/// The contribution a raw record stands for, assuming its author is known.
pub open spec fn contribution_of(c: ContributorResponse) -> Contribution {
    Contribution { user: c.author->0.login, total: churn_total(c.weeks@) as i128 }
}

/// The contributions of the records whose author is known, in input order.
/// A record without an author identity is skipped.
pub open spec fn raw_contributions(cs: Seq<ContributorResponse>) -> Seq<Contribution>
    decreases cs.len(),
{
    if cs.len() == 0 {
        Seq::empty()
    } else {
        let rest = raw_contributions(cs.drop_last());
        if cs.last().author is Some {
            rest.push(contribution_of(cs.last()))
        } else {
            rest
        }
    }
}

/// Where a stable descending sort puts one more element: below every
/// element whose total is at least as large, above the rest.
pub open spec fn stable_insert(r: Seq<Contribution>, c: Contribution) -> Seq<Contribution>
    decreases r.len(),
{
    if r.len() == 0 {
        seq![c]
    } else if r.last().total >= c.total {
        r.push(c)
    } else {
        stable_insert(r.drop_last(), c).push(r.last())
    }
}

/// The stable descending sort of a contribution sequence: totals
/// non-increasing, equal totals keeping their input order.
pub open spec fn sort_desc(s: Seq<Contribution>) -> Seq<Contribution>
    decreases s.len(),
{
    if s.len() == 0 {
        Seq::empty()
    } else {
        stable_insert(sort_desc(s.drop_last()), s.last())
    }
}

/// The exact signed sum of the totals in the sequence.
pub open spec fn sum_totals(s: Seq<Contribution>) -> int
    decreases s.len(),
{
    if s.len() == 0 {
        0
    } else {
        sum_totals(s.drop_last()) + s.last().total
    }
}

/// How many leading entries of a ranking of length `n` the combined total
/// is taken over.
pub open spec fn top25_count(n: int) -> int {
    if n < TOP_CONTRIBUTOR_WINDOW as int {
        n
    } else {
        TOP_CONTRIBUTOR_WINDOW as int
    }
}

/// The combined total of the leading entries of a ranking.
pub open spec fn top25_sum(s: Seq<Contribution>) -> int {
    sum_totals(s.take(top25_count(s.len() as int)))
}

/// True when no record reports more weeks than the aggregator's bound.
pub open spec fn weeks_bounded(cs: Seq<ContributorResponse>) -> bool {
    forall|i: int|
        0 <= i < cs.len() ==> (#[trigger] cs[i].weeks@).len() <= MAX_WEEKS_PER_CONTRIBUTOR
}

impl AggregatedRepo {
    /// Totals small enough that the filter's arithmetic on them is exact.
    pub open spec fn totals_in_range(self) -> bool {
        &&& -(TOTAL_MAGNITUDE_LIMIT as int) <= self.top25_total_contributions as int
            <= TOTAL_MAGNITUDE_LIMIT as int
        &&& forall|i: int|
            0 <= i < self.contributions@.len()
                ==> -(TOTAL_MAGNITUDE_LIMIT as int)
                <= (#[trigger] self.contributions@[i]).total as int
                <= TOTAL_MAGNITUDE_LIMIT as int
    }
}

proof fn lemma_churn_total_step(weeks: Seq<WeeklyCommitsResponse>, j: int)
    requires
        0 <= j < weeks.len(),
    ensures
        churn_total(weeks.take(j + 1)) == churn_total(weeks.take(j)) + week_churn(weeks[j]),
{
    assert(weeks.take(j + 1).drop_last() =~= weeks.take(j));
    assert(weeks.take(j + 1).last() == weeks[j]);
}

proof fn lemma_sum_totals_step(s: Seq<Contribution>, k: int)
    requires
        0 <= k < s.len(),
    ensures
        sum_totals(s.take(k + 1)) == sum_totals(s.take(k)) + s[k].total,
{
    assert(s.take(k + 1).drop_last() =~= s.take(k));
    assert(s.take(k + 1).last() == s[k]);
}

proof fn lemma_stable_insert_at(r: Seq<Contribution>, c: Contribution, pos: int)
    requires
        0 <= pos <= r.len(),
        forall|k: int| pos <= k < r.len() ==> (#[trigger] r[k]).total < c.total,
        pos > 0 ==> r[pos - 1].total >= c.total,
    ensures
        stable_insert(r, c) == r.insert(pos, c),
    decreases r.len(),
{
    if r.len() == 0 {
        assert(stable_insert(r, c) =~= r.insert(0, c));
    } else if pos == r.len() {
        assert(r.last().total >= c.total);
        assert(stable_insert(r, c) =~= r.insert(pos, c));
    } else {
        assert(r[r.len() - 1].total < c.total);
        lemma_stable_insert_at(r.drop_last(), c, pos);
        assert(stable_insert(r.drop_last(), c).push(r.last()) =~= r.insert(pos, c));
    }
}

proof fn lemma_stable_insert_sorted(r: Seq<Contribution>, c: Contribution)
    requires
        forall|i: int, j: int| 0 <= i <= j < r.len() ==> r[i].total >= r[j].total,
    ensures
        forall|i: int, j: int|
            0 <= i <= j < stable_insert(r, c).len()
                ==> stable_insert(r, c)[i].total >= stable_insert(r, c)[j].total,
    decreases r.len(),
{
    if r.len() == 0 {
    } else if r.last().total >= c.total {
        assert forall|i: int, j: int|
            0 <= i <= j < stable_insert(r, c).len() implies stable_insert(r, c)[i].total
            >= stable_insert(r, c)[j].total by {
            if j < r.len() {
                assert(r[i].total >= r[j].total);
            } else if i < r.len() {
                assert(r[i].total >= r[r.len() - 1].total);
            }
        }
    } else {
        lemma_stable_insert_sorted(r.drop_last(), c);
        lemma_stable_insert_lower(r.drop_last(), c, r.last().total);
        let inner = stable_insert(r.drop_last(), c);
        assert forall|i: int, j: int|
            0 <= i <= j < stable_insert(r, c).len() implies stable_insert(r, c)[i].total
            >= stable_insert(r, c)[j].total by {
            if j < inner.len() {
                assert(inner[i].total >= inner[j].total);
            } else if i < inner.len() {
                assert(inner[i].total >= r.last().total);
            }
        }
    }
}

proof fn lemma_stable_insert_lower(r: Seq<Contribution>, c: Contribution, b: i128)
    requires
        forall|i: int| 0 <= i < r.len() ==> (#[trigger] r[i]).total >= b,
        c.total >= b,
    ensures
        forall|i: int|
            0 <= i < stable_insert(r, c).len() ==> (#[trigger] stable_insert(r, c)[i]).total >= b,
    decreases r.len(),
{
    if r.len() == 0 {
        assert forall|i: int| 0 <= i < stable_insert(r, c).len() implies (#[trigger] stable_insert(
            r,
            c,
        )[i]).total >= b by {
            assert(stable_insert(r, c)[i] == c);
        }
    } else if r.last().total >= c.total {
        assert forall|i: int| 0 <= i < stable_insert(r, c).len() implies (#[trigger] stable_insert(
            r,
            c,
        )[i]).total >= b by {
            if i < r.len() {
                assert(r[i].total >= b);
            }
        }
    } else {
        lemma_stable_insert_lower(r.drop_last(), c, b);
        let inner = stable_insert(r.drop_last(), c);
        assert forall|i: int| 0 <= i < stable_insert(r, c).len() implies (#[trigger] stable_insert(
            r,
            c,
        )[i]).total >= b by {
            if i < inner.len() {
                assert(inner[i].total >= b);
            } else {
                assert(r[r.len() - 1].total >= b);
            }
        }
    }
}

/// Sorting never reorders equal totals: filtering the ranking down to the
/// entries with any one total gives back exactly the input's entries with
/// that total, in the input's order.
pub proof fn lemma_sort_desc_stable(s: Seq<Contribution>, t: i128)
    ensures
        sort_desc(s).filter(has_total(t)) == s.filter(has_total(t)),
    decreases s.len(),
{
    reveal(Seq::filter);
    if s.len() == 0 {
        assert(s =~= Seq::<Contribution>::empty());
    } else {
        lemma_sort_desc_stable(s.drop_last(), t);
        lemma_stable_insert_filter(sort_desc(s.drop_last()), s.last(), t);
        assert(s.drop_last().push(s.last()) =~= s);
    }
}

/// The entries with total `t`.
pub open spec fn has_total(t: i128) -> spec_fn(Contribution) -> bool {
    |c: Contribution| c.total == t
}

proof fn lemma_stable_insert_filter(r: Seq<Contribution>, c: Contribution, t: i128)
    ensures
        c.total == t ==> stable_insert(r, c).filter(has_total(t)) == r.filter(has_total(t)).push(
            c,
        ),
        c.total != t ==> stable_insert(r, c).filter(has_total(t)) == r.filter(has_total(t)),
    decreases r.len(),
{
    reveal(Seq::filter);
    if r.len() == 0 {
        assert(r =~= Seq::<Contribution>::empty());
        assert(stable_insert(r, c) =~= r.push(c));
        assert(r.push(c).drop_last() =~= r);
    } else if r.last().total >= c.total {
        assert(r.push(c).drop_last() =~= r);
    } else {
        lemma_stable_insert_filter(r.drop_last(), c, t);
        let inner = stable_insert(r.drop_last(), c);
        assert(inner.push(r.last()).drop_last() =~= inner);
        assert(r.drop_last().push(r.last()) =~= r);
    }
}

/// The ranking is non-increasing by total.
pub proof fn lemma_sort_desc_sorted(s: Seq<Contribution>)
    ensures
        forall|i: int, j: int|
            0 <= i <= j < sort_desc(s).len() ==> sort_desc(s)[i].total >= sort_desc(s)[j].total,
    decreases s.len(),
{
    if s.len() > 0 {
        lemma_sort_desc_sorted(s.drop_last());
        lemma_stable_insert_sorted(sort_desc(s.drop_last()), s.last());
    }
}

/// Sorting keeps the length.
pub proof fn lemma_sort_desc_len(s: Seq<Contribution>)
    ensures
        sort_desc(s).len() == s.len(),
    decreases s.len(),
{
    if s.len() > 0 {
        lemma_sort_desc_len(s.drop_last());
        lemma_stable_insert_len(sort_desc(s.drop_last()), s.last());
    }
}

proof fn lemma_stable_insert_len(r: Seq<Contribution>, c: Contribution)
    ensures
        stable_insert(r, c).len() == r.len() + 1,
    decreases r.len(),
{
    if r.len() > 0 && r.last().total < c.total {
        lemma_stable_insert_len(r.drop_last(), c);
    }
}

/// When a repository has at most 25 contributors the combined total covers
/// all of them, and with none it is zero.
pub proof fn lemma_top25_covers_all(s: Seq<Contribution>)
    requires
        s.len() <= TOP_CONTRIBUTOR_WINDOW,
    ensures
        top25_sum(s) == sum_totals(s),
        s.len() == 0 ==> top25_sum(s) == 0,
{
    assert(s.take(top25_count(s.len() as int)) =~= s);
}

/// Turns raw per-contributor weekly activity into the ranked, summed view.
///
/// The result lists one contribution per input record whose author is
/// known — a record without an author identity is skipped — each totalled
/// as the exact signed sum of added plus deleted lines over its weeks.
/// The list is sorted by total, largest first, equal totals keeping their
/// input order, and the combined total of the first
/// `min(25, count)` entries is recorded alongside.
pub fn aggregate(repo: RepoResponse, contributors: Vec<ContributorResponse>) -> (r: AggregatedRepo)
    requires
        weeks_bounded(contributors@),
    ensures
        r.owner == repo.owner.login,
        r.name == repo.name,
        r.contributions@ == sort_desc(raw_contributions(contributors@)),
        r.top25_total_contributions as int == top25_sum(sort_desc(raw_contributions(contributors@))),
        r.totals_in_range(),
{
    let mut sorted: Vec<Contribution> = Vec::new();
    let mut i: usize = 0;
    while i < contributors.len()
        invariant
            weeks_bounded(contributors@),
            i <= contributors@.len(),
            sorted@ == sort_desc(raw_contributions(contributors@.take(i as int))),
            forall|k: int|
                0 <= k < sorted@.len()
                    ==> -(PER_CONTRIBUTOR_LIMIT as int)
                    <= (#[trigger] sorted@[k]).total as int
                    <= PER_CONTRIBUTOR_LIMIT as int,
        decreases contributors@.len() - i,
    {
        let c = &contributors[i];
        match &c.author {
            None => {
                proof {
                    assert(contributors@.take(i + 1).drop_last() =~= contributors@.take(i as int));
                    assert(contributors@.take(i + 1).last() == contributors@[i as int]);
                }
            },
            Some(author) => {
                let mut total: i128 = 0;
                let mut j: usize = 0;
                while j < c.weeks.len()
                    invariant
                        j <= c.weeks@.len(),
                        c.weeks@.len() <= MAX_WEEKS_PER_CONTRIBUTOR,
                        total as int == churn_total(c.weeks@.take(j as int)),
                        -(j * 0x1_0000_0000_0000_0000) <= total as int
                            <= j * 0x1_0000_0000_0000_0000,
                    decreases c.weeks@.len() - j,
                {
                    let w = &c.weeks[j];
                    proof {
                        lemma_churn_total_step(c.weeks@, j as int);
                    }
                    total = total + w.a as i128 + w.d as i128;
                    j = j + 1;
                }
                proof {
                    assert(c.weeks@.take(c.weeks@.len() as int) =~= c.weeks@);
                }
                let user = author.login.clone();
                let entry = Contribution { user, total };
                let mut pos: usize = sorted.len();
                while pos > 0 && sorted[pos - 1].total < total
                    invariant
                        pos <= sorted@.len(),
                        forall|k: int|
                            pos <= k < sorted@.len() ==> (#[trigger] sorted@[k]).total < total,
                    decreases pos,
                {
                    pos = pos - 1;
                }
                let ghost before = sorted@;
                proof {
                    lemma_stable_insert_at(before, entry, pos as int);
                    assert(contributors@.take(i + 1).drop_last() =~= contributors@.take(i as int));
                    assert(contributors@.take(i + 1).last() == contributors@[i as int]);
                    assert(entry == contribution_of(contributors@[i as int]));
                    let prev = raw_contributions(contributors@.take(i as int));
                    assert(raw_contributions(contributors@.take(i + 1)) == prev.push(entry));
                    assert(prev.push(entry).drop_last() =~= prev);
                    assert(sort_desc(prev.push(entry)) == stable_insert(sort_desc(prev), entry));
                }
                sorted.insert(pos, entry);
                proof {
                    before.insert_ensures(pos as int, entry);
                }
            },
        }
        i = i + 1;
    }
    proof {
        assert(contributors@.take(contributors@.len() as int) =~= contributors@);
        lemma_sort_desc_len(raw_contributions(contributors@));
    }
    let count = if sorted.len() < TOP_CONTRIBUTOR_WINDOW {
        sorted.len()
    } else {
        TOP_CONTRIBUTOR_WINDOW
    };
    let mut total25: i128 = 0;
    let mut k: usize = 0;
    while k < count
        invariant
            count <= TOP_CONTRIBUTOR_WINDOW,
            count <= sorted@.len(),
            k <= count,
            total25 as int == sum_totals(sorted@.take(k as int)),
            -(k * PER_CONTRIBUTOR_LIMIT as int) <= total25 as int
                <= k * PER_CONTRIBUTOR_LIMIT as int,
            forall|n: int|
                0 <= n < sorted@.len()
                    ==> -(PER_CONTRIBUTOR_LIMIT as int)
                    <= (#[trigger] sorted@[n]).total as int
                    <= PER_CONTRIBUTOR_LIMIT as int,
        decreases count - k,
    {
        proof {
            lemma_sum_totals_step(sorted@, k as int);
        }
        total25 = total25 + sorted[k].total;
        k = k + 1;
    }
    proof {
        assert(sorted@.take(count as int) =~= sorted@.take(top25_count(sorted@.len() as int)));
    }
    AggregatedRepo {
        owner: repo.owner.login,
        name: repo.name,
        top25_total_contributions: total25,
        contributions: sorted,
    }
}

} // verus!
