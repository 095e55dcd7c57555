use vstd::prelude::*;

use crate::aggregator::AggregatedRepo;

verus! {

/// A repository the threshold rule accepted, together with the exact
/// ratio behind the decision: the most valuable contributor accounts for
/// `mvp_total / top25_total` of the combined top-25 churn. The ratio is
/// kept as that integer pair; the presentation layer renders it.
#[derive(Debug, PartialEq)]
pub struct RepoWithMvp {
    pub name: String,
    pub owner: String,
    pub mvp: String,
    pub mvp_total: i128,
    pub top25_total: i128,
}

/// The pass mark: three quarters of the combined top-25 total, rounded
/// down (exact integer multiply-then-divide, never floating point).
pub open spec fn criterion(top25_total: int) -> int {
    (top25_total * 3) / 4
}

/// When the threshold rule accepts a repository: it has a contributor,
/// the combined total is not zero, and the largest total reaches the
/// pass mark.
pub open spec fn accepts(repo: AggregatedRepo) -> bool {
    &&& repo.contributions@.len() > 0
    &&& repo.top25_total_contributions != 0
    &&& repo.contributions@[0].total as int >= criterion(repo.top25_total_contributions as int)
}

/// Applies the 75%-threshold rule to an aggregated repository.
///
/// A repository without contributors, or whose combined top-25 total is
/// zero, yields no result rather than failing. Otherwise the top entry of
/// the ranking is measured against the pass mark, and on success the
/// repository is returned with its most valuable contributor and the
/// exact churn ratio.
pub fn filter(repo: AggregatedRepo) -> (r: Option<RepoWithMvp>)
    requires
        repo.totals_in_range(),
    ensures
        r is Some <==> accepts(repo),
        r matches Some(m) ==> {
            &&& m.name == repo.name
            &&& m.owner == repo.owner
            &&& m.mvp == repo.contributions@[0].user
            &&& m.mvp_total == repo.contributions@[0].total
            &&& m.top25_total == repo.top25_total_contributions
        },
{
    if repo.contributions.len() == 0 {
        return None;
    }
    let t = repo.top25_total_contributions;
    if t == 0 {
        return None;
    }
    let mut repo = repo;
    let top = repo.contributions.remove(0);
    let prod = t * 3;
    let crit = if prod >= 0 {
        prod / 4
    } else {
        -((-prod + 3) / 4)
    };
    proof {
        lemma_floor_div_4(prod as int);
    }
    if top.total < crit {
        None
    } else {
        Some(
            RepoWithMvp {
                name: repo.name,
                owner: repo.owner,
                mvp: top.user,
                mvp_total: top.total,
                top25_total: t,
            },
        )
    }
}

proof fn lemma_floor_div_4(p: int)
    ensures
        p < 0 ==> -((-p + 3) / 4) == p / 4,
{
    if p < 0 {
        let q = p / 4;
        let r = p % 4;
        vstd::arithmetic::div_mod::lemma_fundamental_div_mod(p, 4);
        vstd::arithmetic::div_mod::lemma_fundamental_div_mod(-p + 3, 4);
        vstd::arithmetic::div_mod::lemma_mod_bound(p, 4);
        vstd::arithmetic::div_mod::lemma_mod_bound(-p + 3, 4);
    }
}

/// The threshold test restated without division: whenever four divides
/// three times the combined total exactly, acceptance is the same as the
/// cross-multiplied comparison `top * 4 >= top25_total * 3`. (When the
/// division leaves a remainder the rounded-down pass mark deliberately
/// admits slightly smaller tops, so the two tests differ there.)
pub proof fn lemma_threshold_cross_multiplied(repo: AggregatedRepo)
    requires
        repo.contributions@.len() > 0,
        repo.top25_total_contributions != 0,
        (repo.top25_total_contributions as int * 3) % 4 == 0,
    ensures
        accepts(repo) <==> repo.contributions@[0].total as int * 4
            >= repo.top25_total_contributions as int * 3,
{
    let top = repo.contributions@[0].total as int;
    let p = repo.top25_total_contributions as int * 3;
    vstd::arithmetic::div_mod::lemma_fundamental_div_mod(p, 4);
    assert(p == 4 * (p / 4));
}

} // verus!
