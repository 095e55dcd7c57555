use ghbf_lib::{
    aggregate, filter, AggregatedRepo, Contribution, ContributorResponse, RepoResponse,
    RepoWithMvp, UserResponse, WeeklyCommitsResponse,
};

fn contribution(user: &str, total: i128) -> Contribution {
    Contribution { user: user.to_owned(), total }
}

fn aggregated(totals: &[(&str, i128)], top25: i128) -> AggregatedRepo {
    AggregatedRepo {
        owner: "owner".to_owned(),
        name: "repo".to_owned(),
        top25_total_contributions: top25,
        contributions: totals.iter().map(|&(u, t)| contribution(u, t)).collect(),
    }
}

#[test]
fn rejects_bus_factor_below_75() {
    let repo = aggregated(&[("owner", 74), ("user", 26)], 100);
    assert_eq!(filter(repo), None);
}

#[test]
fn accepts_bus_factor_above_75() {
    let repo = aggregated(&[("owner", 75), ("user", 25)], 100);
    let result = filter(repo);
    assert_eq!(
        result,
        Some(RepoWithMvp {
            name: "repo".to_owned(),
            owner: "owner".to_owned(),
            mvp: "owner".to_owned(),
            mvp_total: 75,
            top25_total: 100,
        })
    );
    let got = result.unwrap();
    assert_eq!(got.mvp_total as f64 / got.top25_total as f64, 0.75);
}

#[test]
fn dominant_contributor_is_the_mvp() {
    let repo = RepoResponse {
        name: "repo".to_owned(),
        owner: UserResponse { login: "owner".to_owned() },
    };
    let contributors = vec![
        ContributorResponse {
            author: Some(UserResponse { login: "a".to_owned() }),
            weeks: vec![
                WeeklyCommitsResponse { a: 20, d: 0 },
                WeeklyCommitsResponse { a: 10, d: 10 },
            ],
        },
        ContributorResponse {
            author: Some(UserResponse { login: "b".to_owned() }),
            weeks: vec![
                WeeklyCommitsResponse { a: 2, d: 1 },
                WeeklyCommitsResponse { a: 3, d: 4 },
            ],
        },
    ];
    let agg = aggregate(repo, contributors);
    assert_eq!(agg.top25_total_contributions, 50);
    let got = filter(agg).unwrap();
    assert_eq!(got.mvp, "a".to_owned());
    assert_eq!(got.mvp_total, 40);
    assert_eq!(got.top25_total, 50);
    assert_eq!(got.mvp_total as f64 / got.top25_total as f64, 0.8);
}

#[test]
fn twenty_nine_contributors_are_not_dominated() {
    let repo = RepoResponse {
        name: "repo".to_owned(),
        owner: UserResponse { login: "owner".to_owned() },
    };
    let contributors: Vec<ContributorResponse> = (1..30)
        .map(|i| ContributorResponse {
            author: Some(UserResponse { login: format!("user{}", i) }),
            weeks: vec![WeeklyCommitsResponse { a: i, d: 0 }],
        })
        .collect();
    let agg = aggregate(repo, contributors);
    assert_eq!(agg.top25_total_contributions, 425);
    assert_eq!(agg.contributions[0].total, 29);
    assert_eq!(filter(agg), None);
}

#[test]
fn rounded_down_pass_mark_admits_smaller_top() {
    // criterion = floor(3 * 3 / 4) = 2, so a top total of 2 passes even
    // though 2 * 4 < 3 * 3.
    let repo = aggregated(&[("owner", 2), ("user", 1)], 3);
    let got = filter(repo).unwrap();
    assert_eq!(got.mvp, "owner".to_owned());
    assert_eq!(got.mvp_total, 2);
    assert_eq!(got.top25_total, 3);
}

#[test]
fn no_contributors_yield_no_result() {
    let repo = aggregated(&[], 0);
    assert_eq!(filter(repo), None);
}

#[test]
fn zero_combined_total_yields_no_result() {
    let repo = aggregated(&[("up", 0), ("down", 0)], 0);
    assert_eq!(filter(repo), None);
}
