use ghbf_lib::{
    aggregate, AggregatedRepo, Contribution, ContributorResponse, RepoResponse, UserResponse,
    WeeklyCommitsResponse,
};

fn repo_response(name: &str, owner: &str) -> RepoResponse {
    RepoResponse {
        name: name.to_owned(),
        owner: UserResponse { login: owner.to_owned() },
    }
}

fn contributor_response(author: &str, weeks: &[(i64, i64)]) -> ContributorResponse {
    ContributorResponse {
        author: Some(UserResponse { login: author.to_owned() }),
        weeks: weeks.iter().map(|&(a, d)| WeeklyCommitsResponse { a, d }).collect(),
    }
}

fn contribution(user: &str, total: i128) -> Contribution {
    Contribution { user: user.to_owned(), total }
}

#[test]
fn aggregation_ordered() {
    let repo = repo_response("repo", "owner");
    let contributors = vec![
        contributor_response("owner", &[(20, 0), (10, 10)]),
        contributor_response("user", &[(2, 1), (3, 4)]),
    ];
    let aggregated = AggregatedRepo {
        owner: "owner".to_owned(),
        name: "repo".to_owned(),
        top25_total_contributions: 50,
        contributions: vec![contribution("owner", 40), contribution("user", 10)],
    };

    assert_eq!(aggregate(repo, contributors), aggregated);
}

#[test]
fn aggregation_unordered() {
    let repo = repo_response("repo", "owner");
    let contributors = vec![
        contributor_response("owner", &[(2, 1), (3, 4)]),
        contributor_response("user", &[(20, 0), (10, 10)]),
    ];
    let aggregated = AggregatedRepo {
        owner: "owner".to_owned(),
        name: "repo".to_owned(),
        top25_total_contributions: 50,
        contributions: vec![contribution("user", 40), contribution("owner", 10)],
    };

    assert_eq!(aggregate(repo, contributors), aggregated);
}

#[test]
fn aggregation_gt25() {
    let repo = repo_response("repo", "owner");
    let contributors: Vec<ContributorResponse> = (1..30)
        .map(|i| contributor_response(&format!("user{}", i), &[(i, 0)]))
        .collect();
    let aggregated = AggregatedRepo {
        owner: "owner".to_owned(),
        name: "repo".to_owned(),
        top25_total_contributions: (5..30).reduce(|a, b| a + b).unwrap() as i128,
        contributions: (1..30)
            .rev()
            .map(|i| contribution(&format!("user{}", i), i as i128))
            .collect(),
    };

    assert_eq!(aggregate(repo, contributors), aggregated);
}

#[test]
fn negative_weeks_pass_through() {
    let repo = repo_response("repo", "owner");
    let contributors = vec![
        contributor_response("steady", &[(3, 3)]),
        contributor_response("undoer", &[(5, -10), (0, 0)]),
    ];
    let aggregated = AggregatedRepo {
        owner: "owner".to_owned(),
        name: "repo".to_owned(),
        top25_total_contributions: 1,
        contributions: vec![contribution("steady", 6), contribution("undoer", -5)],
    };

    assert_eq!(aggregate(repo, contributors), aggregated);
}

#[test]
fn equal_totals_keep_input_order() {
    let repo = repo_response("repo", "owner");
    let contributors = vec![
        contributor_response("first", &[(1, 1)]),
        contributor_response("second", &[(2, 0)]),
        contributor_response("third", &[(0, 2)]),
        contributor_response("bigger", &[(3, 0)]),
    ];
    let aggregated = AggregatedRepo {
        owner: "owner".to_owned(),
        name: "repo".to_owned(),
        top25_total_contributions: 9,
        contributions: vec![
            contribution("bigger", 3),
            contribution("first", 2),
            contribution("second", 2),
            contribution("third", 2),
        ],
    };

    assert_eq!(aggregate(repo, contributors), aggregated);
}

#[test]
fn authorless_records_are_skipped() {
    let repo = repo_response("repo", "owner");
    let contributors = vec![
        ContributorResponse {
            author: None,
            weeks: vec![WeeklyCommitsResponse { a: 100, d: 100 }],
        },
        contributor_response("known", &[(1, 2)]),
    ];
    let aggregated = AggregatedRepo {
        owner: "owner".to_owned(),
        name: "repo".to_owned(),
        top25_total_contributions: 3,
        contributions: vec![contribution("known", 3)],
    };

    assert_eq!(aggregate(repo, contributors), aggregated);
}

#[test]
fn no_contributors_aggregate_to_empty() {
    let repo = repo_response("repo", "owner");
    let aggregated = AggregatedRepo {
        owner: "owner".to_owned(),
        name: "repo".to_owned(),
        top25_total_contributions: 0,
        contributions: vec![],
    };

    assert_eq!(aggregate(repo, vec![]), aggregated);
}
