use vstd::prelude::*;

verus! {

/// Identity of a user as the code-hosting API reports it.
#[derive(Debug, PartialEq)]
pub struct UserResponse {
    pub login: String,
}

/// Identity of a repository: its name and its owner.
#[derive(Debug, PartialEq)]
pub struct RepoResponse {
    pub name: String,
    pub owner: UserResponse,
}

/// Raw weekly commit activity of one contributor. Some records come back
/// without an author identity; the aggregator's policy for such records is
/// stated on [`crate::aggregator::aggregate`].
#[derive(Debug, PartialEq)]
pub struct ContributorResponse {
    pub author: Option<UserResponse>,
    pub weeks: Vec<WeeklyCommitsResponse>,
}

/// One week of commit activity: added lines `a` and deleted lines `d`.
/// The upstream API sometimes reports negative values; they are passed
/// through unmodified, never clamped.
#[derive(Debug, PartialEq, Clone, Copy)]
pub struct WeeklyCommitsResponse {
    pub a: i64,
    pub d: i64,
}

} // verus!
