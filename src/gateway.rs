//! What every request to the service carries, and how its answer is judged.
//! The requests themselves are made by the caller.
use vstd::prelude::*;
use crate::error::ReviewError;
use crate::text::{decimal, id_csv, id_list, push_decimal};
use crate::wanikani::{SubmittedReviewData, UserData};

verus! {

pub const USER_URL: &'static str = "https://api.wanikani.com/v2/user";

pub const SUMMARY_URL: &'static str = "https://api.wanikani.com/v2/summary";

pub const REVIEWS_URL: &'static str = "https://api.wanikani.com/v2/reviews";

pub const AUTHORIZATION_HEADER: &'static str = "Authorization";

pub const REVISION_HEADER: &'static str = "Wanikani-Revision";

/// The API revision that every request asks for.
pub const REVISION: &'static str = "20170710";

/// The value of the authorization header for `api_key`.
pub fn authorization_value(api_key: &str) -> (r: String)
    ensures
        r@ == "Bearer "@ + api_key@,
{
    let mut s = String::from_str("Bearer ");
    s.append(api_key);
    s
}

/// The address of the assignments of the given subjects. For an empty list
/// the filter is empty and the service answers with its default listing, so
/// a caller that wants none asks for nothing.
pub fn assignments_query(ids: &[u64]) -> (r: String)
    ensures
        r@ == "https://api.wanikani.com/v2/assignments?subject_ids="@ + id_csv(ids@),
{
    let mut s = String::from_str("https://api.wanikani.com/v2/assignments?subject_ids=");
    let list = id_list(ids);
    s.append(list.as_str());
    s
}

/// The address of the given subjects. For an empty list the filter is
/// empty and the service answers with its default listing, so a caller that
/// wants none asks for nothing.
pub fn subjects_query(ids: &[u64]) -> (r: String)
    ensures
        r@ == "https://api.wanikani.com/v2/subjects?ids="@ + id_csv(ids@),
{
    let mut s = String::from_str("https://api.wanikani.com/v2/subjects?ids=");
    let list = id_list(ids);
    s.append(list.as_str());
    s
}

/// Accepts a success status (200 to 299) and rejects every other one.
pub fn check_status(status: u16) -> (r: Result<(), ReviewError>)
    ensures
        200 <= status <= 299 <==> r is Ok,
        r is Err ==> r == Err::<(), ReviewError>(ReviewError::UpstreamRejected(status)),
{
    if 200 <= status && status <= 299 {
        Ok(())
    } else {
        Err(ReviewError::UpstreamRejected(status))
    }
}

/// A one-line description of the user: name and level.
pub fn user_summary(user: &UserData) -> (r: String)
    ensures
        r@ == "User: "@ + user.username@ + ", Level: "@ + decimal(user.level as nat),
{
    let mut s = String::from_str("User: ");
    s.append(user.username.as_str());
    s.append(", Level: ");
    push_decimal(&mut s, user.level as u64);
    s
}

/// A one-line description of a recorded review: the stage it moved from and
/// the stage it moved to.
pub fn submission_summary(d: &SubmittedReviewData) -> (r: String)
    ensures
        r@ == "Submitted review. SRS went from "@ + decimal(d.starting_srs_stage as nat) + " → "@
            + decimal(d.ending_srs_stage as nat),
{
    let mut s = String::from_str("Submitted review. SRS went from ");
    push_decimal(&mut s, d.starting_srs_stage as u64);
    s.append(" → ");
    push_decimal(&mut s, d.ending_srs_stage as u64);
    s
}

} // verus!
