//! Decisions of the periodic background check: how long to wait, and what to
//! do with the batch that a check fetched.
use vstd::prelude::*;
use crate::assembler::ReviewCard;
use crate::error::{error_text, ReviewError};

verus! {

/// What the shell does after a background check.
#[derive(Debug, Clone, Copy, PartialEq, Eq)]
pub enum PopupAction {
    /// The window is already open: leave it alone.
    Skip,
    /// Show the window with the fetched cards.
    ShowCards,
    /// Tell the user that no review is due.
    NotifyCaughtUp,
    /// The check failed for another reason: report it and wait for the next.
    ReportFailure,
}

/// The action for a check, from the answer of the batch command: nothing
/// while the window is visible; the cards where some were fetched; a
/// caught-up notice where there is nothing to review, an empty batch or the
/// text of `NoReviewsAvailable`; else the failure is reported.
pub fn popup_action(window_visible: bool, batch: &Result<Vec<ReviewCard>, String>) -> (r:
    PopupAction)
    ensures
        window_visible ==> r == PopupAction::Skip,
        !window_visible ==> r == match batch {
            Ok(cards) => if cards@.len() > 0 {
                PopupAction::ShowCards
            } else {
                PopupAction::NotifyCaughtUp
            },
            Err(m) => if m@ == error_text(ReviewError::NoReviewsAvailable) {
                PopupAction::NotifyCaughtUp
            } else {
                PopupAction::ReportFailure
            },
        },
{
    if window_visible {
        return PopupAction::Skip;
    }
    match batch {
        Ok(cards) => if cards.len() > 0 {
            PopupAction::ShowCards
        } else {
            PopupAction::NotifyCaughtUp
        },
        Err(m) => if *m == ReviewError::NoReviewsAvailable.message() {
            PopupAction::NotifyCaughtUp
        } else {
            PopupAction::ReportFailure
        },
    }
}

/// The wait between two checks in seconds, held at `u64::MAX` where the
/// product does not fit.
pub fn popup_interval_secs(minutes: usize) -> (r: u64)
    ensures
        r == if minutes * 60 <= u64::MAX {
            minutes * 60
        } else {
            u64::MAX as int
        },
{
    match (minutes as u64).checked_mul(60) {
        Some(secs) => secs,
        None => u64::MAX,
    }
}

} // verus!
