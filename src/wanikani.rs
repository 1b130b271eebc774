//! Records exchanged with the learning service. Instants are held as
//! microseconds since the Unix epoch (UTC).
use vstd::prelude::*;

verus! {

/// A user's progress record on one subject.
#[derive(Debug, Clone, PartialEq, Eq)]
pub struct Assignment {
    pub id: u64,
    pub object: String,
    pub url: String,
    pub data_updated_at: i64,
    pub data: AssignmentData,
}

#[derive(Debug, Clone, PartialEq, Eq)]
pub struct AssignmentData {
    pub subject_id: u64,
    pub subject_type: String,
    pub available_at: Option<i64>,
    pub srs_stage: u8,
}

#[derive(Debug, Clone, PartialEq, Eq)]
pub struct Meaning {
    pub meaning: String,
    pub primary: bool,
    pub accepted_answer: bool,
}

#[derive(Debug, Clone, PartialEq, Eq)]
pub struct Reading {
    pub reading: String,
    pub primary: bool,
    pub accepted_answer: bool,
    /// onyomi, kunyomi, nanori, where the subject has such a distinction.
    pub reading_type: Option<String>,
}

/// The answers given on one card: how often the meaning and the reading
/// were answered wrongly, and optionally when the review was done.
#[derive(Debug, Clone, PartialEq, Eq)]
pub struct ReviewResult {
    pub assignment_id: u64,
    pub incorrect_meaning_answers: u8,
    pub incorrect_reading_answers: u8,
    pub created_at: Option<i64>,
}

/// The service's answer to one submitted review.
#[derive(Debug, Clone, PartialEq, Eq)]
pub struct ReviewResponse {
    pub id: u64,
    pub object: String,
    pub url: String,
    pub data_updated_at: i64,
    pub data: SubmittedReviewData,
}

/// The content definition of a learnable item.
#[derive(Debug, Clone, PartialEq, Eq)]
pub struct Subject {
    pub id: u64,
    pub object: String,
    pub url: String,
    pub data_updated_at: i64,
    pub data: SubjectData,
}

#[derive(Debug, Clone, PartialEq, Eq)]
pub struct SubjectData {
    pub characters: Option<String>,
    pub meanings: Vec<Meaning>,
    /// Present for kanji and vocabulary only.
    pub readings: Option<Vec<Reading>>,
    pub level: u8,
    pub document_url: String,
    pub meaning_mnemonic: Option<String>,
    pub reading_mnemonic: Option<String>,
}

/// A recorded review: the stage transition it caused and the echoed counts.
#[derive(Debug, Clone, Copy, PartialEq, Eq)]
pub struct SubmittedReviewData {
    pub created_at: i64,
    pub assignment_id: u64,
    pub subject_id: u64,
    pub starting_srs_stage: u8,
    pub ending_srs_stage: u8,
    pub incorrect_meaning_answers: u8,
    pub incorrect_reading_answers: u8,
}

#[derive(Debug, Clone, PartialEq, Eq)]
pub struct Subscription {
    pub active: bool,
    pub max_level_granted: u8,
    pub subscription_type: String,
}

#[derive(Debug, Clone, PartialEq, Eq)]
pub struct Summary {
    pub data: SummaryData,
}

#[derive(Debug, Clone, PartialEq, Eq)]
pub struct SummaryData {
    pub lessons: Vec<TimeBucket>,
    pub reviews: Vec<TimeBucket>,
    pub next_reviews_at: Option<i64>,
}

/// Subjects that share one availability instant.
#[derive(Debug, Clone, PartialEq, Eq)]
pub struct TimeBucket {
    pub available_at: i64,
    pub subject_ids: Vec<u64>,
}

#[derive(Debug, Clone, PartialEq, Eq)]
pub struct User {
    pub username: String,
    pub level: u32,
    pub profile_url: String,
}

#[derive(Debug, Clone, PartialEq, Eq)]
pub struct UserData {
    pub id: String,
    pub username: String,
    pub level: u32,
    pub profile_url: String,
    pub subscription: Subscription,
}

} // verus!
