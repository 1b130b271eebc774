use wanipop::assembler::{assemble, review_card, ReviewCard};
use wanipop::config::WanipopConfig;
use wanipop::error::{failures_report, ReviewError};
use wanipop::popup::{popup_action, popup_interval_secs, PopupAction};
use wanipop::gateway::{
    assignments_query, authorization_value, check_status, subjects_query, submission_summary,
    user_summary,
};
use wanipop::selector::{
    first_available_bucket, has_available_reviews, has_available_reviews_at, sample_ids,
    select_batch, select_batch_at,
};
use wanipop::submitter::{aggregate_submissions, collect_confirmations, confirm_submission};
use wanipop::text::{decimal_string, id_list};
use wanipop::wanikani::{
    Assignment, AssignmentData, Meaning, Reading, ReviewResponse, ReviewResult, Subject,
    SubjectData, SubmittedReviewData, Subscription, SummaryData, TimeBucket, UserData,
};

/// 2001-09-09T01:46:40Z in microseconds: long past.
const PAST: i64 = 1_000_000_000_000_000;
/// Far in the future.
const FUTURE: i64 = i64::MAX;

fn bucket(at: i64, ids: &[u64]) -> TimeBucket {
    TimeBucket { available_at: at, subject_ids: ids.to_vec() }
}

fn summary(reviews: Vec<TimeBucket>) -> SummaryData {
    SummaryData { lessons: Vec::new(), reviews, next_reviews_at: None }
}

fn assignment(id: u64, subject_id: u64) -> Assignment {
    Assignment {
        id,
        object: "assignment".to_string(),
        url: format!("https://api.wanikani.com/v2/assignments/{}", id),
        data_updated_at: PAST,
        data: AssignmentData {
            subject_id,
            subject_type: "kanji".to_string(),
            available_at: Some(PAST),
            srs_stage: 3,
        },
    }
}

fn subject(id: u64, characters: &str) -> Subject {
    Subject {
        id,
        object: "kanji".to_string(),
        url: format!("https://api.wanikani.com/v2/subjects/{}", id),
        data_updated_at: PAST,
        data: SubjectData {
            characters: Some(characters.to_string()),
            meanings: vec![Meaning {
                meaning: format!("meaning {}", id),
                primary: true,
                accepted_answer: true,
            }],
            readings: Some(vec![Reading {
                reading: "いち".to_string(),
                primary: true,
                accepted_answer: true,
                reading_type: Some("kunyomi".to_string()),
            }]),
            level: 1,
            document_url: format!("https://www.wanikani.com/kanji/{}", characters),
            meaning_mnemonic: Some("mnemonic".to_string()),
            reading_mnemonic: None,
        },
    }
}

fn result(assignment_id: u64, meaning: u8, reading: u8) -> ReviewResult {
    ReviewResult {
        assignment_id,
        incorrect_meaning_answers: meaning,
        incorrect_reading_answers: reading,
        created_at: None,
    }
}

fn response_for(r: &ReviewResult) -> ReviewResponse {
    ReviewResponse {
        id: 9000 + r.assignment_id,
        object: "review".to_string(),
        url: "https://api.wanikani.com/v2/reviews/1".to_string(),
        data_updated_at: PAST + 7,
        data: SubmittedReviewData {
            created_at: PAST,
            assignment_id: r.assignment_id,
            subject_id: 100 + r.assignment_id,
            starting_srs_stage: 2,
            ending_srs_stage: 3,
            incorrect_meaning_answers: r.incorrect_meaning_answers,
            incorrect_reading_answers: r.incorrect_reading_answers,
        },
    }
}

fn is_multisubset(part: &[u64], whole: &[u64]) -> bool {
    let mut rest = whole.to_vec();
    for x in part {
        match rest.iter().position(|y| y == x) {
            Some(i) => {
                rest.remove(i);
            }
            None => return false,
        }
    }
    true
}

#[test]
fn first_qualifying_bucket_is_used() {
    let s = summary(vec![
        bucket(PAST, &[]),
        bucket(FUTURE, &[7, 8]),
        bucket(PAST + 1, &[1, 2, 3]),
        bucket(PAST + 2, &[4, 5]),
    ]);
    assert_eq!(first_available_bucket(&s.reviews, PAST + 10), Some(2));
    let ids = select_batch_at(&s, PAST + 10, 2).unwrap();
    assert_eq!(ids.len(), 2);
    assert!(is_multisubset(&ids, &[1, 2, 3]));
}

#[test]
fn selection_at_current_time_uses_the_clock() {
    let s = summary(vec![bucket(PAST, &[11, 12, 13, 14])]);
    assert!(has_available_reviews(&s));
    let ids = select_batch(&s, 3).unwrap();
    assert_eq!(ids.len(), 3);
    assert!(is_multisubset(&ids, &[11, 12, 13, 14]));
    let later = summary(vec![bucket(FUTURE, &[1])]);
    assert!(!has_available_reviews(&later));
}

#[test]
fn no_reviews_when_all_future_or_empty() {
    let s = summary(vec![bucket(FUTURE, &[1, 2]), bucket(PAST, &[])]);
    assert_eq!(select_batch_at(&s, PAST + 10, 5), Err(ReviewError::NoReviewsAvailable));
    assert_eq!(select_batch(&s, 5), Err(ReviewError::NoReviewsAvailable));
    assert!(!has_available_reviews_at(&s, PAST + 10));
    assert_eq!(first_available_bucket(&s.reviews, PAST + 10), None);
}

#[test]
fn no_reviews_for_empty_summary() {
    let s = summary(Vec::new());
    assert_eq!(select_batch_at(&s, PAST, 5), Err(ReviewError::NoReviewsAvailable));
}

#[test]
fn availability_instant_is_inclusive() {
    let s = summary(vec![bucket(PAST, &[4])]);
    assert!(has_available_reviews_at(&s, PAST));
    assert!(!has_available_reviews_at(&s, PAST - 1));
    assert_eq!(select_batch_at(&s, PAST, 5), Ok(vec![4]));
}

#[test]
fn small_bucket_is_returned_whole() {
    let s = summary(vec![bucket(PAST, &[30, 10, 20])]);
    assert_eq!(select_batch_at(&s, PAST, 3), Ok(vec![30, 10, 20]));
    assert_eq!(select_batch_at(&s, PAST, 10), Ok(vec![30, 10, 20]));
}

#[test]
fn zero_batch_size_gives_empty_list() {
    let s = summary(vec![bucket(PAST, &[1, 2, 3])]);
    assert_eq!(select_batch_at(&s, PAST, 0), Ok(Vec::new()));
}

#[test]
fn sampling_keeps_multiplicities() {
    let ids = vec![5, 5, 6, 7, 8, 9];
    for _ in 0..20 {
        let out = sample_ids(ids.clone(), 4);
        assert_eq!(out.len(), 4);
        assert!(is_multisubset(&out, &ids));
    }
    assert_eq!(sample_ids(vec![1, 2], 2), vec![1, 2]);
}

#[test]
fn cards_join_by_subject_id() {
    let assignments = vec![assignment(1, 100), assignment(2, 200), assignment(3, 300)];
    let subjects = vec![subject(300, "三"), subject(100, "一")];
    let cards = assemble(&assignments, &subjects);
    assert_eq!(cards.len(), 2);
    assert_eq!(cards[0].assignment_id, 1);
    assert_eq!(cards[0].subject_id, 100);
    assert_eq!(cards[0].characters, Some("一".to_string()));
    assert_eq!(cards[1].assignment_id, 3);
    assert_eq!(cards[1].subject_id, 300);
    assert_eq!(cards[1].subject_type, "kanji");
    assert_eq!(cards[1].meanings, subjects[0].data.meanings);
    assert_eq!(cards[1].readings, subjects[0].data.readings);
    assert_eq!(cards[1].meaning_mnemonic, Some("mnemonic".to_string()));
    assert_eq!(cards[1].reading_mnemonic, None);
}

#[test]
fn cards_never_outnumber_assignments() {
    let assignments = vec![assignment(1, 100)];
    let subjects = vec![subject(100, "一"), subject(100, "壱")];
    let cards = assemble(&assignments, &subjects);
    assert_eq!(cards.len(), 1);
    assert_eq!(cards[0].characters, Some("一".to_string()));
    assert!(assemble(&Vec::new(), &subjects).is_empty());
    assert!(assemble(&assignments, &Vec::new()).is_empty());
}

#[test]
fn card_copies_fields() {
    let a = assignment(42, 7);
    let mut s = subject(7, "七");
    s.data.readings = None;
    s.data.characters = None;
    let card: ReviewCard = review_card(&a, &s);
    assert_eq!(card.assignment_id, 42);
    assert_eq!(card.subject_id, 7);
    assert_eq!(card.characters, None);
    assert_eq!(card.readings, None);
    assert_eq!(card.meanings, s.data.meanings);
}

#[test]
fn all_submissions_succeed() {
    let inputs = vec![result(1, 0, 1), result(2, 2, 0), result(3, 0, 0)];
    let sent: Vec<Result<ReviewResponse, String>> =
        inputs.iter().map(|r| Ok(response_for(r))).collect();
    let confirmed = collect_confirmations(&sent).unwrap();
    assert_eq!(confirmed.len(), 3);
    let mut ids: Vec<u64> = confirmed.iter().map(|d| d.assignment_id).collect();
    ids.sort();
    assert_eq!(ids, vec![1, 2, 3]);
    assert_eq!(confirmed[1].incorrect_meaning_answers, 2);
    assert_eq!(confirmed[0].incorrect_reading_answers, 1);
    assert_eq!(confirmed[0].created_at, PAST + 7);
}

#[test]
fn one_transport_failure_fails_the_batch() {
    let inputs = vec![result(1, 0, 1), result(2, 2, 0), result(3, 0, 0)];
    let sent: Vec<Result<ReviewResponse, String>> = vec![
        Ok(response_for(&inputs[0])),
        Err("connection reset".to_string()),
        Ok(response_for(&inputs[2])),
    ];
    let err = collect_confirmations(&sent).unwrap_err();
    assert_eq!(
        err,
        ReviewError::AggregateSubmissionFailure {
            count: 1,
            messages: vec!["connection reset".to_string()]
        }
    );
    assert_eq!(err.message(), "1 reviews failed: [\"connection reset\"]");
    assert_eq!(
        err.message(),
        format!("{} reviews failed: {:?}", 1, vec!["connection reset".to_string()])
    );
}

#[test]
fn confirmation_echoes_the_review() {
    let input = result(5, 3, 4);
    let d = confirm_submission(&response_for(&input));
    assert_eq!(d.assignment_id, 5);
    assert_eq!(d.incorrect_meaning_answers, 3);
    assert_eq!(d.incorrect_reading_answers, 4);
    assert_eq!(d.starting_srs_stage, 2);
    assert_eq!(d.ending_srs_stage, 3);
    assert_eq!(d.created_at, PAST + 7);
}

#[test]
fn confirmation_takes_fields_from_the_answer() {
    let input = result(5, 3, 4);
    let mut response = response_for(&input);
    response.data.incorrect_reading_answers = 0;
    let d = confirm_submission(&response);
    assert_eq!(d.incorrect_reading_answers, 0);
    assert_eq!(collect_confirmations(&vec![Ok(response)]), Ok(vec![d]));
}

#[test]
fn aggregate_keeps_order_and_texts() {
    let d = response_for(&result(1, 0, 0)).data;
    let ok: Vec<Result<SubmittedReviewData, String>> = vec![Ok(d), Ok(d)];
    assert_eq!(aggregate_submissions(ok), Ok(vec![d, d]));
    let mixed = vec![Err("a".to_string()), Ok(d), Err("b".to_string())];
    let err = aggregate_submissions(mixed).unwrap_err();
    assert_eq!(err.message(), "2 reviews failed: [\"a\", \"b\"]");
    let quoted_err = aggregate_submissions(vec![Err("say \"hi\"\n".to_string())]).unwrap_err();
    assert_eq!(quoted_err.message(), "1 reviews failed: [\"say \\\"hi\\\"\\n\"]");
    assert_eq!(
        failures_report(2, &vec!["\"x\"".to_string(), "\"y\"".to_string()]),
        "2 reviews failed: [\"x\", \"y\"]"
    );
    assert_eq!(failures_report(0, &Vec::new()), "0 reviews failed: []");
    assert_eq!(aggregate_submissions(Vec::new()), Ok(Vec::new()));
}

#[test]
fn error_texts() {
    assert_eq!(ReviewError::ConfigurationMissing.message(), "API key not set");
    assert_eq!(ReviewError::NoReviewsAvailable.message(), "No reviews available right now");
    assert_eq!(
        ReviewError::UpstreamRejected(401).message(),
        "Request rejected with status 401"
    );
    assert_eq!(
        ReviewError::TransportFailure("HTTP error: timed out".to_string()).message(),
        "HTTP error: timed out"
    );
    assert_eq!(
        ReviewError::MalformedResponse("missing field `data`".to_string()).message(),
        "Serde error: missing field `data`"
    );
}

#[test]
fn status_classification() {
    assert_eq!(check_status(200), Ok(()));
    assert_eq!(check_status(201), Ok(()));
    assert_eq!(check_status(299), Ok(()));
    assert_eq!(check_status(199), Err(ReviewError::UpstreamRejected(199)));
    assert_eq!(check_status(302), Err(ReviewError::UpstreamRejected(302)));
    assert_eq!(check_status(401), Err(ReviewError::UpstreamRejected(401)));
    assert_eq!(check_status(503), Err(ReviewError::UpstreamRejected(503)));
}

#[test]
fn request_addresses_and_headers() {
    assert_eq!(authorization_value("abc-123"), "Bearer abc-123");
    assert_eq!(
        assignments_query(&[1, 20, 300]),
        "https://api.wanikani.com/v2/assignments?subject_ids=1,20,300"
    );
    assert_eq!(subjects_query(&[440]), "https://api.wanikani.com/v2/subjects?ids=440");
    assert_eq!(assignments_query(&[]), "https://api.wanikani.com/v2/assignments?subject_ids=");
    assert_eq!(subjects_query(&[]), "https://api.wanikani.com/v2/subjects?ids=");
}

#[test]
fn decimal_rendering() {
    assert_eq!(decimal_string(0), "0");
    assert_eq!(decimal_string(9), "9");
    assert_eq!(decimal_string(10), "10");
    assert_eq!(decimal_string(1234567890), "1234567890");
    assert_eq!(decimal_string(u64::MAX), "18446744073709551615");
    assert_eq!(id_list(&[]), "");
    assert_eq!(id_list(&[0, 7, 105]), "0,7,105");
}

#[test]
fn summaries_for_the_user() {
    let user = UserData {
        id: "5a6a5234-a392-4a87-8f3f-33342afe8a42".to_string(),
        username: "koichi".to_string(),
        level: 12,
        profile_url: "https://www.wanikani.com/users/koichi".to_string(),
        subscription: Subscription {
            active: true,
            max_level_granted: 60,
            subscription_type: "lifetime".to_string(),
        },
    };
    assert_eq!(user_summary(&user), "User: koichi, Level: 12");
    let d = response_for(&result(1, 0, 0)).data;
    assert_eq!(submission_summary(&d), "Submitted review. SRS went from 2 → 3");
}

#[test]
fn config_defaults_and_setters() {
    let mut cfg = WanipopConfig::default();
    assert_eq!(cfg, WanipopConfig::new(5, 60, None, false));
    assert_eq!(cfg.api_key(), Err(ReviewError::ConfigurationMissing));
    assert_eq!(cfg.api_key_or_message(), Err("No api key set".to_string()));
    assert_eq!(cfg.batch_settings(), Err(ReviewError::ConfigurationMissing));
    cfg.set_api_key("key".to_string());
    cfg.set_num_of_reviews_per_batch(8);
    cfg.set_time_between_popups_in_minutes(15);
    cfg.set_hide_window_decorations(true);
    assert_eq!(cfg, WanipopConfig::new(8, 15, Some("key".to_string()), true));
    assert_eq!(cfg.api_key(), Ok("key".to_string()));
    assert_eq!(cfg.api_key_or_message(), Ok("key".to_string()));
    assert_eq!(cfg.batch_settings(), Ok(("key".to_string(), 8)));
}

#[test]
fn popup_decisions() {
    let card = review_card(&assignment(1, 100), &subject(100, "一"));
    assert_eq!(popup_action(true, &Ok(vec![card.clone()])), PopupAction::Skip);
    assert_eq!(popup_action(false, &Ok(vec![card])), PopupAction::ShowCards);
    assert_eq!(popup_action(false, &Ok(Vec::new())), PopupAction::NotifyCaughtUp);
    assert_eq!(
        popup_action(false, &Err("No reviews available right now".to_string())),
        PopupAction::NotifyCaughtUp
    );
    assert_eq!(
        popup_action(false, &Err("Summary error: timed out".to_string())),
        PopupAction::ReportFailure
    );
    assert_eq!(popup_interval_secs(60), 3600);
    assert_eq!(popup_interval_secs(0), 0);
    assert_eq!(popup_interval_secs(usize::MAX), u64::MAX);
}
