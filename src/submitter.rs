//! Folding the outcomes of a batch of review submissions into one result.
use vstd::prelude::*;
use crate::error::ReviewError;
use crate::wanikani::{ReviewResponse, ReviewResult, SubmittedReviewData};

verus! {

/// `d` repeats the assignment and the counts of wrong answers of `input`.
pub open spec fn echoes(input: ReviewResult, d: SubmittedReviewData) -> bool {
    &&& d.assignment_id == input.assignment_id
    &&& d.incorrect_meaning_answers == input.incorrect_meaning_answers
    &&& d.incorrect_reading_answers == input.incorrect_reading_answers
}

/// The confirmation carried by an answer: its data as the service sent it,
/// stamped with the instant at which the service recorded it.
pub open spec fn confirmed_data(response: ReviewResponse) -> SubmittedReviewData {
    SubmittedReviewData { created_at: response.data_updated_at, ..response.data }
}

/// The outcome of one submission, from what the request gave.
pub open spec fn submission_outcome(sent: Result<ReviewResponse, String>) -> Result<
    SubmittedReviewData,
    Seq<char>,
> {
    match sent {
        Ok(response) => Ok(confirmed_data(response)),
        Err(m) => Err(m@),
    }
}

pub open spec fn outcome_view(o: Result<SubmittedReviewData, String>) -> Result<
    SubmittedReviewData,
    Seq<char>,
> {
    match o {
        Ok(d) => Ok(d),
        Err(m) => Err(m@),
    }
}

/// The confirmations among the outcomes, in their order.
pub open spec fn successes(os: Seq<Result<SubmittedReviewData, Seq<char>>>) -> Seq<
    SubmittedReviewData,
>
    decreases os.len(),
{
    if os.len() == 0 {
        Seq::empty()
    } else {
        match os.last() {
            Ok(d) => successes(os.drop_last()).push(d),
            Err(_) => successes(os.drop_last()),
        }
    }
}

/// The failure texts among the outcomes, in their order.
pub open spec fn failures(os: Seq<Result<SubmittedReviewData, Seq<char>>>) -> Seq<Seq<char>>
    decreases os.len(),
{
    if os.len() == 0 {
        Seq::empty()
    } else {
        match os.last() {
            Ok(_) => failures(os.drop_last()),
            Err(m) => failures(os.drop_last()).push(m),
        }
    }
}

/// `r` reports the outcomes `os`: all confirmations where nothing failed,
/// else the number and the texts of the failures, and no confirmation.
pub open spec fn reports(
    r: Result<Vec<SubmittedReviewData>, ReviewError>,
    os: Seq<Result<SubmittedReviewData, Seq<char>>>,
) -> bool {
    match r {
        Ok(v) => failures(os).len() == 0 && v@ == successes(os),
        Err(ReviewError::AggregateSubmissionFailure { count, messages }) => {
            &&& failures(os).len() > 0
            &&& count == failures(os).len()
            &&& messages@.map_values(|m: String| m@) == failures(os)
        },
        Err(_) => false,
    }
}

/// The outcomes of a batch of submissions.
pub open spec fn batch_outcomes(sent: Seq<Result<ReviewResponse, String>>) -> Seq<
    Result<SubmittedReviewData, Seq<char>>,
> {
    sent.map_values(|o: Result<ReviewResponse, String>| submission_outcome(o))
}

/// The confirmation in an answer: the fields are taken as the service sent
/// them, not recomputed from the submitted review.
pub fn confirm_submission(response: &ReviewResponse) -> (r: SubmittedReviewData)
    ensures
        r == confirmed_data(*response),
{
    SubmittedReviewData { created_at: response.data_updated_at, ..response.data }
}

/// All confirmations where every submission succeeded; else one failure
/// that carries the number and the texts of the failed submissions.
pub fn aggregate_submissions(outcomes: Vec<Result<SubmittedReviewData, String>>) -> (r: Result<
    Vec<SubmittedReviewData>,
    ReviewError,
>)
    ensures
        reports(r, outcomes@.map_values(|o: Result<SubmittedReviewData, String>| outcome_view(o))),
{
    let ghost os = outcomes@.map_values(|o: Result<SubmittedReviewData, String>| outcome_view(o));
    let mut oks: Vec<SubmittedReviewData> = Vec::new();
    let mut errs: Vec<String> = Vec::new();
    let mut i: usize = 0;
    while i < outcomes.len()
        invariant
            i <= outcomes@.len(),
            os == outcomes@.map_values(|o: Result<SubmittedReviewData, String>| outcome_view(o)),
            oks@ == successes(os.subrange(0, i as int)),
            errs@.map_values(|m: String| m@) == failures(os.subrange(0, i as int)),
        decreases outcomes@.len() - i,
    {
        let ghost next = os.subrange(0, i + 1);
        assert(next.drop_last() =~= os.subrange(0, i as int));
        assert(next.last() == outcome_view(outcomes@[i as int]));
        match &outcomes[i] {
            Ok(d) => {
                oks.push(*d);
            },
            Err(m) => {
                let ghost before = errs@;
                errs.push(m.clone());
                assert(errs@.map_values(|m: String| m@) =~= before.map_values(|m: String| m@).push(
                    m@,
                ));
            },
        }
        i = i + 1;
    }
    assert(os.subrange(0, outcomes@.len() as int) =~= os);
    if errs.len() > 0 {
        Err(ReviewError::AggregateSubmissionFailure { count: errs.len(), messages: errs })
    } else {
        proof {
            assert(errs@.map_values(|m: String| m@).len() == errs@.len());
        }
        Ok(oks)
    }
}

/// Takes the confirmation out of each answer, then folds the outcomes of
/// the batch as `aggregate_submissions` does.
pub fn collect_confirmations(sent: &Vec<Result<ReviewResponse, String>>) -> (r: Result<
    Vec<SubmittedReviewData>,
    ReviewError,
>)
    ensures
        reports(r, batch_outcomes(sent@)),
{
    let mut outcomes: Vec<Result<SubmittedReviewData, String>> = Vec::new();
    let mut i: usize = 0;
    while i < sent.len()
        invariant
            i <= sent@.len(),
            outcomes@.len() == i,
            forall|j: int|
                0 <= j < i ==> outcome_view(#[trigger] outcomes@[j]) == submission_outcome(
                    sent@[j],
                ),
        decreases sent@.len() - i,
    {
        let outcome = match &sent[i] {
            Ok(response) => Ok(confirm_submission(response)),
            Err(m) => Err(m.clone()),
        };
        outcomes.push(outcome);
        i = i + 1;
    }
    assert(outcomes@.map_values(|o: Result<SubmittedReviewData, String>| outcome_view(o))
        =~= batch_outcomes(sent@));
    aggregate_submissions(outcomes)
}

proof fn lemma_no_failures(os: Seq<Result<SubmittedReviewData, Seq<char>>>)
    requires
        failures(os).len() == 0,
    ensures
        successes(os).len() == os.len(),
        forall|i: int| 0 <= i < os.len() ==> #[trigger] os[i] == Ok::<SubmittedReviewData, Seq<char>>(successes(os)[i]),
    decreases os.len(),
{
    if os.len() > 0 {
        let init = os.drop_last();
        lemma_no_failures(init);
        assert(os.last() is Ok);
        let d = os.last()->Ok_0;
        assert(successes(os) == successes(init).push(d));
        assert forall|i: int| 0 <= i < os.len() implies #[trigger] os[i] == Ok::<
            SubmittedReviewData,
            Seq<char>,
        >(successes(os)[i]) by {
            if i < init.len() {
                assert(init[i] == os[i]);
            }
        }
    }
}

proof fn lemma_only_successes(os: Seq<Result<SubmittedReviewData, Seq<char>>>)
    requires
        forall|i: int| 0 <= i < os.len() ==> (#[trigger] os[i]) is Ok,
    ensures
        failures(os).len() == 0,
    decreases os.len(),
{
    if os.len() > 0 {
        let init = os.drop_last();
        assert forall|i: int| 0 <= i < init.len() implies (#[trigger] init[i]) is Ok by {
            assert(init[i] == os[i]);
        }
        lemma_only_successes(init);
        assert(os[os.len() - 1] is Ok);
    }
}

proof fn lemma_failure_counted(os: Seq<Result<SubmittedReviewData, Seq<char>>>, i: int)
    requires
        0 <= i < os.len(),
        os[i] is Err,
    ensures
        failures(os).len() > 0,
    decreases os.len(),
{
    if i < os.len() - 1 {
        let init = os.drop_last();
        assert(init[i] == os[i]);
        lemma_failure_counted(init, i);
    }
}

/// A confirmation repeats the assignment and the counts of wrong answers
/// that the service's answer carries; so where the service echoes the
/// submitted review, the confirmation matches that review.
pub proof fn lemma_confirmation_echoes(input: ReviewResult, response: ReviewResponse)
    ensures
        confirmed_data(response).assignment_id == response.data.assignment_id,
        confirmed_data(response).incorrect_meaning_answers
            == response.data.incorrect_meaning_answers,
        confirmed_data(response).incorrect_reading_answers
            == response.data.incorrect_reading_answers,
        echoes(input, response.data) ==> echoes(input, confirmed_data(response)),
{
}

/// Where every submission of a batch succeeds, the batch succeeds with one
/// confirmation per answer, in the order of the submissions, each taken
/// from its answer.
pub proof fn lemma_batch_confirms_each(
    sent: Seq<Result<ReviewResponse, String>>,
    r: Result<Vec<SubmittedReviewData>, ReviewError>,
)
    requires
        reports(r, batch_outcomes(sent)),
        forall|i: int| 0 <= i < sent.len() ==> (#[trigger] sent[i]) is Ok,
    ensures
        r is Ok,
        r->Ok_0@.len() == sent.len(),
        forall|i: int|
            0 <= i < sent.len() ==> #[trigger] r->Ok_0@[i] == confirmed_data(sent[i]->Ok_0),
{
    let os = batch_outcomes(sent);
    lemma_only_successes(os);
    match r {
        Ok(v) => {
            lemma_no_failures(os);
            assert forall|i: int| 0 <= i < sent.len() implies #[trigger] v@[i] == confirmed_data(
                sent[i]->Ok_0,
            ) by {
                assert(os[i] == submission_outcome(sent[i]));
            }
        },
        Err(_) => {},
    }
}

/// Where every submission succeeds and the service echoes each submitted
/// review, each confirmation matches its review.
pub proof fn lemma_batch_echoes(
    inputs: Seq<ReviewResult>,
    sent: Seq<Result<ReviewResponse, String>>,
    r: Result<Vec<SubmittedReviewData>, ReviewError>,
)
    requires
        reports(r, batch_outcomes(sent)),
        inputs.len() == sent.len(),
        forall|i: int|
            0 <= i < sent.len() ==> (#[trigger] sent[i]) is Ok && echoes(
                inputs[i],
                sent[i]->Ok_0.data,
            ),
    ensures
        r is Ok,
        forall|i: int| 0 <= i < inputs.len() ==> echoes(inputs[i], #[trigger] r->Ok_0@[i]),
{
    lemma_batch_confirms_each(sent, r);
    assert forall|i: int| 0 <= i < inputs.len() implies echoes(
        inputs[i],
        #[trigger] r->Ok_0@[i],
    ) by {
        assert(sent[i] is Ok);
    }
}

/// Where any submission of a batch fails, the batch fails as a whole with
/// the number and the texts of the failures, and no confirmation is returned.
pub proof fn lemma_batch_fails_on_any_failure(
    sent: Seq<Result<ReviewResponse, String>>,
    r: Result<Vec<SubmittedReviewData>, ReviewError>,
    i: int,
)
    requires
        reports(r, batch_outcomes(sent)),
        0 <= i < sent.len(),
        sent[i] is Err,
    ensures
        r matches Err(ReviewError::AggregateSubmissionFailure { count, messages }) && count > 0
            && count == messages@.len() && messages@.map_values(|m: String| m@) == failures(
            batch_outcomes(sent),
        ),
{
    let os = batch_outcomes(sent);
    assert(os[i] is Err);
    lemma_failure_counted(os, i);
    if let Err(ReviewError::AggregateSubmissionFailure { count, messages }) = r {
        assert(messages@.map_values(|m: String| m@).len() == messages@.len());
    }
}

} // verus!
