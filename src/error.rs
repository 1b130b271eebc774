//! Failures of the pipeline, and their text for the user.
use vstd::prelude::*;
use crate::text::{decimal, push_decimal};

verus! {

#[derive(Debug, Clone, PartialEq, Eq)]
pub enum ReviewError {
    /// No API key is configured.
    ConfigurationMissing,
    /// The request could not be carried out.
    TransportFailure(String),
    /// The service answered with a status outside 200..=299.
    UpstreamRejected(u16),
    /// The body did not have the expected shape.
    MalformedResponse(String),
    /// No review bucket is available and non-empty.
    NoReviewsAvailable,
    /// One or more submissions of a batch failed.
    AggregateSubmissionFailure { count: usize, messages: Vec<String> },
}

/// What `{:?}` writes for a string: the text in double quotes, with the
/// characters that need it escaped.
pub uninterp spec fn quoted_of(s: Seq<char>) -> Seq<char>;

/// Relies on `<str as Debug>::fmt` (through `format!("{:?}")`): the quoted,
/// escaped form of the text, which depends on the text alone.
#[verifier::external_body]
fn quoted(s: &str) -> (r: String)
    ensures
        r@ == quoted_of(s@),
{
    format!("{:?}", s)
}

/// The items separated by `", "`.
pub open spec fn list_text(items: Seq<Seq<char>>) -> Seq<char>
    decreases items.len(),
{
    if items.len() == 0 {
        Seq::empty()
    } else if items.len() == 1 {
        items[0]
    } else {
        list_text(items.drop_last()) + ", "@ + items.last()
    }
}

/// The report of a failed batch: the number of failures, then the quoted
/// failure texts as a bracketed list.
pub open spec fn failures_text(count: nat, quoted_items: Seq<Seq<char>>) -> Seq<char> {
    decimal(count) + " reviews failed: ["@ + list_text(quoted_items) + "]"@
}

pub open spec fn error_text(e: ReviewError) -> Seq<char> {
    match e {
        ReviewError::ConfigurationMissing => "API key not set"@,
        ReviewError::TransportFailure(m) => m@,
        ReviewError::UpstreamRejected(status) => "Request rejected with status "@ + decimal(
            status as nat,
        ),
        ReviewError::MalformedResponse(m) => "Serde error: "@ + m@,
        ReviewError::NoReviewsAvailable => "No reviews available right now"@,
        ReviewError::AggregateSubmissionFailure { count, messages } => failures_text(
            count as nat,
            messages@.map_values(|m: String| quoted_of(m@)),
        ),
    }
}

/// The report of a failed batch from its count and the already quoted
/// failure texts.
pub fn failures_report(count: usize, quoted_items: &Vec<String>) -> (r: String)
    ensures
        r@ == failures_text(count as nat, quoted_items@.map_values(|q: String| q@)),
{
    let ghost items = quoted_items@.map_values(|q: String| q@);
    let mut s = String::new();
    push_decimal(&mut s, count as u64);
    s.append(" reviews failed: [");
    let ghost head = s@;
    let mut i: usize = 0;
    while i < quoted_items.len()
        invariant
            i <= quoted_items@.len(),
            items == quoted_items@.map_values(|q: String| q@),
            s@ == head + list_text(items.subrange(0, i as int)),
        decreases quoted_items@.len() - i,
    {
        if i > 0 {
            s.append(", ");
        }
        s.append(quoted_items[i].as_str());
        proof {
            let next = items.subrange(0, i + 1);
            assert(next.drop_last() =~= items.subrange(0, i as int));
            assert(next.last() == quoted_items@[i as int]@);
            assert(s@ =~= head + list_text(next));
        }
        i = i + 1;
    }
    assert(items.subrange(0, items.len() as int) =~= items);
    s.append("]");
    assert(s@ =~= failures_text(count as nat, items));
    s
}

impl ReviewError {
    /// The text shown to the user for this failure.
    pub fn message(&self) -> (r: String)
        ensures
            r@ == error_text(*self),
    {
        match self {
            ReviewError::ConfigurationMissing => String::from_str("API key not set"),
            ReviewError::TransportFailure(m) => m.clone(),
            ReviewError::UpstreamRejected(status) => {
                let mut s = String::from_str("Request rejected with status ");
                push_decimal(&mut s, *status as u64);
                s
            },
            ReviewError::MalformedResponse(m) => {
                let mut s = String::from_str("Serde error: ");
                s.append(m.as_str());
                s
            },
            ReviewError::NoReviewsAvailable => String::from_str("No reviews available right now"),
            ReviewError::AggregateSubmissionFailure { count, messages } => {
                let mut items: Vec<String> = Vec::new();
                let mut i: usize = 0;
                while i < messages.len()
                    invariant
                        i <= messages@.len(),
                        items@.len() == i,
                        forall|j: int|
                            0 <= j < i ==> (#[trigger] items@[j])@ == quoted_of(messages@[j]@),
                    decreases messages@.len() - i,
                {
                    items.push(quoted(messages[i].as_str()));
                    i = i + 1;
                }
                assert(items@.map_values(|q: String| q@) =~= messages@.map_values(
                    |m: String| quoted_of(m@),
                ));
                failures_report(*count, &items)
            },
        }
    }
}

} // verus!
