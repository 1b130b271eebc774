//! Joining assignments with their subjects into review cards.
use vstd::prelude::*;
use crate::wanikani::{Assignment, Meaning, Reading, Subject};

verus! {

/// Everything needed to show one question and check its answer.
#[derive(Debug, Clone, PartialEq, Eq)]
pub struct ReviewCard {
    pub assignment_id: u64,
    pub subject_id: u64,
    pub subject_type: String,
    pub characters: Option<String>,
    pub meanings: Vec<Meaning>,
    pub readings: Option<Vec<Reading>>,
    pub meaning_mnemonic: Option<String>,
    pub reading_mnemonic: Option<String>,
}

/// The cards of one batch, as handed to the window.
#[derive(Debug, Clone, PartialEq, Eq)]
pub struct ReviewPayload {
    pub payload: Vec<ReviewCard>,
}

/// Index of the first subject with the given id.
pub open spec fn subject_index(subjects: Seq<Subject>, id: u64) -> Option<int>
    decreases subjects.len(),
{
    if subjects.len() == 0 {
        None
    } else {
        match subject_index(subjects.drop_last(), id) {
            Some(j) => Some(j),
            None => if subjects.last().id == id {
                Some(subjects.len() - 1)
            } else {
                None
            },
        }
    }
}

/// The readings of an optional list, as a sequence.
pub open spec fn readings_view(r: Option<Vec<Reading>>) -> Option<Seq<Reading>> {
    match r {
        Some(v) => Some(v@),
        None => None,
    }
}

/// `c` is the card of assignment `a` and subject `s`: ids and type from the
/// assignment's side, content from the subject.
pub open spec fn is_card_of(c: ReviewCard, a: Assignment, s: Subject) -> bool {
    &&& c.assignment_id == a.id
    &&& c.subject_id == s.id
    &&& c.subject_type == a.data.subject_type
    &&& c.characters == s.data.characters
    &&& c.meanings@ == s.data.meanings@
    &&& readings_view(c.readings) == readings_view(s.data.readings)
    &&& c.meaning_mnemonic == s.data.meaning_mnemonic
    &&& c.reading_mnemonic == s.data.reading_mnemonic
}

/// Each assignment whose subject is among `subjects`, paired with the first
/// such subject, in the order of the assignments; the others are left out.
pub open spec fn joined_pairs(assignments: Seq<Assignment>, subjects: Seq<Subject>) -> Seq<
    (Assignment, Subject),
>
    decreases assignments.len(),
{
    if assignments.len() == 0 {
        Seq::empty()
    } else {
        let before = joined_pairs(assignments.drop_last(), subjects);
        let a = assignments.last();
        match subject_index(subjects, a.data.subject_id) {
            Some(j) => before.push((a, subjects[j])),
            None => before,
        }
    }
}

/// `cards` holds one card for each pair, in the same order.
pub open spec fn cards_of(cards: Seq<ReviewCard>, pairs: Seq<(Assignment, Subject)>) -> bool {
    &&& cards.len() == pairs.len()
    &&& forall|k: int| 0 <= k < cards.len() ==> is_card_of(#[trigger] cards[k], pairs[k].0, pairs[k].1)
}

proof fn lemma_subject_index(subjects: Seq<Subject>, id: u64)
    ensures
        match subject_index(subjects, id) {
            Some(j) => 0 <= j < subjects.len() && subjects[j].id == id && forall|k: int|
                0 <= k < j ==> (#[trigger] subjects[k]).id != id,
            None => forall|k: int| 0 <= k < subjects.len() ==> (#[trigger] subjects[k]).id != id,
        },
    decreases subjects.len(),
{
    if subjects.len() > 0 {
        let init = subjects.drop_last();
        lemma_subject_index(init, id);
        assert forall|k: int| 0 <= k < init.len() implies #[trigger] init[k] == subjects[k] by {}
        match subject_index(init, id) {
            Some(j) => {
                assert(subjects[j] == init[j]);
                assert forall|k: int| 0 <= k < j implies (#[trigger] subjects[k]).id != id by {
                    assert(subjects[k] == init[k]);
                }
            },
            None => {
                assert forall|k: int| 0 <= k < subjects.len() - 1 implies (
                #[trigger] subjects[k]).id != id by {
                    assert(subjects[k] == init[k]);
                }
            },
        }
    }
}

fn find_subject(subjects: &Vec<Subject>, id: u64) -> (r: Option<usize>)
    ensures
        match r {
            Some(j) => subject_index(subjects@, id) == Some(j as int),
            None => subject_index(subjects@, id) is None,
        },
{
    let mut i: usize = 0;
    while i < subjects.len()
        invariant
            i <= subjects@.len(),
            subject_index(subjects@.subrange(0, i as int), id) is None,
        decreases subjects@.len() - i,
    {
        let ghost next = subjects@.subrange(0, i + 1);
        assert(next.drop_last() =~= subjects@.subrange(0, i as int));
        if subjects[i].id == id {
            proof {
                lemma_index_in_prefix(subjects@, id, i + 1);
            }
            return Some(i);
        }
        i = i + 1;
    }
    assert(subjects@.subrange(0, subjects@.len() as int) =~= subjects@);
    None
}

/// A match found in a prefix is the match of the whole sequence.
proof fn lemma_index_in_prefix(subjects: Seq<Subject>, id: u64, n: int)
    requires
        0 <= n <= subjects.len(),
        subject_index(subjects.subrange(0, n), id) is Some,
    ensures
        subject_index(subjects, id) == subject_index(subjects.subrange(0, n), id),
    decreases subjects.len(),
{
    if n < subjects.len() {
        let init = subjects.drop_last();
        assert(init.subrange(0, n) =~= subjects.subrange(0, n));
        lemma_index_in_prefix(init, id, n);
    } else {
        assert(subjects.subrange(0, n) =~= subjects);
    }
}

fn copy_text(s: &Option<String>) -> (r: Option<String>)
    ensures
        r == *s,
{
    match s {
        Some(t) => Some(t.clone()),
        None => None,
    }
}

fn copy_meanings(v: &Vec<Meaning>) -> (r: Vec<Meaning>)
    ensures
        r@ == v@,
{
    let mut r: Vec<Meaning> = Vec::new();
    let mut i: usize = 0;
    while i < v.len()
        invariant
            i <= v@.len(),
            r@ == v@.subrange(0, i as int),
        decreases v@.len() - i,
    {
        let m = &v[i];
        r.push(Meaning { meaning: m.meaning.clone(), primary: m.primary, accepted_answer: m.accepted_answer });
        assert(r@ =~= v@.subrange(0, i + 1));
        i = i + 1;
    }
    assert(r@ =~= v@);
    r
}

fn copy_readings(v: &Option<Vec<Reading>>) -> (r: Option<Vec<Reading>>)
    ensures
        readings_view(r) == readings_view(*v),
{
    match v {
        None => None,
        Some(v) => {
            let mut r: Vec<Reading> = Vec::new();
            let mut i: usize = 0;
            while i < v.len()
                invariant
                    i <= v@.len(),
                    r@ == v@.subrange(0, i as int),
                decreases v@.len() - i,
            {
                let x = &v[i];
                r.push(
                    Reading {
                        reading: x.reading.clone(),
                        primary: x.primary,
                        accepted_answer: x.accepted_answer,
                        reading_type: copy_text(&x.reading_type),
                    },
                );
                assert(r@ =~= v@.subrange(0, i + 1));
                i = i + 1;
            }
            assert(r@ =~= v@);
            Some(r)
        },
    }
}

/// The card of an assignment and its subject: ids and type from the
/// assignment's side, content from the subject.
pub fn review_card(a: &Assignment, s: &Subject) -> (r: ReviewCard)
    ensures
        is_card_of(r, *a, *s),
{
    let r = ReviewCard {
        assignment_id: a.id,
        subject_id: s.id,
        subject_type: a.data.subject_type.clone(),
        characters: copy_text(&s.data.characters),
        meanings: copy_meanings(&s.data.meanings),
        readings: copy_readings(&s.data.readings),
        meaning_mnemonic: copy_text(&s.data.meaning_mnemonic),
        reading_mnemonic: copy_text(&s.data.reading_mnemonic),
    };
    r
}

/// Joins each assignment to the first subject with its subject id, in the
/// order of the assignments; an assignment without such a subject is left
/// out.
pub fn assemble(assignments: &Vec<Assignment>, subjects: &Vec<Subject>) -> (r: Vec<ReviewCard>)
    ensures
        cards_of(r@, joined_pairs(assignments@, subjects@)),
{
    let mut cards: Vec<ReviewCard> = Vec::new();
    let mut i: usize = 0;
    while i < assignments.len()
        invariant
            i <= assignments@.len(),
            cards_of(cards@, joined_pairs(assignments@.subrange(0, i as int), subjects@)),
        decreases assignments@.len() - i,
    {
        let ghost next = assignments@.subrange(0, i + 1);
        assert(next.drop_last() =~= assignments@.subrange(0, i as int));
        let a = &assignments[i];
        match find_subject(subjects, a.data.subject_id) {
            Some(j) => {
                proof {
                    lemma_subject_index(subjects@, a.data.subject_id);
                }
                cards.push(review_card(a, &subjects[j]));
            },
            None => {},
        }
        i = i + 1;
    }
    assert(assignments@.subrange(0, assignments@.len() as int) =~= assignments@);
    cards
}

/// `(a, s)` is a pair of an assignment of `assignments` and a subject of
/// `subjects` that share the subject id.
pub open spec fn is_matching_pair(
    assignments: Seq<Assignment>,
    subjects: Seq<Subject>,
    i: int,
    j: int,
) -> bool {
    0 <= i < assignments.len() && 0 <= j < subjects.len() && subjects[j].id
        == assignments[i].data.subject_id
}

/// For each joined pair, the index of its assignment.
spec fn joined_origins(assignments: Seq<Assignment>, subjects: Seq<Subject>) -> Seq<int>
    decreases assignments.len(),
{
    if assignments.len() == 0 {
        Seq::empty()
    } else {
        let before = joined_origins(assignments.drop_last(), subjects);
        match subject_index(subjects, assignments.last().data.subject_id) {
            Some(j) => before.push(assignments.len() - 1),
            None => before,
        }
    }
}

/// The first subject with the subject id of the assignment at `i`.
spec fn subject_of(assignments: Seq<Assignment>, subjects: Seq<Subject>, i: int) -> int {
    subject_index(subjects, assignments[i].data.subject_id)->Some_0
}

/// `c` is the card of an assignment and a subject that share the subject id.
pub open spec fn is_joined_card(assignments: Seq<Assignment>, subjects: Seq<Subject>, c: ReviewCard) -> bool {
    exists|i: int, j: int|
        #![trigger is_matching_pair(assignments, subjects, i, j)]
        is_matching_pair(assignments, subjects, i, j) && is_card_of(c, assignments[i], subjects[j])
}

proof fn lemma_joined_pairs(assignments: Seq<Assignment>, subjects: Seq<Subject>)
    ensures
        joined_pairs(assignments, subjects).len() == joined_origins(assignments, subjects).len(),
        joined_pairs(assignments, subjects).len() <= assignments.len(),
        forall|k: int|
            #![trigger joined_origins(assignments, subjects)[k]]
            0 <= k < joined_pairs(assignments, subjects).len() ==> {
                let i = joined_origins(assignments, subjects)[k];
                &&& 0 <= i < assignments.len()
                &&& is_matching_pair(assignments, subjects, i, subject_of(assignments, subjects, i))
                &&& joined_pairs(assignments, subjects)[k] == (
                    assignments[i],
                    subjects[subject_of(assignments, subjects, i)],
                )
            },
        forall|i: int, j: int|
            #![trigger is_matching_pair(assignments, subjects, i, j)]
            is_matching_pair(assignments, subjects, i, j) ==> exists|k: int|
                0 <= k < joined_pairs(assignments, subjects).len() && #[trigger] joined_origins(
                    assignments,
                    subjects,
                )[k] == i,
    decreases assignments.len(),
{
    if assignments.len() > 0 {
        let init = assignments.drop_last();
        let n = assignments.len() - 1;
        let a = assignments.last();
        let before = joined_pairs(init, subjects);
        let origins = joined_origins(init, subjects);
        lemma_joined_pairs(init, subjects);
        lemma_subject_index(subjects, a.data.subject_id);
        assert forall|i: int| 0 <= i < init.len() implies #[trigger] init[i] == assignments[i] by {}
        assert forall|i: int| 0 <= i < n implies subject_of(init, subjects, i) == subject_of(
            assignments,
            subjects,
            i,
        ) && (is_matching_pair(init, subjects, i, subject_of(init, subjects, i))
            <==> #[trigger] is_matching_pair(assignments, subjects, i, subject_of(init, subjects, i))) by {
            assert(init[i] == assignments[i]);
        }
        assert forall|i: int, j: int|
            #![trigger is_matching_pair(assignments, subjects, i, j)]
            is_matching_pair(assignments, subjects, i, j) implies exists|k: int|
            0 <= k < joined_pairs(assignments, subjects).len() && #[trigger] joined_origins(
                assignments,
                subjects,
            )[k] == i by {
            if i < n {
                assert(init[i] == assignments[i]);
                assert(is_matching_pair(init, subjects, i, j));
                let k = choose|k: int| 0 <= k < before.len() && #[trigger] origins[k] == i;
                assert(joined_origins(assignments, subjects)[k] == origins[k]);
            } else {
                assert(joined_origins(assignments, subjects)[before.len() as int] == n);
            }
        }
    }
}

/// Cards are made exactly for the assignments whose subject id is that of
/// some subject: each card is the card of such an assignment and a subject
/// with its id, each such assignment has a card, and there are never more
/// cards than assignments.
pub proof fn lemma_assemble_join(
    assignments: Seq<Assignment>,
    subjects: Seq<Subject>,
    cards: Seq<ReviewCard>,
)
    requires
        cards_of(cards, joined_pairs(assignments, subjects)),
    ensures
        cards.len() <= assignments.len(),
        forall|k: int|
            0 <= k < cards.len() ==> #[trigger] is_joined_card(assignments, subjects, cards[k]),
        forall|i: int, j: int|
            #![trigger is_matching_pair(assignments, subjects, i, j)]
            is_matching_pair(assignments, subjects, i, j) ==> exists|k: int, j2: int|
                #![trigger cards[k], is_matching_pair(assignments, subjects, i, j2)]
                0 <= k < cards.len() && is_matching_pair(assignments, subjects, i, j2)
                    && is_card_of(cards[k], assignments[i], subjects[j2]),
{
    let pairs = joined_pairs(assignments, subjects);
    let origins = joined_origins(assignments, subjects);
    lemma_joined_pairs(assignments, subjects);
    assert forall|k: int| 0 <= k < cards.len() implies #[trigger] is_joined_card(
        assignments,
        subjects,
        cards[k],
    ) by {
        let i = origins[k];
        let j = subject_of(assignments, subjects, i);
        assert(is_card_of(cards[k], pairs[k].0, pairs[k].1));
        assert(is_matching_pair(assignments, subjects, i, j));
    }
    assert forall|i: int, j: int|
        #![trigger is_matching_pair(assignments, subjects, i, j)]
        is_matching_pair(assignments, subjects, i, j) implies exists|k: int, j2: int|
        #![trigger cards[k], is_matching_pair(assignments, subjects, i, j2)]
        0 <= k < cards.len() && is_matching_pair(assignments, subjects, i, j2) && is_card_of(
            cards[k],
            assignments[i],
            subjects[j2],
        ) by {
        let k = choose|k: int| 0 <= k < pairs.len() && #[trigger] origins[k] == i;
        let j2 = subject_of(assignments, subjects, i);
        assert(is_card_of(cards[k], pairs[k].0, pairs[k].1));
        assert(is_matching_pair(assignments, subjects, i, j2));
    }
}

/// Some card carries the assignment id `id`.
pub open spec fn has_card_for(cards: Seq<ReviewCard>, id: u64) -> bool {
    exists|k: int| 0 <= k < cards.len() && (#[trigger] cards[k]).assignment_id == id
}

/// Some subject has the id `id`.
pub open spec fn has_subject(subjects: Seq<Subject>, id: u64) -> bool {
    exists|j: int| 0 <= j < subjects.len() && (#[trigger] subjects[j]).id == id
}

/// Where assignment ids are distinct, an assignment has a card exactly when
/// some subject has its subject id; and every card's subject id is that of
/// some subject.
pub proof fn lemma_cards_by_assignment_id(
    assignments: Seq<Assignment>,
    subjects: Seq<Subject>,
    cards: Seq<ReviewCard>,
)
    requires
        cards_of(cards, joined_pairs(assignments, subjects)),
        forall|i1: int, i2: int|
            0 <= i1 < assignments.len() && 0 <= i2 < assignments.len() && i1 != i2 ==> (
            #[trigger] assignments[i1]).id != (#[trigger] assignments[i2]).id,
    ensures
        forall|i: int|
            0 <= i < assignments.len() ==> (has_card_for(cards, (#[trigger] assignments[i]).id)
                <==> has_subject(subjects, assignments[i].data.subject_id)),
        forall|k: int|
            0 <= k < cards.len() ==> has_subject(subjects, (#[trigger] cards[k]).subject_id),
{
    lemma_assemble_join(assignments, subjects, cards);
    assert forall|i: int| 0 <= i < assignments.len() implies (has_card_for(
        cards,
        (#[trigger] assignments[i]).id,
    ) <==> has_subject(subjects, assignments[i].data.subject_id)) by {
        if has_card_for(cards, assignments[i].id) {
            let k = choose|k: int|
                0 <= k < cards.len() && (#[trigger] cards[k]).assignment_id == assignments[i].id;
            assert(is_joined_card(assignments, subjects, cards[k]));
            let (i2, j) = choose|i2: int, j: int|
                #![trigger is_matching_pair(assignments, subjects, i2, j)]
                is_matching_pair(assignments, subjects, i2, j) && is_card_of(
                    cards[k],
                    assignments[i2],
                    subjects[j],
                );
            assert(i2 == i);
            assert(subjects[j].id == assignments[i].data.subject_id);
        }
        if has_subject(subjects, assignments[i].data.subject_id) {
            let j = choose|j: int|
                0 <= j < subjects.len() && (#[trigger] subjects[j]).id
                    == assignments[i].data.subject_id;
            assert(is_matching_pair(assignments, subjects, i, j));
            let (k, j2) = choose|k: int, j2: int|
                #![trigger cards[k], is_matching_pair(assignments, subjects, i, j2)]
                0 <= k < cards.len() && is_matching_pair(assignments, subjects, i, j2)
                    && is_card_of(cards[k], assignments[i], subjects[j2]);
            assert(cards[k].assignment_id == assignments[i].id);
        }
    }
    assert forall|k: int| 0 <= k < cards.len() implies has_subject(
        subjects,
        (#[trigger] cards[k]).subject_id,
    ) by {
        assert(is_joined_card(assignments, subjects, cards[k]));
        let (i, j) = choose|i: int, j: int|
            #![trigger is_matching_pair(assignments, subjects, i, j)]
            is_matching_pair(assignments, subjects, i, j) && is_card_of(
                cards[k],
                assignments[i],
                subjects[j],
            );
        assert(subjects[j].id == cards[k].subject_id);
    }
}

} // verus!
