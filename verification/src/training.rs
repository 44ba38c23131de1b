//! From review records to the training set: the records are grouped by card
//! in the order in which the cards first appear, and each card reviewed at
//! least twice yields one sequence of reviews.

use crate::review_log::{entry_records, ReviewLogEntry, ReviewRecord};
use vstd::prelude::*;

verus! {

/// One review as the parameter fit sees it.
#[derive(Debug, Clone, Copy, PartialEq, Eq, Structural)]
pub struct Review {
    /// The rating, from 1 (again) to 4 (easy).
    pub rating: u32,
    /// Days since the card's previous review; 0 for its first review.
    pub delta_t: u32,
}

/// The reviews of one card, first to last.
#[derive(Debug, Clone, PartialEq, Eq)]
pub struct TrainingItem {
    pub reviews: Vec<Review>,
}

impl View for TrainingItem {
    type V = Seq<Review>;

    open spec fn view(&self) -> Seq<Review> {
        self.reviews@
    }
}

/// The reviews gathered for one card while the log is read.
#[derive(Debug, Clone, PartialEq, Eq)]
pub struct CardHistory {
    pub card_id: String,
    pub reviews: Vec<Review>,
}

/// A logged rating brought into the range from 1 to 4.
pub open spec fn grade(rating: u32) -> u32 {
    if rating < 1 {
        1
    } else if rating > 4 {
        4
    } else {
        rating
    }
}

/// The cards of a log, each once, in the order of their first review.
pub open spec fn cards_of(records: Seq<ReviewRecord>) -> Seq<Seq<char>>
    decreases records.len(),
{
    if records.len() == 0 {
        Seq::empty()
    } else {
        let earlier = cards_of(records.drop_last());
        if earlier.contains(records.last().card_id) {
            earlier
        } else {
            earlier.push(records.last().card_id)
        }
    }
}

/// The records of one card, in the order of the log.
pub open spec fn history_of(records: Seq<ReviewRecord>, card: Seq<char>) -> Seq<ReviewRecord> {
    records.filter(|record: ReviewRecord| record.card_id == card)
}

/// The review that stands for the record at position `k` of a card's
/// history: the first review of a card has no interval before it.
pub open spec fn review_at(history: Seq<ReviewRecord>, k: int) -> Review {
    Review {
        rating: grade(history[k].rating),
        delta_t: if k == 0 {
            0
        } else {
            history[k].elapsed
        },
    }
}

/// The sequence of reviews that a card's history is trained on.
pub open spec fn review_sequence(history: Seq<ReviewRecord>) -> Seq<Review> {
    Seq::new(history.len(), |k: int| review_at(history, k))
}

/// A card can be trained on once it has been reviewed twice.
pub open spec fn trainable(records: Seq<ReviewRecord>, card: Seq<char>) -> bool {
    history_of(records, card).len() >= 2
}

/// The sequences of the trainable cards among `cards`, in their order.
pub open spec fn sequences_of(records: Seq<ReviewRecord>, cards: Seq<Seq<char>>) -> Seq<
    Seq<Review>,
> {
    cards.filter(|card: Seq<char>| trainable(records, card)).map_values(
        |card: Seq<char>| review_sequence(history_of(records, card)),
    )
}

/// The training set of a log: one review sequence for each card reviewed at
/// least twice, the cards in the order of their first review.
pub open spec fn train_set(records: Seq<ReviewRecord>) -> Seq<Seq<Review>> {
    sequences_of(records, cards_of(records))
}

/// `histories` holds, card by card, what `records` say.
pub open spec fn grouped(histories: Seq<CardHistory>, records: Seq<ReviewRecord>) -> bool {
    &&& histories.len() == cards_of(records).len()
    &&& forall|j: int|
        0 <= j < histories.len() ==> {
            &&& (#[trigger] histories[j]).card_id@ == cards_of(records)[j]
            &&& histories[j].reviews@ == review_sequence(
                history_of(records, cards_of(records)[j]),
            )
        }
}

/// A sequence that the fit can work on: at least two reviews, the first
/// without an interval before it, and every rating from 1 to 4.
pub open spec fn well_shaped(sequence: Seq<Review>) -> bool {
    &&& sequence.len() >= 2
    &&& sequence[0].delta_t == 0
    &&& forall|k: int| 0 <= k < sequence.len() ==> 1 <= (#[trigger] sequence[k]).rating <= 4
}

/// The sequence holds a review made at least a day after the one before it.
pub open spec fn has_long_term_review(sequence: Seq<Review>) -> bool {
    exists|k: int| 0 <= k < sequence.len() && (#[trigger] sequence[k]).delta_t > 0
}

/// Every sequence holds a review made at least a day after the one before
/// it.
pub open spec fn all_long_term(sequences: Seq<Seq<Review>>) -> bool {
    forall|i: int| 0 <= i < sequences.len() ==> has_long_term_review(#[trigger] sequences[i])
}

/// What a list of training items holds.
pub open spec fn item_views(items: Seq<TrainingItem>) -> Seq<Seq<Review>> {
    Seq::new(items.len(), |i: int| items[i]@)
}

/// No card is listed twice.
pub proof fn lemma_cards_distinct(records: Seq<ReviewRecord>)
    ensures
        cards_of(records).no_duplicates(),
    decreases records.len(),
{
    if records.len() > 0 {
        lemma_cards_distinct(records.drop_last());
    }
}

/// A card is listed exactly when the log holds a record of it.
pub proof fn lemma_cards_cover(records: Seq<ReviewRecord>, card: Seq<char>)
    ensures
        cards_of(records).contains(card) <==> history_of(records, card).len() > 0,
    decreases records.len(),
{
    let of_card = |record: ReviewRecord| record.card_id == card;
    if records.len() == 0 {
        records.lemma_filter_len(of_card);
    } else {
        let earlier = records.drop_last();
        lemma_cards_cover(earlier, card);
        assert(earlier.push(records.last()) == records);
        earlier.lemma_filter_push(records.last(), of_card);
        let listed = cards_of(earlier);
        if !listed.contains(records.last().card_id) {
            let grown = listed.push(records.last().card_id);
            if card == records.last().card_id {
                assert(grown[listed.len() as int] == card);
            } else if listed.contains(card) {
                let at = choose|at: int| 0 <= at < listed.len() && listed[at] == card;
                assert(grown[at] == card);
            }
        }
    }
}

/// A card has a history exactly when some record of the log is about it.
pub proof fn lemma_history_witness(records: Seq<ReviewRecord>, card: Seq<char>)
    ensures
        history_of(records, card).len() > 0 <==> exists|k: int|
            0 <= k < records.len() && (#[trigger] records[k]).card_id == card,
{
    let of_card = |record: ReviewRecord| record.card_id == card;
    let history = records.filter(of_card);
    if history.len() > 0 {
        records.lemma_filter_pred(of_card, 0);
        records.lemma_filter_contains_rev(of_card, history[0]);
    }
    if exists|k: int| 0 <= k < records.len() && (#[trigger] records[k]).card_id == card {
        let k = choose|k: int| 0 <= k < records.len() && (#[trigger] records[k]).card_id == card;
        records.lemma_filter_contains(of_card, k);
    }
}

/// The cards are listed in the order of their first review: of two listed
/// cards, the one listed first has a review that comes before every review
/// of the other.
pub proof fn lemma_cards_ordered(records: Seq<ReviewRecord>, i: int, j: int)
    requires
        0 <= i < j < cards_of(records).len(),
    ensures
        exists|k: int|
            0 <= k < records.len() && (#[trigger] records[k]).card_id == cards_of(records)[i]
                && forall|m: int|
                0 <= m <= k ==> (#[trigger] records[m]).card_id != cards_of(records)[j],
    decreases records.len(),
{
    let earlier = records.drop_last();
    let listed = cards_of(earlier);
    if j < listed.len() {
        lemma_cards_ordered(earlier, i, j);
        let k = choose|k: int|
            0 <= k < earlier.len() && (#[trigger] earlier[k]).card_id == listed[i] && forall|m: int|
                0 <= m <= k ==> (#[trigger] earlier[m]).card_id != listed[j];
        assert forall|m: int| 0 <= m <= k implies (#[trigger] records[m]).card_id != cards_of(
            records,
        )[j] by {
            assert(records[m] == earlier[m]);
        }
    } else {
        let newcomer = records.last().card_id;
        lemma_cards_cover(earlier, listed[i]);
        lemma_history_witness(earlier, listed[i]);
        lemma_cards_cover(earlier, newcomer);
        lemma_history_witness(earlier, newcomer);
        let k = choose|k: int| 0 <= k < earlier.len() && (#[trigger] earlier[k]).card_id == listed[i];
        assert forall|m: int| 0 <= m <= k implies (#[trigger] records[m]).card_id != cards_of(
            records,
        )[j] by {
            assert(records[m] == earlier[m]);
        }
    }
}

/// How a card's history grows when a record is added to the log.
pub proof fn lemma_history_push(records: Seq<ReviewRecord>, next: ReviewRecord, card: Seq<char>)
    ensures
        history_of(records.push(next), card) == if next.card_id == card {
            history_of(records, card).push(next)
        } else {
            history_of(records, card)
        },
{
    records.lemma_filter_push(next, |record: ReviewRecord| record.card_id == card);
}

/// How a review sequence grows with its history.
pub proof fn lemma_sequence_push(history: Seq<ReviewRecord>, next: ReviewRecord)
    ensures
        review_sequence(history.push(next)) == review_sequence(history).push(
            Review {
                rating: grade(next.rating),
                delta_t: if history.len() == 0 {
                    0
                } else {
                    next.elapsed
                },
            },
        ),
{
}

/// The sequences of a list of cards are those of its first part followed by
/// those of its second part.
pub proof fn lemma_sequences_concat(
    records: Seq<ReviewRecord>,
    first: Seq<Seq<char>>,
    second: Seq<Seq<char>>,
)
    ensures
        sequences_of(records, first + second) == sequences_of(records, first) + sequences_of(
            records,
            second,
        ),
    decreases second.len(),
{
    if second.len() > 0 {
        let front = second.drop_last();
        let card = second.last();
        lemma_sequences_concat(records, first, front);
        lemma_sequences_push(records, first + front, card);
        lemma_sequences_push(records, front, card);
    }
}

/// Two logs that agree on the history of every card of a list give that list
/// the same sequences.
pub proof fn lemma_sequences_agree(
    one: Seq<ReviewRecord>,
    other: Seq<ReviewRecord>,
    cards: Seq<Seq<char>>,
)
    requires
        forall|j: int|
            0 <= j < cards.len() ==> history_of(one, #[trigger] cards[j]) == history_of(
                other,
                cards[j],
            ),
    ensures
        sequences_of(one, cards) == sequences_of(other, cards),
    decreases cards.len(),
{
    if cards.len() == 0 {
        reveal(Seq::filter);
    } else {
        let front = cards.drop_last();
        let card = cards.last();
        lemma_sequences_agree(one, other, front);
        assert(cards == front.push(card));
        lemma_sequences_push(one, front, card);
        lemma_sequences_push(other, front, card);
    }
}

/// The training set is empty exactly when no card was reviewed twice. An
/// empty log, and a log in which every card appears once, train nothing.
pub proof fn lemma_nothing_to_train(records: Seq<ReviewRecord>)
    ensures
        train_set(records).len() == 0 <==> (forall|card: Seq<char>|
            history_of(records, card).len() <= 1),
{
    let keep = |card: Seq<char>| trainable(records, card);
    let cards = cards_of(records);
    let kept = cards.filter(keep);
    if kept.len() > 0 {
        cards.lemma_filter_pred(keep, 0);
    }
    if exists|card: Seq<char>| history_of(records, card).len() >= 2 {
        let card = choose|card: Seq<char>| history_of(records, card).len() >= 2;
        lemma_cards_cover(records, card);
        let at = choose|at: int| 0 <= at < cards.len() && cards[at] == card;
        cards.lemma_filter_contains(keep, at);
    }
}

/// Every sequence of the training set is one that the fit can work on.
pub proof fn lemma_train_set_shape(records: Seq<ReviewRecord>, i: int)
    requires
        0 <= i < train_set(records).len(),
    ensures
        well_shaped(train_set(records)[i]),
{
    let keep = |card: Seq<char>| trainable(records, card);
    cards_of(records).lemma_filter_pred(keep, i);
}

/// Where a card that the log does not know is reviewed once, at any place
/// in the log, the list of cards gains that card and nothing else changes.
pub proof fn lemma_cards_insert(records: Seq<ReviewRecord>, at: int, lone: ReviewRecord) -> (place:
    int)
    requires
        0 <= at <= records.len(),
        history_of(records, lone.card_id).len() == 0,
    ensures
        0 <= place <= cards_of(records).len(),
        cards_of(records.insert(at, lone)) == cards_of(records).insert(place, lone.card_id),
    decreases records.len() - at,
{
    let grown = records.insert(at, lone);
    lemma_cards_cover(records, lone.card_id);
    if at == records.len() {
        assert(grown.drop_last() == records);
        cards_of(records).len() as int
    } else {
        let front = records.drop_last();
        let last = records.last();
        assert(records == front.push(last));
        lemma_history_push(front, last, lone.card_id);
        assert(grown.drop_last() == front.insert(at, lone));
        let place = lemma_cards_insert(front, at, lone);
        let listed = cards_of(front);
        let listed_grown = listed.insert(place, lone.card_id);
        if listed.contains(last.card_id) {
            let j = choose|j: int| 0 <= j < listed.len() && listed[j] == last.card_id;
            if j < place {
                assert(listed_grown[j] == last.card_id);
            } else {
                assert(listed_grown[j + 1] == last.card_id);
            }
        }
        place
    }
}

/// How a card's history changes when a record is put into the log.
pub proof fn lemma_history_insert(
    records: Seq<ReviewRecord>,
    at: int,
    added: ReviewRecord,
    card: Seq<char>,
)
    requires
        0 <= at <= records.len(),
    ensures
        history_of(records.insert(at, added), card) == if added.card_id == card {
            history_of(records.take(at), card).push(added) + history_of(records.skip(at), card)
        } else {
            history_of(records, card)
        },
        history_of(records, card) == history_of(records.take(at), card) + history_of(
            records.skip(at),
            card,
        ),
{
    let of_card = |record: ReviewRecord| record.card_id == card;
    let head = records.take(at);
    let tail = records.skip(at);
    assert(records == head + tail);
    Seq::filter_distributes_over_add(head.push(added), tail, of_card);
    Seq::filter_distributes_over_add(head, tail, of_card);
    head.lemma_filter_push(added, of_card);
}

/// A single review of a card that the log does not know, put anywhere into
/// the log, leaves the training set as it was.
pub proof fn lemma_lone_review_trains_nothing(
    records: Seq<ReviewRecord>,
    at: int,
    lone: ReviewRecord,
)
    requires
        0 <= at <= records.len(),
        history_of(records, lone.card_id).len() == 0,
    ensures
        train_set(records.insert(at, lone)) == train_set(records),
{
    let grown = records.insert(at, lone);
    let cards = cards_of(records);
    let place = lemma_cards_insert(records, at, lone);
    let head = cards.take(place);
    let tail = cards.skip(place);
    assert(cards == head + tail);
    lemma_history_insert(records, at, lone, lone.card_id);
    lemma_sequences_concat(grown, head.push(lone.card_id), tail);
    lemma_sequences_push(grown, head, lone.card_id);
    lemma_sequences_concat(grown, head, tail);
    lemma_cards_cover(records, lone.card_id);
    assert forall|j: int| 0 <= j < cards.len() implies history_of(grown, #[trigger] cards[j])
        == history_of(records, cards[j]) by {
        lemma_history_insert(records, at, lone, cards[j]);
    }
    lemma_sequences_agree(grown, records, cards);
}

/// Brings a logged rating into the range from 1 to 4.
pub fn clamp_rating(rating: u32) -> (r: u32)
    ensures
        r == grade(rating),
{
    if rating < 1 {
        1
    } else if rating > 4 {
        4
    } else {
        rating
    }
}

fn find_card(histories: &Vec<CardHistory>, card_id: &String) -> (r: Option<usize>)
    ensures
        match r {
            Some(j) => j < histories.len() && histories[j as int].card_id@ == card_id@,
            None => forall|j: int| 0 <= j < histories.len() ==> histories[j].card_id@ != card_id@,
        },
{
    let mut j: usize = 0;
    while j < histories.len()
        invariant
            j <= histories.len(),
            forall|k: int| 0 <= k < j ==> histories[k].card_id@ != card_id@,
        decreases histories.len() - j,
    {
        if histories[j].card_id == *card_id {
            return Some(j);
        }
        j += 1;
    }
    None
}

/// Groups the entries of a log by card. The cards keep the order of their
/// first review, and each card's reviews the order of the log.
pub fn group_by_card(entries: &Vec<ReviewLogEntry>) -> (histories: Vec<CardHistory>)
    ensures
        grouped(histories@, entry_records(entries@)),
{
    let mut histories: Vec<CardHistory> = Vec::new();
    let mut i: usize = 0;
    while i < entries.len()
        invariant
            i <= entries.len(),
            grouped(histories@, entry_records(entries@).take(i as int)),
        decreases entries.len() - i,
    {
        let entry = &entries[i];
        let ghost done = entry_records(entries@).take(i as int);
        let ghost next = entry_records(entries@).take(i as int + 1);
        let ghost before = histories@;
        proof {
            assert(next.drop_last() == done);
            assert(next == done.push(entry@));
            lemma_cards_distinct(done);
            lemma_cards_cover(done, entry@.card_id);
            assert forall|card: Seq<char>|
                history_of(next, card) == if entry@.card_id == card {
                    history_of(done, card).push(entry@)
                } else {
                    history_of(done, card)
                } by {
                lemma_history_push(done, entry@, card);
            }
            lemma_sequence_push(history_of(done, entry@.card_id), entry@);
        }
        let rating = clamp_rating(entry.rating);
        match find_card(&histories, &entry.card_id) {
            Some(j) => {
                histories[j].reviews.push(Review { rating, delta_t: entry.elapsed });
            },
            None => {
                assert(!cards_of(done).contains(entry@.card_id)) by {
                    if cards_of(done).contains(entry@.card_id) {
                        let at = choose|at: int|
                            0 <= at < cards_of(done).len() && cards_of(done)[at]
                                == entry@.card_id;
                        assert(before[at].card_id@ == entry@.card_id);
                    }
                }
                let mut reviews: Vec<Review> = Vec::new();
                reviews.push(Review { rating, delta_t: 0 });
                histories.push(CardHistory { card_id: entry.card_id.clone(), reviews });
                assert forall|k: int| 0 <= k < histories.len() implies {
                    &&& (#[trigger] histories[k]).card_id@ == cards_of(next)[k]
                    &&& histories[k].reviews@ == review_sequence(
                        history_of(next, cards_of(next)[k]),
                    )
                } by {}
            },
        }
        i += 1;
    }
    assert(entry_records(entries@).take(i as int) == entry_records(entries@));
    histories
}

impl TrainingItem {
    /// Whether some review of the item was made at least a day after the
    /// one before it.
    pub fn has_long_term_review(&self) -> (r: bool)
        ensures
            r == has_long_term_review(self@),
    {
        let mut k: usize = 0;
        while k < self.reviews.len()
            invariant
                k <= self.reviews.len(),
                forall|m: int| 0 <= m < k ==> self.reviews[m].delta_t == 0,
            decreases self.reviews.len() - k,
        {
            if self.reviews[k].delta_t > 0 {
                return true;
            }
            k += 1;
        }
        false
    }
}

/// Whether every item holds a review made at least a day after the one
/// before it.
pub fn are_all_long_term(items: &Vec<TrainingItem>) -> (r: bool)
    ensures
        r == all_long_term(item_views(items@)),
{
    let mut i: usize = 0;
    while i < items.len()
        invariant
            i <= items.len(),
            forall|m: int| 0 <= m < i ==> has_long_term_review(#[trigger] item_views(items@)[m]),
        decreases items.len() - i,
    {
        if !items[i].has_long_term_review() {
            assert(!has_long_term_review(item_views(items@)[i as int]));
            return false;
        }
        i += 1;
    }
    true
}

/// How the sequences grow when one more card is looked at.
pub proof fn lemma_sequences_push(
    records: Seq<ReviewRecord>,
    cards: Seq<Seq<char>>,
    card: Seq<char>,
)
    ensures
        sequences_of(records, cards.push(card)) == if trainable(records, card) {
            sequences_of(records, cards).push(review_sequence(history_of(records, card)))
        } else {
            sequences_of(records, cards)
        },
{
    let keep = |card: Seq<char>| trainable(records, card);
    let sequence = |card: Seq<char>| review_sequence(history_of(records, card));
    cards.lemma_filter_push(card, keep);
    cards.filter(keep).lemma_push_map_commute(sequence, card);
}

/// Builds the training set of a log: one item for each card reviewed at
/// least twice, the cards in the order of their first review. Within an
/// item the reviews keep the order of the log, each rating is brought into
/// the range from 1 to 4, and the first review carries no interval.
pub fn build_train_set(entries: &Vec<ReviewLogEntry>) -> (items: Vec<TrainingItem>)
    ensures
        item_views(items@) == train_set(entry_records(entries@)),
        forall|i: int| 0 <= i < items.len() ==> well_shaped(#[trigger] items[i]@),
{
    let histories = group_by_card(entries);
    let ghost records = entry_records(entries@);
    let ghost cards = cards_of(records);
    let ghost grouped_histories = histories@;
    let mut items: Vec<TrainingItem> = Vec::new();
    for history in it: histories
        invariant
            it.seq() == grouped_histories,
            grouped(grouped_histories, records),
            cards == cards_of(records),
            item_views(items@) == sequences_of(records, cards.take(it.index() as int)),
    {
        let ghost at = it.index() as int;
        proof {
            assert(cards.take(at + 1) == cards.take(at).push(cards[at]));
            lemma_sequences_push(records, cards.take(at), cards[at]);
        }
        if history.reviews.len() >= 2 {
            items.push(TrainingItem { reviews: history.reviews });
        }
    }
    assert(cards.take(cards.len() as int) == cards);
    assert forall|i: int| 0 <= i < items.len() implies well_shaped(#[trigger] items[i]@) by {
        lemma_train_set_shape(records, i);
    }
    items
}

} // verus!
