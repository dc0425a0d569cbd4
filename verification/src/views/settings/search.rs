//! The rows of the settings page as it shows them: those of one category, or, while a search is
//! on, those of every category that answer it.
//!
//! How well a text answers a query is scored outside; from those scores on, everything is decided
//! here.

use vstd::prelude::*;

use super::slots::{
    every_slot, every_slot_of, found, is_ranking, is_row, meta_of, parted,
    parted_of, ranks_before, score_of, seen_meta, slot_meta, slot_score, tab_slots,
    tab_slots_of, Facts, Sayings, SettingsTab, Slot, Wording, WordingModel,
};
use crate::text::joined_pair;

verus! {

/// How well the words of a row answer a query: its title and detail together, and its title
/// alone. Words that do not answer it have no score.
#[derive(Clone, Copy, Debug, PartialEq, Eq, Structural)]
pub struct WordScore {
    pub whole: Option<u32>,
    pub titled: Option<u32>,
}

/// The text that is scored for a title and a detail together.
pub fn whole_text(title: &str, detail: &str) -> (text: String)
    ensures
        text@ == title@ + " "@ + detail@,
{
    let mut text = joined_pair(title, " ");
    text.append(detail);
    text
}

/// The words of the rows, as mathematics.
pub open spec fn seen_words(words: Seq<Option<(Wording, Wording)>>) -> Seq<
    Option<(WordingModel, WordingModel)>,
> {
    words.map_values(|meta: Option<(Wording, Wording)>| seen_meta(meta))
}

/// The words of the rows.
pub open spec fn words_of(slots: Seq<Slot>, sayings: Sayings) -> Seq<
    Option<(WordingModel, WordingModel)>,
> {
    slots.map_values(|slot: Slot| meta_of(slot, sayings))
}

/// The words of the rows, which a search scores. Titles and separators have none.
pub fn words(slots: &Vec<Slot>, sayings: &Sayings) -> (said: Vec<Option<(Wording, Wording)>>)
    ensures
        seen_words(said@) == words_of(slots@, *sayings),
{
    let ghost wanted = words_of(slots@, *sayings);
    let mut said: Vec<Option<(Wording, Wording)>> = Vec::new();
    let mut index: usize = 0;
    assert(seen_words(said@) =~= wanted.take(0));
    while index < slots.len()
        invariant
            index <= slots@.len(),
            wanted == words_of(slots@, *sayings),
            seen_words(said@) == wanted.take(index as int),
        decreases slots@.len() - index,
    {
        let ghost before = seen_words(said@);
        said.push(slot_meta(slots[index], sayings));
        assert(seen_words(said@) =~= before.push(wanted[index as int]));
        index = index + 1;
        assert(seen_words(said@) =~= wanted.take(index as int));
    }
    assert(wanted.take(index as int) =~= wanted);
    said
}

/// How well a row answers a query, from how well its words do. What has no words has no score.
pub open spec fn row_score(slot: Slot, sayings: Sayings, word: WordScore) -> Option<int> {
    if meta_of(slot, sayings) is Some {
        score_of(word.whole, word.titled)
    } else {
        None
    }
}

/// Every score can be held.
pub open spec fn scores_fit(words: Seq<WordScore>) -> bool {
    forall|i: int|
        0 <= i < words.len() ==> (score_of(
            (#[trigger] words[i]).whole,
            words[i].titled,
        ) matches Some(score) ==> score <= u32::MAX)
}

/// How well each of the rows answers a query.
pub open spec fn scores_of(slots: Seq<Slot>, sayings: Sayings, words: Seq<WordScore>) -> Seq<
    Option<u32>,
> {
    Seq::new(
        slots.len(),
        |i: int|
            match row_score(slots[i], sayings, words[i]) {
                Some(score) => Some(score as u32),
                None => None,
            },
    )
}

/// How well each of the rows answers a query.
pub fn slot_scores(slots: &Vec<Slot>, sayings: &Sayings, words: &Vec<WordScore>) -> (scores: Vec<
    Option<u32>,
>)
    requires
        slots@.len() == words@.len(),
        scores_fit(words@),
    ensures
        scores@ == scores_of(slots@, *sayings, words@),
{
    let ghost wanted = scores_of(slots@, *sayings, words@);
    let mut scores: Vec<Option<u32>> = Vec::new();
    let mut index: usize = 0;
    while index < slots.len()
        invariant
            index <= slots@.len(),
            slots@.len() == words@.len(),
            scores_fit(words@),
            wanted == scores_of(slots@, *sayings, words@),
            scores@ == wanted.take(index as int),
        decreases slots@.len() - index,
    {
        let word = words[index];
        assert(words@[index as int] == word);
        let score = match slot_meta(slots[index], sayings) {
            Some(_) => slot_score(word.whole, word.titled),
            None => None,
        };
        assert(score == wanted[index as int]);
        scores.push(score);
        index = index + 1;
        assert(scores@ =~= wanted.take(index as int));
    }
    assert(scores@ =~= wanted);
    scores
}

/// The rows at some places.
pub open spec fn picked(slots: Seq<Slot>, order: Seq<usize>) -> Seq<Slot> {
    order.map_values(|place: usize| slots[place as int])
}

/// The hits of a search: the rows with a score, best first, ties in the order of the rows.
pub open spec fn are_hits(
    slots: Seq<Slot>,
    sayings: Sayings,
    words: Seq<WordScore>,
    hits: Seq<Slot>,
) -> bool {
    exists|order: Seq<usize>|
        #[trigger] is_ranking(scores_of(slots, sayings, words), order) && hits == picked(
            slots,
            order,
        )
}

/// Every row that answers the query, best match first. Ties keep the order of the rows.
pub fn ranked(slots: &Vec<Slot>, sayings: &Sayings, words: &Vec<WordScore>) -> (hits: Vec<Slot>)
    requires
        slots@.len() == words@.len(),
        scores_fit(words@),
    ensures
        are_hits(slots@, *sayings, words@, hits@),
{
    let scores = slot_scores(slots, sayings, words);
    let order = found(&scores);
    let ghost wanted = picked(slots@, order@);
    let mut hits: Vec<Slot> = Vec::new();
    let mut index: usize = 0;
    while index < order.len()
        invariant
            index <= order@.len(),
            scores@.len() == slots@.len(),
            is_ranking(scores@, order@),
            wanted == picked(slots@, order@),
            hits@ == wanted.take(index as int),
        decreases order@.len() - index,
    {
        let place = order[index];
        assert(order@[index as int] < scores@.len());
        hits.push(slots[place]);
        index = index + 1;
        assert(hits@ =~= wanted.take(index as int));
    }
    assert(hits@ =~= wanted);
    hits
}

/// There is one ranking of some scores and no other.
pub proof fn a_ranking_is_the_only_one(
    scores: Seq<Option<u32>>,
    left: Seq<usize>,
    right: Seq<usize>,
)
    requires
        is_ranking(scores, left),
        is_ranking(scores, right),
    ensures
        left == right,
{
    lemma_same_up_to(scores, left, right, left.len() as int);
    lemma_same_up_to(scores, right, left, right.len() as int);
    assert(left =~= right);
}

/// Two rankings agree on their first places, as far as one of them goes.
proof fn lemma_same_up_to(
    scores: Seq<Option<u32>>,
    left: Seq<usize>,
    right: Seq<usize>,
    count: int,
)
    requires
        is_ranking(scores, left),
        is_ranking(scores, right),
        0 <= count <= left.len(),
    ensures
        count <= right.len(),
        forall|i: int| 0 <= i < count ==> left[i] == right[i],
    decreases count,
{
    if count > 0 {
        let last = count - 1;
        lemma_same_up_to(scores, left, right, last);
        let one = left[last];
        assert(one < scores.len() && scores[one as int] is Some);
        assert(right.contains(one));
        let k = choose|k: int| 0 <= k < right.len() && right[k] == one;
        if k < last {
            assert(left[k] == one);
            assert(ranks_before(scores, left[k] as int, left[last] as int));
        }
        let other = right[last];
        assert(other < scores.len() && scores[other as int] is Some);
        assert(left.contains(other));
        let l = choose|l: int| 0 <= l < left.len() && left[l] == other;
        if l < last {
            assert(right[l] == other);
            assert(ranks_before(scores, right[l] as int, right[last] as int));
        }
        if one != other {
            assert(ranks_before(scores, right[last] as int, right[k] as int));
            assert(ranks_before(scores, left[last] as int, left[l] as int));
        }
    }
}

/// A search finds the same hits in the same order whenever it is asked the same.
pub proof fn a_search_has_one_answer(
    slots: Seq<Slot>,
    sayings: Sayings,
    words: Seq<WordScore>,
    left: Seq<Slot>,
    right: Seq<Slot>,
)
    requires
        are_hits(slots, sayings, words, left),
        are_hits(slots, sayings, words, right),
    ensures
        left == right,
{
    let scores = scores_of(slots, sayings, words);
    let one = choose|order: Seq<usize>| #[trigger]
        is_ranking(scores, order) && left == picked(slots, order);
    let other = choose|order: Seq<usize>| #[trigger]
        is_ranking(scores, order) && right == picked(slots, order);
    a_ranking_is_the_only_one(scores, one, other);
}

/// No title and no separator is a hit: a hit is a row with words, and the words answer.
pub proof fn hits_are_rows(
    slots: Seq<Slot>,
    sayings: Sayings,
    words: Seq<WordScore>,
    hits: Seq<Slot>,
)
    requires
        are_hits(slots, sayings, words, hits),
    ensures
        forall|i: int|
            0 <= i < hits.len() ==> is_row(#[trigger] hits[i]) && meta_of(hits[i], sayings) is Some
                && slots.contains(hits[i]),
{
    let scores = scores_of(slots, sayings, words);
    let order = choose|order: Seq<usize>| #[trigger]
        is_ranking(scores, order) && hits == picked(slots, order);
    assert forall|i: int| 0 <= i < hits.len() implies is_row(#[trigger] hits[i]) && meta_of(
        hits[i],
        sayings,
    ) is Some && slots.contains(hits[i]) by {
        let place = order[i] as int;
        assert(order[i] < scores.len() && scores[order[i] as int] is Some);
        assert(hits[i] == slots[place]);
    }
}

/// Every row that answers the query is a hit.
pub proof fn every_answer_is_a_hit(
    slots: Seq<Slot>,
    sayings: Sayings,
    words: Seq<WordScore>,
    hits: Seq<Slot>,
    place: int,
)
    requires
        are_hits(slots, sayings, words, hits),
        0 <= place < slots.len() <= usize::MAX,
        row_score(slots[place], sayings, words[place]) is Some,
    ensures
        hits.contains(slots[place]),
{
    let scores = scores_of(slots, sayings, words);
    let order = choose|order: Seq<usize>| #[trigger]
        is_ranking(scores, order) && hits == picked(slots, order);
    assert(scores[place] is Some);
    assert(order.contains(place as usize));
    let k = choose|k: int| 0 <= k < order.len() && order[k] == place as usize;
    assert(hits[k] == slots[place]);
}

/// What stands below the header of the page.
#[derive(Clone, Debug, PartialEq, Eq)]
pub enum Panel {
    /// The notice that nothing answers, at that key.
    Notice(&'static str),
    /// Rows, parted.
    Rows(Vec<Slot>),
}

/// The rows that are shown: one category's, or those of every category that answer a search.
pub open spec fn are_shown(
    searching: bool,
    tab: SettingsTab,
    facts: Facts,
    sayings: Sayings,
    words: Seq<WordScore>,
    bare: Seq<Slot>,
) -> bool {
    if searching {
        are_hits(every_slot_of(facts), sayings, words, bare)
    } else {
        bare == tab_slots_of(tab, facts)
    }
}

/// What stands below the header: the rows that are shown, parted, or a notice when there are
/// none.
pub open spec fn is_panel(
    panel: Panel,
    searching: bool,
    tab: SettingsTab,
    facts: Facts,
    sayings: Sayings,
    words: Seq<WordScore>,
) -> bool {
    exists|bare: Seq<Slot>|
        {
            &&& #[trigger] are_shown(searching, tab, facts, sayings, words, bare)
            &&& match panel {
                Panel::Notice(key) => bare.len() == 0 && key == "search-no-matches",
                Panel::Rows(rows) => bare.len() > 0 && rows@ == parted_of(bare),
            }
        }
}

/// What stands below the header of the page. The scores are those of the rows of every category,
/// one category behind the other, and only a search reads them.
pub fn panel(
    searching: bool,
    tab: SettingsTab,
    facts: &Facts,
    sayings: &Sayings,
    words: &Vec<WordScore>,
) -> (shown: Panel)
    requires
        searching ==> words@.len() == every_slot_of(*facts).len(),
        searching ==> scores_fit(words@),
    ensures
        is_panel(shown, searching, tab, *facts, *sayings, words@),
{
    let bare = if searching {
        let slots = every_slot(facts);
        ranked(&slots, sayings, words)
    } else {
        tab_slots(tab, facts)
    };
    assert(are_shown(searching, tab, *facts, *sayings, words@, bare@));
    if bare.len() == 0 {
        Panel::Notice("search-no-matches")
    } else {
        Panel::Rows(parted(&bare))
    }
}

/// A category always has rows to show, so the notice that nothing answers comes of a search only.
pub proof fn a_category_is_never_empty(
    panel: Panel,
    tab: SettingsTab,
    facts: Facts,
    sayings: Sayings,
    words: Seq<WordScore>,
)
    requires
        is_panel(panel, false, tab, facts, sayings, words),
    ensures
        panel matches Panel::Rows(rows) && rows@ == parted_of(tab_slots_of(tab, facts)),
{
    assert(tab_slots_of(tab, facts).len() > 0);
}

/// A search shows rows only, with a separator between each two: no title comes along.
pub proof fn a_search_shows_no_title(
    panel: Panel,
    tab: SettingsTab,
    facts: Facts,
    sayings: Sayings,
    words: Seq<WordScore>,
)
    requires
        is_panel(panel, true, tab, facts, sayings, words),
    ensures
        panel matches Panel::Rows(rows) ==> forall|i: int|
            0 <= i < rows@.len() ==> !((#[trigger] rows@[i]) is Title),
{
    let bare = choose|bare: Seq<Slot>|
        {
            &&& #[trigger] are_shown(true, tab, facts, sayings, words, bare)
            &&& match panel {
                Panel::Notice(key) => bare.len() == 0 && key == "search-no-matches",
                Panel::Rows(rows) => bare.len() > 0 && rows@ == parted_of(bare),
            }
        };
    hits_are_rows(every_slot_of(facts), sayings, words, bare);
    lemma_parting_adds_no_title(bare);
}

proof fn lemma_parting_adds_no_title(bare: Seq<Slot>)
    requires
        forall|i: int| 0 <= i < bare.len() ==> is_row(#[trigger] bare[i]),
    ensures
        forall|i: int|
            0 <= i < parted_of(bare).len() ==> !((#[trigger] parted_of(bare)[i]) is Title),
    decreases bare.len(),
{
    if bare.len() > 0 {
        let fewer = bare.drop_last();
        assert forall|i: int| 0 <= i < fewer.len() implies is_row(#[trigger] fewer[i]) by {
            assert(fewer[i] == bare[i]);
        }
        lemma_parting_adds_no_title(fewer);
        assert(is_row(bare[bare.len() - 1]));
        let before = parted_of(fewer);
        let after = parted_of(bare);
        assert forall|i: int| 0 <= i < after.len() implies !((#[trigger] after[i]) is Title) by {
            if i < before.len() {
                assert(after[i] == before[i]);
            }
        }
    }
}

/// The title of a row and its detail are searched together, a space between them.
pub proof fn a_row_is_searched_as_a_whole(title: &str, detail: &str, text: String)
    requires
        call_ensures(whole_text, (title, detail), text),
    ensures
        text@ == title@ + seq![' '] + detail@,
{
    reveal_strlit(" ");
    assert(" "@ =~= seq![' ']);
}

/// A row answers as well as its words do, with its title counted twice on top, and what has no
/// words does not answer.
pub proof fn a_row_answers_by_its_words(slot: Slot, sayings: Sayings, word: WordScore)
    ensures
        slot is Title || slot is Sep ==> row_score(slot, sayings, word) is None,
        word.whole is None ==> row_score(slot, sayings, word) is None,
        meta_of(slot, sayings) is Some ==> (word.whole matches Some(whole) ==> row_score(
            slot,
            sayings,
            word,
        ) == Some(
            whole + 2 * (match word.titled {
                Some(titled) => titled as int,
                None => 0,
            }),
        )),
{
}

/// Nothing that answers is missing and the better answer comes first: of two rows among the hits,
/// the one that scores more stands before the other.
pub proof fn the_better_answer_stands_first(
    slots: Seq<Slot>,
    sayings: Sayings,
    words: Seq<WordScore>,
    order: Seq<usize>,
    i: int,
    j: int,
)
    requires
        is_ranking(scores_of(slots, sayings, words), order),
        0 <= i < order.len(),
        0 <= j < order.len(),
        scores_of(slots, sayings, words)[order[i] as int]->0 > scores_of(
            slots,
            sayings,
            words,
        )[order[j] as int]->0,
    ensures
        i < j,
        picked(slots, order)[i] == slots[order[i] as int],
        picked(slots, order)[j] == slots[order[j] as int],
{
    let scores = scores_of(slots, sayings, words);
    if j < i {
        assert(ranks_before(scores, order[j] as int, order[i] as int));
    }
}

/// A search that finds nothing says so, and any other shows what it found.
pub proof fn a_search_that_finds_nothing_says_so(
    panel: Panel,
    searching: bool,
    tab: SettingsTab,
    facts: Facts,
    sayings: Sayings,
    words: Seq<WordScore>,
)
    requires
        is_panel(panel, searching, tab, facts, sayings, words),
    ensures
        panel matches Panel::Notice(key) ==> key == "search-no-matches",
        panel matches Panel::Rows(rows) ==> rows@.len() > 0,
{
    if let Panel::Rows(rows) = panel {
        let bare = choose|bare: Seq<Slot>|
            {
                &&& #[trigger] are_shown(searching, tab, facts, sayings, words, bare)
                &&& match panel {
                    Panel::Notice(key) => bare.len() == 0 && key == "search-no-matches",
                    Panel::Rows(rows) => bare.len() > 0 && rows@ == parted_of(bare),
                }
            };
        assert(parted_of(bare).len() > 0);
    }
}

} // verus!
