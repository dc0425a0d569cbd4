//! What holds of texts that are cut, trimmed, joined and read.

use vstd::prelude::*;

use super::{
    before_last, cut_once, decimal, digit, digits_value, ends_in, first_place, is_white, joined,
    number_in, pieces, precedes, stripped_back, stripped_front, texts, trimmed,
    trimmed_back, trimmed_front,
};
use crate::lists::seen_places;

verus! {

/// A text that is cut at a separator loses nothing but the separators: put together again it is
/// the same, and no piece holds one.
pub proof fn pieces_join_to_the_text(text: Seq<char>, separator: char)
    ensures
        pieces(text, separator).len() > 0,
        joined(pieces(text, separator), seq![separator]) == text,
        forall|i: int|
            0 <= i < pieces(text, separator).len() ==> !(#[trigger] pieces(
                text,
                separator,
            )[i]).contains(separator),
    decreases text.len(),
{
    let parts = pieces(text, separator);
    if text.len() == 0 {
        assert(joined(parts, seq![separator]) =~= text);
    } else {
        let fewer = text.drop_last();
        let before = pieces(fewer, separator);
        pieces_join_to_the_text(fewer, separator);
        assert(text =~= fewer.push(text.last()));
        if text.last() == separator {
            assert(parts.drop_last() =~= before);
            assert(joined(parts, seq![separator]) =~= text);
        } else {
            assert(parts.drop_last() =~= before.drop_last());
            assert(parts.last() == before.last().push(text.last()));
            if parts.len() == 1 {
                assert(before[0] == before.last());
            }
            assert(joined(parts, seq![separator]) =~= text);
            assert forall|i: int| 0 <= i < parts.len() implies !(
            #[trigger] parts[i]).contains(separator) by {
                if i < parts.len() - 1 {
                    assert(parts[i] == before[i]);
                } else {
                    assert(!before[i].contains(separator));
                    if parts[i].contains(separator) {
                        let k = choose|k: int| 0 <= k < parts[i].len() && parts[i][k] == separator;
                        assert(before[i][k] == separator);
                    }
                }
            }
        }
    }
}

/// More text without a separator makes the last piece longer.
pub(crate) proof fn lemma_longer_piece(text: Seq<char>, tail: Seq<char>, separator: char)
    requires
        !tail.contains(separator),
    ensures
        pieces(text + tail, separator) == pieces(text, separator).drop_last().push(
            pieces(text, separator).last() + tail,
        ),
    decreases tail.len(),
{
    let parts = pieces(text, separator);
    pieces_join_to_the_text(text, separator);
    if tail.len() == 0 {
        assert(text + tail =~= text);
        assert(parts.last() + tail =~= parts.last());
        assert(parts.drop_last().push(parts.last()) =~= parts);
    } else {
        let less = tail.drop_last();
        assert forall|i: int| 0 <= i < less.len() implies less[i] != separator by {
            assert(tail[i] != separator);
        }
        assert(tail[tail.len() - 1] != separator);
        lemma_longer_piece(text, less, separator);
        assert((text + tail).drop_last() =~= text + less);
        assert((text + tail).last() == tail.last());
        assert((parts.last() + less).push(tail.last()) =~= parts.last() + tail);
        let grown = parts.drop_last().push(parts.last() + less);
        assert(grown.drop_last() =~= parts.drop_last());
    }
}

/// Texts that hold no separator, joined by it and cut at it again, are the same texts.
pub proof fn joined_texts_are_cut_apart(parts: Seq<Seq<char>>, separator: char)
    requires
        parts.len() > 0,
        forall|i: int| 0 <= i < parts.len() ==> !(#[trigger] parts[i]).contains(separator),
    ensures
        pieces(joined(parts, seq![separator]), separator) == parts,
    decreases parts.len(),
{
    let empty = Seq::<char>::empty();
    if parts.len() == 1 {
        lemma_longer_piece(empty, parts[0], separator);
        assert(empty + parts[0] =~= parts[0]);
        assert(pieces(parts[0], separator) =~= parts);
    } else {
        let fewer = parts.drop_last();
        assert forall|i: int| 0 <= i < fewer.len() implies !(#[trigger] fewer[i]).contains(
            separator,
        ) by {
            assert(fewer[i] == parts[i]);
        }
        joined_texts_are_cut_apart(fewer, separator);
        let head = joined(fewer, seq![separator]) + seq![separator];
        assert(head.drop_last() =~= joined(fewer, seq![separator]));
        assert(pieces(head, separator) =~= fewer.push(empty));
        let last = parts[parts.len() - 1];
        lemma_longer_piece(head, last, separator);
        assert(fewer.push(empty).drop_last() =~= fewer);
        assert(empty + last =~= last);
        assert(fewer.push(last) =~= parts);
    }
}

/// Everything in the text is white space.
pub open spec fn all_white(text: Seq<char>) -> bool {
    forall|i: int| 0 <= i < text.len() ==> is_white(#[trigger] text[i])
}

proof fn lemma_front(text: Seq<char>) -> (cut: int)
    ensures
        0 <= cut <= text.len(),
        all_white(text.take(cut)),
        trimmed_front(text) == text.skip(cut),
        cut < text.len() ==> !is_white(text[cut]),
    decreases text.len(),
{
    if text.len() > 0 && is_white(text[0]) {
        let less = lemma_front(text.drop_first());
        assert(text.skip(less + 1) =~= text.drop_first().skip(less));
        assert forall|i: int| 0 <= i < less + 1 implies is_white(
            #[trigger] text.take(less + 1)[i],
        ) by {
            if i > 0 {
                assert(text.drop_first().take(less)[i - 1] == text[i]);
            }
        }
        less + 1
    } else {
        assert(text.skip(0) =~= text);
        0
    }
}

proof fn lemma_back(text: Seq<char>) -> (cut: int)
    ensures
        0 <= cut <= text.len(),
        all_white(text.skip(cut)),
        trimmed_back(text) == text.take(cut),
        cut > 0 ==> !is_white(text[cut - 1]),
    decreases text.len(),
{
    if text.len() > 0 && is_white(text.last()) {
        let cut = lemma_back(text.drop_last());
        assert(text.take(cut) =~= text.drop_last().take(cut));
        assert forall|i: int| 0 <= i < text.len() - cut implies is_white(
            #[trigger] text.skip(cut)[i],
        ) by {
            if i < text.len() - cut - 1 {
                assert(text.drop_last().skip(cut)[i] == text[cut + i]);
            }
        }
        cut
    } else {
        assert(text.take(text.len() as int) =~= text);
        text.len() as int
    }
}

/// A trimmed text is a stretch of the text with white space alone on either side of it, and it
/// neither starts nor ends with any.
pub proof fn trimming_takes_white_space_alone(text: Seq<char>)
    ensures
        exists|from: int, to: int|
            0 <= from <= to <= text.len() && trimmed(text) == #[trigger] text.subrange(from, to)
                && all_white(text.take(from)) && all_white(text.skip(to)),
        trimmed(text).len() > 0 ==> !is_white(trimmed(text)[0]) && !is_white(trimmed(text).last()),
        all_white(text) <==> trimmed(text).len() == 0,
{
    let from = lemma_front(text);
    let front = trimmed_front(text);
    let cut = lemma_back(front);
    let to = from + cut;
    assert(text.subrange(from, to) =~= trimmed(text));
    assert(text.skip(to) =~= front.skip(cut));
    if cut > 0 {
        assert(trimmed(text)[0] == text[from]);
        assert(trimmed(text).last() == front[cut - 1]);
        assert(!is_white(text[from]));
    } else {
        assert forall|i: int| 0 <= i < text.len() implies is_white(#[trigger] text[i]) by {
            if i < from {
                assert(text.take(from)[i] == text[i]);
            } else {
                assert(text.skip(to)[i - to] == text[i]);
            }
        }
    }
}

/// Spaces, tabs and the ends of lines are white space, and no letter, digit or sign is.
pub proof fn what_is_printed_is_not_white(c: char)
    ensures
        is_white(' ') && is_white('\t') && is_white('\n') && is_white('\r'),
        '!' <= c <= '~' ==> !is_white(c),
{
}

/// What is stripped off the front is that character alone, as often as it stands there.
pub proof fn stripping_takes_one_character_alone(text: Seq<char>, c: char)
    ensures
        stripped_front(text, c).len() <= text.len(),
        text.skip(text.len() - stripped_front(text, c).len()) == stripped_front(text, c),
        forall|i: int|
            0 <= i < text.len() - stripped_front(text, c).len() ==> #[trigger] text[i] == c,
        stripped_front(text, c).len() > 0 ==> stripped_front(text, c)[0] != c,
        stripped_back(text, c).len() <= text.len(),
        text.take(stripped_back(text, c).len() as int) == stripped_back(text, c),
        forall|i: int|
            stripped_back(text, c).len() <= i < text.len() ==> #[trigger] text[i] == c,
        stripped_back(text, c).len() > 0 ==> stripped_back(text, c).last() != c,
    decreases text.len(),
{
    if text.len() > 0 && text[0] == c {
        let less = text.drop_first();
        stripping_takes_one_character_alone(less, c);
        let rest = stripped_front(less, c);
        assert(text.skip(text.len() - rest.len()) =~= less.skip(less.len() - rest.len()));
        assert forall|i: int| 0 <= i < text.len() - rest.len() implies #[trigger] text[i] == c by {
            if i > 0 {
                assert(less[i - 1] == text[i]);
            }
        }
    } else {
        assert(text.skip(0) =~= text);
    }
    if text.len() > 0 && text.last() == c {
        let less = text.drop_last();
        stripping_takes_one_character_alone(less, c);
        let rest = stripped_back(less, c);
        assert(text.take(rest.len() as int) =~= less.take(rest.len() as int));
        assert forall|i: int| rest.len() <= i < text.len() implies #[trigger] text[i] == c by {
            if i < less.len() {
                assert(less[i] == text[i]);
            }
        }
    } else {
        assert(text.take(text.len() as int) =~= text);
    }
}

/// A text stands in another at this place.
pub open spec fn stands(text: Seq<char>, sought: Seq<char>, at: int) -> bool {
    0 <= at && at + sought.len() <= text.len() && text.subrange(at, at + sought.len()) == sought
}

/// What is sought is found where it stands, at the first such place, and is not found only where
/// it stands nowhere.
pub proof fn the_first_place_is_found(text: Seq<char>, sought: Seq<char>)
    ensures
        first_place(text, sought) matches Some(at) ==> stands(text, sought, at) && forall|i: int|
            0 <= i < at ==> !#[trigger] stands(text, sought, i),
        first_place(text, sought) is None ==> forall|i: int| !#[trigger] stands(text, sought, i),
    decreases text.len(),
{
    if sought.is_prefix_of(text) {
        assert(text.subrange(0, sought.len() as int) =~= sought);
    } else {
        assert(!stands(text, sought, 0)) by {
            if stands(text, sought, 0) {
                assert(text.subrange(0, sought.len() as int) =~= sought);
                assert forall|i: int| 0 <= i < sought.len() implies sought[i] == text[i] by {
                    assert(text.subrange(0, sought.len() as int)[i] == text[i]);
                }
                assert(sought.is_prefix_of(text));
            }
        }
        if text.len() > 0 {
            let less = text.drop_first();
            the_first_place_is_found(less, sought);
            assert forall|i: int| i > 0 implies #[trigger] stands(text, sought, i) == stands(
                less,
                sought,
                i - 1,
            ) by {
                if i + sought.len() <= text.len() {
                    assert(text.subrange(i, i + sought.len()) =~= less.subrange(
                        i - 1,
                        i - 1 + sought.len(),
                    ));
                }
            }
        }
    }
}

/// A text cut at what is sought is what stands in front of its first place and what stands behind
/// it, and nothing is lost but what was sought.
pub proof fn a_cut_text_is_whole(text: Seq<char>, sought: Seq<char>)
    ensures
        cut_once(text, sought) matches Some((front, back)) ==> text == front + sought + back
            && forall|i: int| 0 <= i < front.len() ==> !#[trigger] stands(text, sought, i),
        cut_once(text, sought) is None <==> forall|i: int| !#[trigger] stands(text, sought, i),
{
    the_first_place_is_found(text, sought);
    if let Some(at) = first_place(text, sought) {
        assert(stands(text, sought, at));
        let front = text.take(at);
        let back = text.skip(at + sought.len());
        assert(text =~= front + text.subrange(at, at + sought.len()) + back);
    }
}

/// What stands in front of the last place of a character: behind it the character does not come
/// again.
pub proof fn the_last_place_is_the_last(text: Seq<char>, c: char)
    ensures
        before_last(text, c) matches Some(front) ==> {
            &&& front.len() < text.len()
            &&& front == text.take(front.len() as int)
            &&& text[front.len() as int] == c
            &&& forall|i: int| front.len() < i < text.len() ==> #[trigger] text[i] != c
        },
        before_last(text, c) is None <==> !text.contains(c),
    decreases text.len(),
{
    if text.len() > 0 {
        let less = text.drop_last();
        the_last_place_is_the_last(less, c);
        if text.last() == c {
            assert(text[text.len() - 1] == c);
            assert(less =~= text.take(less.len() as int));
        } else {
            if let Some(front) = before_last(less, c) {
                assert(front =~= text.take(front.len() as int));
                assert(text[front.len() as int] == c);
                assert forall|i: int| front.len() < i < text.len() implies #[trigger] text[i]
                    != c by {
                    if i < less.len() {
                        assert(less[i] == text[i]);
                    }
                }
            }
            if text.contains(c) {
                let i = choose|i: int| 0 <= i < text.len() && text[i] == c;
                assert(less[i] == c);
            }
            if less.contains(c) {
                let i = choose|i: int| 0 <= i < less.len() && less[i] == c;
                assert(text[i] == c);
            }
        }
    }
}

/// A text ends in another exactly when it is something followed by it.
pub proof fn a_text_ends_in_its_tail(front: Seq<char>, tail: Seq<char>, text: Seq<char>)
    ensures
        ends_in(front + tail, tail),
        ends_in(text, tail) ==> text == text.take(text.len() - tail.len()) + tail,
{
    assert((front + tail).skip(front.len() as int) =~= tail);
    if ends_in(text, tail) {
        assert(text =~= text.take(text.len() - tail.len()) + text.skip(text.len() - tail.len()));
    }
}

proof fn lemma_digits(number: nat)
    ensures
        decimal(number).len() > 0,
        digits_value(decimal(number)) == Some(number),
        forall|i: int| 0 <= i < decimal(number).len() ==> '0' <= #[trigger] decimal(number)[i] <= '9',
        number > 0 ==> decimal(number)[0] != '0',
    decreases number,
{
    let written = decimal(number);
    if number < 10 {
        assert(written.drop_last() =~= Seq::empty());
        assert(digits_value(written.drop_last()) == Some(0nat));
        assert(written.last() == digit(number));
    } else {
        lemma_digits(number / 10);
        assert(written.drop_last() =~= decimal(number / 10));
        assert(written.last() == digit(number % 10));
        assert(written[0] == decimal(number / 10)[0]);
    }
}

/// A number that was written out reads back as the same number. It is written in digits alone,
/// and starts with a nought only where it is nought.
pub proof fn a_number_reads_back(number: u64)
    ensures
        number_in(decimal(number as nat)) == Some(number),
        forall|i: int|
            0 <= i < decimal(number as nat).len() ==> '0' <= #[trigger] decimal(number as nat)[i]
                <= '9',
        number > 0 ==> decimal(number as nat)[0] != '0',
{
    lemma_digits(number as nat);
}

/// Numbers that differ are written differently.
pub proof fn numbers_are_told_apart(left: nat, right: nat)
    ensures
        decimal(left) == decimal(right) <==> left == right,
{
    lemma_digits(left);
    lemma_digits(right);
}

/// Only digits are a number: a text that holds anything else is none, and neither is an empty
/// one.
pub proof fn only_digits_are_a_number(text: Seq<char>, at: int)
    ensures
        text.len() == 0 ==> number_in(text) is None,
        0 <= at < text.len() && !('0' <= text[at] <= '9') ==> number_in(text) is None,
    decreases text.len(),
{
    if 0 <= at < text.len() && !('0' <= text[at] <= '9') {
        lemma_no_digit(text, at);
    }
}

proof fn lemma_no_digit(text: Seq<char>, at: int)
    requires
        0 <= at < text.len(),
        !('0' <= text[at] <= '9'),
    ensures
        digits_value(text) is None,
    decreases text.len(),
{
    if at < text.len() - 1 {
        lemma_no_digit(text.drop_last(), at);
    }
}

/// Of two texts that are the same up to some place, the one with the lesser character there comes
/// first, and one that ends there comes before one that goes on.
pub proof fn the_first_difference_decides(
    common: Seq<char>,
    a: char,
    left: Seq<char>,
    b: char,
    right: Seq<char>,
)
    ensures
        a < b ==> precedes(common + seq![a] + left, common + seq![b] + right),
        a > b ==> !precedes(common + seq![a] + left, common + seq![b] + right),
        precedes(common, common + seq![b] + right),
        !precedes(common + seq![b] + right, common),
    decreases common.len(),
{
    let one = common + seq![a] + left;
    let other = common + seq![b] + right;
    if common.len() > 0 {
        let less = common.drop_first();
        the_first_difference_decides(less, a, left, b, right);
        assert(one.drop_first() =~= less + seq![a] + left);
        assert(other.drop_first() =~= less + seq![b] + right);
    } else {
        assert(one[0] == a && other[0] == b);
    }
}

/// Texts and places are seen as they are, in their order.
pub proof fn texts_are_seen_as_they_are(all: Seq<String>, places: Seq<usize>, i: int)
    ensures
        texts(all).len() == all.len(),
        0 <= i < all.len() ==> texts(all)[i] == all[i]@,
        seen_places(places).len() == places.len(),
        0 <= i < places.len() ==> seen_places(places)[i] == places[i],
{
}

} // verus!
