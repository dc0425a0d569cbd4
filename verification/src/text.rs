//! Text as sequences of characters: splitting, trimming, comparing and joining.

use vstd::prelude::*;

pub mod laws;

verus! {

/// Several texts as mathematics.
pub open spec fn texts(all: Seq<String>) -> Seq<Seq<char>> {
    all.map_values(|one: String| one@)
}

/// A text that may not be there, as mathematics.
pub open spec fn maybe_text(one: Option<String>) -> Option<Seq<char>> {
    match one {
        Some(text) => Some(text@),
        None => None,
    }
}

/// Whether two texts are the same.
pub fn same(left: &str, right: &str) -> (equal: bool)
    ensures
        equal == (left@ == right@),
{
    left.to_owned() == right.to_owned()
}

/// Whether two texts that may not be there are the same.
pub fn same_maybe(left: &Option<String>, right: &Option<String>) -> (equal: bool)
    ensures
        equal == (maybe_text(*left) == maybe_text(*right)),
{
    match (left, right) {
        (Some(left), Some(right)) => same(left.as_str(), right.as_str()),
        (None, None) => true,
        _ => false,
    }
}

/// A copy of a text that may not be there.
pub fn copied(text: &Option<String>) -> (copy: Option<String>)
    ensures
        maybe_text(copy) == maybe_text(*text),
{
    match text {
        Some(text) => Some(text.as_str().to_owned()),
        None => None,
    }
}

/// Whether a text is one of several.
pub fn one_of(text: &str, all: &Vec<String>) -> (found: bool)
    ensures
        found == texts(all@).contains(text@),
{
    let mut index: usize = 0;
    while index < all.len()
        invariant
            index <= all@.len(),
            forall|i: int| 0 <= i < index ==> all@[i]@ != text@,
        decreases all@.len() - index,
    {
        if same(all[index].as_str(), text) {
            assert(texts(all@)[index as int] == text@);
            return true;
        }
        index = index + 1;
    }
    assert(forall|i: int| 0 <= i < all@.len() ==> texts(all@)[i] == all@[i]@);
    false
}

/// The first place of a text in a list.
pub open spec fn first_at(all: Seq<Seq<char>>, text: Seq<char>) -> Option<int>
    decreases all.len(),
{
    if all.len() == 0 {
        None
    } else {
        match first_at(all.drop_last(), text) {
            Some(place) => Some(place),
            None => if all.last() == text {
                Some(all.len() - 1)
            } else {
                None
            },
        }
    }
}

/// The first place of a text in a list holds it, and none before it does.
pub proof fn the_first_place_holds_the_text(all: Seq<Seq<char>>, text: Seq<char>)
    ensures
        match first_at(all, text) {
            Some(place) => 0 <= place < all.len() && all[place] == text && forall|i: int|
                0 <= i < place ==> #[trigger] all[i] != text,
            None => !all.contains(text),
        },
    decreases all.len(),
{
    if all.len() > 0 {
        let fewer = all.drop_last();
        the_first_place_holds_the_text(fewer, text);
        assert forall|i: int| 0 <= i < fewer.len() implies #[trigger] all[i] == fewer[i] by {}
        if first_at(fewer, text) is None {
            assert forall|i: int| 0 <= i < fewer.len() implies #[trigger] all[i] != text by {
                assert(fewer.contains(fewer[i]));
            }
        }
    }
}

/// A place in a list as mathematics.
pub open spec fn maybe_place(place: Option<usize>) -> Option<int> {
    match place {
        Some(place) => Some(place as int),
        None => None,
    }
}

/// The first place of a text in a list.
pub fn position(text: &str, all: &Vec<String>) -> (place: Option<usize>)
    ensures
        maybe_place(place) == first_at(texts(all@), text@),
        place matches Some(place) ==> place < all@.len(),
{
    let mut index: usize = 0;
    assert(texts(all@).take(0) =~= Seq::empty());
    while index < all.len()
        invariant
            index <= all@.len(),
            first_at(texts(all@).take(index as int), text@) is None,
        decreases all@.len() - index,
    {
        let ghost more = texts(all@).take(index + 1);
        assert(more.drop_last() =~= texts(all@).take(index as int));
        assert(more.last() == all@[index as int]@);
        if same(all[index].as_str(), text) {
            proof {
                lemma_first_stays(texts(all@), text@, index + 1);
            }
            return Some(index);
        }
        index = index + 1;
    }
    assert(texts(all@).take(index as int) =~= texts(all@));
    None
}

/// A text found at the start of a list is found there in all of it.
proof fn lemma_first_stays(all: Seq<Seq<char>>, text: Seq<char>, count: int)
    requires
        0 <= count <= all.len(),
        first_at(all.take(count), text) is Some,
    ensures
        first_at(all, text) == first_at(all.take(count), text),
    decreases all.len() - count,
{
    if count < all.len() {
        assert(all.take(count + 1).drop_last() =~= all.take(count));
        lemma_first_stays(all, text, count + 1);
    } else {
        assert(all.take(count) =~= all);
    }
}

/// The characters of a text, to be looked at one by one.
pub fn chars_of(text: &str) -> (chars: Vec<char>)
    ensures
        chars@ == text@,
{
    let mut chars: Vec<char> = Vec::new();
    for one in it: text.chars()
        invariant
            it.seq() == text@,
            chars@ == text@.take(it.index() as int),
    {
        chars.push(one);
        assert(chars@ =~= text@.take(it.index() + 1));
    }
    assert(text@.take(text@.len() as int) =~= text@);
    chars
}

/// The pieces between the separators: one more than there are separators.
pub open spec fn pieces(text: Seq<char>, separator: char) -> Seq<Seq<char>>
    decreases text.len(),
{
    if text.len() == 0 {
        seq![Seq::empty()]
    } else {
        let before = pieces(text.drop_last(), separator);
        if text.last() == separator {
            before.push(Seq::empty())
        } else {
            before.drop_last().push(before.last().push(text.last()))
        }
    }
}

/// Splits a text at every separator.
pub fn split(text: &str, separator: char) -> (parts: Vec<String>)
    ensures
        texts(parts@) == pieces(text@, separator),
{
    let chars = chars_of(text);
    let mut parts: Vec<String> = Vec::new();
    let mut start: usize = 0;
    let mut index: usize = 0;
    proof {
        assert(text@.take(0) =~= Seq::empty());
        assert(texts(parts@).push(text@.subrange(0, 0)) =~= seq![Seq::empty()]);
    }
    while index < chars.len()
        invariant
            chars@ == text@,
            start <= index <= chars@.len(),
            pieces(text@.take(index as int), separator) == texts(parts@).push(
                text@.subrange(start as int, index as int),
            ),
        decreases chars@.len() - index,
    {
        let ghost before = texts(parts@);
        let ghost piece = text@.subrange(start as int, index as int);
        proof {
            assert(text@.take(index + 1).drop_last() =~= text@.take(index as int));
            assert(before.push(piece).drop_last() =~= before);
        }
        if chars[index] == separator {
            let part = text.substring_char(start, index).to_owned();
            parts.push(part);
            start = index + 1;
            proof {
                assert(texts(parts@) =~= before.push(piece));
                assert(text@.subrange(start as int, index + 1) =~= Seq::empty());
            }
        } else {
            proof {
                assert(text@.subrange(start as int, index + 1) =~= piece.push(text@[index as int]));
            }
        }
        index = index + 1;
    }
    let ghost before = texts(parts@);
    let part = text.substring_char(start, index).to_owned();
    parts.push(part);
    proof {
        assert(text@.take(index as int) =~= text@);
        assert(texts(parts@) =~= before.push(text@.subrange(start as int, index as int)));
    }
    parts
}

/// Several texts with the same separator between each two.
pub open spec fn joined(parts: Seq<Seq<char>>, separator: Seq<char>) -> Seq<char>
    decreases parts.len(),
{
    if parts.len() == 0 {
        Seq::empty()
    } else if parts.len() == 1 {
        parts[0]
    } else {
        joined(parts.drop_last(), separator) + separator + parts.last()
    }
}

/// Joins texts with the same separator between each two.
pub fn join(parts: &Vec<String>, separator: &str) -> (text: String)
    ensures
        text@ == joined(texts(parts@), separator@),
{
    let mut text: String = String::new();
    let mut index: usize = 0;
    proof {
        assert(texts(parts@).take(0) =~= Seq::empty());
    }
    while index < parts.len()
        invariant
            index <= parts@.len(),
            text@ == joined(texts(parts@).take(index as int), separator@),
        decreases parts@.len() - index,
    {
        let ghost all = texts(parts@);
        proof {
            assert(all.take(index + 1).drop_last() =~= all.take(index as int));
            assert(all.take(index + 1).last() == parts@[index as int]@);
        }
        if index > 0 {
            text.append(separator);
        }
        text.append(parts[index].as_str());
        proof {
            if index == 0 {
                assert(text@ =~= all[0]);
            }
        }
        index = index + 1;
    }
    proof {
        assert(texts(parts@).take(index as int) =~= texts(parts@));
    }
    text
}

/// The characters Unicode counts as white space.
pub open spec fn is_white(c: char) -> bool {
    ||| '\u{9}' <= c <= '\u{d}'
    ||| c == ' '
    ||| c == '\u{85}'
    ||| c == '\u{a0}'
    ||| c == '\u{1680}'
    ||| '\u{2000}' <= c <= '\u{200a}'
    ||| c == '\u{2028}'
    ||| c == '\u{2029}'
    ||| c == '\u{202f}'
    ||| c == '\u{205f}'
    ||| c == '\u{3000}'
}

/// Whether Unicode counts a character as white space.
pub fn white(c: char) -> (yes: bool)
    ensures
        yes == is_white(c),
{
    ('\u{9}' <= c && c <= '\u{d}') || c == ' ' || c == '\u{85}' || c == '\u{a0}' || c == '\u{1680}'
        || ('\u{2000}' <= c && c <= '\u{200a}') || c == '\u{2028}' || c == '\u{2029}' || c
        == '\u{202f}' || c == '\u{205f}' || c == '\u{3000}'
}

/// The text without the white space in front of it.
pub open spec fn trimmed_front(text: Seq<char>) -> Seq<char>
    decreases text.len(),
{
    if text.len() > 0 && is_white(text[0]) {
        trimmed_front(text.drop_first())
    } else {
        text
    }
}

/// The text without the white space behind it.
pub open spec fn trimmed_back(text: Seq<char>) -> Seq<char>
    decreases text.len(),
{
    if text.len() > 0 && is_white(text.last()) {
        trimmed_back(text.drop_last())
    } else {
        text
    }
}

/// The text without the white space around it.
pub open spec fn trimmed(text: Seq<char>) -> Seq<char> {
    trimmed_back(trimmed_front(text))
}

/// Drops the white space around a text.
pub fn trim(text: &str) -> (rest: String)
    ensures
        rest@ == trimmed(text@),
{
    let chars = chars_of(text);
    let mut start: usize = 0;
    proof {
        assert(text@.skip(0) =~= text@);
    }
    while start < chars.len() && white(chars[start])
        invariant
            chars@ == text@,
            start <= chars@.len(),
            trimmed_front(text@.skip(start as int)) == trimmed_front(text@),
        decreases chars@.len() - start,
    {
        proof {
            assert(text@.skip(start as int).drop_first() =~= text@.skip(start + 1));
        }
        start = start + 1;
    }
    let mut end: usize = chars.len();
    proof {
        assert(trimmed_front(text@) == text@.skip(start as int));
        assert(text@.subrange(start as int, end as int) =~= text@.skip(start as int));
    }
    while end > start && white(chars[end - 1])
        invariant
            chars@ == text@,
            start <= end <= chars@.len(),
            trimmed_back(text@.subrange(start as int, end as int)) == trimmed(text@),
        decreases end,
    {
        proof {
            assert(text@.subrange(start as int, end as int).drop_last() =~= text@.subrange(
                start as int,
                end - 1,
            ));
        }
        end = end - 1;
    }
    text.substring_char(start, end).to_owned()
}

/// The text without any number of one character in front of it.
pub open spec fn stripped_front(text: Seq<char>, c: char) -> Seq<char>
    decreases text.len(),
{
    if text.len() > 0 && text[0] == c {
        stripped_front(text.drop_first(), c)
    } else {
        text
    }
}

/// Drops any number of one character in front of a text.
pub fn strip_front(text: &str, c: char) -> (rest: String)
    ensures
        rest@ == stripped_front(text@, c),
{
    let chars = chars_of(text);
    let mut start: usize = 0;
    proof {
        assert(text@.skip(0) =~= text@);
    }
    while start < chars.len() && chars[start] == c
        invariant
            chars@ == text@,
            start <= chars@.len(),
            stripped_front(text@.skip(start as int), c) == stripped_front(text@, c),
        decreases chars@.len() - start,
    {
        proof {
            assert(text@.skip(start as int).drop_first() =~= text@.skip(start + 1));
        }
        start = start + 1;
    }
    proof {
        assert(text@.subrange(start as int, chars@.len() as int) =~= text@.skip(start as int));
    }
    text.substring_char(start, chars.len()).to_owned()
}

/// The text without any number of one character behind it.
pub open spec fn stripped_back(text: Seq<char>, c: char) -> Seq<char>
    decreases text.len(),
{
    if text.len() > 0 && text.last() == c {
        stripped_back(text.drop_last(), c)
    } else {
        text
    }
}

/// Drops any number of one character behind a text.
pub fn strip_back(text: &str, c: char) -> (rest: String)
    ensures
        rest@ == stripped_back(text@, c),
{
    let chars = chars_of(text);
    let mut end: usize = chars.len();
    proof {
        assert(text@.take(end as int) =~= text@);
    }
    while end > 0 && chars[end - 1] == c
        invariant
            chars@ == text@,
            end <= chars@.len(),
            stripped_back(text@.take(end as int), c) == stripped_back(text@, c),
        decreases end,
    {
        proof {
            assert(text@.take(end as int).drop_last() =~= text@.take(end - 1));
        }
        end = end - 1;
    }
    proof {
        assert(text@.subrange(0, end as int) =~= text@.take(end as int));
    }
    text.substring_char(0, end).to_owned()
}

/// Where a run of characters stands in a text for the first time.
pub open spec fn first_place(text: Seq<char>, sought: Seq<char>) -> Option<int>
    decreases text.len(),
{
    if sought.is_prefix_of(text) {
        Some(0)
    } else if text.len() == 0 {
        None
    } else {
        match first_place(text.drop_first(), sought) {
            Some(at) => Some(at + 1),
            None => None,
        }
    }
}

/// Whether a run of characters stands at a place in a text.
fn stands_at(text: &Vec<char>, sought: &Vec<char>, at: usize) -> (yes: bool)
    requires
        at <= text@.len(),
    ensures
        yes == sought@.is_prefix_of(text@.skip(at as int)),
{
    if text.len() - at < sought.len() {
        return false;
    }
    let mut index: usize = 0;
    while index < sought.len()
        invariant
            at + sought.len() <= text.len(),
            index <= sought@.len(),
            forall|i: int| 0 <= i < index ==> sought@[i] == text@[at + i],
        decreases sought@.len() - index,
    {
        if sought[index] != text[at + index] {
            assert(text@.skip(at as int)[index as int] == text@[at + index]);
            return false;
        }
        index = index + 1;
    }
    true
}

/// Where a run of characters stands in a text for the first time, counted in characters.
pub fn place_of(text: &str, sought: &str) -> (place: Option<usize>)
    ensures
        match place {
            Some(at) => first_place(text@, sought@) == Some(at as int) && at + sought@.len()
                <= text@.len() && sought@.is_prefix_of(text@.skip(at as int)),
            None => first_place(text@, sought@) is None,
        },
{
    let chars = chars_of(text);
    let wanted = chars_of(sought);
    let mut at: usize = 0;
    proof {
        assert(text@.skip(0) =~= text@);
    }
    loop
        invariant
            chars@ == text@,
            wanted@ == sought@,
            at <= chars@.len(),
            match first_place(text@.skip(at as int), sought@) {
                Some(more) => first_place(text@, sought@) == Some(at + more),
                None => first_place(text@, sought@) is None,
            },
        decreases chars@.len() - at,
    {
        if stands_at(&chars, &wanted, at) {
            return Some(at);
        }
        if at == chars.len() {
            return None;
        }
        proof {
            assert(text@.skip(at as int).drop_first() =~= text@.skip(at + 1));
        }
        at = at + 1;
    }
}

/// Whether a text holds a run of characters anywhere.
pub fn contains(text: &str, sought: &str) -> (yes: bool)
    ensures
        yes == (first_place(text@, sought@) is Some),
{
    place_of(text, sought).is_some()
}

/// A text cut in two at the first place a run of characters stands, without the run.
pub open spec fn cut_once(text: Seq<char>, sought: Seq<char>) -> Option<(Seq<char>, Seq<char>)> {
    match first_place(text, sought) {
        Some(at) => Some((text.take(at), text.skip(at + sought.len()))),
        None => None,
    }
}

/// Cuts a text in two at the first place a run of characters stands.
pub fn split_once(text: &str, sought: &str) -> (cut: Option<(String, String)>)
    ensures
        match cut {
            Some((front, back)) => cut_once(text@, sought@) == Some((front@, back@)),
            None => cut_once(text@, sought@) is None,
        },
{
    let at: usize = match place_of(text, sought) {
        Some(at) => at,
        None => {
            return None;
        },
    };
    let width: usize = sought.unicode_len();
    let length: usize = text.unicode_len();
    let front = text.substring_char(0, at).to_owned();
    let back = text.substring_char(at + width, length).to_owned();
    proof {
        assert(front@ =~= text@.take(at as int));
        assert(back@ =~= text@.skip(at + sought@.len()));
    }
    Some((front, back))
}

/// What stands in front of the last occurrence of a character.
pub open spec fn before_last(text: Seq<char>, c: char) -> Option<Seq<char>>
    decreases text.len(),
{
    if text.len() == 0 {
        None
    } else if text.last() == c {
        Some(text.drop_last())
    } else {
        before_last(text.drop_last(), c)
    }
}

/// What stands in front of the last occurrence of a character.
pub fn cut_last(text: &str, c: char) -> (front: Option<String>)
    ensures
        maybe_text(front) == before_last(text@, c),
{
    let chars = chars_of(text);
    let mut end: usize = chars.len();
    proof {
        assert(text@.take(end as int) =~= text@);
    }
    while end > 0
        invariant
            chars@ == text@,
            end <= chars@.len(),
            before_last(text@.take(end as int), c) == before_last(text@, c),
        decreases end,
    {
        proof {
            assert(text@.take(end as int).drop_last() =~= text@.take(end - 1));
        }
        if chars[end - 1] == c {
            proof {
                assert(text@.subrange(0, end - 1) =~= text@.take(end - 1));
            }
            return Some(text.substring_char(0, end - 1).to_owned());
        }
        end = end - 1;
    }
    None
}

/// Whether a text starts with another.
pub fn starts_with(text: &str, front: &str) -> (yes: bool)
    ensures
        yes == front@.is_prefix_of(text@),
{
    let chars = chars_of(text);
    let wanted = chars_of(front);
    proof {
        assert(text@.skip(0) =~= text@);
    }
    stands_at(&chars, &wanted, 0)
}

/// Whether a text ends with another.
pub open spec fn ends_in(text: Seq<char>, tail: Seq<char>) -> bool {
    tail.len() <= text.len() && text.skip(text.len() - tail.len()) == tail
}

/// Whether a text ends with another.
pub fn ends_with(text: &str, tail: &str) -> (yes: bool)
    ensures
        yes == ends_in(text@, tail@),
{
    let length: usize = text.unicode_len();
    let width: usize = tail.unicode_len();
    if length < width {
        return false;
    }
    proof {
        assert(text@.subrange(length - width, length as int) =~= text@.skip(
            text@.len() - tail@.len(),
        ));
    }
    same(text.substring_char(length - width, length), tail)
}

/// The digits of a number, the highest first.
pub open spec fn decimal(number: nat) -> Seq<char>
    decreases number,
{
    if number < 10 {
        seq![digit(number)]
    } else {
        decimal(number / 10).push(digit(number % 10))
    }
}

/// One digit.
pub open spec fn digit(value: nat) -> char {
    (value + 0x30) as char
}

/// One digit as a text of its own.
fn digit_text(value: u64) -> (text: &'static str)
    requires
        value < 10,
    ensures
        text@ == seq![digit(value as nat)],
{
    proof {
        reveal_strlit("0");
        reveal_strlit("1");
        reveal_strlit("2");
        reveal_strlit("3");
        reveal_strlit("4");
        reveal_strlit("5");
        reveal_strlit("6");
        reveal_strlit("7");
        reveal_strlit("8");
        reveal_strlit("9");
    }
    let text: &'static str = match value {
        0 => "0",
        1 => "1",
        2 => "2",
        3 => "3",
        4 => "4",
        5 => "5",
        6 => "6",
        7 => "7",
        8 => "8",
        _ => "9",
    };
    assert(text@ =~= seq![digit(value as nat)]);
    text
}

/// Writes a number out in digits.
pub fn number_text(number: u64) -> (text: String)
    ensures
        text@ == decimal(number as nat),
    decreases number,
{
    if number < 10 {
        digit_text(number).to_owned()
    } else {
        let mut text = number_text(number / 10);
        text.append(digit_text(number % 10));
        assert(text@ =~= decimal(number as nat));
        text
    }
}

/// One text behind another.
pub fn joined_pair(front: &str, back: &str) -> (text: String)
    ensures
        text@ == front@ + back@,
{
    let mut text = front.to_owned();
    text.append(back);
    text
}

/// What a run of digits spells, or nothing when another character is among them.
pub open spec fn digits_value(text: Seq<char>) -> Option<nat>
    decreases text.len(),
{
    if text.len() == 0 {
        Some(0)
    } else {
        match digits_value(text.drop_last()) {
            Some(high) => if '0' <= text.last() <= '9' {
                Some((high * 10 + (text.last() as int - 0x30)) as nat)
            } else {
                None
            },
            None => None,
        }
    }
}

/// The number a text spells: digits, at least one of them and nothing else, and no more than
/// sixty-four bits hold.
pub open spec fn number_in(text: Seq<char>) -> Option<u64> {
    if text.len() == 0 {
        None
    } else {
        match digits_value(text) {
            Some(value) => if value <= u64::MAX {
                Some(value as u64)
            } else {
                None
            },
            None => None,
        }
    }
}

proof fn lemma_digits_grow(text: Seq<char>, end: int)
    requires
        0 <= end <= text.len(),
        digits_value(text) is Some,
    ensures
        digits_value(text.take(end)) is Some,
        digits_value(text.take(end))->0 <= digits_value(text)->0,
    decreases text.len(),
{
    if end == text.len() {
        assert(text.take(end) =~= text);
    } else {
        lemma_digits_grow(text.drop_last(), end);
        assert(text.drop_last().take(end) =~= text.take(end));
    }
}

/// Reads a number out of a text that holds nothing else.
pub fn parse_number(text: &str) -> (number: Option<u64>)
    ensures
        number == number_in(text@),
{
    let chars = chars_of(text);
    if chars.len() == 0 {
        return None;
    }
    let mut value: u64 = 0;
    let mut index: usize = 0;
    assert(text@.take(0) =~= Seq::empty());
    while index < chars.len()
        invariant
            chars@ == text@,
            index <= chars@.len(),
            text@.len() > 0,
            digits_value(text@.take(index as int)) == Some(value as nat),
        decreases chars@.len() - index,
    {
        let c = chars[index];
        proof {
            let upto = text@.take(index + 1);
            assert(upto.drop_last() =~= text@.take(index as int));
            assert(upto.last() == c);
            if digits_value(text@) is Some {
                lemma_digits_grow(text@, index + 1);
            }
        }
        if c < '0' || c > '9' {
            return None;
        }
        let one: u64 = c as u64 - 0x30;
        if value > (u64::MAX - one) / 10 {
            assert(value * 10 + one > u64::MAX);
            return None;
        }
        value = value * 10 + one;
        index = index + 1;
    }
    assert(text@.take(index as int) =~= text@);
    Some(value)
}

/// One text comes before another in the order of their characters. A text comes before those it
/// is only the start of.
pub open spec fn precedes(left: Seq<char>, right: Seq<char>) -> bool
    decreases left.len(),
{
    if right.len() == 0 {
        false
    } else if left.len() == 0 {
        true
    } else if left[0] != right[0] {
        left[0] < right[0]
    } else {
        precedes(left.drop_first(), right.drop_first())
    }
}

/// Of two texts that differ one comes before the other, and never each before the other.
pub proof fn texts_compare(left: Seq<char>, right: Seq<char>)
    ensures
        left == right ==> !precedes(left, right),
        left != right ==> precedes(left, right) != precedes(right, left),
    decreases left.len(),
{
    if left.len() > 0 && right.len() > 0 {
        texts_compare(left.drop_first(), right.drop_first());
        if left[0] == right[0] && left.drop_first() == right.drop_first() {
            assert(left =~= seq![left[0]] + left.drop_first());
            assert(right =~= seq![right[0]] + right.drop_first());
        }
    } else if left.len() == 0 && right.len() == 0 {
        assert(left =~= right);
    }
}

/// What comes before a text comes before everything that text comes before.
pub proof fn texts_chain(left: Seq<char>, middle: Seq<char>, right: Seq<char>)
    requires
        precedes(left, middle),
        precedes(middle, right),
    ensures
        precedes(left, right),
    decreases left.len(),
{
    if left.len() > 0 && left[0] == middle[0] && middle[0] == right[0] {
        texts_chain(left.drop_first(), middle.drop_first(), right.drop_first());
    }
}

/// Whether one text comes before another in the order of their characters.
pub fn before(left: &str, right: &str) -> (yes: bool)
    ensures
        yes == precedes(left@, right@),
{
    let one = chars_of(left);
    let other = chars_of(right);
    let mut index: usize = 0;
    assert(left@.skip(0) =~= left@);
    assert(right@.skip(0) =~= right@);
    loop
        invariant
            one@ == left@,
            other@ == right@,
            index <= one@.len(),
            index <= other@.len(),
            precedes(left@.skip(index as int), right@.skip(index as int)) == precedes(
                left@,
                right@,
            ),
        decreases one@.len() - index,
    {
        if index == other.len() {
            return false;
        }
        if index == one.len() {
            return true;
        }
        if one[index] != other[index] {
            return one[index] < other[index];
        }
        assert(left@.skip(index as int).drop_first() =~= left@.skip(index + 1));
        assert(right@.skip(index as int).drop_first() =~= right@.skip(index + 1));
        index = index + 1;
    }
}

/// What `str::to_lowercase` makes of a text: Unicode's lower case of it, in which what becomes of
/// a character can depend on those around it.
pub uninterp spec fn lowered(text: Seq<char>) -> Seq<char>;

/// Calls `str::to_lowercase`. The claim is that what it returns depends on nothing but the text.
#[verifier::external_body]
pub(crate) fn lowercase(text: &str) -> (low: String)
    ensures
        low@ == lowered(text@),
{
    text.to_lowercase()
}

/// What `char::to_lowercase` makes of a character: one character, or several.
pub uninterp spec fn lowered_char(c: char) -> Seq<char>;

/// Calls `char::to_lowercase` and collects the characters it yields. The claim is that they
/// depend on nothing but the character.
#[verifier::external_body]
pub(crate) fn lowercase_char(c: char) -> (low: String)
    ensures
        low@ == lowered_char(c),
{
    c.to_lowercase().to_string()
}

} // verus!
