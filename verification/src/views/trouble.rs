//! What a failed sign-in is told to the user as.

use vstd::prelude::*;

use crate::text::laws::{
    a_cut_text_is_whole,
    stands,
    stripping_takes_one_character_alone,
    the_first_place_is_found,
    the_last_place_is_the_last,
    trimming_takes_white_space_alone,
};
use crate::text::{
    before_last,
    chars_of,
    cut_last,
    cut_once,
    first_place,
    is_white,
    joined_pair,
    lowercase_char,
    lowered_char,
    maybe_text,
    split_once,
    strip_back,
    stripped_back,
    trim,
    trimmed,
};

verus! {

/// What is known to go wrong with a sign-in.
#[derive(Clone, Copy, Debug, PartialEq, Eq, Structural)]
pub enum SignInProblem {
    Region,
    Credentials,
    Network,
    Cancelled,
    Refused,
}

/// A failure: a problem that is known, or else what the provider said.
#[derive(Clone, Debug, PartialEq, Eq)]
pub struct Failure {
    pub problem: Option<SignInProblem>,
    pub summary: String,
    pub detail: Option<String>,
}

/// What is told of a failure.
#[derive(Clone, Debug, PartialEq, Eq)]
pub enum Message {
    /// The text under this key.
    Key(&'static str),
    Text(String),
}

/// The key of what is told of a known problem.
pub open spec fn reason_of(problem: SignInProblem) -> &'static str {
    match problem {
        SignInProblem::Region => "login-problem-region",
        SignInProblem::Credentials => "login-problem-credentials",
        SignInProblem::Network => "login-problem-network",
        SignInProblem::Cancelled => "login-problem-cancelled",
        SignInProblem::Refused => "login-problem-refused",
    }
}

/// The key of what is told of a known problem.
pub fn reason(problem: SignInProblem) -> (key: &'static str)
    ensures
        key == reason_of(problem),
{
    match problem {
        SignInProblem::Region => "login-problem-region",
        SignInProblem::Credentials => "login-problem-credentials",
        SignInProblem::Network => "login-problem-network",
        SignInProblem::Cancelled => "login-problem-cancelled",
        SignInProblem::Refused => "login-problem-refused",
    }
}

/// What stands inside the outermost braces of a text, or all of it where there are none.
pub open spec fn inside_braces(text: Seq<char>) -> Seq<char> {
    match cut_once(text, "{"@) {
        Some((_, rest)) => match before_last(rest, '}') {
            Some(inner) => inner,
            None => text,
        },
        None => text,
    }
}

/// What stands behind the words that lead up to a reason, or all of a text without them.
pub open spec fn behind_reason(text: Seq<char>) -> Seq<char> {
    match cut_once(text, "with reason:"@) {
        Some((_, reason)) => reason,
        None => text,
    }
}

/// The reason in a text, bare of what it is wrapped in and of its full stop.
pub open spec fn bare_of(text: Seq<char>) -> Seq<char> {
    stripped_back(trimmed(behind_reason(trimmed(inside_braces(text)))), '.')
}

/// The reason in a text, bare of what it is wrapped in and of its full stop.
pub fn bare_reason(text: &str) -> (bare: String)
    ensures
        bare@ == bare_of(text@),
{
    let inner = match split_once(text, "{") {
        Some((_, rest)) => match cut_last(rest.as_str(), '}') {
            Some(inner) => inner,
            None => text.to_owned(),
        },
        None => text.to_owned(),
    };
    assert(inner@ == inside_braces(text@));
    let inner = trim(inner.as_str());
    let reason = match split_once(inner.as_str(), "with reason:") {
        Some((_, reason)) => reason,
        None => inner.as_str().to_owned(),
    };
    assert(reason@ == behind_reason(inner@));
    let reason = trim(reason.as_str());
    strip_back(reason.as_str(), '.')
}

/// A reason that goes on from a colon, given its first letter in lower case.
pub open spec fn continued_of(low: Seq<char>, bare: Seq<char>) -> Seq<char> {
    low + bare.drop_first() + "."@
}

/// A reason that goes on from a colon, given its first letter in lower case.
pub fn continued(low: &str, bare: &str) -> (text: String)
    requires
        bare@.len() > 0,
    ensures
        text@ == continued_of(low@, bare@),
{
    let length: usize = bare.unicode_len();
    let rest = bare.substring_char(1, length);
    assert(rest@ =~= bare@.drop_first());
    let mut text = joined_pair(low, rest);
    text.append(".");
    text
}

/// The reason in a text, as it goes on from a colon. A text without one stays as it is.
pub open spec fn unwrapped_of(text: Seq<char>) -> Seq<char> {
    let bare = bare_of(text);
    if bare.len() == 0 {
        text
    } else {
        continued_of(lowered_char(bare[0]), bare)
    }
}

/// The reason in a text, as it goes on from a colon. A text without one stays as it is.
pub fn unwrapped_reason(text: &str) -> (reason: String)
    ensures
        reason@ == unwrapped_of(text@),
{
    let bare = bare_reason(text);
    let letters = chars_of(bare.as_str());
    if letters.len() == 0 {
        return text.to_owned();
    }
    let low = lowercase_char(letters[0]);
    continued(low.as_str(), bare.as_str())
}

/// What is told of a failure that is not a known problem: a sentence of its summary, and of the
/// reason in its detail where there is one.
pub open spec fn sentence_of(summary: Seq<char>, detail: Option<Seq<char>>) -> Seq<char> {
    let start = stripped_back(summary, '.');
    match detail {
        Some(detail) => start + ": "@ + unwrapped_of(detail),
        None => start + "."@,
    }
}

/// What is told of a failure that is not a known problem.
pub fn sentence(summary: &str, detail: &Option<String>) -> (text: String)
    ensures
        text@ == sentence_of(summary@, maybe_text(*detail)),
{
    let mut text = strip_back(summary, '.');
    match detail {
        Some(detail) => {
            text.append(": ");
            text.append(unwrapped_reason(detail.as_str()).as_str());
        },
        None => {
            text.append(".");
        },
    }
    text
}

/// What is told of a failure.
pub fn trouble(failure: &Failure) -> (message: Message)
    ensures
        match failure.problem {
            Some(problem) => message == Message::Key(reason_of(problem)),
            None => message matches Message::Text(text) && text@ == sentence_of(
                failure.summary@,
                maybe_text(failure.detail),
            ),
        },
{
    match failure.problem {
        Some(problem) => Message::Key(reason(problem)),
        None => Message::Text(sentence(failure.summary.as_str(), &failure.detail)),
    }
}

/// What is left of a text without the characters behind it does not end in that character.
proof fn lemma_stripped(text: Seq<char>, c: char)
    ensures
        stripped_back(text, c).len() > 0 ==> stripped_back(text, c).last() != c,
    decreases text.len(),
{
    if text.len() > 0 && text.last() == c {
        lemma_stripped(text.drop_last(), c);
    }
}

/// However many full stops a summary ends in, the sentence without a detail ends in exactly one.
/// So does the one with a detail that names a reason of two letters or more.
pub proof fn a_sentence_ends_in_one_full_stop(summary: Seq<char>, detail: Seq<char>)
    ensures
        ({
            let plain = sentence_of(summary, None);
            &&& plain.last() == '.'
            &&& plain.len() > 1 ==> plain[plain.len() - 2] != '.'
        }),
        bare_of(detail).len() > 1 ==> ({
            let whole = sentence_of(summary, Some(detail));
            whole.last() == '.' && whole[whole.len() - 2] != '.'
        }),
{
    reveal_strlit(".");
    reveal_strlit(": ");
    lemma_stripped(summary, '.');
    let bare = bare_of(detail);
    lemma_stripped(trimmed(behind_reason(trimmed(inside_braces(detail)))), '.');
    if bare.len() > 1 {
        let whole = sentence_of(summary, Some(detail));
        let tail = unwrapped_of(detail);
        assert(whole.len() - tail.len() == stripped_back(summary, '.').len() + 2);
        assert(whole.last() == tail.last());
        assert(tail[tail.len() - 2] == bare.last());
        assert(whole[whole.len() - 2] == tail[tail.len() - 2]);
    }
}

/// Every problem is told in its own words.
pub proof fn every_problem_has_its_words(problem: SignInProblem)
    ensures
        problem is Region ==> reason_of(problem) == "login-problem-region",
        problem is Credentials ==> reason_of(problem) == "login-problem-credentials",
        problem is Network ==> reason_of(problem) == "login-problem-network",
        problem is Cancelled ==> reason_of(problem) == "login-problem-cancelled",
        problem is Refused ==> reason_of(problem) == "login-problem-refused",
{
}

proof fn lemma_before_last(inner: Seq<char>, tail: Seq<char>, c: char)
    requires
        !tail.contains(c),
    ensures
        before_last(inner + seq![c] + tail, c) == Some(inner),
{
    let whole = inner + seq![c] + tail;
    the_last_place_is_the_last(whole, c);
    assert(whole[inner.len() as int] == c);
    assert(whole.contains(c));
    let front = before_last(whole, c)->0;
    if front.len() > inner.len() {
        assert(whole[front.len() as int] == tail[front.len() - inner.len() - 1]);
        assert(tail.contains(c));
    }
    assert(front.len() == inner.len());
    assert(whole.take(inner.len() as int) =~= inner);
}

/// What stands between the first opening brace and the last closing one is what is told. Where
/// the braces are not both there the text stays as it is.
pub proof fn braces_hold_what_is_told(lead: Seq<char>, inner: Seq<char>, tail: Seq<char>)
    requires
        !lead.contains('{'),
        !tail.contains('}'),
    ensures
        inside_braces(lead + seq!['{'] + inner + seq!['}'] + tail) == inner,
        inside_braces(lead) == lead,
{
    reveal_strlit("{");
    let brace = "{"@;
    assert(brace =~= seq!['{']);
    let rest = inner + seq!['}'] + tail;
    let whole = lead + seq!['{'] + inner + seq!['}'] + tail;
    assert(whole =~= lead + brace + rest);
    a_cut_text_is_whole(whole, brace);
    assert(whole.subrange(lead.len() as int, (lead.len() + 1) as int) =~= brace);
    assert(stands(whole, brace, lead.len() as int));
    let (front, back) = cut_once(whole, brace)->0;
    assert(front.len() == lead.len()) by {
        if front.len() < lead.len() {
            assert(whole[front.len() as int] == (front + brace + back)[front.len() as int]);
            assert(lead[front.len() as int] == '{');
            assert(lead.contains('{'));
        }
    }
    assert(back =~= whole.skip((lead.len() + 1) as int));
    assert(back =~= rest);
    lemma_before_last(inner, tail, '}');
    a_cut_text_is_whole(lead, brace);
    if let Some((front, back)) = cut_once(lead, brace) {
        assert(lead[front.len() as int] == (front + brace + back)[front.len() as int]);
        assert(lead.contains('{'));
    }
}

/// What stands behind the first `with reason:` is the reason, and a text without it is its own.
pub proof fn the_reason_stands_behind_its_mark(text: Seq<char>)
    ensures
        (forall|i: int| !#[trigger] stands(text, "with reason:"@, i)) ==> behind_reason(text) == text,
        forall|i: int|
            #![trigger stands(text, "with reason:"@, i)]
            stands(text, "with reason:"@, i) && (forall|j: int|
                0 <= j < i ==> !#[trigger] stands(text, "with reason:"@, j)) ==> behind_reason(text)
                == text.skip(i + 12),
{
    let mark = "with reason:"@;
    reveal_strlit("with reason:");
    the_first_place_is_found(text, mark);
    assert forall|i: int|
        #![trigger stands(text, mark, i)]
        stands(text, mark, i) && (forall|j: int|
            0 <= j < i ==> !#[trigger] stands(text, mark, j)) implies behind_reason(text)
        == text.skip(i + 12) by {
        let at = first_place(text, mark)->0;
        assert(stands(text, mark, at));
        if at < i {
            assert(!stands(text, mark, at));
        }
        if i < at {
            assert(!stands(text, mark, i));
        }
    }
}

/// A reason is told bare of white space and full stops, its first letter lowered and one full
/// stop behind it; a text with nothing to tell is told as it is.
pub proof fn a_reason_is_told_bare(text: Seq<char>)
    ensures
        bare_of(text).len() > 0 ==> bare_of(text).last() != '.' && !is_white(bare_of(text)[0]),
        bare_of(text).len() == 0 ==> unwrapped_of(text) == text,
        bare_of(text).len() > 0 ==> unwrapped_of(text) == lowered_char(bare_of(text)[0])
            + bare_of(text).skip(1) + seq!['.'],
{
    reveal_strlit(".");
    assert("."@ =~= seq!['.']);
    let told = trimmed(behind_reason(trimmed(inside_braces(text))));
    trimming_takes_white_space_alone(behind_reason(trimmed(inside_braces(text))));
    stripping_takes_one_character_alone(told, '.');
    let bare = bare_of(text);
    if bare.len() > 0 {
        assert(bare[0] == told[0]);
        assert(bare.drop_first() =~= bare.skip(1));
    }
}

/// A failure is told as its summary without its full stops and, behind a colon, its reason.
pub proof fn a_summary_comes_before_its_reason(summary: Seq<char>, detail: Seq<char>)
    requires
        summary.len() > 0 ==> summary.last() != '.',
    ensures
        sentence_of(summary, None) == summary + seq!['.'],
        sentence_of(summary + seq!['.'], None) == summary + seq!['.'],
        sentence_of(summary, Some(detail)) == summary + seq![':', ' '] + unwrapped_of(detail),
        sentence_of(summary + seq!['.'], Some(detail)) == summary + seq![':', ' '] + unwrapped_of(
            detail,
        ),
{
    reveal_strlit(".");
    reveal_strlit(": ");
    assert("."@ =~= seq!['.']);
    assert(": "@ =~= seq![':', ' ']);
    assert((summary + seq!['.']).drop_last() =~= summary);
    assert(stripped_back(summary + seq!['.'], '.') == stripped_back(summary, '.'));
}

} // verus!
