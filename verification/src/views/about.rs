//! What is told about an artist: its biography, with the titles in it slanted.

use vstd::prelude::*;
use vstd::string::StrSliceExecFns;
use vstd::utf8::encode_utf8;

use crate::text::laws::{stands, the_first_place_is_found};
use crate::text::{first_place, place_of, same};

verus! {

/// A run of bytes of a text.
#[derive(Clone, Copy, Debug, PartialEq, Eq, Structural)]
pub struct Span {
    pub start: usize,
    pub end: usize,
}

/// How many bytes a text takes.
pub open spec fn bytes_in(text: Seq<char>) -> nat {
    encode_utf8(text).len()
}

/// How many bytes a text takes.
fn byte_count(text: &str) -> (count: usize)
    ensures
        count == bytes_in(text@),
{
    text.as_bytes().len()
}

/// The runs as mathematics.
pub open spec fn seen_spans(spans: Seq<Span>) -> Seq<(nat, nat)> {
    spans.map_values(|span: Span| (span.start as nat, span.end as nat))
}

/// A text without its tags, and the runs of bytes in it that are slanted.
#[verifier::ext_equal]
pub struct Rich {
    pub plain: Seq<char>,
    pub slanted: Seq<(nat, nat)>,
}

/// A place found in a text lies in it.
proof fn lemma_place(text: Seq<char>, sought: Seq<char>)
    ensures
        first_place(text, sought) matches Some(at) ==> 0 <= at && at + sought.len() <= text.len(),
    decreases text.len(),
{
    if !sought.is_prefix_of(text) && text.len() > 0 {
        lemma_place(text.drop_first(), sought);
    }
}

/// The tag that a text starts with, when it is a whole one.
pub open spec fn tag_at(text: Seq<char>) -> Option<(Seq<char>, Seq<char>)> {
    match first_place(text, ">"@) {
        Some(end) => Some((text.take(end + 1), text.skip(end + 1))),
        None => None,
    }
}

/// The rest of a text read behind what was read already: the plain text so far, the byte at which
/// a slanted run was opened, and the runs that were closed. A closing tag closes the run that is
/// open, unless nothing stands in it. A tag without its partner and any other tag only leave the
/// text. A `<` that no `>` follows is no tag.
pub open spec fn rich_from(rest: Seq<char>, read: Rich, open: Option<nat>) -> Rich
    decreases rest.len(),
    via rich_shrinks
{
    match first_place(rest, "<"@) {
        None => Rich { plain: read.plain + rest, slanted: read.slanted },
        Some(at) => match tag_at(rest.skip(at)) {
            None => Rich { plain: read.plain + rest, slanted: read.slanted },
            Some((tag, after)) => {
                let plain = read.plain + rest.take(at);
                let here = bytes_in(plain);
                if tag == "<i>"@ {
                    rich_from(after, Rich { plain, slanted: read.slanted }, Some(here))
                } else if tag == "</i>"@ {
                    let slanted = match open {
                        Some(start) => if start < here {
                            read.slanted.push((start, here))
                        } else {
                            read.slanted
                        },
                        None => read.slanted,
                    };
                    rich_from(after, Rich { plain, slanted }, None)
                } else {
                    rich_from(after, Rich { plain, slanted: read.slanted }, open)
                }
            },
        },
    }
}

/// Every tag that is read leaves less to read.
#[via_fn]
proof fn rich_shrinks(rest: Seq<char>, read: Rich, open: Option<nat>) {
    reveal_strlit("<");
    reveal_strlit(">");
    lemma_place(rest, "<"@);
    if let Some(at) = first_place(rest, "<"@) {
        lemma_place(rest.skip(at), ">"@);
    }
}

/// A biography without its tags, and the runs of bytes in it that are slanted.
pub open spec fn rich_of(biography: Seq<char>) -> Rich {
    rich_from(biography, Rich { plain: Seq::empty(), slanted: Seq::empty() }, None)
}

/// Strips the tags of a biography, and gives the runs of bytes that are slanted.
pub fn rich(biography: &str) -> (read: (String, Vec<Span>))
    ensures
        rich_of(biography@) == (Rich { plain: read.0@, slanted: seen_spans(read.1@) }),
{
    let mut plain = String::new();
    let mut italics: Vec<Span> = Vec::new();
    let mut rest = biography.to_owned();
    let mut open: Option<usize> = None;
    proof {
        assert(plain@ =~= Seq::empty());
        assert(seen_spans(italics@) =~= Seq::empty());
    }
    loop
        invariant
            rich_of(biography@) == rich_from(
                rest@,
                (Rich { plain: plain@, slanted: seen_spans(italics@) }),
                match open {
                    Some(start) => Some(start as nat),
                    None => None,
                },
            ),
        decreases rest@.len(),
    {
        proof {
            reveal_strlit("<");
            reveal_strlit(">");
        }
        let length: usize = rest.as_str().unicode_len();
        let at: usize = match place_of(rest.as_str(), "<") {
            Some(at) => at,
            None => {
                plain.append(rest.as_str());
                return (plain, italics);
            },
        };
        let after = rest.as_str().substring_char(at, length);
        assert(after@ =~= rest@.skip(at as int));
        let end: usize = match place_of(after, ">") {
            Some(end) => end,
            None => {
                plain.append(rest.as_str());
                return (plain, italics);
            },
        };
        let tag = after.substring_char(0, end + 1);
        assert(tag@ =~= rest@.skip(at as int).take(end + 1));
        let left = after.substring_char(end + 1, length - at);
        assert(left@ =~= rest@.skip(at as int).skip(end + 1));
        let front = rest.as_str().substring_char(0, at);
        assert(front@ =~= rest@.take(at as int));
        plain.append(front);
        let here = byte_count(plain.as_str());
        if same(tag, "<i>") {
            open = Some(here);
        } else if same(tag, "</i>") {
            if let Some(start) = open {
                if start < here {
                    let ghost before = seen_spans(italics@);
                    italics.push(Span { start, end: here });
                    assert(seen_spans(italics@) =~= before.push((start as nat, here as nat)));
                }
            }
            open = None;
            proof {
                reveal_strlit("<i>");
                reveal_strlit("</i>");
            }
        }
        rest = left.to_owned();
    }
}

/// What is said of an artist: its biography without the tags, and nothing where there is none.
pub fn blurb(biography: &Option<String>) -> (text: Option<String>)
    ensures
        match text {
            Some(text) => biography matches Some(whole) && whole@.len() > 0 && text@ == rich_of(
                whole@,
            ).plain,
            None => biography matches Some(whole) ==> whole@.len() == 0,
        },
{
    match biography {
        Some(biography) => if biography.as_str().is_empty() {
            None
        } else {
            Some(rich(biography.as_str()).0)
        },
        None => None,
    }
}

/// What the dialog about an artist shows.
#[derive(Clone, Copy, Debug, PartialEq, Eq, Structural)]
pub struct AboutShown {
    /// The biography; without one the dialog says that there is none.
    pub biography: bool,
    /// The biography keeps room below it to scroll past the fading edge.
    pub padded: bool,
    /// Its lower edge fades.
    pub fades: bool,
    /// The button that leads to the artist's page.
    pub opens: bool,
}

/// What the dialog about an artist shows.
pub fn about_modal(
    biography: &Option<String>,
    overflows: bool,
    effects: bool,
    artist: bool,
) -> (shown: AboutShown)
    ensures
        ({
            let told = biography matches Some(whole) && whole@.len() > 0;
            shown == (AboutShown {
                biography: told,
                padded: told && overflows,
                fades: told && overflows && effects,
                opens: artist,
            })
        }),
{
    let told = match biography {
        Some(biography) => !biography.as_str().is_empty(),
        None => false,
    };
    AboutShown {
        biography: told,
        padded: told && overflows,
        fades: told && overflows && effects,
        opens: artist,
    }
}

/// The bytes of two texts add up.
proof fn lemma_bytes_add(front: Seq<char>, back: Seq<char>)
    ensures
        bytes_in(front + back) == bytes_in(front) + bytes_in(back),
    decreases front.len(),
{
    if front.len() == 0 {
        assert(front + back =~= back);
    } else {
        assert((front + back).drop_first() =~= front.drop_first() + back);
        lemma_bytes_add(front.drop_first(), back);
    }
}

/// The runs hold something each, stand one behind the other, and end where the text does or
/// before.
pub open spec fn in_order(slanted: Seq<(nat, nat)>, bytes: nat) -> bool {
    &&& forall|i: int|
        0 <= i < slanted.len() ==> (#[trigger] slanted[i]).0 < slanted[i].1 && slanted[i].1 <= bytes
    &&& forall|i: int, j: int|
        0 <= i < j < slanted.len() ==> (#[trigger] slanted[i]).1 <= (#[trigger] slanted[j]).0
}

/// A byte at which a character of the text starts, or the text's end.
pub open spec fn at_a_character(text: Seq<char>, byte: nat) -> bool {
    exists|count: int| 0 <= count <= text.len() && byte == #[trigger] bytes_in(text.take(count))
}

/// Every run starts and ends between two characters.
pub open spec fn between_characters(slanted: Seq<(nat, nat)>, text: Seq<char>) -> bool {
    forall|i: int|
        0 <= i < slanted.len() ==> at_a_character(text, (#[trigger] slanted[i]).0)
            && at_a_character(text, slanted[i].1)
}

/// A longer text starts its characters where the shorter one did.
proof fn lemma_characters_stay(text: Seq<char>, more: Seq<char>, byte: nat)
    requires
        at_a_character(text, byte),
    ensures
        at_a_character(text + more, byte),
{
    let count = choose|count: int|
        0 <= count <= text.len() && byte == #[trigger] bytes_in(text.take(count));
    assert((text + more).take(count) =~= text.take(count));
}

/// Reading on keeps the runs in order.
proof fn lemma_rich_in_order(rest: Seq<char>, read: Rich, open: Option<nat>)
    requires
        in_order(read.slanted, bytes_in(read.plain)),
        between_characters(read.slanted, read.plain),
        open matches Some(start) ==> start <= bytes_in(read.plain) && at_a_character(
            read.plain,
            start,
        ) && (read.slanted.len() > 0 ==> read.slanted.last().1 <= start),
    ensures
        ({
            let whole = rich_from(rest, read, open);
            in_order(whole.slanted, bytes_in(whole.plain)) && between_characters(
                whole.slanted,
                whole.plain,
            )
        }),
    decreases rest.len(),
{
    reveal_strlit("<");
    reveal_strlit(">");
    lemma_place(rest, "<"@);
    let found = first_place(rest, "<"@);
    if found is Some && tag_at(rest.skip(found->0)) is Some {
        let at = found->0;
        lemma_place(rest.skip(at), ">"@);
        let (tag, after) = tag_at(rest.skip(at))->0;
        let plain = read.plain + rest.take(at);
        lemma_bytes_add(read.plain, rest.take(at));
        let here = bytes_in(plain);
        assert(plain.take(plain.len() as int) =~= plain);
        assert(at_a_character(plain, here));
        assert forall|i: int| 0 <= i < read.slanted.len() implies at_a_character(
            plain,
            (#[trigger] read.slanted[i]).0,
        ) && at_a_character(plain, read.slanted[i].1) by {
            lemma_characters_stay(read.plain, rest.take(at), read.slanted[i].0);
            lemma_characters_stay(read.plain, rest.take(at), read.slanted[i].1);
        }
        if let Some(start) = open {
            lemma_characters_stay(read.plain, rest.take(at), start);
        }
        let kept = Rich { plain, slanted: read.slanted };
        if tag == "<i>"@ {
            lemma_rich_in_order(after, kept, Some(here));
        } else if tag == "</i>"@ {
            if let Some(start) = open {
                if start < here {
                    let slanted = read.slanted.push((start, here));
                    assert(in_order(slanted, here));
                    lemma_rich_in_order(after, Rich { plain, slanted }, None);
                } else {
                    lemma_rich_in_order(after, kept, None);
                }
            } else {
                lemma_rich_in_order(after, kept, None);
            }
        } else {
            lemma_rich_in_order(after, kept, open);
        }
    } else {
        lemma_bytes_add(read.plain, rest);
        assert forall|i: int| 0 <= i < read.slanted.len() implies at_a_character(
            read.plain + rest,
            (#[trigger] read.slanted[i]).0,
        ) && at_a_character(read.plain + rest, read.slanted[i].1) by {
            lemma_characters_stay(read.plain, rest, read.slanted[i].0);
            lemma_characters_stay(read.plain, rest, read.slanted[i].1);
        }
    }
}

/// The slanted runs of a biography hold something each, do not overlap, come in order, lie within
/// the plain text, and start and end between two characters of it.
pub proof fn slanted_runs_fit_the_text(biography: Seq<char>)
    ensures
        ({
            let read = rich_of(biography);
            in_order(read.slanted, bytes_in(read.plain)) && between_characters(
                read.slanted,
                read.plain,
            )
        }),
{
    lemma_rich_in_order(biography, Rich { plain: Seq::empty(), slanted: Seq::empty() }, None);
}

/// A biography without a `<` is shown as it is, with nothing slanted.
pub proof fn a_plain_biography_stays(biography: Seq<char>)
    requires
        first_place(biography, "<"@) is None,
    ensures
        rich_of(biography).plain == biography,
        rich_of(biography).slanted.len() == 0,
{
    assert(Seq::<char>::empty() + biography =~= biography);
}

/// A stretch of a biography: plain text, slanted text, or another tag, which is not shown.
pub enum Stretch {
    Plain(Seq<char>),
    Slanted(Seq<char>),
    Tag(Seq<char>),
}

/// A stretch as it is written: a slanted one between its tags, any other tag by its name.
pub open spec fn stretch_written(stretch: Stretch) -> Seq<char> {
    match stretch {
        Stretch::Plain(text) => text,
        Stretch::Slanted(text) => seq!['<', 'i', '>'] + text + seq!['<', '/', 'i', '>'],
        Stretch::Tag(name) => seq!['<'] + name + seq!['>'],
    }
}

/// A biography as it is written.
pub open spec fn written(stretches: Seq<Stretch>) -> Seq<char>
    decreases stretches.len(),
{
    if stretches.len() == 0 {
        Seq::empty()
    } else {
        stretch_written(stretches[0]) + written(stretches.drop_first())
    }
}

/// What is read of a stretch.
pub open spec fn stretch_read(stretch: Stretch) -> Seq<char> {
    match stretch {
        Stretch::Plain(text) => text,
        Stretch::Slanted(text) => text,
        Stretch::Tag(_) => Seq::empty(),
    }
}

/// What is read of a biography: the texts of its stretches and nothing of its tags.
pub open spec fn told(stretches: Seq<Stretch>) -> Seq<char>
    decreases stretches.len(),
{
    if stretches.len() == 0 {
        Seq::empty()
    } else {
        stretch_read(stretches[0]) + told(stretches.drop_first())
    }
}

/// Where the slanted stretches lie, in bytes, when the first of all starts at this byte.
pub open spec fn leaning(stretches: Seq<Stretch>, from: nat) -> Seq<(nat, nat)>
    decreases stretches.len(),
{
    if stretches.len() == 0 {
        Seq::empty()
    } else {
        let to = from + bytes_in(stretch_read(stretches[0]));
        let rest = leaning(stretches.drop_first(), to);
        if stretches[0] is Slanted && from < to {
            seq![(from, to)] + rest
        } else {
            rest
        }
    }
}

/// No text holds a tag, and no other tag is one of the two that slant.
pub open spec fn can_be_told(stretch: Stretch) -> bool {
    match stretch {
        Stretch::Plain(text) => !text.contains('<'),
        Stretch::Slanted(text) => !text.contains('<'),
        Stretch::Tag(name) => {
            &&& !name.contains('>')
            &&& name != seq!['i']
            &&& name != seq!['/', 'i']
        },
    }
}

proof fn lemma_first_mark(front: Seq<char>, back: Seq<char>, mark: char)
    requires
        !front.contains(mark),
    ensures
        first_place(front + seq![mark] + back, seq![mark]) == Some(front.len() as int),
        first_place(front, seq![mark]) is None,
{
    let sought = seq![mark];
    let whole = front + sought + back;
    the_first_place_is_found(whole, sought);
    the_first_place_is_found(front, sought);
    assert(whole.subrange(front.len() as int, (front.len() + 1) as int) =~= sought);
    assert(stands(whole, sought, front.len() as int));
    if let Some(at) = first_place(whole, sought) {
        if at < front.len() {
            assert(whole.subrange(at, at + 1)[0] == mark);
            assert(front[at] == mark);
        } else if at > front.len() {
            assert(!stands(whole, sought, front.len() as int));
        }
    }
    if let Some(at) = first_place(front, sought) {
        assert(front.subrange(at, at + 1)[0] == mark);
        assert(front[at] == mark);
    }
}

/// One tag is taken: what stands in front of it is read, and reading goes on behind it.
proof fn lemma_one_tag(front: Seq<char>, name: Seq<char>, back: Seq<char>, read: Rich, open: Option<
    nat,
>)
    requires
        !front.contains('<'),
        !name.contains('>'),
    ensures
        ({
            let rest = front + (seq!['<'] + name + seq!['>']) + back;
            let plain = read.plain + front;
            let here = bytes_in(plain);
            &&& name == seq!['i'] ==> rich_from(rest, read, open) == rich_from(
                back,
                Rich { plain, slanted: read.slanted },
                Some(here),
            )
            &&& name == seq!['/', 'i'] ==> rich_from(rest, read, open) == rich_from(
                back,
                Rich {
                    plain,
                    slanted: if open is Some && open->0 < here {
                        read.slanted.push((open->0, here))
                    } else {
                        read.slanted
                    },
                },
                None,
            )
            &&& name != seq!['i'] && name != seq!['/', 'i'] ==> rich_from(rest, read, open)
                == rich_from(back, Rich { plain, slanted: read.slanted }, open)
        }),
{
    reveal_strlit("<");
    reveal_strlit(">");
    reveal_strlit("<i>");
    reveal_strlit("</i>");
    assert("<"@ =~= seq!['<']);
    assert(">"@ =~= seq!['>']);
    assert("<i>"@ =~= seq!['<', 'i', '>']);
    assert("</i>"@ =~= seq!['<', '/', 'i', '>']);
    let tag = seq!['<'] + name + seq!['>'];
    let rest = front + tag + back;
    assert(rest =~= front + seq!['<'] + (name + seq!['>'] + back));
    lemma_first_mark(front, name + seq!['>'] + back, '<');
    let at = front.len() as int;
    let opened = rest.skip(at);
    let named = seq!['<'] + name;
    assert(opened =~= named + seq!['>'] + back);
    assert(!named.contains('>')) by {
        if named.contains('>') {
            let i = choose|i: int| 0 <= i < named.len() && named[i] == '>';
            assert(i > 0 && name[i - 1] == '>');
        }
    }
    lemma_first_mark(named, back, '>');
    let end = named.len() as int;
    assert(opened.take(end + 1) =~= tag);
    assert(opened.skip(end + 1) =~= back);
    assert(rest.take(at) =~= front);
    assert(tag_at(opened) == Some((tag, back)));
    if name == seq!['i'] {
        assert(tag =~= "<i>"@);
        assert(tag[1] != "</i>"@[1]);
    } else if name == seq!['/', 'i'] {
        assert(tag =~= "</i>"@);
        assert(tag[1] != "<i>"@[1]);
    } else {
        if tag == "<i>"@ {
            assert(name =~= tag.subrange(1, tag.len() - 1));
            assert(name =~= seq!['i']);
        }
        if tag == "</i>"@ {
            assert(name =~= tag.subrange(1, tag.len() - 1));
            assert(name =~= seq!['/', 'i']);
        }
    }
}

proof fn lemma_told(front: Seq<char>, stretches: Seq<Stretch>, read: Rich)
    requires
        !front.contains('<'),
        forall|i: int| 0 <= i < stretches.len() ==> can_be_told(#[trigger] stretches[i]),
    ensures
        rich_from(front + written(stretches), read, None) == (Rich {
            plain: read.plain + front + told(stretches),
            slanted: read.slanted + leaning(stretches, bytes_in(read.plain + front)),
        }),
    decreases stretches.len(),
{
    reveal_strlit("<");
    assert("<"@ =~= seq!['<']);
    let empty = Seq::<char>::empty();
    if stretches.len() == 0 {
        assert(front + written(stretches) =~= front);
        lemma_first_mark(front, empty, '<');
        assert(read.plain + front + told(stretches) =~= read.plain + front);
        assert(read.slanted + leaning(stretches, bytes_in(read.plain + front)) =~= read.slanted);
    } else {
        let rest = stretches.drop_first();
        let more = written(rest);
        assert forall|i: int| 0 <= i < rest.len() implies can_be_told(#[trigger] rest[i]) by {
            assert(rest[i] == stretches[i + 1]);
        }
        assert(can_be_told(stretches[0]));
        match stretches[0] {
            Stretch::Plain(text) => {
                let longer = front + text;
                assert(!longer.contains('<')) by {
                    if longer.contains('<') {
                        let i = choose|i: int| 0 <= i < longer.len() && longer[i] == '<';
                        if i < front.len() {
                            assert(front[i] == '<');
                        } else {
                            assert(text[i - front.len()] == '<');
                        }
                    }
                }
                lemma_told(longer, rest, read);
                assert(front + written(stretches) =~= longer + more);
                assert(read.plain + longer =~= read.plain + front + text);
                assert(read.plain + front + told(stretches) =~= read.plain + longer + told(rest));
                lemma_bytes_add(read.plain + front, text);
            },
            Stretch::Tag(name) => {
                let after = Rich { plain: read.plain + front, slanted: read.slanted };
                lemma_one_tag(front, name, more, read, None);
                assert(front + written(stretches) =~= front + (seq!['<'] + name + seq!['>'])
                    + more);
                lemma_told(empty, rest, after);
                assert(empty + more =~= more);
                assert(after.plain + empty =~= after.plain);
                assert(read.plain + front + told(stretches) =~= after.plain + told(rest));
                assert(empty.len() == 0);
                lemma_no_bytes();
            },
            Stretch::Slanted(text) => {
                let opening = seq!['i'];
                let closing = seq!['/', 'i'];
                let tail = seq!['<', '/', 'i', '>'] + more;
                assert(!opening.contains('>') && !closing.contains('>'));
                lemma_one_tag(front, opening, text + tail, read, None);
                assert(front + written(stretches) =~= front + (seq!['<'] + opening + seq!['>']) + (
                text + tail));
                let here = bytes_in(read.plain + front);
                let inside = Rich { plain: read.plain + front, slanted: read.slanted };
                lemma_one_tag(text, closing, more, inside, Some(here));
                assert(text + tail =~= text + (seq!['<'] + closing + seq!['>']) + more);
                let plain = read.plain + front + text;
                lemma_bytes_add(read.plain + front, text);
                let there = bytes_in(plain);
                let slanted = if here < there {
                    read.slanted.push((here, there))
                } else {
                    read.slanted
                };
                lemma_told(empty, rest, Rich { plain, slanted });
                assert(empty + more =~= more);
                assert(plain + empty =~= plain);
                assert(read.plain + front + told(stretches) =~= plain + told(rest));
                assert(read.slanted + leaning(stretches, here) =~= slanted + leaning(rest, there));
            },
        }
    }
}

proof fn lemma_no_bytes()
    ensures
        bytes_in(Seq::<char>::empty()) == 0,
{
    let empty = Seq::<char>::empty();
    lemma_bytes_add(empty, empty);
    assert(empty + empty =~= empty);
}

/// A biography that was written out stretch by stretch reads back: the text is that of every
/// stretch without a tag, and slanted are exactly the stretches that were written so and hold
/// anything.
pub proof fn a_biography_reads_back(stretches: Seq<Stretch>)
    requires
        forall|i: int| 0 <= i < stretches.len() ==> can_be_told(#[trigger] stretches[i]),
    ensures
        rich_of(written(stretches)).plain == told(stretches),
        rich_of(written(stretches)).slanted == leaning(stretches, 0),
{
    let empty = Seq::<char>::empty();
    lemma_told(empty, stretches, Rich { plain: empty, slanted: Seq::empty() });
    lemma_no_bytes();
    assert(empty + empty =~= empty);
    assert(empty + written(stretches) =~= written(stretches));
    assert(empty + told(stretches) =~= told(stretches));
    assert(Seq::<(nat, nat)>::empty() + leaning(stretches, 0) =~= leaning(stretches, 0));
}

/// The modal shows a biography exactly when there is one that is not empty, leaves room below it
/// exactly when it is too long, and fades it there unless effects are off.
pub proof fn the_modal_shows_what_there_is(
    biography: Option<String>,
    overflows: bool,
    effects: bool,
    artist: bool,
    shown: AboutShown,
)
    requires
        call_ensures(about_modal, (&biography, overflows, effects, artist), shown),
    ensures
        biography is None ==> !shown.biography,
        biography matches Some(text) ==> (shown.biography <==> text@.len() > 0),
        shown.biography ==> (shown.padded <==> overflows) && (shown.fades <==> overflows && effects),
        !shown.biography ==> !shown.padded && !shown.fades,
        shown.opens == artist,
{
}

} // verus!
