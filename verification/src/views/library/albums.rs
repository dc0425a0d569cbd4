//! The albums of the library.

use vstd::prelude::*;

use super::super::cards::{released, year_of};
use super::{number_order, order_numbers, order_rows, row_order, seen_value, turned, Order};
use crate::text::{decimal, maybe_text, number_text, same};

verus! {

/// A column of the table.
#[derive(Clone, Copy, Debug, PartialEq, Eq, Structural)]
pub enum AlbumField {
    Index,
    Cover,
    Name,
    Artists,
    Year,
    TrackCount,
    AddedAt,
}

/// What the table reads of an album, and whether its texts hold what is searched for.
#[derive(Clone, Copy, Debug, PartialEq, Eq, Structural)]
pub struct AlbumFacts {
    /// The year it came out; nought where that is not known.
    pub year: i32,
    pub track_count: u32,
    pub added_at: Option<i64>,
    pub name_holds: bool,
    pub artists_hold: bool,
    pub year_holds: bool,
}

/// The years that are let through, the first and the last among them.
#[derive(Clone, Copy, Debug, PartialEq, Eq, Structural)]
pub struct YearSpan {
    pub first: i32,
    pub last: i32,
}

/// The album is what is searched for: a search for nothing finds everything.
pub open spec fn hit_by(album: AlbumFacts, query: Seq<char>) -> bool {
    query.len() == 0 || album.name_holds || album.artists_hold || album.year_holds
}

/// Whether the album is what is searched for.
pub fn hits(album: &AlbumFacts, query: &str) -> (yes: bool)
    ensures
        yes == hit_by(*album, query@),
{
    if query.is_empty() {
        return true;
    }
    album.name_holds || album.artists_hold || album.year_holds
}

/// The year of an album as the table shows it, which is nothing where it is not known.
pub open spec fn shown_year(year: i32) -> Seq<char> {
    if year > 0 {
        decimal(year as nat)
    } else {
        Seq::empty()
    }
}

/// The year of an album as the table shows it, which is nothing where it is not known.
pub fn year(album: &AlbumFacts) -> (text: String)
    ensures
        text@ == shown_year(album.year),
{
    if album.year > 0 {
        number_text(album.year as u64)
    } else {
        String::new()
    }
}

/// The years follow one another and none comes twice.
pub open spec fn ascending(years: Seq<i32>) -> bool {
    forall|i: int, j: int| 0 <= i < j < years.len() ==> #[trigger] years[i] < #[trigger] years[j]
}

/// Some album that is searched for came out that year.
pub open spec fn came_out(albums: Seq<AlbumFacts>, query: Seq<char>, year: i32) -> bool {
    year > 0 && exists|i: int|
        0 <= i < albums.len() && (#[trigger] albums[i]).year == year && hit_by(albums[i], query)
}

/// The years are exactly those in which an album that is searched for came out.
pub open spec fn are_years(years: Seq<i32>, albums: Seq<AlbumFacts>, query: Seq<char>) -> bool {
    &&& ascending(years)
    &&& forall|year: i32| #[trigger] years.contains(year) <==> came_out(albums, query, year)
}

/// Puts a year where it belongs among the others, unless it is there.
fn insert_year(years: &mut Vec<i32>, year: i32)
    requires
        ascending(old(years)@),
    ensures
        ascending(final(years)@),
        forall|other: i32| #[trigger]
            final(years)@.contains(other) <==> old(years)@.contains(other) || other == year,
{
    let ghost before = years@;
    let mut place: usize = 0;
    while place < years.len() && years[place] < year
        invariant
            years@ == before,
            ascending(before),
            place <= before.len(),
            forall|i: int| 0 <= i < place ==> (#[trigger] before[i]) < year,
        decreases before.len() - place,
    {
        place = place + 1;
    }
    if place < years.len() && years[place] == year {
        assert(before[place as int] == year);
        return;
    }
    years.insert(place, year);
    proof {
        let after = years@;
        assert(after =~= before.insert(place as int, year));
        assert(forall|i: int| 0 <= i < place ==> after[i] == before[i]);
        assert(forall|i: int| place < i < after.len() ==> after[i] == before[i - 1]);
        assert(forall|i: int| place <= i < before.len() ==> (#[trigger] before[i]) > year);
        assert forall|i: int, j: int| 0 <= i < j < after.len() implies #[trigger] after[i]
            < #[trigger] after[j] by {
            if i < place && j > place {
                assert(before[i] < before[j - 1]);
            } else if i > place {
                assert(before[i - 1] < before[j - 1]);
            } else if i == place {
                assert(before[j - 1] > year);
            }
        }
        assert forall|other: i32| #[trigger] after.contains(other) implies before.contains(other)
            || other == year by {
            let i = choose|i: int| 0 <= i < after.len() && after[i] == other;
            if i < place {
                assert(before[i] == other);
            } else if i > place {
                assert(before[i - 1] == other);
            }
        }
        assert forall|other: i32| before.contains(other) || other == year implies
            #[trigger] after.contains(other) by {
            if other == year {
                assert(after[place as int] == year);
            } else {
                let i = choose|i: int| 0 <= i < before.len() && before[i] == other;
                if i < place {
                    assert(after[i] == other);
                } else {
                    assert(after[i + 1] == other);
                }
            }
        }
    }
}

/// The years in which an album that is searched for came out, in order and each once.
fn fresh_years(albums: &Vec<AlbumFacts>, query: &str) -> (years: Vec<i32>)
    ensures
        are_years(years@, albums@, query@),
{
    let mut years: Vec<i32> = Vec::new();
    let mut index: usize = 0;
    while index < albums.len()
        invariant
            index <= albums@.len(),
            are_years(years@, albums@.take(index as int), query@),
        decreases albums@.len() - index,
    {
        let album = albums[index];
        let ghost before = years@;
        let ghost seen = albums@.take(index as int);
        let ghost more = albums@.take(index + 1);
        if album.year > 0 && hits(&album, query) {
            insert_year(&mut years, album.year);
        }
        proof {
            assert(more =~= seen.push(album));
            assert forall|year: i32| #[trigger] years@.contains(year) implies came_out(
                more,
                query@,
                year,
            ) by {
                if before.contains(year) {
                    assert(came_out(seen, query@, year));
                    let i = choose|i: int|
                        0 <= i < seen.len() && (#[trigger] seen[i]).year == year && hit_by(
                            seen[i],
                            query@,
                        );
                    assert(more[i] == seen[i]);
                } else {
                    assert(more[index as int] == album);
                }
            }
            assert forall|year: i32| came_out(more, query@, year) implies
                #[trigger] years@.contains(year) by {
                let i = choose|i: int|
                    0 <= i < more.len() && (#[trigger] more[i]).year == year && hit_by(
                        more[i],
                        query@,
                    );
                if i < index {
                    assert(seen[i] == more[i]);
                    assert(came_out(seen, query@, year));
                    assert(before.contains(year));
                }
            }
        }
        index = index + 1;
    }
    assert(albums@.take(index as int) =~= albums@);
    years
}

/// The years that were found last, and what for: how many albums there were, and the search.
#[derive(Clone, Debug, PartialEq, Eq)]
pub struct Spread {
    pub count: usize,
    pub query: String,
    pub years: Vec<i32>,
}

/// The years that were found last are those that are asked for.
pub open spec fn still_good(spread: Option<Spread>, count: nat, query: Seq<char>) -> bool {
    match spread {
        Some(spread) => spread.count == count && spread.query@ == query,
        None => false,
    }
}

/// A change to how the table is narrowed.
#[derive(Clone, Copy, Debug, PartialEq, Eq)]
pub enum FilterChange {
    Range(&'static str, YearSpan),
    Flag(&'static str, bool),
    Reset,
}

/// The range of the years: how far it can reach, and how far it does.
#[derive(Clone, Copy, Debug, PartialEq, Eq, Structural)]
pub struct YearAxis {
    pub bounds: YearSpan,
    pub value: YearSpan,
}

/// A year brought into a range: the nearer end of it where it lies outside.
pub open spec fn clamped(year: i32, bounds: YearSpan) -> i32 {
    if year < bounds.first {
        bounds.first
    } else if year > bounds.last {
        bounds.last
    } else {
        year
    }
}

/// A year brought into a range.
fn clamp(year: i32, bounds: YearSpan) -> (near: i32)
    ensures
        near == clamped(year, bounds),
{
    if year < bounds.first {
        bounds.first
    } else if year > bounds.last {
        bounds.last
    } else {
        year
    }
}

/// The range of the years that are there, with the years that are let through brought into it.
pub open spec fn axis_of(span: Option<YearSpan>, years: Seq<i32>) -> Option<YearAxis> {
    if years.len() == 0 {
        None
    } else {
        let bounds = YearSpan { first: years[0], last: years.last() };
        Some(
            YearAxis {
                bounds,
                value: match span {
                    Some(span) => YearSpan {
                        first: clamped(span.first, bounds),
                        last: clamped(span.last, bounds),
                    },
                    None => bounds,
                },
            },
        )
    }
}

/// Whatever years are let through, the range shows them within the years that are there, and
/// shows them as they are where they lie within.
pub proof fn the_range_stays_within_the_years(span: Option<YearSpan>, years: Seq<i32>)
    requires
        ascending(years),
        years.len() > 0,
    ensures
        ({
            let axis = axis_of(span, years)->0;
            &&& axis_of(span, years) is Some
            &&& axis.bounds.first <= axis.value.first <= axis.bounds.last
            &&& axis.bounds.first <= axis.value.last <= axis.bounds.last
            &&& span matches Some(span) ==> (span.first <= span.last ==> axis.value.first
                <= axis.value.last) && (years[0] <= span.first <= years.last() && years[0]
                <= span.last <= years.last() ==> axis.value == span)
        }),
{
    if years.len() > 1 {
        assert(years[0] < years[years.len() - 1]);
    }
}

/// The albums of the library, narrowed to some years or not.
#[derive(Clone, Debug, PartialEq, Eq)]
pub struct AlbumSource {
    pub year_span: Option<YearSpan>,
    pub spread: Option<Spread>,
}

/// The years let the album through. An album whose year is not known is let through only where
/// the years are not narrowed.
pub open spec fn let_through(year: i32, span: Option<YearSpan>) -> bool {
    match span {
        Some(span) => year != 0 && span.first <= year <= span.last,
        None => true,
    }
}

impl AlbumSource {
    /// All albums.
    pub fn shelved() -> (source: Self)
        ensures
            source.year_span is None,
            source.spread is None,
    {
        AlbumSource { year_span: None, spread: None }
    }

    /// The years in which an album that is searched for came out. They are worked out anew only
    /// for another search or another number of albums.
    pub fn years(&mut self, albums: &Vec<AlbumFacts>, query: &str) -> (years: Vec<i32>)
        ensures
            final(self).year_span == old(self).year_span,
            still_good(final(self).spread, albums@.len(), query@),
            final(self).spread->0.years@ == years@,
            if still_good(old(self).spread, albums@.len(), query@) {
                years@ == old(self).spread->0.years@
            } else {
                are_years(years@, albums@, query@)
            },
    {
        if let Some(spread) = &self.spread {
            if spread.count == albums.len() && same(spread.query.as_str(), query) {
                return copied_years(&spread.years);
            }
        }
        let years = fresh_years(albums, query);
        self.spread = Some(
            Spread { count: albums.len(), query: query.to_owned(), years: copied_years(&years) },
        );
        years
    }

    /// Whether an album is shown.
    pub fn matches(&self, album: &AlbumFacts, query: &str) -> (yes: bool)
        ensures
            yes == (let_through(album.year, self.year_span) && hit_by(*album, query@)),
    {
        if let Some(span) = self.year_span {
            if album.year == 0 || album.year < span.first || album.year > span.last {
                return false;
            }
        }
        hits(album, query)
    }

    /// The range of the years that are there, with the years that are let through brought into
    /// it. There is none where no year is known.
    pub fn filter_axes(&self, years: &Vec<i32>) -> (axis: Option<YearAxis>)
        ensures
            axis == axis_of(self.year_span, years@),
    {
        if years.len() == 0 {
            return None;
        }
        let bounds = YearSpan { first: years[0], last: years[years.len() - 1] };
        let value = match self.year_span {
            Some(span) => YearSpan {
                first: clamp(span.first, bounds),
                last: clamp(span.last, bounds),
            },
            None => bounds,
        };
        Some(YearAxis { bounds, value })
    }

    /// Narrows the table, or shows all of it again. The answer is whether the change was one of
    /// this table's.
    pub fn filter(&mut self, change: FilterChange) -> (taken: bool)
        ensures
            final(self).spread == old(self).spread,
            match change {
                FilterChange::Range(key, span) => if key@ == "filter-year"@ {
                    taken && final(self).year_span == Some(span)
                } else {
                    !taken && final(self).year_span == old(self).year_span
                },
                FilterChange::Flag(_, _) => !taken && final(self).year_span == old(self).year_span,
                FilterChange::Reset => taken && final(self).year_span is None,
            },
    {
        match change {
            FilterChange::Range(key, span) => {
                if same(key, "filter-year") {
                    self.year_span = Some(span);
                    true
                } else {
                    false
                }
            },
            FilterChange::Flag(_, _) => false,
            FilterChange::Reset => {
                self.year_span = None;
                true
            },
        }
    }

    /// Whether the table is narrowed.
    pub fn filtered(&self) -> (yes: bool)
        ensures
            yes == (self.year_span is Some),
    {
        self.year_span.is_some()
    }
}

/// A copy of a list of years.
fn copied_years(years: &Vec<i32>) -> (copy: Vec<i32>)
    ensures
        copy@ == years@,
{
    let mut copy: Vec<i32> = Vec::new();
    let mut index: usize = 0;
    while index < years.len()
        invariant
            index <= years@.len(),
            copy@ == years@.take(index as int),
        decreases years@.len() - index,
    {
        copy.push(years[index]);
        index = index + 1;
        assert(copy@ =~= years@.take(index as int));
    }
    assert(years@.take(index as int) =~= years@);
    copy
}

/// An album of the list, where there is one at the place.
pub open spec fn album_at(albums: Seq<AlbumFacts>, place: int) -> Option<AlbumFacts> {
    if 0 <= place < albums.len() {
        Some(albums[place])
    } else {
        None
    }
}

/// The value by which an album is put in order in a column of numbers.
pub open spec fn album_value(album: Option<AlbumFacts>, field: AlbumField) -> Option<Option<int>> {
    match album {
        Some(album) => Some(
            match field {
                AlbumField::Year => Some(album.year as int),
                AlbumField::TrackCount => Some(album.track_count as int),
                AlbumField::AddedAt => seen_value(album.added_at),
                _ => None,
            },
        ),
        None => None,
    }
}

/// How one album stands to another in a column, given how their texts do. The columns that hold
/// nothing to compare keep the order of the list.
pub open spec fn compared(
    albums: Seq<AlbumFacts>,
    field: AlbumField,
    a: usize,
    b: usize,
    text: Order,
) -> Order {
    match field {
        AlbumField::Name | AlbumField::Artists => text,
        AlbumField::Index | AlbumField::Cover => number_order(a as int, b as int),
        _ => row_order(
            album_value(album_at(albums, a as int), field),
            album_value(album_at(albums, b as int), field),
        ),
    }
}

/// The value by which an album is put in order in a column of numbers.
fn value_at(albums: &Vec<AlbumFacts>, place: usize, field: AlbumField) -> (value: Option<
    Option<i64>,
>)
    ensures
        super::seen_row(value) == album_value(album_at(albums@, place as int), field),
{
    if place < albums.len() {
        Some(
            match field {
                AlbumField::Year => Some(albums[place].year as i64),
                AlbumField::TrackCount => Some(albums[place].track_count as i64),
                AlbumField::AddedAt => albums[place].added_at,
                _ => None,
            },
        )
    } else {
        None
    }
}

/// How one album stands to another in a column, given how their texts do.
pub fn compare(albums: &Vec<AlbumFacts>, field: AlbumField, a: usize, b: usize, text: Order) -> (order:
    Order)
    ensures
        order == compared(albums@, field, a, b, text),
{
    match field {
        AlbumField::Name | AlbumField::Artists => text,
        AlbumField::Index | AlbumField::Cover => order_numbers(a as u128, b as u128),
        _ => order_rows(value_at(albums, a, field), value_at(albums, b, field)),
    }
}

/// The order of two albums is the same from either side, as long as that of their texts is.
pub proof fn albums_compare(
    albums: Seq<AlbumFacts>,
    field: AlbumField,
    a: usize,
    b: usize,
    text: Order,
)
    ensures
        compared(albums, field, b, a, turned(text)) == turned(compared(albums, field, a, b, text)),
{
}

/// The head that an album stands under in a table ordered by year: its year, or that it is not
/// known.
pub fn year_group(year: i32) -> (head: Option<String>)
    ensures
        maybe_text(head) == year_of(year),
{
    released(year)
}

/// What a cell shows.
#[derive(Clone, Copy, Debug, PartialEq, Eq, Structural)]
pub enum AlbumCell {
    /// The album's number, or what it is doing.
    Index,
    Cover,
    Name,
    Artists,
    Year,
    TrackCount,
    AddedAt,
    Blank,
}

/// What a cell shows of an album, which is nothing where there is none.
pub fn cell(field: AlbumField, known: bool) -> (shown: AlbumCell)
    ensures
        shown == (if !known {
            AlbumCell::Blank
        } else {
            match field {
                AlbumField::Index => AlbumCell::Index,
                AlbumField::Cover => AlbumCell::Cover,
                AlbumField::Name => AlbumCell::Name,
                AlbumField::Artists => AlbumCell::Artists,
                AlbumField::Year => AlbumCell::Year,
                AlbumField::TrackCount => AlbumCell::TrackCount,
                AlbumField::AddedAt => AlbumCell::AddedAt,
            }
        }),
{
    if !known {
        return AlbumCell::Blank;
    }
    match field {
        AlbumField::Index => AlbumCell::Index,
        AlbumField::Cover => AlbumCell::Cover,
        AlbumField::Name => AlbumCell::Name,
        AlbumField::Artists => AlbumCell::Artists,
        AlbumField::Year => AlbumCell::Year,
        AlbumField::TrackCount => AlbumCell::TrackCount,
        AlbumField::AddedAt => AlbumCell::AddedAt,
    }
}

/// A search finds an album whenever its name, its artists or its year holds what is searched for:
/// each alone is enough, and where none of them does only a search for nothing finds it.
pub proof fn a_search_finds_by_name_artists_or_year(album: AlbumFacts, query: Seq<char>)
    ensures
        album.name_holds ==> hit_by(album, query),
        album.artists_hold ==> hit_by(album, query),
        album.year_holds ==> hit_by(album, query),
        !album.name_holds && !album.artists_hold && !album.year_holds && query.len() > 0
            ==> !hit_by(album, query),
        query.len() == 0 ==> hit_by(album, query),
{
}

/// What is searched for decides nothing but whether there is a search: two searches that both
/// look for something find the same of albums that hold or do not hold them alike, and neither
/// the year itself, the number of tracks nor the date matters.
pub proof fn only_what_an_album_holds_is_searched(
    album: AlbumFacts,
    other: AlbumFacts,
    query: Seq<char>,
    asked: Seq<char>,
)
    requires
        album.name_holds == other.name_holds,
        album.artists_hold == other.artists_hold,
        album.year_holds == other.year_holds,
        (query.len() == 0) == (asked.len() == 0),
    ensures
        hit_by(album, query) == hit_by(other, asked),
{
}

/// The table shows an album whenever its years let it through and the search finds it, and never
/// otherwise: from the first year to the last, both among them, and one of an unknown year only
/// where the years are not narrowed.
pub proof fn the_years_let_through_what_lies_between(year: i32, span: YearSpan)
    ensures
        let_through(year, None),
        year > 0 && span.first <= year && year <= span.last ==> let_through(year, Some(span)),
        year < span.first || year > span.last || year == 0 ==> !let_through(year, Some(span)),
        span.first <= span.last && span.first != 0 ==> let_through(span.first, Some(span)),
        span.first <= span.last && span.last != 0 ==> let_through(span.last, Some(span)),
{
}

/// Some album came out in a year exactly when one that is found has that year, and a year that is
/// not known is none.
pub proof fn a_year_is_there_when_an_album_is(
    albums: Seq<AlbumFacts>,
    query: Seq<char>,
    years: Seq<i32>,
    place: int,
)
    requires
        are_years(years, albums, query),
        0 <= place < albums.len(),
    ensures
        albums[place].year > 0 && query.len() == 0 ==> years.contains(albums[place].year),
        albums[place].year > 0 && albums[place].name_holds ==> years.contains(albums[place].year),
        albums[place].year > 0 && albums[place].artists_hold ==> years.contains(
            albums[place].year,
        ),
        albums[place].year > 0 && albums[place].year_holds ==> years.contains(albums[place].year),
        forall|i: int| 0 <= i < years.len() ==> (#[trigger] years[i]) > 0,
        forall|i: int, j: int| 0 <= i < j < years.len() ==> years[i] < years[j],
{
    assert(albums[place].year == albums[place].year);
    if albums[place].year > 0 && hit_by(albums[place], query) {
        assert(came_out(albums, query, albums[place].year));
    }
    assert forall|i: int| 0 <= i < years.len() implies (#[trigger] years[i]) > 0 by {
        assert(years.contains(years[i]));
    }
}

/// The range of the years reaches from the earliest to the latest that is there, and shows all of
/// it where the years are not narrowed.
pub proof fn the_range_reaches_every_year(span: Option<YearSpan>, years: Seq<i32>, place: int)
    requires
        ascending(years),
        0 <= place < years.len(),
    ensures
        axis_of(span, years) matches Some(axis) && {
            &&& axis.bounds.first <= years[place] <= axis.bounds.last
            &&& years.contains(axis.bounds.first) && years.contains(axis.bounds.last)
            &&& span is None ==> axis.value == axis.bounds
            &&& span matches Some(span) ==> {
                &&& span.first < years[0] ==> axis.value.first == years[0]
                &&& span.last > years.last() ==> axis.value.last == years.last()
            }
        },
        axis_of(span, Seq::empty()) is None,
{
    if place > 0 {
        assert(years[0] < years[place]);
    }
    if place < years.len() - 1 {
        assert(years[place] < years[years.len() - 1]);
    }
    assert(years.contains(years[0]));
    assert(years.contains(years[years.len() - 1]));
}

/// A year that is known is shown as its digits, and one that is not as nothing.
pub proof fn a_known_year_is_shown(year: i32)
    ensures
        year > 0 ==> shown_year(year) == decimal(year as nat),
        year <= 0 ==> shown_year(year).len() == 0,
{
}

/// In a column of numbers the album with less of it comes first, whatever its texts are, and the
/// columns of names and artists go by their texts alone.
pub proof fn a_column_orders_by_its_own_value(
    albums: Seq<AlbumFacts>,
    a: usize,
    b: usize,
    text: Order,
)
    requires
        a < albums.len(),
        b < albums.len(),
    ensures
        compared(albums, AlbumField::Name, a, b, text) == text,
        compared(albums, AlbumField::Artists, a, b, text) == text,
        a < b ==> compared(albums, AlbumField::Index, a, b, text) is Less,
        a < b ==> compared(albums, AlbumField::Cover, a, b, text) is Less,
        a == b ==> compared(albums, AlbumField::Index, a, b, text) is Equal,
        albums[a as int].year < albums[b as int].year ==> compared(
            albums,
            AlbumField::Year,
            a,
            b,
            text,
        ) is Less,
        albums[a as int].year == albums[b as int].year ==> compared(
            albums,
            AlbumField::Year,
            a,
            b,
            text,
        ) is Equal,
        albums[a as int].track_count < albums[b as int].track_count ==> compared(
            albums,
            AlbumField::TrackCount,
            a,
            b,
            text,
        ) is Less,
        albums[a as int].track_count == albums[b as int].track_count ==> compared(
            albums,
            AlbumField::TrackCount,
            a,
            b,
            text,
        ) is Equal,
        (albums[a as int].added_at matches Some(one) && albums[b as int].added_at matches Some(
            other,
        ) && one < other) ==> compared(albums, AlbumField::AddedAt, a, b, text) is Less,
        albums[a as int].added_at is None && albums[b as int].added_at is Some ==> compared(
            albums,
            AlbumField::AddedAt,
            a,
            b,
            text,
        ) is Less,
{
}

/// A cell shows what its column is about, and nothing of an album that is not there.
pub proof fn a_cell_shows_its_column(field: AlbumField, known: bool, shown: AlbumCell)
    requires
        call_ensures(cell, (field, known), shown),
    ensures
        !known <==> shown is Blank,
        known ==> {
            &&& field is Index <==> shown is Index
            &&& field is Cover <==> shown is Cover
            &&& field is Name <==> shown is Name
            &&& field is Artists <==> shown is Artists
            &&& field is Year <==> shown is Year
            &&& field is TrackCount <==> shown is TrackCount
            &&& field is AddedAt <==> shown is AddedAt
        },
{
}

/// Narrowing the table by years takes those years, resetting it takes none, and a change that is
/// not this table's changes nothing.
pub proof fn the_table_is_narrowed_by_years(
    source: &mut AlbumSource,
    change: FilterChange,
    taken: bool,
)
    requires
        call_ensures(AlbumSource::filter, (source, change), taken),
    ensures
        change matches FilterChange::Range(key, span) ==> {
            &&& key@ == "filter-year"@ ==> taken && final(source).year_span == Some(span)
            &&& key@ != "filter-year"@ ==> !taken && final(source).year_span
                == old(source).year_span
        },
        change is Flag ==> !taken && final(source).year_span == old(source).year_span,
        change is Reset ==> taken && final(source).year_span is None,
        final(source).spread == old(source).spread,
{
}

/// An album is shown exactly when its year lies within those asked for and the search finds it.
pub proof fn an_album_is_shown_when_it_is_found(
    source: AlbumSource,
    album: AlbumFacts,
    query: &str,
    yes: bool,
)
    requires
        call_ensures(AlbumSource::matches, (&source, &album, query), yes),
    ensures
        source.year_span is None && query@.len() == 0 ==> yes,
        source.year_span is None && (album.name_holds || album.artists_hold || album.year_holds)
            ==> yes,
        query@.len() > 0 && !album.name_holds && !album.artists_hold && !album.year_holds ==> !yes,
        source.year_span matches Some(span) ==> {
            &&& album.year == 0 || album.year < span.first || album.year > span.last ==> !yes
            &&& album.year != 0 && span.first <= album.year <= span.last && (query@.len() == 0
                || album.name_holds || album.artists_hold || album.year_holds) ==> yes
        },
{
}

/// The years are worked out anew for another search or another number of albums, and kept as they
/// are otherwise.
pub proof fn the_years_are_kept_until_they_change(
    source: &mut AlbumSource,
    albums: Vec<AlbumFacts>,
    query: &str,
    years: Vec<i32>,
)
    requires
        call_ensures(AlbumSource::years, (source, &albums, query), years),
    ensures
        old(source).spread is None ==> are_years(years@, albums@, query@),
        old(source).spread matches Some(spread) ==> {
            &&& spread.count != albums@.len() || spread.query@ != query@ ==> are_years(
                years@,
                albums@,
                query@,
            )
            &&& spread.count == albums@.len() && spread.query@ == query@ ==> years@
                == spread.years@
        },
        final(source).spread matches Some(spread) && spread.years@ == years@ && spread.count
            == albums@.len() && spread.query@ == query@,
        final(source).year_span == old(source).year_span,
{
}

} // verus!
