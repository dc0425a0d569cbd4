//! A deck of tracks in columns, one page of it at a time.

use vstd::prelude::*;

verus! {

/// How many tracks stand under each other in a column.
pub const ROWS: usize = 5;

/// How many columns there are at most.
pub const MAX_COLUMNS: usize = 3;

/// How wide a column is at least, in whole pixels.
pub const MIN_COLUMN_WIDTH: u32 = 280;

/// As many columns as fit the width, at least one and never more than the most there are.
pub open spec fn columns_in(width: nat) -> nat {
    let fit = width / MIN_COLUMN_WIDTH as nat;
    if fit < 1 {
        1
    } else if fit > MAX_COLUMNS {
        MAX_COLUMNS as nat
    } else {
        fit
    }
}

/// How many columns fit a width in whole pixels.
pub fn column_count(width: u32) -> (columns: usize)
    ensures
        columns == columns_in(width as nat),
        1 <= columns <= MAX_COLUMNS,
{
    let fit = (width / MIN_COLUMN_WIDTH) as usize;
    if fit < 1 {
        1
    } else if fit > MAX_COLUMNS {
        MAX_COLUMNS
    } else {
        fit
    }
}

/// The columns of one page and the pages a deck takes.
#[derive(Clone, Copy, Debug, PartialEq, Eq, Structural)]
pub struct Shape {
    pub columns: usize,
    pub pages: usize,
}

/// The fewest pages of so many slots that hold everything, and one when there is nothing.
pub open spec fn pages_for(count: nat, slots: nat) -> nat
    recommends
        slots > 0,
{
    if count == 0 {
        1
    } else {
        (count + slots - 1) as nat / slots
    }
}

/// The shape of a deck of so many tracks at a width.
pub open spec fn shape_of(width: nat, count: nat) -> Shape {
    Shape {
        columns: columns_in(width) as usize,
        pages: pages_for(count, columns_in(width) * ROWS as nat) as usize,
    }
}

impl Shape {
    /// Between one column and the most there are, and at least one page.
    pub open spec fn well_formed(self) -> bool {
        1 <= self.columns <= MAX_COLUMNS && 1 <= self.pages
    }

    /// How many tracks one page holds.
    pub open spec fn room(self) -> nat {
        self.columns as nat * ROWS as nat
    }

    /// The shape of a deck of so many tracks at a width in whole pixels.
    pub fn new(width: u32, count: usize) -> (shape: Self)
        ensures
            shape == shape_of(width as nat, count as nat),
            shape.well_formed(),
            shape.pages == pages_for(count as nat, shape.room()),
    {
        let columns = column_count(width);
        let slots: usize = columns * ROWS;
        let whole: usize = count / slots;
        proof {
            lemma_round_up(count as nat, slots as nat);
        }
        let pages: usize = if count == 0 {
            1
        } else if count % slots == 0 {
            whole
        } else {
            whole + 1
        };
        Shape { columns, pages }
    }

    /// How many tracks one page holds.
    pub fn slots(self) -> (room: usize)
        requires
            self.well_formed(),
        ensures
            room == self.room(),
    {
        self.columns * ROWS
    }
}

proof fn lemma_round_up(count: nat, slots: nat)
    requires
        0 < slots <= 15,
    ensures
        count > 0 && count % slots == 0 ==> (count + slots - 1) as nat / slots == count / slots
            && count / slots >= 1,
        count % slots != 0 ==> (count + slots - 1) as nat / slots == count / slots + 1,
        count / slots <= count,
        count % slots != 0 ==> count / slots + 1 <= count,
{
    let whole = count / slots;
    let rest = count % slots;
    assert(count == slots * whole + rest) by {
        vstd::arithmetic::div_mod::lemma_fundamental_div_mod(count as int, slots as int);
    }
    if rest == 0 {
        assert((slots * whole + (slots - 1)) as int / slots as int == whole) by {
            vstd::arithmetic::div_mod::lemma_fundamental_div_mod_converse(
                slots * whole + (slots - 1),
                slots as int,
                whole as int,
                slots - 1,
            );
        }
        if count > 0 {
            assert(whole >= 1) by (nonlinear_arith)
                requires
                    count == slots * whole + rest,
                    rest == 0,
                    count > 0,
            ;
        }
    } else {
        assert(slots * (whole + 1) == slots * whole + slots) by (nonlinear_arith);
        assert((slots * (whole + 1) + (rest - 1)) as int / slots as int == whole + 1) by {
            vstd::arithmetic::div_mod::lemma_fundamental_div_mod_converse(
                slots * (whole + 1) + (rest - 1),
                slots as int,
                (whole + 1) as int,
                rest - 1,
            );
        }
    }
    assert(whole <= slots * whole) by (nonlinear_arith)
        requires
            slots >= 1,
    ;
}

/// The pages of a deck hold every track, and none of them is there without need: one page fewer
/// would be too few, unless it is the only one.
pub proof fn pages_hold_every_track(count: nat, slots: nat)
    requires
        0 < slots <= 15,
    ensures
        pages_for(count, slots) >= 1,
        pages_for(count, slots) * slots >= count,
        (pages_for(count, slots) - 1) * slots < (if count == 0 {
            1
        } else {
            count
        }),
{
    let pages = pages_for(count, slots);
    lemma_round_up(count, slots);
    vstd::arithmetic::div_mod::lemma_fundamental_div_mod(count as int, slots as int);
    let whole = count / slots;
    assert(whole * slots == slots * whole) by (nonlinear_arith);
    assert((whole + 1) * slots == slots * whole + slots) by (nonlinear_arith);
    if count > 0 && count % slots == 0 {
        assert((pages - 1) * slots == slots * whole - slots) by (nonlinear_arith)
            requires
                pages == whole,
        ;
    } else if count > 0 {
        assert((pages - 1) * slots == slots * whole) by (nonlinear_arith)
            requires
                pages == whole + 1,
        ;
    } else {
        assert((pages - 1) * slots == 0) by (nonlinear_arith)
            requires
                pages == 1,
        ;
        assert(pages * slots >= 0) by (nonlinear_arith);
    }
}

/// One cell of a page.
#[derive(Clone, Copy, Debug, PartialEq, Eq, Structural)]
pub enum Cell {
    /// There is no track for it.
    Blank,
    /// The tracks are still on their way.
    Skeleton(usize),
    /// The track at that place of the list.
    Track(usize),
}

/// What stands under the head of a deck.
#[derive(Clone, Debug, PartialEq, Eq)]
pub enum Body {
    /// A note that there is nothing.
    Vacant,
    /// Columns of cells.
    Columns(Vec<Vec<Cell>>),
}

/// What a deck shows of one page: which page that is, which of the two buttons can be pressed,
/// and the cells.
#[derive(Clone, Debug, PartialEq, Eq)]
pub struct Deck {
    pub page: usize,
    pub previous: bool,
    pub next: bool,
    pub body: Body,
}

/// The page that is shown when another is asked for: the last one, if that one does not exist.
pub open spec fn page_shown(asked: nat, pages: nat) -> nat {
    if asked < pages {
        asked
    } else {
        (pages - 1) as nat
    }
}

/// The cell at a place of a page.
pub open spec fn cell_of(
    count: nat,
    loading: bool,
    start: nat,
    column: nat,
    slot: nat,
) -> Cell {
    let place = column * ROWS as nat + slot;
    if loading {
        Cell::Skeleton(place as usize)
    } else if start + place < count {
        Cell::Track((start + place) as usize)
    } else {
        Cell::Blank
    }
}

/// One column of a page.
pub open spec fn column_of(count: nat, loading: bool, start: nat, column: nat) -> Seq<Cell> {
    Seq::new(ROWS as nat, |slot: int| cell_of(count, loading, start, column, slot as nat))
}

/// The columns of a page.
pub open spec fn columns_of(shape: Shape, count: nat, loading: bool, start: nat) -> Seq<
    Seq<Cell>,
> {
    Seq::new(
        shape.columns as nat,
        |column: int| column_of(count, loading, start, column as nat),
    )
}

/// Columns as mathematics.
pub open spec fn seen_columns(columns: Seq<Vec<Cell>>) -> Seq<Seq<Cell>> {
    columns.map_values(|column: Vec<Cell>| column@)
}

/// One column of a page.
fn fill_column(count: usize, loading: bool, start: usize, column: usize) -> (cells: Vec<Cell>)
    requires
        column < MAX_COLUMNS,
    ensures
        cells@ == column_of(count as nat, loading, start as nat, column as nat),
{
    let mut cells: Vec<Cell> = Vec::new();
    let mut slot: usize = 0;
    while slot < ROWS
        invariant
            slot <= ROWS,
            column < MAX_COLUMNS,
            cells@ == column_of(count as nat, loading, start as nat, column as nat).take(
                slot as int,
            ),
        decreases ROWS - slot,
    {
        let place: usize = column * ROWS + slot;
        let cell = if loading {
            Cell::Skeleton(place)
        } else if start < count && place < count - start {
            Cell::Track(start + place)
        } else {
            Cell::Blank
        };
        cells.push(cell);
        slot = slot + 1;
        assert(cells@ =~= column_of(count as nat, loading, start as nat, column as nat).take(
            slot as int,
        ));
    }
    assert(cells@ =~= column_of(count as nat, loading, start as nat, column as nat));
    cells
}

/// What a deck of so many tracks shows at a width when a page is asked for. A deck that is empty
/// and not loading shows that there is nothing; one that is loading shows as many placeholders as
/// a page holds; otherwise the tracks run down the columns from the start of the page.
pub fn deck(width: u32, count: usize, asked: usize, loading: bool) -> (shown: Deck)
    ensures
        ({
            let shape = shape_of(width as nat, count as nat);
            let page = page_shown(asked as nat, shape.pages as nat);
            &&& shown.page == page
            &&& shown.previous == (count > 0 && page > 0)
            &&& shown.next == (count > 0 && page + 1 < shape.pages)
            &&& match shown.body {
                Body::Vacant => count == 0 && !loading,
                Body::Columns(columns) => (count > 0 || loading) && seen_columns(columns@)
                    == columns_of(shape, count as nat, loading, page * shape.room()),
            }
        }),
{
    let shape = Shape::new(width, count);
    let page: usize = if asked < shape.pages {
        asked
    } else {
        shape.pages - 1
    };
    let slots = shape.slots();
    proof {
        pages_hold_every_track(count as nat, shape.room());
        assert(0 <= page * slots <= (shape.pages - 1) * slots) by (nonlinear_arith)
            requires
                0 <= page <= shape.pages - 1,
                0 <= slots,
        ;
    }
    let start: usize = page * slots;
    let previous = count > 0 && page > 0;
    let next = count > 0 && page < shape.pages - 1;
    if count == 0 && !loading {
        return Deck { page, previous, next, body: Body::Vacant };
    }
    let mut columns: Vec<Vec<Cell>> = Vec::new();
    let mut column: usize = 0;
    let ghost wanted = columns_of(shape, count as nat, loading, start as nat);
    while column < shape.columns
        invariant
            column <= shape.columns <= MAX_COLUMNS,
            wanted == columns_of(shape, count as nat, loading, start as nat),
            seen_columns(columns@) == wanted.take(column as int),
        decreases shape.columns - column,
    {
        let ghost before = seen_columns(columns@);
        let cells = fill_column(count, loading, start, column);
        columns.push(cells);
        column = column + 1;
        assert(seen_columns(columns@) =~= before.push(cells@));
        assert(seen_columns(columns@) =~= wanted.take(column as int));
    }
    assert(seen_columns(columns@) =~= wanted);
    Deck { page, previous, next, body: Body::Columns(columns) }
}

/// Every track of a deck has a cell: on its page, in one of the columns, and the cell there is
/// its own.
pub proof fn every_track_is_dealt(width: nat, count: nat, place: nat)
    requires
        place < count <= usize::MAX,
    ensures
        ({
            let shape = shape_of(width, count);
            let page = place / shape.room();
            let inside = place % shape.room();
            &&& page < shape.pages
            &&& inside / (ROWS as nat) < shape.columns
            &&& cell_of(
                count,
                false,
                page * shape.room(),
                inside / (ROWS as nat),
                inside % (ROWS as nat),
            ) == Cell::Track(place as usize)
        }),
{
    let columns = columns_in(width);
    let slots = columns * ROWS as nat;
    let shape = shape_of(width, count);
    lemma_round_up(count, slots);
    pages_hold_every_track(count, slots);
    assert(shape.room() == slots);
    let page = place / slots;
    let inside = place % slots;
    vstd::arithmetic::div_mod::lemma_fundamental_div_mod(place as int, slots as int);
    assert(page * slots == slots * page) by (nonlinear_arith);
    let pages = pages_for(count, slots);
    assert(page < pages) by (nonlinear_arith)
        requires
            page * slots <= place,
            place < count,
            count <= pages * slots,
            slots > 0,
    ;
    assert(pages <= count);
    let column = inside / (ROWS as nat);
    assert(column * (ROWS as nat) + inside % (ROWS as nat) == inside);
}

/// A column for every 280 of the width, at least one and at most three.
pub proof fn a_wider_deck_has_more_columns(width: nat)
    ensures
        width < 560 ==> columns_in(width) == 1,
        560 <= width < 840 ==> columns_in(width) == 2,
        840 <= width ==> columns_in(width) == 3,
{
    assert(columns_in(width) == if width / 280 < 1 {
        1
    } else if width / 280 > 3 {
        3
    } else {
        width / 280
    });
}

/// Tracks are dealt down the columns, five to each: the next slot of a column holds the next
/// track, and the next column starts five tracks on. Behind the last track the slots are blank,
/// and while the tracks load every slot is a skeleton of its own.
pub proof fn tracks_are_dealt_down_the_columns(count: nat, start: nat, column: nat, slot: nat)
    requires
        start + 5 * column + slot <= usize::MAX,
        slot < 5,
    ensures
        start + 5 * column + slot < count ==> cell_of(count, false, start, column, slot)
            == Cell::Track((start + 5 * column + slot) as usize),
        start + 5 * column + slot >= count ==> cell_of(count, false, start, column, slot) is Blank,
        cell_of(count, true, start, column, slot) == Cell::Skeleton((5 * column + slot) as usize),
        column_of(count, false, start, column).len() == 5,
        column_of(count, false, start, column)[slot as int] == cell_of(
            count,
            false,
            start,
            column,
            slot,
        ),
{
    assert(column * ROWS as nat == 5 * column) by (nonlinear_arith)
        requires
            ROWS == 5,
    ;
}

/// The page that is asked for is shown, or the last one where there are not so many. There is one
/// before it exactly when it is not the first, and one behind it exactly when tracks are left.
pub proof fn the_page_asked_for_is_shown(
    width: u32,
    count: usize,
    asked: usize,
    loading: bool,
    shown: Deck,
)
    requires
        call_ensures(deck, (width, count, asked, loading), shown),
    ensures
        ({
            let pages = shape_of(width as nat, count as nat).pages;
            &&& asked < pages ==> shown.page == asked
            &&& pages > 0 && asked >= pages ==> shown.page == pages - 1
            &&& count > 0 ==> (shown.previous <==> shown.page > 0)
            &&& count > 0 ==> (shown.next <==> shown.page + 1 < pages)
            &&& count == 0 ==> !shown.previous && !shown.next
            &&& shown.body is Vacant <==> count == 0 && !loading
        }),
{
}

/// A cell of the deck holds the track that its place on its page comes to.
pub proof fn a_cell_holds_its_track(
    width: u32,
    count: usize,
    asked: usize,
    loading: bool,
    shown: Deck,
    column: int,
    slot: int,
)
    requires
        call_ensures(deck, (width, count, asked, loading), shown),
        count > 0,
        !loading,
        0 <= slot < 5,
        0 <= column < columns_in(width as nat),
        shown.page * (5 * columns_in(width as nat)) + 5 * column + slot <= usize::MAX,
    ensures
        shown.body matches Body::Columns(columns) && {
            let place = shown.page * (5 * columns_in(width as nat)) + 5 * column + slot;
            &&& columns@.len() == columns_in(width as nat)
            &&& columns@[column]@.len() == 5
            &&& place < count ==> columns@[column]@[slot] == Cell::Track(place as usize)
            &&& place >= count ==> columns@[column]@[slot] is Blank
        },
{
    a_wider_deck_has_more_columns(width as nat);
    the_page_asked_for_is_shown(width, count, asked, loading, shown);
    if let Body::Columns(columns) = shown.body {
        let shape = shape_of(width as nat, count as nat);
        let start = shown.page * shape.room();
        let seen = seen_columns(columns@);
        assert(seen == columns_of(shape, count as nat, loading, start as nat));
        assert(seen.len() == columns@.len());
        assert(shape.room() == 5 * columns_in(width as nat)) by (nonlinear_arith)
            requires
                shape.columns == columns_in(width as nat),
                ROWS == 5,
                shape.room() == shape.columns as nat * ROWS as nat,
        ;
        assert(seen_columns(columns@)[column] == columns@[column]@);
        tracks_are_dealt_down_the_columns(
            count as nat,
            start as nat,
            column as nat,
            slot as nat,
        );
    }
}

} // verus!
