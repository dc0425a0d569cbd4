//! The tables of the library: how their rows are found, narrowed and put in order.
//!
//! Whether a text holds what is searched for, and which of two texts comes first, goes by letters
//! as a language has them; both are decided elsewhere and handed in.

use vstd::prelude::*;

pub mod albums;
pub mod playlists;

verus! {

/// How one row stands to another.
#[derive(Clone, Copy, Debug, PartialEq, Eq, Structural)]
pub enum Order {
    Less,
    Equal,
    Greater,
}

/// How one number stands to another.
pub open spec fn number_order(a: int, b: int) -> Order {
    if a < b {
        Order::Less
    } else if a == b {
        Order::Equal
    } else {
        Order::Greater
    }
}

/// How one value stands to another. One that is not there comes first.
pub open spec fn maybe_order(a: Option<int>, b: Option<int>) -> Order {
    match (a, b) {
        (None, None) => Order::Equal,
        (None, Some(_)) => Order::Less,
        (Some(_), None) => Order::Greater,
        (Some(a), Some(b)) => number_order(a, b),
    }
}

/// How one value of a row stands to another: a row that is not there comes first, then one
/// without the value.
pub open spec fn row_order(a: Option<Option<int>>, b: Option<Option<int>>) -> Order {
    match (a, b) {
        (None, None) => Order::Equal,
        (None, Some(_)) => Order::Less,
        (Some(_), None) => Order::Greater,
        (Some(a), Some(b)) => maybe_order(a, b),
    }
}

/// The order the other way round.
pub open spec fn turned(order: Order) -> Order {
    match order {
        Order::Less => Order::Greater,
        Order::Equal => Order::Equal,
        Order::Greater => Order::Less,
    }
}

/// The first order, or the second one where the first leaves two rows level.
pub open spec fn settled(first: Order, second: Order) -> Order {
    if first == Order::Equal {
        second
    } else {
        first
    }
}

/// A value as mathematics.
pub open spec fn seen_value(value: Option<i64>) -> Option<int> {
    match value {
        Some(value) => Some(value as int),
        None => None,
    }
}

/// A value of a row as mathematics.
pub open spec fn seen_row(value: Option<Option<i64>>) -> Option<Option<int>> {
    match value {
        Some(value) => Some(seen_value(value)),
        None => None,
    }
}

/// How one number stands to another.
pub fn order_numbers(a: u128, b: u128) -> (order: Order)
    ensures
        order == number_order(a as int, b as int),
{
    if a < b {
        Order::Less
    } else if a == b {
        Order::Equal
    } else {
        Order::Greater
    }
}

/// How one value stands to another. One that is not there comes first.
pub fn order_maybe(a: Option<i64>, b: Option<i64>) -> (order: Order)
    ensures
        order == maybe_order(seen_value(a), seen_value(b)),
{
    match (a, b) {
        (None, None) => Order::Equal,
        (None, Some(_)) => Order::Less,
        (Some(_), None) => Order::Greater,
        (Some(a), Some(b)) => if a < b {
            Order::Less
        } else if a == b {
            Order::Equal
        } else {
            Order::Greater
        },
    }
}

/// How one value of a row stands to another.
pub fn order_rows(a: Option<Option<i64>>, b: Option<Option<i64>>) -> (order: Order)
    ensures
        order == row_order(seen_row(a), seen_row(b)),
{
    match (a, b) {
        (None, None) => Order::Equal,
        (None, Some(_)) => Order::Less,
        (Some(_), None) => Order::Greater,
        (Some(a), Some(b)) => order_maybe(a, b),
    }
}

/// Which of two rows comes first depends on both alike: turning them round turns the order, a
/// value that is not there comes before one that is, and of two numbers the smaller comes first.
pub proof fn the_smaller_comes_first(a: int, b: int)
    ensures
        number_order(a, b) is Less <==> a < b,
        number_order(a, b) is Equal <==> a == b,
        number_order(a, b) is Greater <==> a > b,
        maybe_order(Some(a), Some(b)) is Less <==> a < b,
        maybe_order(None, Some(b)) is Less,
        maybe_order(Some(a), None) is Greater,
        row_order(Some(Some(a)), Some(Some(b))) is Less <==> a < b,
        row_order(Some(None), Some(Some(b))) is Less,
        row_order(None, Some(Some(b))) is Less,
        row_order(None, Some(None)) is Less,
        turned(number_order(a, b)) == number_order(b, a),
{
}

/// The second order counts only where the first leaves two rows level.
pub proof fn the_second_order_settles_a_tie(first: Order, second: Order)
    ensures
        first is Equal ==> settled(first, second) == second,
        first is Less ==> settled(first, second) is Less,
        first is Greater ==> settled(first, second) is Greater,
{
}

} // verus!
