//! Numbers drawn at random, and what is made of them.

use vstd::prelude::*;

verus! {

/// A number drawn at random from `low` up to but without `high`.
///
/// This is `Rng::gen_range` of the `rand` crate on the generator of the
/// thread, `rand::thread_rng()`, with the range `low..high`. The call
/// panics on an empty range, which `requires` leaves out; it also panics,
/// whatever the range, where the system cannot seed the generator. Of the
/// number that comes back nothing is claimed but that it lies in the
/// range: two draws may differ.
#[verifier::external_body]
fn draw(low: u32, high: u32) -> (number: u32)
    requires
        low < high,
    ensures
        low <= number < high,
{
    rand::Rng::gen_range(&mut rand::thread_rng(), low..high)
}

/// Whether `value` may stand at index `index` of a drawn list: it is the
/// position, counted from one, times a factor from 1 to 4.
pub open spec fn is_drawn_value(index: int, value: u32) -> bool {
    let position = index + 1;
    value == position || value == 2 * position || value == 3 * position || value == 4 * position
}

/// What holds of every drawn list: it has from one to nine values, and
/// each is its position times a factor from 1 to 4.
pub open spec fn is_drawn_list(values: Seq<u32>) -> bool {
    &&& 1 <= values.len() <= 9
    &&& forall|i: int| 0 <= i < values.len() ==> is_drawn_value(i, #[trigger] values[i])
}

/// Ten for a roll below five, a hundred for every other roll.
pub fn ten_or_hundred(roll: u32) -> (value: i32)
    ensures
        value == if roll < 5 {
            10int
        } else {
            100int
        },
{
    if roll < 5 {
        10
    } else {
        100
    }
}

/// Ten or a hundred, as a roll from 0 to 9 decides: ten for a roll below
/// five.
pub fn control_flow_with_statements_and_expressions_magic() -> (value: i32)
    ensures
        value == 10 || value == 100,
{
    ten_or_hundred(draw(0, 10))
}

/// A list of numbers drawn at random: from one to nine values, the one at
/// position `p`, counted from one, being `p` times a factor drawn from 1
/// to 4.
pub fn random_values() -> (values: Vec<u32>)
    ensures
        is_drawn_list(values@),
{
    let count = draw(2, 11);
    let mut values: Vec<u32> = Vec::new();
    let mut position: u32 = 1;
    while position < count
        invariant
            2 <= count <= 10,
            1 <= position <= count,
            values@.len() == position - 1,
            forall|i: int| 0 <= i < values@.len() ==> is_drawn_value(i, #[trigger] values@[i]),
        decreases count - position,
    {
        let factor = draw(1, 5);
        assert(position * factor <= 36) by (nonlinear_arith)
            requires
                1 <= position <= 9,
                1 <= factor <= 4,
        ;
        let value = position * factor;
        assert(is_drawn_value(position - 1, value)) by (nonlinear_arith)
            requires
                1 <= factor <= 4,
                value == position * factor,
        ;
        values.push(value);
        position += 1;
    }
    values
}

} // verus!
