//! Simulation core of a turn-based dungeon crawler: level generation,
//! combat, monster behaviour, items and equipment.

use vstd::prelude::*;

pub mod ai;
pub mod color;
pub mod combat;
pub mod constants;
pub mod game;
pub mod item;
pub mod generate;
pub mod map;
pub mod messages;
pub mod meta;
pub mod object;
pub mod player;
pub mod random;
pub mod reach;
pub mod spawn;
pub mod targeting;
pub mod ui;

verus! {

/// Splits `items` into two live mutable views, one of the element at
/// `first_index` and one of the element at `second_index`.
///
/// The two indices must differ and lie inside the slice; whatever is written
/// through the returned references ends up at those two positions and every
/// other element is left alone.
pub fn mut_two<T>(first_index: usize, second_index: usize, items: &mut [T]) -> (pair: (
    &mut T,
    &mut T,
))
    requires
        first_index != second_index,
        first_index < old(items)@.len(),
        second_index < old(items)@.len(),
    ensures
        *pair.0 == old(items)@[first_index as int],
        *pair.1 == old(items)@[second_index as int],
        final(items)@ == old(items)@.update(first_index as int, *final(pair.0)).update(
            second_index as int,
            *final(pair.1),
        ),
{
    let split_at_index = if first_index < second_index {
        second_index
    } else {
        first_index
    };
    let (first_slice, second_slice) = items.split_at_mut(split_at_index);
    if first_index < second_index {
        (&mut first_slice[first_index], &mut second_slice[0])
    } else {
        (&mut second_slice[0], &mut first_slice[second_index])
    }
}

} // verus!
