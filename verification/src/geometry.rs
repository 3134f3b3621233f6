//! Positions, sizes and the overlap test for axis-aligned boxes.
//!
//! A position is the top-left corner of a box and a size its width and
//! height, both in whole pixels of one shared coordinate space.

use vstd::prelude::*;

verus! {

/// Whether two boxes share an area that is positive along both axes. Boxes
/// that merely touch along an edge or at a corner do not overlap.
pub open spec fn boxes_overlap(
    position: (i32, i32),
    position2: (i32, i32),
    size: (i32, i32),
    size2: (i32, i32),
) -> bool {
    &&& position.0 + size.0 > position2.0
    &&& position.1 + size.1 > position2.1
    &&& position.0 < position2.0 + size2.0
    &&& position.1 < position2.1 + size2.1
}

/// Whether the pixel `(x, y)` lies inside the box at `position` with `size`.
pub open spec fn box_covers(position: (i32, i32), size: (i32, i32), x: int, y: int) -> bool {
    &&& position.0 <= x < position.0 + size.0
    &&& position.1 <= y < position.1 + size.1
}

/// A position moved by `step`, each coordinate wrapping around at the ends
/// of the 32-bit range.
pub open spec fn displaced(position: (i32, i32), step: (i32, i32)) -> (i32, i32) {
    (
        vstd::wrapping::i32_specs::wrapping_add(position.0, step.0),
        vstd::wrapping::i32_specs::wrapping_add(position.1, step.1),
    )
}

/// The vector that leads from `from` to `to`, each coordinate wrapping
/// around at the ends of the 32-bit range.
pub open spec fn offset_between(from: (i32, i32), to: (i32, i32)) -> (i32, i32) {
    (
        vstd::wrapping::i32_specs::wrapping_sub(to.0, from.0),
        vstd::wrapping::i32_specs::wrapping_sub(to.1, from.1),
    )
}

/// The square of the straight-line distance between two positions.
pub open spec fn squared_distance(a: (i32, i32), b: (i32, i32)) -> int {
    (b.0 - a.0) * (b.0 - a.0) + (b.1 - a.1) * (b.1 - a.1)
}

/// Tests two boxes for overlap. The comparison is strict on all four sides
/// and is made without overflow, whatever the coordinates.
pub fn collision(
    position: (i32, i32),
    position2: (i32, i32),
    size: (i32, i32),
    size2: (i32, i32),
) -> (hit: bool)
    ensures
        hit == boxes_overlap(position, position2, size, size2),
{
    let right: i64 = position.0 as i64 + size.0 as i64;
    let bottom: i64 = position.1 as i64 + size.1 as i64;
    let right2: i64 = position2.0 as i64 + size2.0 as i64;
    let bottom2: i64 = position2.1 as i64 + size2.1 as i64;
    right > position2.0 as i64 && bottom > position2.1 as i64 && (position.0 as i64) < right2
        && (position.1 as i64) < bottom2
}

/// Moves a position by `step`, wrapping around on overflow.
pub fn shift(position: (i32, i32), step: (i32, i32)) -> (moved: (i32, i32))
    ensures
        moved == displaced(position, step),
{
    (position.0.wrapping_add(step.0), position.1.wrapping_add(step.1))
}

/// The vector from `from` to `to`, wrapping around on overflow.
pub fn offset(from: (i32, i32), to: (i32, i32)) -> (delta: (i32, i32))
    ensures
        delta == offset_between(from, to),
{
    (to.0.wrapping_sub(from.0), to.1.wrapping_sub(from.1))
}

/// Overlap does not depend on which box is named first.
pub proof fn lemma_overlap_symmetric(
    position: (i32, i32),
    position2: (i32, i32),
    size: (i32, i32),
    size2: (i32, i32),
)
    ensures
        boxes_overlap(position, position2, size, size2) == boxes_overlap(
            position2,
            position,
            size2,
            size,
        ),
{
}

/// Two boxes of which one begins exactly where the other ends, along either
/// axis, do not overlap.
pub proof fn lemma_touching_boxes_are_apart(
    position: (i32, i32),
    position2: (i32, i32),
    size: (i32, i32),
    size2: (i32, i32),
)
    requires
        position.0 + size.0 == position2.0 || position.1 + size.1 == position2.1
            || position2.0 + size2.0 == position.0 || position2.1 + size2.1 == position.1,
    ensures
        !boxes_overlap(position, position2, size, size2),
{
}

/// Two boxes of which one reaches a single pixel into the other along one
/// axis overlap as soon as they share some stretch along the other axis.
pub proof fn lemma_one_pixel_overlaps(
    position: (i32, i32),
    position2: (i32, i32),
    size: (i32, i32),
    size2: (i32, i32),
)
    requires
        size.0 >= 1,
        size2.0 >= 1,
        position.0 + size.0 == position2.0 + 1,
        position.1 + size.1 > position2.1,
        position.1 < position2.1 + size2.1,
    ensures
        boxes_overlap(position, position2, size, size2),
{
}

/// Boxes of positive size overlap exactly when some pixel lies inside both.
pub proof fn lemma_overlap_is_shared_pixel(
    position: (i32, i32),
    position2: (i32, i32),
    size: (i32, i32),
    size2: (i32, i32),
)
    requires
        size.0 > 0,
        size.1 > 0,
        size2.0 > 0,
        size2.1 > 0,
    ensures
        boxes_overlap(position, position2, size, size2) <==> exists|x: int, y: int|
            #[trigger] box_covers(position, size, x, y) && box_covers(position2, size2, x, y),
{
    if boxes_overlap(position, position2, size, size2) {
        let x: int = if position.0 >= position2.0 {
            position.0 as int
        } else {
            position2.0 as int
        };
        let y: int = if position.1 >= position2.1 {
            position.1 as int
        } else {
            position2.1 as int
        };
        assert(box_covers(position, size, x, y) && box_covers(position2, size2, x, y));
    }
}

} // verus!
