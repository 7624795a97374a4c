use vstd::prelude::*;

use super::cell::{spec_default_cell, Cell};
use super::Dimensions;

verus! {

/// The cells after a resize to `dimensions`: what fits keeps its place, the
/// rest of the grid is default cells.
pub open spec fn spec_resized(cells: Seq<Seq<Cell>>, old_dims: Dimensions, dimensions: Dimensions) -> Seq<
    Seq<Cell>,
> {
    Seq::new(
        dimensions.lines as nat,
        |i: int|
            Seq::new(
                dimensions.columns as nat,
                |j: int|
                    if i < old_dims.lines && j < old_dims.columns {
                        cells[i][j]
                    } else {
                        spec_default_cell()
                    },
            ),
    )
}

/// Resizing to the current dimensions changes nothing.
pub proof fn lemma_resize_same(cells: Seq<Seq<Cell>>, dimensions: Dimensions)
    requires
        cells.len() == dimensions.lines,
        forall|i: int| 0 <= i < cells.len() ==> (#[trigger] cells[i]).len() == dimensions.columns,
    ensures
        spec_resized(cells, dimensions, dimensions) == cells,
{
    assert forall|i: int| 0 <= i < dimensions.lines implies #[trigger] spec_resized(
        cells,
        dimensions,
        dimensions,
    )[i] =~= cells[i] by {}
    assert(spec_resized(cells, dimensions, dimensions) =~= cells);
}

/// Growing a grid and shrinking it back to its dimensions restores it.
pub proof fn lemma_grow_then_shrink(cells: Seq<Seq<Cell>>, dimensions: Dimensions, larger: Dimensions)
    requires
        cells.len() == dimensions.lines,
        forall|i: int| 0 <= i < cells.len() ==> (#[trigger] cells[i]).len() == dimensions.columns,
        dimensions.lines <= larger.lines,
        dimensions.columns <= larger.columns,
    ensures
        spec_resized(spec_resized(cells, dimensions, larger), larger, dimensions) == cells,
{
    let back = spec_resized(spec_resized(cells, dimensions, larger), larger, dimensions);
    assert forall|i: int| 0 <= i < dimensions.lines implies #[trigger] back[i] =~= cells[i] by {}
    assert(back =~= cells);
}

} // verus!
