//! The built-in levels: layout texts and starting crabs, and the blank
//! canvas the level editor starts from.

use vstd::prelude::*;

use crate::entities::Entities;
use crate::grid::{line_split, parse_grid, parse_ok, Grid};
use crate::scenery::Scenery;

verus! {

/// The layout text shared by the built-in levels.
pub const DEFAULT_LAYOUT: &'static str = "                                                                                \n                                                                                \n                         #                                                      \n########################### ####################################################\n                                                                                \n                                                                                \n                                                                                \n                                                                                \n                                                                                \n                                                                                \n                                                                                \n                                                                                \n                                                                                \n                                                                                \n                                                                                \n                                                                                \n                                                                                \n                                                                                \n                                                                                \n                                                                                \n                                                                                \n               #        X           #                                           \n################################################################################\n                                                                                \n";

/// The layout text of the blank editing canvas.
pub const BLANK_LAYOUT: &'static str = "                                                                                \n                                                                                \n                                                                                \n                                                                                \n                                                                                \n                                                                                \n                                                                                \n                                                                                \n                                                                                \n                                                                                \n                                                                                \n                                                                                \n                                                                                \n                                                                                \n                                                                                \n                                                                                \n                                                                                \n                                                                                \n                                                                                \n                                                                                \n                                                                                \n                                                                                \n                                                                                \n                                                                                \n";

/// A one-cell empty grid; the stand-in when a built-in layout text would
/// not parse, which none of them can fail to do.
fn fallback_grid() -> (g: Grid)
    ensures
        g.wf(),
        g.rows() == 1,
        g.cols() == 1,
{
    let mut row: Vec<Scenery> = Vec::new();
    row.push(Scenery::Empty);
    let mut layout: Vec<Vec<Scenery>> = Vec::new();
    layout.push(row);
    let g = Grid { dimensions: [1, 1], layout };
    proof {
        assert(g.grid().len() == 1);
        assert(g.grid()[0].len() == 1);
    }
    g
}

/// The grid of a built-in layout text.
fn parse_builtin(layout: &str) -> (g: Grid)
    ensures
        g.wf(),
        parse_ok(layout@) ==> g.grid() == parse_grid(layout@) && g.rows() == line_split(
            layout@,
        ).len() && g.cols() == line_split(layout@)[0].len(),
{
    match Grid::new(layout) {
        Some(m) => m,
        None => fallback_grid(),
    }
}

/// Load the default levels, in play order.
pub fn default_levels() -> (r: Vec<(Entities, Grid)>)
    ensures
        r@.len() == 3,
        forall|i: int| 0 <= i < 3 ==> (#[trigger] r@[i]).0.wf() && r@[i].1.wf(),
        r@[0].0.collection@.len() == 2,
        r@[1].0.collection@.len() == 1,
        r@[2].0.collection@.len() == 1,
{
    let mut default: Vec<(Entities, Grid)> = Vec::new();
    default.push(level_1());
    default.push(level_2());
    default.push(level_3());
    default
}

/// The first built-in level: two crabs falling toward each other.
pub fn level_1() -> (r: (Entities, Grid))
    ensures
        r.0.wf(),
        r.1.wf(),
        r.0.collection@.len() == 2,
        r.0.collection@[0]@.row == 2 && r.0.collection@[0]@.col == 1,
        r.0.collection@[0]@.vrow == 1 && r.0.collection@[0]@.vcol == 1,
        r.0.collection@[1]@.row == 2 && r.0.collection@[1]@.col == 10,
        r.0.collection@[1]@.vrow == 1 && r.0.collection@[1]@.vcol == -1,
        parse_ok(DEFAULT_LAYOUT@) ==> r.1.grid() == parse_grid(DEFAULT_LAYOUT@),
{
    let mut positions: Vec<[usize; 2]> = Vec::new();
    positions.push([2, 1]);
    positions.push([2, 10]);
    let mut velocities: Vec<[isize; 2]> = Vec::new();
    velocities.push([1, 1]);
    velocities.push([1, -1]);
    let crabs = Entities::new(positions, velocities);
    let map = parse_builtin(DEFAULT_LAYOUT);
    (crabs, map)
}

/// The second built-in level: one crab, started higher up.
pub fn level_2() -> (r: (Entities, Grid))
    ensures
        r.0.wf(),
        r.1.wf(),
        r.0.collection@.len() == 1,
        r.0.collection@[0]@.row == 1 && r.0.collection@[0]@.col == 1,
        r.0.collection@[0]@.vrow == 1 && r.0.collection@[0]@.vcol == 1,
        parse_ok(DEFAULT_LAYOUT@) ==> r.1.grid() == parse_grid(DEFAULT_LAYOUT@),
{
    let mut positions: Vec<[usize; 2]> = Vec::new();
    positions.push([1, 1]);
    let mut velocities: Vec<[isize; 2]> = Vec::new();
    velocities.push([1, 1]);
    let crabs = Entities::new(positions, velocities);
    let map = parse_builtin(DEFAULT_LAYOUT);
    (crabs, map)
}

/// The third built-in level: the same chase once more.
pub fn level_3() -> (r: (Entities, Grid))
    ensures
        r.0.wf(),
        r.1.wf(),
        r.0.collection@.len() == 1,
        r.0.collection@[0]@.row == 1 && r.0.collection@[0]@.col == 1,
        r.0.collection@[0]@.vrow == 1 && r.0.collection@[0]@.vcol == 1,
        parse_ok(DEFAULT_LAYOUT@) ==> r.1.grid() == parse_grid(DEFAULT_LAYOUT@),
{
    let mut positions: Vec<[usize; 2]> = Vec::new();
    positions.push([1, 1]);
    let mut velocities: Vec<[isize; 2]> = Vec::new();
    velocities.push([1, 1]);
    let crabs = Entities::new(positions, velocities);
    let map = parse_builtin(DEFAULT_LAYOUT);
    (crabs, map)
}

/// A blank grid for the level editor to draw on.
pub fn blank_map() -> (r: Grid)
    ensures
        r.wf(),
        parse_ok(BLANK_LAYOUT@) ==> r.grid() == parse_grid(BLANK_LAYOUT@),
{
    parse_builtin(BLANK_LAYOUT)
}

} // verus!
