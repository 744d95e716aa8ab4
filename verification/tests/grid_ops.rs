//! The toroidal grid: wrap arithmetic, parsing, rendering and cell
//! mutation.

use crabs::entities::Entities;
use crabs::grid::{Grid, MAX_DIM};
use crabs::scenery::Scenery;

fn grid_of(layout: &str) -> Grid {
    Grid::new(layout).expect("layout must parse")
}

#[test]
fn wrap_stays_on_grid_and_wraps_both_edges() {
    let map = grid_of("   \n   \n   \n   \n");
    // 4 rows, 3 cols.
    let mut p: [usize; 2] = [0, 0];
    map.wrap(&mut p, [-1, -1]);
    assert_eq!(p, [3, 2]);
    map.wrap(&mut p, [1, 1]);
    assert_eq!(p, [0, 0]);
    let mut q: [usize; 2] = [3, 2];
    map.wrap(&mut q, [1, 1]);
    assert_eq!(q, [0, 0]);
}

#[test]
fn wrap_full_loop_is_identity() {
    // A delta of a whole extent on either axis returns the position
    // unchanged, and so does a zero delta.
    let map = grid_of("    \n    \n    \n");
    // 3 rows, 4 cols.
    let mut p: [usize; 2] = [1, 2];
    map.wrap(&mut p, [3, 0]);
    assert_eq!(p, [1, 2]);
    map.wrap(&mut p, [0, 4]);
    assert_eq!(p, [1, 2]);
    map.wrap(&mut p, [0, 0]);
    assert_eq!(p, [1, 2]);
}

#[test]
fn parse_reads_the_glyph_table() {
    let map = grid_of("#/\\@\nX<> \n");
    assert_eq!(map.dimensions, [2, 4]);
    assert_eq!(map.get([0, 0]), Scenery::Block);
    assert_eq!(map.get([0, 1]), Scenery::ForwardWedge);
    assert_eq!(map.get([0, 2]), Scenery::BackwardWedge);
    assert_eq!(map.get([0, 3]), Scenery::Trampoline);
    assert_eq!(map.get([1, 0]), Scenery::Safety);
    assert_eq!(map.get([1, 1]), Scenery::BackwardBoost);
    assert_eq!(map.get([1, 2]), Scenery::ForwardBoost);
    assert_eq!(map.get([1, 3]), Scenery::Empty);
}

#[test]
fn parse_unknown_characters_become_empty() {
    let map = grid_of("ab\nc!\n");
    for y in 0..2usize {
        for x in 0..2usize {
            assert_eq!(map.get([y, x]), Scenery::Empty);
        }
    }
}

#[test]
fn parse_without_trailing_newline() {
    let map = grid_of("##\n  ");
    assert_eq!(map.dimensions, [2, 2]);
    assert_eq!(map.get([0, 1]), Scenery::Block);
    assert_eq!(map.get([1, 1]), Scenery::Empty);
}

#[test]
fn parse_first_line_fixes_width() {
    // Shorter lines are padded with Empty, longer ones cut.
    let map = grid_of("##\n#\n####\n");
    assert_eq!(map.dimensions, [3, 2]);
    assert_eq!(map.get([1, 0]), Scenery::Block);
    assert_eq!(map.get([1, 1]), Scenery::Empty);
    assert_eq!(map.get([2, 1]), Scenery::Block);
}

#[test]
fn parse_rejects_degenerate_layouts() {
    assert!(Grid::new("").is_none());
    assert!(Grid::new("\n##\n").is_none());
    assert!(Grid::new("#\n").is_some());
    assert!(MAX_DIM > 1000);
}

#[test]
fn render_writes_glyphs_and_row_escapes() {
    let map = grid_of("#@\n/ \n");
    assert_eq!(map.to_string(), "#@\\n/ \\n");
}

#[test]
fn render_then_parse_round_trips() {
    // The saved form escapes row ends as the two characters \ n; undoing
    // that escape and parsing again gives back the same grid.
    let layout = "#/\\@\nX>< \n @# \n";
    let map = grid_of(layout);
    let saved = map.to_string();
    let reread = saved.replace("\\n", "\n");
    let map2 = grid_of(&reread);
    assert_eq!(map2.dimensions, map.dimensions);
    for y in 0..3usize {
        for x in 0..4usize {
            assert_eq!(map2.get([y, x]), map.get([y, x]));
        }
    }
}

#[test]
fn update_places_only_on_empty() {
    let mut map = grid_of(" #\n  \n");
    assert!(map.update(&[0, 0], Scenery::Trampoline));
    assert_eq!(map.get([0, 0]), Scenery::Trampoline);
    // Occupied: rejected, unchanged.
    assert!(!map.update(&[0, 1], Scenery::Trampoline));
    assert_eq!(map.get([0, 1]), Scenery::Block);
    assert!(!map.update(&[0, 0], Scenery::Safety));
    assert_eq!(map.get([0, 0]), Scenery::Trampoline);
}

#[test]
fn overide_always_overwrites() {
    let mut map = grid_of("##\n##\n");
    map.overide(&[1, 0], Scenery::Empty);
    assert_eq!(map.get([1, 0]), Scenery::Empty);
    assert_eq!(map.get([0, 0]), Scenery::Block);
    map.overide(&[1, 0], Scenery::Safety);
    assert_eq!(map.get([1, 0]), Scenery::Safety);
}

#[test]
fn decrab_clears_exactly_the_markers() {
    let mut map = grid_of("  \n# \n");
    let crabs = Entities::new(vec![[0, 1], [1, 1]], vec![[0, 0], [0, 0]]);
    assert!(map.instantaneous(&crabs));
    assert_eq!(map.get([0, 1]), Scenery::StationaryCrab);
    assert_eq!(map.get([1, 1]), Scenery::StationaryCrab);
    map.decrab();
    assert_eq!(map.get([0, 1]), Scenery::Empty);
    assert_eq!(map.get([1, 1]), Scenery::Empty);
    assert_eq!(map.get([1, 0]), Scenery::Block);
}

#[test]
fn instantaneous_reports_taken_cells() {
    let mut map = grid_of("# \n  \n");
    let crabs = Entities::new(vec![[0, 0]], vec![[0, 0]]);
    assert!(!map.instantaneous(&crabs));
}

#[test]
fn scenery_glyphs_round_trip() {
    let all = [
        (Scenery::Block, '#'),
        (Scenery::ForwardWedge, '/'),
        (Scenery::BackwardWedge, '\\'),
        (Scenery::ForwardBoost, '>'),
        (Scenery::BackwardBoost, '<'),
        (Scenery::Trampoline, '@'),
        (Scenery::Safety, 'X'),
    ];
    for (tile, glyph) in all {
        assert_eq!(tile.to_char(), glyph);
        assert_eq!(Scenery::new(glyph), tile);
    }
    assert_eq!(Scenery::Empty.to_char(), ' ');
    assert_eq!(Scenery::new(' '), Scenery::Empty);
    assert_eq!(Scenery::new('q'), Scenery::Empty);
    assert_eq!(Scenery::StationaryCrab.to_char(), '.');
    // The marker glyph is not in the loading table: a saved crab marker
    // does not come back as scenery.
    assert_eq!(Scenery::new('.'), Scenery::Empty);
}
