//! The per-tick movement simulation: gravity, rebound, wedges, trampolines,
//! safety and the tick orchestration.

use crabs::crab::Crab;
use crabs::entities::Entities;
use crabs::grid::Grid;
use crabs::scenery::Scenery;
use crabs::VMAX;

fn grid_of(layout: &str) -> Grid {
    Grid::new(layout).expect("layout must parse")
}

#[test]
fn gravity_accumulates_one_per_substep_until_vmax() {
    // A grid whose every cell is empty: under toroidal wrap the crab falls
    // forever. Per tick the vertical phase runs max(1, |velocity.row|)
    // sub-steps, each adding exactly 1 until VMAX.
    let layout = "   \n   \n   \n   \n   \n   \n   \n   \n   \n   \n   \n   \n";
    let mut map = grid_of(layout);
    let mut crab = Crab::new([0, 0], [0, 0]);
    let expected = [1isize, 2, 4, 8, 10, 10];
    for want in expected {
        let safe = crab.advance(&mut map);
        assert!(!safe);
        assert_eq!(crab.velocity[0], want);
        assert_eq!(crab.velocity[1], 0);
    }
    assert_eq!(crab.velocity[0], VMAX);
}

#[test]
fn block_rebound_reverses_horizontal_velocity_in_place() {
    // Moving right into a Block: the horizontal velocity flips sign and the
    // position does not change that phase; the vertical phase then lands the
    // crab on the floor below.
    let layout = " # \n###\n";
    let mut map = grid_of(layout);
    let mut crab = Crab::new([0, 0], [0, 1]);
    let safe = crab.advance(&mut map);
    assert!(!safe);
    assert_eq!(crab.position, [0, 0]);
    assert_eq!(crab.velocity, [0, -1]);
}

#[test]
fn ceiling_rebound_reverses_upward_velocity() {
    // Moving up into a Block reverses the vertical velocity.
    let layout = "###\n   \n###\n";
    let mut map = grid_of(layout);
    let mut crab = Crab::new([1, 0], [-2, 0]);
    let safe = crab.advance(&mut map);
    assert!(!safe);
    assert_eq!(crab.position, [1, 0]);
    assert_eq!(crab.velocity, [1, 0]);
}

#[test]
fn landing_zeroes_downward_velocity() {
    // Falling onto a Block stops the fall: velocity.row becomes 0.
    let layout = "   \n###\n";
    let mut map = grid_of(layout);
    let mut crab = Crab::new([0, 1], [1, 0]);
    let safe = crab.advance(&mut map);
    assert!(!safe);
    assert_eq!(crab.position, [0, 1]);
    assert_eq!(crab.velocity, [0, 0]);
}

#[test]
fn forward_wedge_climbs_when_moving_right() {
    // A crab moving right into a ForwardWedge with free air above climbs one
    // row and continues; it ends resting on top of the wedge.
    let layout = "    \n  / \n";
    let mut map = grid_of(layout);
    let mut crab = Crab::new([1, 1], [0, 1]);
    let safe = crab.advance(&mut map);
    assert!(!safe);
    assert_eq!(crab.position, [0, 2]);
    assert_eq!(crab.velocity, [0, 1]);
}

#[test]
fn backward_wedge_rebounds_when_moving_right() {
    // The same approach against a BackwardWedge is not climbable: rebound.
    let layout = "    \n  \\ \n####\n";
    let mut map = grid_of(layout);
    let mut crab = Crab::new([1, 1], [0, 1]);
    let safe = crab.advance(&mut map);
    assert!(!safe);
    assert_eq!(crab.position, [1, 1]);
    assert_eq!(crab.velocity, [0, -1]);
}

#[test]
fn backward_wedge_climbs_when_moving_left() {
    // Moving left into a BackwardWedge climbs, mirror to the forward case.
    let layout = "    \n \\  \n";
    let mut map = grid_of(layout);
    let mut crab = Crab::new([1, 2], [0, -1]);
    let safe = crab.advance(&mut map);
    assert!(!safe);
    assert_eq!(crab.position, [0, 1]);
    assert_eq!(crab.velocity, [0, -1]);
}

#[test]
fn blocked_climb_rebounds() {
    // A ForwardWedge whose air above the crab is blocked: the climb probe
    // does not change the row, so the crab rebounds.
    let layout = "#  \n / \n";
    let mut map = grid_of(layout);
    let mut crab = Crab::new([1, 0], [0, 1]);
    let safe = crab.advance(&mut map);
    assert!(!safe);
    assert_eq!(crab.position, [1, 0]);
    assert_eq!(crab.velocity, [0, -1]);
}

#[test]
fn endless_staircase_rebounds_after_one_wrap() {
    // Wedges forming an endless toroidal staircase: the climb budget of one
    // full column wrap runs out and the crab rebounds instead of climbing
    // forever.
    let layout = " /\n /\n";
    let mut map = grid_of(layout);
    let mut crab = Crab::new([0, 0], [0, 1]);
    let safe = crab.advance(&mut map);
    assert!(!safe);
    assert_eq!(crab.velocity[1], -1);
}

#[test]
fn trampoline_launches_upward_at_terminal_velocity() {
    // A crab at (4,4) moving down into a Trampoline at (5,4): velocity.row
    // becomes -VMAX and the position stays at (4,4) that tick.
    let mut rows = String::new();
    for r in 0..8 {
        if r == 5 {
            rows.push_str("    @   \n");
        } else {
            rows.push_str("        \n");
        }
    }
    let mut map = grid_of(&rows);
    let mut crabs = Entities::new(vec![[4, 4]], vec![[1, 0]]);
    let mut complete = false;
    let ok = crabs.evolve(&mut map, &mut complete);
    assert!(ok);
    assert!(!complete);
    assert_eq!(crabs.collection.len(), 1);
    assert_eq!(crabs.collection[0].position, [4, 4]);
    assert_eq!(crabs.collection[0].velocity, [-VMAX, 0]);
}

#[test]
fn gap_fall_is_unobstructed() {
    // Two rows, a floor with a two-wide gap at columns 4 and 5: an entity
    // drifting right from (0,4) meets no obstacle, reaches row 1 through
    // the gap, and carries exactly one gravity increment.
    let layout = "          \n####  ####\n";
    let mut map = grid_of(layout);
    let mut crabs = Entities::new(vec![[0, 4]], vec![[0, 1]]);
    let mut complete = false;
    let ok = crabs.evolve(&mut map, &mut complete);
    assert!(ok);
    assert_eq!(crabs.collection.len(), 1);
    assert_eq!(crabs.collection[0].position[0], 1);
    assert_eq!(crabs.collection[0].velocity[0], 1);
    assert_eq!(crabs.collection[0].velocity[1], 1);
}

#[test]
fn safety_removes_crab_and_completes_level() {
    // Safety at (3,3), entity at (3,2) with velocity (0,1): after one tick
    // the entity is removed and, being the last one, the level completes.
    let layout = "     \n     \n     \n   X \n     \n";
    let mut map = grid_of(layout);
    let mut crabs = Entities::new(vec![[3, 2]], vec![[0, 1]]);
    let mut complete = false;
    let ok = crabs.evolve(&mut map, &mut complete);
    assert!(ok);
    assert!(complete);
    assert_eq!(crabs.collection.len(), 0);
}

#[test]
fn safety_below_removes_falling_crab() {
    // The vertical cell ahead holds Safety: the crab is removed that tick.
    let layout = "     \n     \n     \n   X \n     \n";
    let mut map = grid_of(layout);
    let mut crabs = Entities::new(vec![[2, 3]], vec![[1, 0]]);
    let mut complete = false;
    let ok = crabs.evolve(&mut map, &mut complete);
    assert!(ok);
    assert!(complete);
    assert_eq!(crabs.collection.len(), 0);
}

#[test]
fn safety_leaves_other_crabs_playing() {
    // Only the crab that reached safety is removed; the level is not
    // complete while another is live.
    let layout = "      \n   X  \n######\n";
    let mut map = grid_of(layout);
    let mut crabs = Entities::new(vec![[1, 2], [0, 0]], vec![[0, 1], [0, 0]]);
    let mut complete = false;
    let ok = crabs.evolve(&mut map, &mut complete);
    assert!(ok);
    assert!(!complete);
    assert_eq!(crabs.collection.len(), 1);
    assert_eq!(crabs.collection[0].position, [1, 0]);
}

#[test]
fn no_phantom_marker_on_vacated_cells() {
    // After a tick, the only marker a crab leaves is on its final cell; the
    // cells it passed through are empty again.
    let layout = "    \n####\n";
    let mut map = grid_of(layout);
    let mut crab = Crab::new([0, 0], [0, 2]);
    let safe = crab.advance(&mut map);
    assert!(!safe);
    assert_eq!(crab.position, [0, 2]);
    assert_eq!(map.get([0, 0]), Scenery::Empty);
    assert_eq!(map.get([0, 1]), Scenery::Empty);
    assert_eq!(map.get([0, 2]), Scenery::StationaryCrab);
}

#[test]
fn evolve_faults_on_overlapping_crabs() {
    // Two crabs on one cell break the stamping invariant: evolve reports
    // the data-integrity fault and leaves the crabs alone.
    let layout = "   \n   \n";
    let mut map = grid_of(layout);
    let mut crabs = Entities::new(vec![[0, 0], [0, 0]], vec![[0, 0], [0, 0]]);
    let mut complete = false;
    let ok = crabs.evolve(&mut map, &mut complete);
    assert!(!ok);
    assert!(!complete);
    assert_eq!(crabs.collection.len(), 2);
}

#[test]
fn evolve_on_empty_collection_completes() {
    let layout = "   \n   \n";
    let mut map = grid_of(layout);
    let mut crabs = Entities::new(vec![], vec![]);
    let mut complete = false;
    let ok = crabs.evolve(&mut map, &mut complete);
    assert!(ok);
    assert!(complete);
}

#[test]
fn check_in_bounds_detects_stray_positions() {
    let layout = "   \n   \n";
    let map = grid_of(layout);
    let inside = Entities::new(vec![[1, 2]], vec![[0, 0]]);
    assert!(inside.check_in_bounds(&map));
    let outside = Entities::new(vec![[2, 0]], vec![[0, 0]]);
    assert!(!outside.check_in_bounds(&map));
}

#[test]
fn new_crab_clamps_velocity() {
    let crab = Crab::new([3, 4], [100, -100]);
    assert_eq!(crab.position, [3, 4]);
    assert_eq!(crab.velocity, [VMAX, -VMAX]);
}

#[test]
fn entities_new_pairs_up_and_truncates() {
    let crabs = Entities::new(vec![[1, 2], [3, 4], [5, 6]], vec![[0, 1], [1, 0]]);
    assert_eq!(crabs.collection.len(), 2);
    assert_eq!(crabs.collection[0].position, [1, 2]);
    assert_eq!(crabs.collection[0].velocity, [0, 1]);
    assert_eq!(crabs.collection[1].position, [3, 4]);
    assert_eq!(crabs.collection[1].velocity, [1, 0]);
}
