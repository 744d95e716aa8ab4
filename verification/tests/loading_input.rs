//! Stored levels, the textual parsers around the game, player commands and
//! the built-in levels.

use crabs::entities::Entities;
use crabs::grid::Grid;
use crabs::input::{user_input, Command};
use crabs::levels::{blank_map, default_levels, level_1, level_2, level_3};
use crabs::loading::{parse_position_digits, parse_tick_millis, parse_velocity_digits, LoadedLevel};
use crabs::scenery::Scenery;

#[test]
fn tick_millis_accepts_plain_digits() {
    assert_eq!(parse_tick_millis("100"), Some(100));
    assert_eq!(parse_tick_millis("0"), Some(0));
    assert_eq!(parse_tick_millis("007"), Some(7));
    assert_eq!(parse_tick_millis("18446744073709551615"), Some(u64::MAX));
}

#[test]
fn tick_millis_rejects_everything_else() {
    assert_eq!(parse_tick_millis(""), None);
    assert_eq!(parse_tick_millis("12a"), None);
    assert_eq!(parse_tick_millis("-5"), None);
    assert_eq!(parse_tick_millis(" 5"), None);
    assert_eq!(parse_tick_millis("18446744073709551616"), None);
}

#[test]
fn position_digits_pair_up_row_then_col() {
    // The first list holds columns, the second rows; pairs come out as
    // (row, col).
    let positions = parse_position_digits("123", "456");
    assert_eq!(positions, vec![[4, 1], [5, 2], [6, 3]]);
}

#[test]
fn position_digits_skip_non_digits_in_step() {
    let positions = parse_position_digits("1x3\n", "45z\n");
    assert_eq!(positions, vec![[4, 1]]);
    let velocities = parse_velocity_digits("19", "20");
    assert_eq!(velocities, vec![[2, 1], [0, 9]]);
    assert_eq!(parse_velocity_digits("123", "4"), vec![[4, 1]]);
    assert_eq!(parse_position_digits("", "123"), Vec::<[usize; 2]>::new());
}

#[test]
fn loaded_level_builds_crabs_and_grid() {
    let level = LoadedLevel {
        x: vec![2, 5],
        y: vec![1, 0],
        vx: vec![1, -1],
        vy: vec![0, 99],
        layout: String::from("        \n########\n"),
    };
    let (crabs, map) = level.to_level().expect("level must load");
    assert_eq!(map.dimensions, [2, 8]);
    assert_eq!(map.get([1, 3]), Scenery::Block);
    assert_eq!(crabs.collection.len(), 2);
    assert_eq!(crabs.collection[0].position, [1, 2]);
    assert_eq!(crabs.collection[0].velocity, [0, 1]);
    assert_eq!(crabs.collection[1].position, [0, 5]);
    // Velocities are clamped on the way in.
    assert_eq!(crabs.collection[1].velocity, [10, -1]);
}

#[test]
fn loaded_level_mismatched_lists_start_solved() {
    let level = LoadedLevel {
        x: vec![2, 5],
        y: vec![1],
        vx: vec![1, 2],
        vy: vec![0, 0],
        layout: String::from("   \n   \n"),
    };
    let (crabs, _map) = level.to_level().expect("level must load");
    assert_eq!(crabs.collection.len(), 0);
}

#[test]
fn loaded_level_bad_layout_is_rejected() {
    let level = LoadedLevel {
        x: vec![],
        y: vec![],
        vx: vec![],
        vy: vec![],
        layout: String::new(),
    };
    assert!(level.to_level().is_none());
}

#[test]
fn cursor_moves_wrap_around_the_grid() {
    let mut map = Grid::new("   \n   \n").unwrap();
    let mut user: [usize; 2] = [0, 0];
    let mut complete = false;
    let mut reset = false;
    user_input(Command::MoveLeft, &mut user, &mut complete, &mut reset, &mut map);
    assert_eq!(user, [0, 2]);
    user_input(Command::MoveUp, &mut user, &mut complete, &mut reset, &mut map);
    assert_eq!(user, [1, 2]);
    user_input(Command::MoveRight, &mut user, &mut complete, &mut reset, &mut map);
    assert_eq!(user, [1, 0]);
    user_input(Command::MoveDown, &mut user, &mut complete, &mut reset, &mut map);
    assert_eq!(user, [0, 0]);
    assert!(!complete);
    assert!(!reset);
}

#[test]
fn place_command_respects_occupied_cells() {
    let mut map = Grid::new(" #\n  \n").unwrap();
    let mut user: [usize; 2] = [0, 0];
    let mut complete = false;
    let mut reset = false;
    user_input(
        Command::Place(Scenery::Trampoline),
        &mut user,
        &mut complete,
        &mut reset,
        &mut map,
    );
    assert_eq!(map.get([0, 0]), Scenery::Trampoline);
    user = [0, 1];
    user_input(
        Command::Place(Scenery::ForwardWedge),
        &mut user,
        &mut complete,
        &mut reset,
        &mut map,
    );
    // Something is already there: silently rejected.
    assert_eq!(map.get([0, 1]), Scenery::Block);
    assert_eq!(user, [0, 1]);
}

#[test]
fn quit_and_reset_raise_their_flags() {
    let mut map = Grid::new(" \n").unwrap();
    let mut user: [usize; 2] = [0, 0];
    let mut complete = false;
    let mut reset = false;
    user_input(Command::Quit, &mut user, &mut complete, &mut reset, &mut map);
    assert!(complete);
    assert!(!reset);
    user_input(Command::Reset, &mut user, &mut complete, &mut reset, &mut map);
    assert!(reset);
}

#[test]
fn default_levels_load_and_play() {
    let levels = default_levels();
    assert_eq!(levels.len(), 3);
    for (crabs, map) in &levels {
        assert_eq!(map.dimensions, [24, 80]);
        assert!(crabs.check_in_bounds(map));
    }
}

#[test]
fn level_1_holds_the_documented_maze() {
    let (crabs, map) = level_1();
    assert_eq!(map.dimensions, [24, 80]);
    assert_eq!(crabs.collection.len(), 2);
    assert_eq!(crabs.collection[0].position, [2, 1]);
    assert_eq!(crabs.collection[0].velocity, [1, 1]);
    assert_eq!(crabs.collection[1].position, [2, 10]);
    assert_eq!(crabs.collection[1].velocity, [1, -1]);
    // The upper shelf has a one-cell gap at column 27.
    assert_eq!(map.get([3, 0]), Scenery::Block);
    assert_eq!(map.get([3, 27]), Scenery::Empty);
    assert_eq!(map.get([3, 28]), Scenery::Block);
    // The safety tile sits at (21, 24), between two posts.
    assert_eq!(map.get([21, 24]), Scenery::Safety);
    assert_eq!(map.get([21, 15]), Scenery::Block);
    assert_eq!(map.get([21, 36]), Scenery::Block);
    // The floor below is solid.
    assert_eq!(map.get([22, 0]), Scenery::Block);
    assert_eq!(map.get([22, 79]), Scenery::Block);
}

#[test]
fn later_levels_start_one_crab_higher_up() {
    let (crabs2, _) = level_2();
    assert_eq!(crabs2.collection.len(), 1);
    assert_eq!(crabs2.collection[0].position, [1, 1]);
    assert_eq!(crabs2.collection[0].velocity, [1, 1]);
    let (crabs3, _) = level_3();
    assert_eq!(crabs3.collection.len(), 1);
    assert_eq!(crabs3.collection[0].position, [1, 1]);
}

#[test]
fn blank_map_is_all_empty() {
    let map = blank_map();
    assert_eq!(map.dimensions, [24, 80]);
    for y in [0usize, 11, 23] {
        for x in [0usize, 40, 79] {
            assert_eq!(map.get([y, x]), Scenery::Empty);
        }
    }
}

#[test]
fn a_default_level_can_be_won_by_editing() {
    // Drop a crab straight onto the safety tile of the built-in maze: the
    // game loop's own calls, tick after tick, end with completion.
    let (_, mut map) = level_1();
    let mut crabs = Entities::new(vec![[4, 24]], vec![[0, 0]]);
    let mut complete = false;
    let mut ticks = 0usize;
    while !complete && ticks < 50 {
        map.decrab();
        assert!(crabs.check_in_bounds(&map));
        assert!(crabs.evolve(&mut map, &mut complete));
        ticks += 1;
    }
    assert!(complete, "the crab should fall onto safety within 50 ticks");
}
