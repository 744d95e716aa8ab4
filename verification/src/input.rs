//! Applying decoded player commands to the level: cursor movement under
//! toroidal wrap, tile placement, quitting and resetting. Decoding raw key
//! events into these commands is the surrounding program's business; the
//! core never parses raw input.

use vstd::prelude::*;

use crate::grid::{gset, wrap1, Grid};
use crate::scenery::Scenery;

verus! {

/// One decoded player command.
#[derive(Debug, Clone, Copy, PartialEq, Eq, Structural)]
pub enum Command {
    /// Move the cursor one cell left.
    MoveLeft,
    /// Move the cursor one cell right.
    MoveRight,
    /// Move the cursor one cell up.
    MoveUp,
    /// Move the cursor one cell down.
    MoveDown,
    /// Place a tile under the cursor, if the cell is empty.
    Place(Scenery),
    /// Quit the level.
    Quit,
    /// Reset the level to its initial state.
    Reset,
}

/// Applies one player command: the four cursor moves wrap the cursor
/// `user` around the grid edges, `Place` sets the cell under the cursor if
/// it is empty (and is otherwise silently rejected), `Quit` raises the
/// completion flag and `Reset` the reset flag. Nothing else changes.
pub fn user_input(
    command: Command,
    user: &mut [usize; 2],
    complete: &mut bool,
    reset: &mut bool,
    map: &mut Grid,
)
    requires
        old(map).wf(),
        old(user)[0] < old(map).rows(),
        old(user)[1] < old(map).cols(),
    ensures
        final(map).wf(),
        final(map).dimensions == old(map).dimensions,
        final(user)[0] < old(map).rows(),
        final(user)[1] < old(map).cols(),
        command is MoveLeft ==> final(user)[0] == old(user)[0] && final(user)[1] == wrap1(
            old(user)[1] as int,
            -1,
            old(map).cols(),
        ),
        command is MoveRight ==> final(user)[0] == old(user)[0] && final(user)[1] == wrap1(
            old(user)[1] as int,
            1,
            old(map).cols(),
        ),
        command is MoveUp ==> final(user)[1] == old(user)[1] && final(user)[0] == wrap1(
            old(user)[0] as int,
            -1,
            old(map).rows(),
        ),
        command is MoveDown ==> final(user)[1] == old(user)[1] && final(user)[0] == wrap1(
            old(user)[0] as int,
            1,
            old(map).rows(),
        ),
        !(command is MoveLeft || command is MoveRight || command is MoveUp
            || command is MoveDown) ==> *final(user) == *old(user),
        forall|t: Scenery|
            command == Command::Place(t) ==> final(map).grid() == (if old(map).at(
                old(user)[0] as int,
                old(user)[1] as int,
            ) == Scenery::Empty {
                gset(old(map).grid(), old(user)[0] as int, old(user)[1] as int, t)
            } else {
                old(map).grid()
            }),
        !(command is Place) ==> final(map).grid() == old(map).grid(),
        *final(complete) == (*old(complete) || command is Quit),
        *final(reset) == (*old(reset) || command is Reset),
{
    match command {
        // Move the cursor position.
        Command::MoveLeft => {
            map.wrap(user, [0, -1]);
            proof {
                crate::grid::lemma_wrap_range(old(user)[1] as int, -1, map.cols());
            }
        },
        Command::MoveRight => {
            map.wrap(user, [0, 1]);
            proof {
                crate::grid::lemma_wrap_range(old(user)[1] as int, 1, map.cols());
            }
        },
        Command::MoveUp => {
            map.wrap(user, [-1, 0]);
            proof {
                crate::grid::lemma_wrap_range(old(user)[0] as int, -1, map.rows());
            }
        },
        Command::MoveDown => {
            map.wrap(user, [1, 0]);
            proof {
                crate::grid::lemma_wrap_range(old(user)[0] as int, 1, map.rows());
            }
        },
        // Insert new scenery; if something is already there, the placement
        // is silently rejected.
        Command::Place(tile) => {
            let user_now: [usize; 2] = [user[0], user[1]];
            map.update(&user_now, tile);
        },
        // Quit the level.
        Command::Quit => {
            *complete = true;
        },
        // Reset the level.
        Command::Reset => {
            *reset = true;
        },
    }
}

} // verus!
