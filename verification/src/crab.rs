//! One crab: a position and a velocity, and the per-tick step-resolution
//! algorithm. A tick advances a crab horizontally first and vertically
//! second, one discrete sub-step at a time, resolving collisions, wedge
//! climbs, trampoline launches, gravity, rebound and toroidal wrap.

use vstd::prelude::*;

use crate::grid::{gset, wrap1, Grid};
use crate::scenery::Scenery;
use crate::VMAX;

verus! {

/// The mathematical state of one crab: position and velocity, row before
/// column, as unbounded integers.
pub ghost struct CrabState {
    pub row: int,
    pub col: int,
    pub vrow: int,
    pub vcol: int,
}

/// Number of rows of a grid given as a sequence of rows.
pub open spec fn grows(g: Seq<Seq<Scenery>>) -> int {
    g.len() as int
}

/// Number of columns of a rectangular grid given as a sequence of rows.
pub open spec fn gcols(g: Seq<Seq<Scenery>>) -> int {
    g[0].len() as int
}

/// A rectangular, non-empty grid: what `Grid::wf` guarantees of `Grid::grid`.
pub open spec fn rect(g: Seq<Seq<Scenery>>) -> bool {
    &&& grows(g) >= 1
    &&& gcols(g) >= 1
    &&& forall|r: int| 0 <= r < grows(g) ==> (#[trigger] g[r]).len() == gcols(g)
}

/// The sign of `x`: -1, 0 or 1.
pub open spec fn sgn(x: int) -> int {
    if x > 0 {
        1
    } else if x < 0 {
        -1
    } else {
        0
    }
}

/// One application of gravity: the vertical velocity grows by 1 toward
/// "down" until it reaches terminal velocity, where it stays clamped.
pub open spec fn grav(v: int) -> int {
    if v < VMAX {
        v + 1
    } else {
        v
    }
}

/// `max(1, |v|)`: how many sub-steps a velocity component is worth.
pub open spec fn steps_of(v: int) -> nat {
    if v < 0 {
        (-v) as nat
    } else if v > 0 {
        v as nat
    } else {
        1
    }
}

/// The crab's velocity components are clamped to `[-VMAX, VMAX]`.
pub open spec fn vel_ok(s: CrabState) -> bool {
    &&& -(VMAX as int) <= s.vrow <= VMAX as int
    &&& -(VMAX as int) <= s.vcol <= VMAX as int
}

/// The crab's position refers to a valid cell of `g`.
pub open spec fn pos_ok(s: CrabState, g: Seq<Seq<Scenery>>) -> bool {
    &&& 0 <= s.row < grows(g)
    &&& 0 <= s.col < gcols(g)
}

/// The vertical phase, `n` sub-steps at most. Each sub-step applies gravity,
/// then inspects the next cell along the (updated) vertical direction:
/// `Empty` is moved into; `Trampoline` launches the crab upward at terminal
/// velocity and ends the phase; `Safety` ends the whole tick successfully;
/// anything else rebounds (when moving up) or lands (when moving down) and
/// ends the phase. Returns the crab state after the phase and whether the
/// crab reached safety.
pub open spec fn step_y(s: CrabState, g: Seq<Seq<Scenery>>, n: nat) -> (CrabState, bool)
    decreases n,
{
    if n == 0 {
        (s, false)
    } else {
        let v = grav(s.vrow);
        let nr = wrap1(s.row, sgn(v), grows(g));
        let s1 = CrabState { vrow: v, ..s };
        if g[nr][s.col] == Scenery::Empty {
            step_y(CrabState { row: nr, ..s1 }, g, (n - 1) as nat)
        } else if g[nr][s.col] == Scenery::Trampoline {
            (CrabState { vrow: -(VMAX as int), ..s1 }, false)
        } else if g[nr][s.col] == Scenery::Safety {
            (s1, true)
        } else if v < 0 {
            (CrabState { vrow: -v, ..s1 }, false)
        } else {
            (CrabState { vrow: 0, ..s1 }, false)
        }
    }
}

/// A wedge climb: a single vertical sub-step with the vertical velocity
/// temporarily overridden to -2 (enough to overcome the one gravity
/// increment and move upward), after which the true vertical velocity is
/// restored. Only the row can change; whether it did decides between
/// continuing the horizontal phase and rebounding.
pub open spec fn climb(s: CrabState, g: Seq<Seq<Scenery>>) -> CrabState {
    let probe = step_y(CrabState { vrow: -2, ..s }, g, 1).0;
    CrabState { vrow: s.vrow, ..probe }
}

/// The horizontal phase, `n` sub-steps at most. Each sub-step inspects the
/// next cell along the horizontal direction: `Empty` is moved into; a wedge
/// approached from its climbable side attempts a climb, retrying the same
/// sub-step from the new row if the climb moved the crab and rebounding if
/// it did not; `Safety` ends the whole tick successfully; anything else
/// rebounds (the horizontal velocity flips sign) and ends the phase.
///
/// `climbs` bounds how many consecutive climbs one sub-step may take: a
/// budget of one full column wrap, which a crab can exhaust only on a grid
/// whose wedges form an endless toroidal staircase. There the crab rebounds
/// instead of climbing forever.
pub open spec fn step_x(s: CrabState, g: Seq<Seq<Scenery>>, n: nat, climbs: nat) -> (
    CrabState,
    bool,
)
    decreases n, climbs,
{
    if n == 0 {
        (s, false)
    } else {
        let nc = wrap1(s.col, sgn(s.vcol), gcols(g));
        let t = g[s.row][nc];
        if t == Scenery::Empty {
            step_x(CrabState { col: nc, ..s }, g, (n - 1) as nat, grows(g) as nat)
        } else if (t == Scenery::ForwardWedge && s.vcol > 0) || (t == Scenery::BackwardWedge
            && s.vcol < 0) {
            let s2 = climb(s, g);
            if s2.row == s.row {
                (CrabState { vcol: -s.vcol, ..s }, false)
            } else if climbs > 0 {
                step_x(s2, g, n, (climbs - 1) as nat)
            } else {
                (CrabState { vcol: -s2.vcol, ..s2 }, false)
            }
        } else if t == Scenery::Safety {
            (s, true)
        } else {
            (CrabState { vcol: -s.vcol, ..s }, false)
        }
    }
}

/// One whole tick of one crab on grid `g`: clear the crab's own marker, run
/// the horizontal phase, then (unless safety was reached) the vertical
/// phase, then (unless safety was reached) stamp the marker at the final
/// position. Returns the final crab state, the resulting grid, and whether
/// the crab reached safety.
pub open spec fn advance_crab(s: CrabState, g: Seq<Seq<Scenery>>) -> (
    CrabState,
    Seq<Seq<Scenery>>,
    bool,
) {
    let g0 = gset(g, s.row, s.col, Scenery::Empty);
    let px = step_x(s, g0, steps_of(s.vcol), grows(g0) as nat);
    if px.1 {
        (px.0, g0, true)
    } else {
        let py = step_y(px.0, g0, steps_of(px.0.vrow));
        if py.1 {
            (py.0, g0, true)
        } else {
            (py.0, gset(g0, py.0.row, py.0.col, Scenery::StationaryCrab), false)
        }
    }
}

/// The vertical phase only ever moves the crab into `Empty` cells, so a crab
/// that starts on an `Empty` cell ends the phase on an `Empty` cell.
pub proof fn lemma_step_y_keeps_empty(s: CrabState, g: Seq<Seq<Scenery>>, n: nat)
    requires
        rect(g),
        pos_ok(s, g),
        g[s.row][s.col] == Scenery::Empty,
    ensures
        pos_ok(step_y(s, g, n).0, g),
        g[step_y(s, g, n).0.row][step_y(s, g, n).0.col] == Scenery::Empty,
    decreases n,
{
    if n > 0 {
        let v = grav(s.vrow);
        let nr = wrap1(s.row, sgn(v), grows(g));
        crate::grid::lemma_wrap_range(s.row, sgn(v), grows(g));
        if g[nr][s.col] == Scenery::Empty {
            lemma_step_y_keeps_empty(
                CrabState { row: nr, vrow: v, ..s },
                g,
                (n - 1) as nat,
            );
        }
    }
}

/// The horizontal phase only ever moves the crab into `Empty` cells
/// (including during a wedge climb), so a crab that starts on an `Empty`
/// cell ends the phase on an `Empty` cell.
pub proof fn lemma_step_x_keeps_empty(s: CrabState, g: Seq<Seq<Scenery>>, n: nat, climbs: nat)
    requires
        rect(g),
        pos_ok(s, g),
        g[s.row][s.col] == Scenery::Empty,
    ensures
        pos_ok(step_x(s, g, n, climbs).0, g),
        g[step_x(s, g, n, climbs).0.row][step_x(s, g, n, climbs).0.col] == Scenery::Empty,
    decreases n, climbs,
{
    if n > 0 {
        let nc = wrap1(s.col, sgn(s.vcol), gcols(g));
        crate::grid::lemma_wrap_range(s.col, sgn(s.vcol), gcols(g));
        let t = g[s.row][nc];
        if t == Scenery::Empty {
            lemma_step_x_keeps_empty(
                CrabState { col: nc, ..s },
                g,
                (n - 1) as nat,
                grows(g) as nat,
            );
        } else if (t == Scenery::ForwardWedge && s.vcol > 0) || (t == Scenery::BackwardWedge
            && s.vcol < 0) {
            let probe = CrabState { vrow: -2, ..s };
            lemma_step_y_keeps_empty(probe, g, 1);
            let s2 = climb(s, g);
            if s2.row != s.row && climbs > 0 {
                lemma_step_x_keeps_empty(s2, g, n, (climbs - 1) as nat);
            }
        }
    }
}

/// Gravity monotonicity: during an uninterrupted vertical fall — every cell
/// of the crab's column `Empty` — the vertical velocity grows by exactly 1
/// per sub-step until it reaches `VMAX`, where it stays clamped, and the
/// crab never reaches safety.
pub proof fn lemma_gravity_monotone(s: CrabState, g: Seq<Seq<Scenery>>, n: nat)
    requires
        rect(g),
        pos_ok(s, g),
        s.vrow <= VMAX as int,
        forall|r: int| 0 <= r < grows(g) ==> #[trigger] g[r][s.col] == Scenery::Empty,
    ensures
        step_y(s, g, n).0.vrow == (if s.vrow + n <= VMAX as int {
            s.vrow + n
        } else {
            VMAX as int
        }),
        step_y(s, g, n).0.col == s.col,
        !step_y(s, g, n).1,
    decreases n,
{
    if n > 0 {
        let v = grav(s.vrow);
        let nr = wrap1(s.row, sgn(v), grows(g));
        crate::grid::lemma_wrap_range(s.row, sgn(v), grows(g));
        lemma_gravity_monotone(CrabState { row: nr, vrow: v, ..s }, g, (n - 1) as nat);
    }
}

/// Rebound symmetry: a crab moving horizontally into a `Block` reverses the
/// sign of its horizontal velocity and does not change position that phase.
pub proof fn lemma_block_rebound(s: CrabState, g: Seq<Seq<Scenery>>, n: nat, climbs: nat)
    requires
        n >= 1,
        g[s.row][wrap1(s.col, sgn(s.vcol), gcols(g))] == Scenery::Block,
    ensures
        step_x(s, g, n, climbs) == ((CrabState { vcol: -s.vcol, ..s }), false),
{
}

/// Wedge gating: a crab with positive horizontal velocity rebounds from a
/// `BackwardWedge` without climbing, and attempts a climb at a
/// `ForwardWedge` — continuing the phase from the climbed position when the
/// climb moved it, rebounding in place when the climb was blocked.
pub proof fn lemma_wedge_gating(s: CrabState, g: Seq<Seq<Scenery>>, n: nat, climbs: nat)
    requires
        n >= 1,
        climbs >= 1,
        s.vcol > 0,
    ensures
        g[s.row][wrap1(s.col, sgn(s.vcol), gcols(g))] == Scenery::BackwardWedge ==> step_x(
            s,
            g,
            n,
            climbs,
        ) == ((CrabState { vcol: -s.vcol, ..s }), false),
        g[s.row][wrap1(s.col, sgn(s.vcol), gcols(g))] == Scenery::ForwardWedge && climb(
            s,
            g,
        ).row == s.row ==> step_x(s, g, n, climbs) == ((CrabState { vcol: -s.vcol, ..s }), false),
        g[s.row][wrap1(s.col, sgn(s.vcol), gcols(g))] == Scenery::ForwardWedge && climb(
            s,
            g,
        ).row != s.row ==> step_x(s, g, n, climbs) == step_x(climb(s, g), g, n, (climbs - 1) as nat),
{
}

/// Safety ends the horizontal phase: a crab whose next horizontal cell is
/// `Safety` reports success at once, with its state unchanged.
pub proof fn lemma_safety_x(s: CrabState, g: Seq<Seq<Scenery>>, n: nat, climbs: nat)
    requires
        n >= 1,
        g[s.row][wrap1(s.col, sgn(s.vcol), gcols(g))] == Scenery::Safety,
    ensures
        step_x(s, g, n, climbs) == (s, true),
{
}

/// Safety ends the vertical phase: a crab whose next vertical cell (after
/// the sub-step's gravity increment) is `Safety` reports success at once.
pub proof fn lemma_safety_y(s: CrabState, g: Seq<Seq<Scenery>>, n: nat)
    requires
        n >= 1,
        g[wrap1(s.row, sgn(grav(s.vrow)), grows(g))][s.col] == Scenery::Safety,
    ensures
        step_y(s, g, n) == ((CrabState { vrow: grav(s.vrow), ..s }), true),
{
}

/// A tick keeps only the crabs that did not reach safety; when every crab
/// reached safety, none is kept.
pub proof fn lemma_kept_none_when_all_safe(ps: Seq<(CrabState, bool)>)
    requires
        forall|i: int| 0 <= i < ps.len() ==> (#[trigger] ps[i]).1,
    ensures
        crate::entities::kept_states(ps).len() == 0,
    decreases ps.len(),
{
    if ps.len() > 0 {
        assert(ps[0].1);
        lemma_kept_none_when_all_safe(ps.drop_first());
    }
}

/// No self-collision: one tick of one crab touches at most two cells — the
/// cell the crab started on, which is cleared, and the cell it ends on,
/// which gets the marker when the crab did not reach safety. No cell the
/// crab merely passed through keeps any trace of it.
pub proof fn lemma_advance_no_phantom(s: CrabState, g: Seq<Seq<Scenery>>)
    requires
        rect(g),
        pos_ok(s, g),
    ensures
        forall|r: int, c: int|
            0 <= r < grows(g) && 0 <= c < gcols(g) && !(r == s.row && c == s.col) && !(r
                == advance_crab(s, g).0.row && c == advance_crab(s, g).0.col)
                ==> #[trigger] advance_crab(s, g).1[r][c] == g[r][c],
        !advance_crab(s, g).2 ==> advance_crab(s, g).1[advance_crab(s, g).0.row][advance_crab(
            s,
            g,
        ).0.col] == Scenery::StationaryCrab,
        advance_crab(s, g).2 ==> forall|r: int, c: int|
            0 <= r < grows(g) && 0 <= c < gcols(g) && !(r == s.row && c == s.col)
                ==> #[trigger] advance_crab(s, g).1[r][c] == g[r][c],
{
    let g0 = gset(g, s.row, s.col, Scenery::Empty);
    lemma_step_x_keeps_empty(s, g0, steps_of(s.vcol), grows(g0) as nat);
    let px = step_x(s, g0, steps_of(s.vcol), grows(g0) as nat);
    lemma_step_y_keeps_empty(px.0, g0, steps_of(px.0.vrow));
}

/// One crab: a position on the grid and a velocity, row before column.
#[derive(Debug, Clone, Copy)]
pub struct Crab {
    pub position: [usize; 2],
    pub velocity: [isize; 2],
}

impl View for Crab {
    type V = CrabState;

    open spec fn view(&self) -> CrabState {
        CrabState {
            row: self.position[0] as int,
            col: self.position[1] as int,
            vrow: self.velocity[0] as int,
            vcol: self.velocity[1] as int,
        }
    }
}

/// `v` clamped into `[-VMAX, VMAX]`.
pub open spec fn clamp_vel(v: int) -> int {
    if v < -(VMAX as int) {
        -(VMAX as int)
    } else if v > VMAX as int {
        VMAX as int
    } else {
        v
    }
}

/// The state of a freshly constructed crab: the given position, the given
/// velocity with each component clamped to `[-VMAX, VMAX]`.
pub open spec fn crab_spec(position: [usize; 2], velocity: [isize; 2]) -> CrabState {
    CrabState {
        row: position[0] as int,
        col: position[1] as int,
        vrow: clamp_vel(velocity[0] as int),
        vcol: clamp_vel(velocity[1] as int),
    }
}

impl Crab {
    /// A crab at `position` with `velocity`, each velocity component clamped
    /// to `[-VMAX, VMAX]`.
    pub fn new(position: [usize; 2], velocity: [isize; 2]) -> (r: Self)
        ensures
            r@ == crab_spec(position, velocity),
            vel_ok(r@),
    {
        let vr: isize = if velocity[0] < -VMAX {
            -VMAX
        } else if velocity[0] > VMAX {
            VMAX
        } else {
            velocity[0]
        };
        let vc: isize = if velocity[1] < -VMAX {
            -VMAX
        } else if velocity[1] > VMAX {
            VMAX
        } else {
            velocity[1]
        };
        Crab { position, velocity: [vr, vc] }
    }

    /// The vertical phase of one tick: up to `steps` vertical sub-steps, as
    /// [`step_y`] describes. Returns whether the crab reached safety.
    pub fn advance_one_step_y(&mut self, map: &Grid, steps: usize) -> (safe: bool)
        requires
            map.wf(),
            old(self)@.row < map.rows(),
            old(self)@.col < map.cols(),
            -(VMAX as int) <= old(self)@.vrow <= VMAX as int,
        ensures
            (final(self)@, safe) == step_y(old(self)@, map.grid(), steps as nat),
            final(self)@.row < map.rows(),
            final(self)@.col == old(self)@.col,
            final(self)@.vcol == old(self)@.vcol,
            -(VMAX as int) <= final(self)@.vrow <= VMAX as int,
    {
        let ghost g = map.grid();
        let mut n = steps;
        while n > 0
            invariant_except_break
                map.wf(),
                g == map.grid(),
                self@.row < map.rows(),
                self@.col == old(self)@.col,
                self@.col < map.cols(),
                self@.vcol == old(self)@.vcol,
                -(VMAX as int) <= self@.vrow <= VMAX as int,
                step_y(old(self)@, g, steps as nat) == step_y(self@, g, n as nat),
            ensures
                self@.row < map.rows(),
                self@.col == old(self)@.col,
                self@.vcol == old(self)@.vcol,
                -(VMAX as int) <= self@.vrow <= VMAX as int,
                step_y(old(self)@, g, steps as nat) == (self@, false),
            decreases n,
        {
            let ghost entry = self@;
            // Acceleration due to gravity.
            if self.velocity[0] < VMAX {
                self.velocity[0] = self.velocity[0] + 1;
            }
            proof {
                assert(self@.vrow == grav(entry.vrow));
            }

            // Find the next position along the vertical direction.
            let d: isize = if self.velocity[0] > 0 {
                1
            } else if self.velocity[0] < 0 {
                -1
            } else {
                0
            };
            let mut next = self.position;
            map.wrap(&mut next, [d, 0]);
            proof {
                crate::grid::lemma_wrap_range(entry.row, sgn(grav(entry.vrow)), map.rows());
            }

            match map.get(next) {
                Scenery::Empty => {
                    // Move into empty space.
                    self.position = next;
                    n = n - 1;
                },
                Scenery::Trampoline => {
                    // Launch upward at terminal velocity; the phase ends.
                    self.velocity[0] = -VMAX;
                    break ;
                },
                Scenery::Safety => {
                    // The crab made it to safety.
                    return true;
                },
                _ => {
                    if self.velocity[0] < 0 {
                        // Rebound below the obstacle.
                        self.velocity[0] = -self.velocity[0];
                    } else {
                        // Land on top of the obstacle.
                        self.velocity[0] = 0;
                    }
                    break ;
                },
            }
        }
        false
    }
    /// The horizontal phase of one tick: up to `steps` horizontal sub-steps,
    /// as [`step_x`] describes. Returns whether the crab reached safety.
    pub fn advance_one_step_x(&mut self, map: &Grid, steps: usize) -> (safe: bool)
        requires
            map.wf(),
            old(self)@.row < map.rows(),
            old(self)@.col < map.cols(),
            -(VMAX as int) <= old(self)@.vcol <= VMAX as int,
        ensures
            (final(self)@, safe) == step_x(
                old(self)@,
                map.grid(),
                steps as nat,
                grows(map.grid()) as nat,
            ),
            final(self)@.row < map.rows(),
            final(self)@.col < map.cols(),
            final(self)@.vrow == old(self)@.vrow,
            -(VMAX as int) <= final(self)@.vcol <= VMAX as int,
    {
        let ghost g = map.grid();
        let mut n = steps;
        let mut climbs = map.dimensions[0];
        while n > 0
            invariant_except_break
                map.wf(),
                g == map.grid(),
                self@.row < map.rows(),
                self@.col < map.cols(),
                self@.vrow == old(self)@.vrow,
                -(VMAX as int) <= self@.vcol <= VMAX as int,
                step_x(old(self)@, g, steps as nat, grows(g) as nat) == step_x(
                    self@,
                    g,
                    n as nat,
                    climbs as nat,
                ),
            ensures
                self@.row < map.rows(),
                self@.col < map.cols(),
                self@.vrow == old(self)@.vrow,
                -(VMAX as int) <= self@.vcol <= VMAX as int,
                step_x(old(self)@, g, steps as nat, grows(g) as nat) == (self@, false),
            decreases n, climbs,
        {
            let ghost entry = self@;

            // Find the next position along the horizontal direction.
            let d: isize = if self.velocity[1] > 0 {
                1
            } else if self.velocity[1] < 0 {
                -1
            } else {
                0
            };
            let mut next = self.position;
            map.wrap(&mut next, [0, d]);
            proof {
                crate::grid::lemma_wrap_range(entry.col, sgn(entry.vcol), map.cols());
            }

            let tile = map.get(next);
            let climbable = match tile {
                Scenery::ForwardWedge => self.velocity[1] > 0,
                Scenery::BackwardWedge => self.velocity[1] < 0,
                _ => false,
            };
            if climbable {
                // Attempt to advance up the wedge: a single vertical
                // sub-step with the vertical velocity overridden to
                // overcome gravity, restored afterwards.
                let tmp_vel = self.velocity[0];
                let tmp_row = self.position[0];
                self.velocity[0] = -2;
                self.advance_one_step_y(map, 1);
                self.velocity[0] = tmp_vel;
                proof {
                    assert(self@ == climb(entry, g));
                }
                if self.position[0] == tmp_row {
                    // The climb was blocked from above: rebound.
                    self.velocity[1] = -self.velocity[1];
                    break ;
                } else if climbs > 0 {
                    // The crab climbed: retry the same sub-step from the
                    // new row, without consuming a horizontal step.
                    climbs = climbs - 1;
                } else {
                    // The wedges form an endless toroidal staircase:
                    // rebound instead of climbing forever.
                    self.velocity[1] = -self.velocity[1];
                    break ;
                }
            } else {
                match tile {
                    Scenery::Empty => {
                        // Move into empty space.
                        self.position = next;
                        n = n - 1;
                        climbs = map.dimensions[0];
                    },
                    Scenery::Safety => {
                        // The crab made it to safety.
                        return true;
                    },
                    _ => {
                        // Rebound.
                        self.velocity[1] = -self.velocity[1];
                        break ;
                    },
                }
            }
        }
        false
    }

    /// One whole tick of this crab, as [`advance_crab`] describes: clear the
    /// crab's own marker so its own body never blocks itself, run the
    /// horizontal phase, then the vertical phase, then stamp the marker back
    /// at the final position — unless the crab reached safety, which ends
    /// the tick at once, leaves no marker, and returns true.
    pub fn advance(&mut self, map: &mut Grid) -> (safe: bool)
        requires
            old(map).wf(),
            old(self)@.row < old(map).rows(),
            old(self)@.col < old(map).cols(),
            vel_ok(old(self)@),
        ensures
            final(map).wf(),
            final(map).dimensions == old(map).dimensions,
            (final(self)@, final(map).grid(), safe) == advance_crab(old(self)@, old(map).grid()),
            final(self)@.row < final(map).rows(),
            final(self)@.col < final(map).cols(),
            vel_ok(final(self)@),
    {
        let ghost s0 = self@;
        let ghost g = map.grid();

        // Remove the crab's previous marker from the grid.
        map.overide(&self.position, Scenery::Empty);
        let ghost g0 = map.grid();
        proof {
            assert(rect(g0));
            assert(g0[s0.row][s0.col] == Scenery::Empty);
        }

        // Evaluate the horizontal direction first (no diagonal motion!).
        let vc = self.velocity[1];
        let steps_x: usize = if vc == 0 {
            1
        } else if vc < 0 {
            (-vc) as usize
        } else {
            vc as usize
        };
        proof {
            assert(steps_x as nat == steps_of(s0.vcol));
            lemma_step_x_keeps_empty(s0, g0, steps_of(s0.vcol), grows(g0) as nat);
        }
        let safe_x = self.advance_one_step_x(map, steps_x);
        if safe_x {
            return true;
        }

        // Evaluate the vertical direction.
        let vr = self.velocity[0];
        let steps_y: usize = if vr == 0 {
            1
        } else if vr < 0 {
            (-vr) as usize
        } else {
            vr as usize
        };
        proof {
            lemma_step_y_keeps_empty(self@, g0, steps_of(self@.vrow));
        }
        let safe_y = self.advance_one_step_y(map, steps_y);
        if safe_y {
            return true;
        }

        // Stamp the crab's marker at its final position. The phases only
        // ever move the crab into empty cells, so the placement can never
        // find the cell taken.
        let placed = map.update(&self.position, Scenery::StationaryCrab);
        proof {
            assert(placed);
        }
        false
    }
}

} // verus!
