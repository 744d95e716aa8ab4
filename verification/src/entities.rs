//! The collection of all live crabs for a level, and the per-tick
//! orchestration: stamp every crab onto the grid, advance each crab in
//! collection order, remove the crabs that reached safety, and signal level
//! completion once none are left.

use vstd::prelude::*;

use crate::crab::{
    advance_crab, crab_spec, pos_ok, vel_ok, Crab, CrabState,
};
use crate::grid::{gset, Grid};
use crate::scenery::Scenery;

verus! {

/// The crab states of a sequence of crabs.
pub open spec fn views_of(cs: Seq<Crab>) -> Seq<CrabState> {
    cs.map_values(|c: Crab| c@)
}

/// The grid after stamping the crabs of `cs`, in order, each onto its own
/// cell — stopping at the first crab whose cell is not `Empty`.
pub open spec fn stamp_partial(cs: Seq<CrabState>, g: Seq<Seq<Scenery>>) -> Seq<Seq<Scenery>>
    decreases cs.len(),
{
    if cs.len() == 0 {
        g
    } else if g[cs[0].row][cs[0].col] == Scenery::Empty {
        stamp_partial(cs.drop_first(), gset(g, cs[0].row, cs[0].col, Scenery::StationaryCrab))
    } else {
        g
    }
}

/// The grid after stamping the crabs of `cs`, in order, each onto its own
/// cell — or `None` if some crab's cell is not `Empty` by its turn, which
/// means two crabs occupy one cell: a broken invariant.
pub open spec fn stamp_all(cs: Seq<CrabState>, g: Seq<Seq<Scenery>>) -> Option<Seq<Seq<Scenery>>>
    decreases cs.len(),
{
    if cs.len() == 0 {
        Some(g)
    } else if g[cs[0].row][cs[0].col] == Scenery::Empty {
        stamp_all(cs.drop_first(), gset(g, cs[0].row, cs[0].col, Scenery::StationaryCrab))
    } else {
        None
    }
}

/// The crabs of `cs` advanced one after the other, each seeing the grid as
/// the previous one left it. Returns the advanced states paired with
/// whether each crab reached safety, and the final grid.
pub open spec fn advance_all(cs: Seq<CrabState>, g: Seq<Seq<Scenery>>) -> (
    Seq<(CrabState, bool)>,
    Seq<Seq<Scenery>>,
)
    decreases cs.len(),
{
    if cs.len() == 0 {
        (Seq::<(CrabState, bool)>::empty(), g)
    } else {
        let first = advance_crab(cs[0], g);
        let rest = advance_all(cs.drop_first(), first.1);
        (seq![(first.0, first.2)] + rest.0, rest.1)
    }
}

/// The states of the crabs that did not reach safety, in order.
pub open spec fn kept_states(ps: Seq<(CrabState, bool)>) -> Seq<CrabState>
    decreases ps.len(),
{
    if ps.len() == 0 {
        Seq::<CrabState>::empty()
    } else if ps[0].1 {
        kept_states(ps.drop_first())
    } else {
        seq![ps[0].0] + kept_states(ps.drop_first())
    }
}

/// The ordered collection of all live crabs for a level. The order fixes
/// per-tick evaluation order, first to last.
#[derive(Debug, Clone)]
pub struct Entities {
    pub collection: Vec<Crab>,
}

impl Entities {
    /// The crab states, in collection order.
    pub open spec fn views(&self) -> Seq<CrabState> {
        views_of(self.collection@)
    }

    /// Every crab's velocity is clamped to `[-VMAX, VMAX]`.
    pub open spec fn wf(&self) -> bool {
        forall|i: int| 0 <= i < self.views().len() ==> vel_ok(#[trigger] self.views()[i])
    }

    /// Every crab's position refers to a valid cell of `map`.
    pub open spec fn in_bounds(&self, map: &Grid) -> bool {
        forall|i: int| 0 <= i < self.views().len() ==> pos_ok(#[trigger] self.views()[i], map.grid())
    }

    /// One crab per paired-up position and velocity; a surplus of either
    /// list is dropped. Velocities are clamped to `[-VMAX, VMAX]`.
    pub fn new(positions: Vec<[usize; 2]>, velocities: Vec<[isize; 2]>) -> (r: Self)
        ensures
            r.collection@.len() == (if positions@.len() < velocities@.len() {
                positions@.len()
            } else {
                velocities@.len()
            }),
            forall|i: int|
                0 <= i < r.collection@.len() ==> (#[trigger] r.collection@[i])@ == crab_spec(
                    positions@[i],
                    velocities@[i],
                ),
            r.wf(),
    {
        let k = if positions.len() < velocities.len() {
            positions.len()
        } else {
            velocities.len()
        };
        let mut collection: Vec<Crab> = Vec::new();
        let mut i: usize = 0;
        while i < k
            invariant
                k <= positions@.len(),
                k <= velocities@.len(),
                i <= k,
                collection@.len() == i,
                forall|j: int|
                    0 <= j < i ==> (#[trigger] collection@[j])@ == crab_spec(
                        positions@[j],
                        velocities@[j],
                    ),
                forall|j: int| 0 <= j < i ==> vel_ok((#[trigger] collection@[j])@),
            decreases k - i,
        {
            collection.push(Crab::new(positions[i], velocities[i]));
            i = i + 1;
        }
        let r = Entities { collection };
        proof {
            assert forall|i2: int| 0 <= i2 < r.views().len() implies vel_ok(
                #[trigger] r.views()[i2],
            ) by {
                assert(r.views()[i2] == r.collection@[i2]@);
            }
        }
        r
    }

    /// Whether every crab's position refers to a valid cell of `map`; what
    /// an unverified caller checks before running a tick.
    pub fn check_in_bounds(&self, map: &Grid) -> (r: bool)
        requires
            map.wf(),
        ensures
            r == self.in_bounds(map),
    {
        let mut i: usize = 0;
        while i < self.collection.len()
            invariant
                map.wf(),
                i <= self.collection@.len(),
                forall|j: int| 0 <= j < i ==> pos_ok(#[trigger] self.views()[j], map.grid()),
            decreases self.collection@.len() - i,
        {
            let c = self.collection[i];
            let ok_here = c.position[0] < map.dimensions[0] && c.position[1] < map.dimensions[1];
            proof {
                assert(self.views()[i as int] == self.collection@[i as int]@);
                assert(ok_here == pos_ok(self.views()[i as int], map.grid()));
            }
            if !ok_here {
                return false;
            }
            i = i + 1;
        }
        true
    }

    /// One simulation tick: stamp every live crab's position onto the grid
    /// as a marker, advance the crabs in collection order, remove those that
    /// reached safety, and set `complete` once none are left. Returns false
    /// — a data-integrity fault, two crabs on one cell — if stamping found a
    /// crab's cell already taken; the crabs and `complete` are then left
    /// unchanged.
    pub fn evolve(&mut self, map: &mut Grid, complete: &mut bool) -> (ok: bool)
        requires
            old(map).wf(),
            old(self).wf(),
            old(self).in_bounds(old(map)),
        ensures
            final(map).wf(),
            final(map).dimensions == old(map).dimensions,
            final(self).wf(),
            ok == (stamp_all(old(self).views(), old(map).grid()) is Some),
            !ok ==> final(map).grid() == stamp_partial(old(self).views(), old(map).grid())
                && *final(self) == *old(self) && *final(complete) == *old(complete),
            ok ==> ({
                let stamped = stamp_all(old(self).views(), old(map).grid()).unwrap();
                let outcome = advance_all(old(self).views(), stamped);
                &&& final(map).grid() == outcome.1
                &&& final(self).views() == kept_states(outcome.0)
                &&& final(self).in_bounds(final(map))
                &&& *final(complete) == (if final(self).views().len() == 0 {
                    true
                } else {
                    *old(complete)
                })
            }),
    {
        let ghost all = self.views();

        // Add the position of every crab to the map.
        let ok = map.instantaneous(self);
        if !ok {
            return false;
        }
        let ghost outcome = advance_all(all, map.grid());

        // Advance each crab one after the other, keeping those that did not
        // reach safety.
        let mut kept: Vec<Crab> = Vec::new();
        let mut i: usize = 0;
        proof {
            assert(all.subrange(0, all.len() as int) =~= all);
            assert(views_of(kept@) + kept_states(advance_all(all, map.grid()).0) =~= kept_states(
                outcome.0,
            ));
        }
        while i < self.collection.len()
            invariant
                old(map).wf(),
                old(self).wf(),
                old(self).in_bounds(old(map)),
                map.wf(),
                map.dimensions == old(map).dimensions,
                i <= all.len(),
                all == self.views(),
                self.collection@ == old(self).collection@,
                outcome.1 == advance_all(
                    all.subrange(i as int, all.len() as int),
                    map.grid(),
                ).1,
                kept_states(outcome.0) == views_of(kept@) + kept_states(
                    advance_all(all.subrange(i as int, all.len() as int), map.grid()).0,
                ),
                forall|j: int|
                    0 <= j < kept@.len() ==> vel_ok((#[trigger] kept@[j])@) && pos_ok(
                        kept@[j]@,
                        map.grid(),
                    ),
            decreases all.len() - i,
        {
            let ghost rest = all.subrange(i as int, all.len() as int);
            let ghost g_entry = map.grid();
            let ghost kept0 = kept@;
            let mut crab = self.collection[i];
            proof {
                assert(rest[0] == all[i as int]);
                assert(all[i as int] == self.collection@[i as int]@);
                assert(crab@ == all[i as int]);
                assert(vel_ok(crab@));
                assert(pos_ok(crab@, old(map).grid()));
                assert(crab@.row < map.rows() && crab@.col < map.cols());
            }
            let safe = crab.advance(map);
            proof {
                assert(rest.drop_first() =~= all.subrange(i as int + 1, all.len() as int));
                let first = advance_crab(rest[0], g_entry);
                let tail = advance_all(rest.drop_first(), first.1);
                assert(advance_all(rest, g_entry).0 == seq![(first.0, first.2)] + tail.0);
                assert((seq![(first.0, first.2)] + tail.0).drop_first() =~= tail.0);
                assert((crab@, map.grid(), safe) == first);
            }
            if !safe {
                kept.push(crab);
                proof {
                    assert(views_of(kept@) =~= views_of(kept0) + seq![crab@]);
                    let tail0 = advance_all(
                        all.subrange(i as int + 1, all.len() as int),
                        map.grid(),
                    ).0;
                    assert((views_of(kept0) + seq![crab@]) + kept_states(tail0) =~= views_of(
                        kept0,
                    ) + (seq![crab@] + kept_states(tail0)));
                }
            }
            i = i + 1;
        }
        proof {
            assert(all.subrange(all.len() as int, all.len() as int) =~= Seq::<CrabState>::empty());
            assert(views_of(kept@) + kept_states(advance_all(
                Seq::<CrabState>::empty(),
                map.grid(),
            ).0) =~= views_of(kept@));
        }

        // Remove any crabs that made it to safety.
        self.collection = kept;

        // When all crabs are safe, the game is complete.
        if self.collection.len() == 0 {
            *complete = true;
        }
        true
    }
}

impl Grid {
    /// Stamps the current position of every crab onto the grid as a
    /// `StationaryCrab` marker. Returns false — a data-integrity fault, two
    /// crabs on one cell — if some crab's cell is already taken by its turn;
    /// the grid then keeps the markers stamped so far.
    pub fn instantaneous(&mut self, entities: &Entities) -> (ok: bool)
        requires
            old(self).wf(),
            entities.in_bounds(old(self)),
        ensures
            final(self).wf(),
            final(self).dimensions == old(self).dimensions,
            ok == stamp_all(entities.views(), old(self).grid()) is Some,
            final(self).grid() == stamp_partial(entities.views(), old(self).grid()),
            ok ==> Some(final(self).grid()) == stamp_all(entities.views(), old(self).grid()),
    {
        let ghost all = entities.views();
        proof {
            assert(all.subrange(0, all.len() as int) =~= all);
        }
        let mut i: usize = 0;
        while i < entities.collection.len()
            invariant
                old(self).wf(),
                self.wf(),
                self.dimensions == old(self).dimensions,
                i <= all.len(),
                all == entities.views(),
                entities.in_bounds(old(self)),
                stamp_all(all, old(self).grid()) == stamp_all(
                    all.subrange(i as int, all.len() as int),
                    self.grid(),
                ),
                stamp_partial(all, old(self).grid()) == stamp_partial(
                    all.subrange(i as int, all.len() as int),
                    self.grid(),
                ),
            decreases all.len() - i,
        {
            let ghost rest = all.subrange(i as int, all.len() as int);
            let pos = entities.collection[i].position;
            proof {
                assert(all[i as int] == entities.collection@[i as int]@);
                assert(rest[0] == all[i as int]);
                assert(rest.drop_first() =~= all.subrange(i as int + 1, all.len() as int));
                assert(pos_ok(all[i as int], old(self).grid()));
                assert(pos[0] < old(self).rows() && pos[1] < old(self).cols());
            }
            let placed = self.update(&pos, Scenery::StationaryCrab);
            if !placed {
                // Two crabs occupy one cell: a broken invariant.
                proof {
                    assert(stamp_all(rest, self.grid()) is None);
                    assert(stamp_partial(rest, self.grid()) == self.grid());
                }
                return false;
            }
            i = i + 1;
        }
        proof {
            assert(all.subrange(i as int, all.len() as int) =~= Seq::<CrabState>::empty());
        }
        true
    }
}

} // verus!
