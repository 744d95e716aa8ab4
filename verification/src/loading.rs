//! Stored level data and the plain textual inputs the surrounding program
//! collects: turning a saved level into a live one, parsing the tick-rate
//! override, and pairing up the digit lists of the level editor's prompts.

use vstd::prelude::*;
use vstd::string::StrSliceExecFns;

use crate::crab::clamp_vel;
use crate::entities::Entities;
use crate::grid::{parse_grid, parse_ok, Grid};

verus! {

/// One stored level: per-crab coordinate lists — `x`/`y` the columns and
/// rows of the starting positions, `vx`/`vy` the column and row parts of
/// the starting velocities, matched up by index — and the layout text.
#[derive(Debug, Clone)]
pub struct LoadedLevel {
    pub x: Vec<u16>,
    pub y: Vec<u16>,
    pub vx: Vec<i16>,
    pub vy: Vec<i16>,
    pub layout: String,
}

impl LoadedLevel {
    /// All four coordinate lists pair up.
    pub open spec fn lists_match(&self) -> bool {
        &&& self.x@.len() == self.y@.len()
        &&& self.vx@.len() == self.vy@.len()
        &&& self.x@.len() == self.vx@.len()
    }

    /// The live level of this stored one, or `None` when the layout text
    /// does not parse. Mismatched coordinate lists give an empty crab
    /// collection — the level loads, but starts solved — rather than
    /// failing the whole level.
    pub fn to_level(&self) -> (r: Option<(Entities, Grid)>)
        ensures
            r is Some <==> parse_ok(self.layout@),
            r is Some ==> ({
                let (crabs, map) = r.unwrap();
                &&& map.wf()
                &&& map.grid() == parse_grid(self.layout@)
                &&& crabs.wf()
                &&& (self.lists_match() ==> crabs.collection@.len() == self.x@.len()
                    && (forall|i: int|
                    0 <= i < self.x@.len() ==> (#[trigger] crabs.collection@[i])@.row
                        == self.y@[i] as int && crabs.collection@[i]@.col == self.x@[i] as int
                        && crabs.collection@[i]@.vrow == clamp_vel(self.vy@[i] as int)
                        && crabs.collection@[i]@.vcol == clamp_vel(self.vx@[i] as int)))
                &&& (!self.lists_match() ==> crabs.collection@.len() == 0)
            }),
    {
        let map = match Grid::new(self.layout.as_str()) {
            Some(m) => m,
            None => {
                return None;
            },
        };

        let mut positions: Vec<[usize; 2]> = Vec::new();
        let mut velocities: Vec<[isize; 2]> = Vec::new();
        if self.x.len() == self.y.len() && self.vx.len() == self.vy.len() && self.x.len()
            == self.vx.len() {
            let mut i: usize = 0;
            while i < self.x.len()
                invariant
                    self.lists_match(),
                    i <= self.x@.len(),
                    positions@.len() == i,
                    velocities@.len() == i,
                    forall|j: int|
                        0 <= j < i ==> (#[trigger] positions@[j])[0] == self.y@[j] as int
                            && positions@[j][1] == self.x@[j] as int,
                    forall|j: int|
                        0 <= j < i ==> (#[trigger] velocities@[j])[0] == self.vy@[j] as int
                            && velocities@[j][1] == self.vx@[j] as int,
                decreases self.x@.len() - i,
            {
                positions.push([self.y[i] as usize, self.x[i] as usize]);
                velocities.push([self.vy[i] as isize, self.vx[i] as isize]);
                i = i + 1;
            }
        }
        let crabs = Entities::new(positions, velocities);
        Some((crabs, map))
    }
}

/// Whether `c` is a decimal digit.
pub open spec fn is_digit(c: char) -> bool {
    48 <= c as u32 <= 57
}

/// The value of a decimal digit.
pub open spec fn digit_val(c: char) -> int {
    c as u32 - 48
}

/// The numeric value of a sequence of decimal digits, most significant
/// first.
pub open spec fn digits_val(s: Seq<char>) -> int
    decreases s.len(),
{
    if s.len() == 0 {
        0
    } else {
        digits_val(s.drop_last()) * 10 + digit_val(s.last())
    }
}

/// Whether `s` is one or more decimal digits and nothing else.
pub open spec fn all_digits(s: Seq<char>) -> bool {
    s.len() >= 1 && forall|i: int| 0 <= i < s.len() ==> is_digit(#[trigger] s[i])
}

/// The value of a digit sequence is never negative.
pub proof fn lemma_digits_val_nonneg(s: Seq<char>)
    requires
        forall|i: int| 0 <= i < s.len() ==> is_digit(#[trigger] s[i]),
    ensures
        digits_val(s) >= 0,
    decreases s.len(),
{
    if s.len() > 0 {
        lemma_digits_val_nonneg(s.drop_last());
    }
}

/// A digit sequence is worth at least any of its prefixes.
pub proof fn lemma_digits_val_prefix(s: Seq<char>, i: int)
    requires
        0 <= i <= s.len(),
        forall|j: int| 0 <= j < s.len() ==> is_digit(#[trigger] s[j]),
    ensures
        digits_val(s) >= digits_val(s.subrange(0, i)),
    decreases s.len() - i,
{
    if i < s.len() {
        lemma_digits_val_prefix(s, i + 1);
        let p1 = s.subrange(0, i + 1);
        assert(p1.drop_last() =~= s.subrange(0, i));
        lemma_digits_val_nonneg(s.subrange(0, i));
        lemma_digits_val_nonneg(p1);
    } else {
        assert(s.subrange(0, i) =~= s);
    }
}

/// Parses a tick-time override: a non-empty string of decimal digits whose
/// value fits in `u64`. Anything else — an empty string, a stray character,
/// a value too large — is rejected.
pub fn parse_tick_millis(s: &str) -> (r: Option<u64>)
    ensures
        r is Some <==> all_digits(s@) && digits_val(s@) <= u64::MAX,
        r is Some ==> r.unwrap() == digits_val(s@),
{
    let n = s.unicode_len();
    if n == 0 {
        return None;
    }
    let mut val: u64 = 0;
    let mut i: usize = 0;
    proof {
        assert(s@.subrange(0, 0) =~= Seq::<char>::empty());
    }
    while i < n
        invariant
            n == s@.len(),
            i <= n,
            forall|j: int| 0 <= j < i ==> is_digit(#[trigger] s@[j]),
            val == digits_val(s@.subrange(0, i as int)),
        decreases n - i,
    {
        let c = s.get_char(i);
        let code = c as u32;
        if code < 48 || code > 57 {
            return None;
        }
        let d = (code - 48) as u64;
        let wide: u128 = (val as u128) * 10 + (d as u128);
        let ghost p1 = s@.subrange(0, i as int + 1);
        proof {
            assert(p1.drop_last() =~= s@.subrange(0, i as int));
            assert(p1.last() == s@[i as int]);
        }
        if wide > u64::MAX as u128 {
            proof {
                if all_digits(s@) {
                    lemma_digits_val_prefix(s@, i as int + 1);
                }
            }
            return None;
        }
        val = wide as u64;
        i = i + 1;
    }
    proof {
        assert(s@.subrange(0, n as int) =~= s@);
    }
    Some(val)
}

/// The (row, col) pairs of two digit lists read in step: position `i` of
/// each list contributes a pair exactly when both characters are digits,
/// the first list giving the column and the second the row.
pub open spec fn digit_pairs(xs: Seq<char>, ys: Seq<char>) -> Seq<(int, int)>
    decreases xs.len(),
{
    if xs.len() == 0 || ys.len() == 0 {
        Seq::<(int, int)>::empty()
    } else {
        let rest = digit_pairs(xs.drop_first(), ys.drop_first());
        if is_digit(xs[0]) && is_digit(ys[0]) {
            seq![(digit_val(ys[0]), digit_val(xs[0]))] + rest
        } else {
            rest
        }
    }
}

/// Pairs up two lists of single-digit coordinates — columns in `xs`, rows
/// in `ys` — into (row, col) positions, skipping any position where either
/// character is not a digit.
pub fn parse_position_digits(xs: &str, ys: &str) -> (r: Vec<[usize; 2]>)
    ensures
        r@.len() == digit_pairs(xs@, ys@).len(),
        forall|i: int|
            0 <= i < r@.len() ==> (#[trigger] r@[i])[0] == digit_pairs(xs@, ys@)[i].0 && r@[i][1]
                == digit_pairs(xs@, ys@)[i].1,
    {
        let nx = xs.unicode_len();
        let ny = ys.unicode_len();
        let n = if nx < ny {
            nx
        } else {
            ny
        };
        let ghost pairs = digit_pairs(xs@, ys@);
        proof {
            assert(xs@.subrange(0, nx as int) =~= xs@);
            assert(ys@.subrange(0, ny as int) =~= ys@);
        }
        let mut r: Vec<[usize; 2]> = Vec::new();
        let mut i: usize = 0;
        while i < n
            invariant
                nx == xs@.len(),
                ny == ys@.len(),
                n == (if nx < ny {
                    nx as int
                } else {
                    ny as int
                }),
                i <= n,
                pairs == digit_pairs(xs@, ys@),
                pairs.len() == r@.len() + digit_pairs(
                    xs@.subrange(i as int, nx as int),
                    ys@.subrange(i as int, ny as int),
                ).len(),
                forall|j: int|
                    0 <= j < r@.len() ==> (#[trigger] r@[j])[0] == pairs[j].0 && r@[j][1]
                        == pairs[j].1,
                forall|j: int|
                    r@.len() <= j < pairs.len() ==> pairs[j] == digit_pairs(
                        xs@.subrange(i as int, nx as int),
                        ys@.subrange(i as int, ny as int),
                    )[j - r@.len()],
            decreases n - i,
        {
            let cx = xs.get_char(i);
            let cy = ys.get_char(i);
            proof {
                let sx = xs@.subrange(i as int, nx as int);
                let sy = ys@.subrange(i as int, ny as int);
                assert(sx[0] == xs@[i as int]);
                assert(sy[0] == ys@[i as int]);
                assert(sx.drop_first() =~= xs@.subrange(i as int + 1, nx as int));
                assert(sy.drop_first() =~= ys@.subrange(i as int + 1, ny as int));
            }
            let xcode = cx as u32;
            let ycode = cy as u32;
            if 48 <= xcode && xcode <= 57 && 48 <= ycode && ycode <= 57 {
                r.push([(ycode - 48) as usize, (xcode - 48) as usize]);
            }
            i = i + 1;
        }
        proof {
            if i < nx {
                assert(ys@.subrange(i as int, ny as int) =~= Seq::<char>::empty());
            } else {
                assert(xs@.subrange(i as int, nx as int) =~= Seq::<char>::empty());
            }
        }
        r
    }

/// Pairs up two lists of single-digit velocity components — columns in
/// `xs`, rows in `ys` — into (row, col) velocities, skipping any position
/// where either character is not a digit. Only non-negative single-digit
/// components can be written this way.
pub fn parse_velocity_digits(xs: &str, ys: &str) -> (r: Vec<[isize; 2]>)
    ensures
        r@.len() == digit_pairs(xs@, ys@).len(),
        forall|i: int|
            0 <= i < r@.len() ==> (#[trigger] r@[i])[0] == digit_pairs(xs@, ys@)[i].0 && r@[i][1]
                == digit_pairs(xs@, ys@)[i].1,
    {
        let nx = xs.unicode_len();
        let ny = ys.unicode_len();
        let n = if nx < ny {
            nx
        } else {
            ny
        };
        let ghost pairs = digit_pairs(xs@, ys@);
        proof {
            assert(xs@.subrange(0, nx as int) =~= xs@);
            assert(ys@.subrange(0, ny as int) =~= ys@);
        }
        let mut r: Vec<[isize; 2]> = Vec::new();
        let mut i: usize = 0;
        while i < n
            invariant
                nx == xs@.len(),
                ny == ys@.len(),
                n == (if nx < ny {
                    nx as int
                } else {
                    ny as int
                }),
                i <= n,
                pairs == digit_pairs(xs@, ys@),
                pairs.len() == r@.len() + digit_pairs(
                    xs@.subrange(i as int, nx as int),
                    ys@.subrange(i as int, ny as int),
                ).len(),
                forall|j: int|
                    0 <= j < r@.len() ==> (#[trigger] r@[j])[0] == pairs[j].0 && r@[j][1]
                        == pairs[j].1,
                forall|j: int|
                    r@.len() <= j < pairs.len() ==> pairs[j] == digit_pairs(
                        xs@.subrange(i as int, nx as int),
                        ys@.subrange(i as int, ny as int),
                    )[j - r@.len()],
            decreases n - i,
        {
            let cx = xs.get_char(i);
            let cy = ys.get_char(i);
            proof {
                let sx = xs@.subrange(i as int, nx as int);
                let sy = ys@.subrange(i as int, ny as int);
                assert(sx[0] == xs@[i as int]);
                assert(sy[0] == ys@[i as int]);
                assert(sx.drop_first() =~= xs@.subrange(i as int + 1, nx as int));
                assert(sy.drop_first() =~= ys@.subrange(i as int + 1, ny as int));
            }
            let xcode = cx as u32;
            let ycode = cy as u32;
            if 48 <= xcode && xcode <= 57 && 48 <= ycode && ycode <= 57 {
                r.push([(ycode - 48) as isize, (xcode - 48) as isize]);
            }
            i = i + 1;
        }
        proof {
            if i < nx {
                assert(ys@.subrange(i as int, ny as int) =~= Seq::<char>::empty());
            } else {
                assert(xs@.subrange(i as int, nx as int) =~= Seq::<char>::empty());
            }
        }
        r
    }

} // verus!
