//! The toroidal tile grid: a rectangular mapping from (row, col) to
//! [`Scenery`], with wrap-around coordinate arithmetic, bounded mutation,
//! parsing from a textual layout and rendering back to text.

use vstd::prelude::*;
use vstd::string::{StrSliceExecFns, StringExecFns};

use crate::scenery::{char_of_scenery, scenery_of_char, Scenery};

verus! {

/// The one-character string a tile is rendered as.
fn glyph_str(t: Scenery) -> (r: &'static str)
    ensures
        r@ == seq![char_of_scenery(t)],
{
    match t {
        Scenery::Empty => {
            let r = " ";
            proof {
                reveal_strlit(" ");
                assert(r@ =~= seq![char_of_scenery(t)]);
            }
            r
        },
        Scenery::Block => {
            let r = "#";
            proof {
                reveal_strlit("#");
                assert(r@ =~= seq![char_of_scenery(t)]);
            }
            r
        },
        Scenery::ForwardWedge => {
            let r = "/";
            proof {
                reveal_strlit("/");
                assert(r@ =~= seq![char_of_scenery(t)]);
            }
            r
        },
        Scenery::BackwardWedge => {
            let r = "\\";
            proof {
                reveal_strlit("\\");
                assert(r@ =~= seq![char_of_scenery(t)]);
            }
            r
        },
        Scenery::ForwardBoost => {
            let r = ">";
            proof {
                reveal_strlit(">");
                assert(r@ =~= seq![char_of_scenery(t)]);
            }
            r
        },
        Scenery::BackwardBoost => {
            let r = "<";
            proof {
                reveal_strlit("<");
                assert(r@ =~= seq![char_of_scenery(t)]);
            }
            r
        },
        Scenery::Trampoline => {
            let r = "@";
            proof {
                reveal_strlit("@");
                assert(r@ =~= seq![char_of_scenery(t)]);
            }
            r
        },
        Scenery::Safety => {
            let r = "X";
            proof {
                reveal_strlit("X");
                assert(r@ =~= seq![char_of_scenery(t)]);
            }
            r
        },
        Scenery::StationaryCrab => {
            let r = ".";
            proof {
                reveal_strlit(".");
                assert(r@ =~= seq![char_of_scenery(t)]);
            }
            r
        },
    }
}

/// Largest accepted grid dimension. Keeps the wrap-around arithmetic,
/// which works in `isize`, far away from any overflow.
pub const MAX_DIM: usize = 0x1000_0000;

/// One toroidal coordinate step: position `p` moved by the signed delta `d`
/// on an axis of extent `dim`. A result past either edge re-enters from the
/// opposite edge. For `0 <= p < dim` and `-dim <= d <= dim` the result is
/// again in `[0, dim)`.
pub open spec fn wrap1(p: int, d: int, dim: int) -> int {
    if p + d >= dim {
        p + d - dim
    } else if p + d < 0 {
        p + d + dim
    } else {
        p + d
    }
}

/// Wrapped coordinates stay on the grid.
pub proof fn lemma_wrap_range(p: int, d: int, dim: int)
    requires
        0 <= p < dim,
        -dim <= d <= dim,
    ensures
        0 <= wrap1(p, d, dim) < dim,
{
}

/// Full-loop identity: moving a whole extent along an axis, or not moving at
/// all, returns the original coordinate unchanged.
pub proof fn lemma_wrap_full_loop(p: int, dim: int)
    requires
        0 <= p < dim,
    ensures
        wrap1(p, dim, dim) == p,
        wrap1(p, 0, dim) == p,
{
}

/// The lines of a layout text: the text split at newline characters. A
/// trailing newline ends the last line rather than opening an empty one,
/// so a text with no trailing newline still has its last line counted.
pub open spec fn line_split(s: Seq<char>) -> Seq<Seq<char>>
    decreases s.len(),
{
    if s.len() == 0 {
        Seq::<Seq<char>>::empty()
    } else if s[0] == '\n' {
        seq![Seq::<char>::empty()] + line_split(s.drop_first())
    } else {
        let rest = line_split(s.drop_first());
        if rest.len() == 0 {
            seq![seq![s[0]]]
        } else {
            seq![seq![s[0]] + rest[0]] + rest.drop_first()
        }
    }
}

/// Splitting at the first newline: everything before it is the first line,
/// everything after it splits on its own.
pub proof fn lemma_line_split_at_newline(s: Seq<char>, k: int)
    requires
        0 <= k < s.len(),
        s[k] == '\n',
        forall|j: int| 0 <= j < k ==> s[j] != '\n',
    ensures
        line_split(s) == seq![s.subrange(0, k)] + line_split(s.subrange(k + 1, s.len() as int)),
    decreases s.len(),
{
    if k == 0 {
        assert(s.subrange(0, 0) =~= Seq::<char>::empty());
        assert(s.drop_first() =~= s.subrange(1, s.len() as int));
        assert(line_split(s) =~~= seq![s.subrange(0, k)] + line_split(
            s.subrange(k + 1, s.len() as int),
        ));
    } else {
        let t = s.drop_first();
        assert(forall|j: int| 0 <= j < k - 1 ==> t[j] != '\n');
        lemma_line_split_at_newline(t, k - 1);
        let after = line_split(t.subrange(k, t.len() as int));
        assert(t.subrange(0, k - 1) =~= s.subrange(1, k));
        assert(t.subrange(k, t.len() as int) =~= s.subrange(k + 1, s.len() as int));
        let rest = line_split(t);
        assert(rest == seq![s.subrange(1, k)] + after);
        assert(rest[0] == s.subrange(1, k));
        assert(rest.drop_first() =~= after);
        assert(seq![s[0]] + s.subrange(1, k) =~= s.subrange(0, k));
        assert(line_split(s) =~~= seq![s.subrange(0, k)] + line_split(
            s.subrange(k + 1, s.len() as int),
        ));
    }
}

/// Splitting a text with no newline: the whole text is the only line, and
/// an empty text has no lines at all.
pub proof fn lemma_line_split_no_newline(s: Seq<char>)
    requires
        forall|j: int| 0 <= j < s.len() ==> s[j] != '\n',
    ensures
        line_split(s) == (if s.len() == 0 {
            Seq::<Seq<char>>::empty()
        } else {
            seq![s]
        }),
    decreases s.len(),
{
    if s.len() > 0 {
        let t = s.drop_first();
        lemma_line_split_no_newline(t);
        if s.len() == 1 {
            assert(seq![s[0]] =~= s);
            assert(line_split(s) =~~= seq![s]);
        } else {
            assert(line_split(t) == seq![t]);
            assert(seq![s[0]] + t =~= s);
            assert(line_split(s) =~~= seq![s]);
        }
    }
}

/// One parsed row of the layout: `cols` cells, each from the corresponding
/// character of `line` through the glyph table, and `Empty` past the end of
/// a short line.
pub open spec fn parse_row(line: Seq<char>, cols: int) -> Seq<Scenery> {
    Seq::new(cols as nat, |c: int|
        if c < line.len() {
            scenery_of_char(line[c])
        } else {
            Scenery::Empty
        },
    )
}

/// The parsed grid of a layout text: one row per line, every row as wide as
/// the first line — shorter lines padded with `Empty`, longer ones cut.
pub open spec fn parse_grid(s: Seq<char>) -> Seq<Seq<Scenery>> {
    let ls = line_split(s);
    ls.map_values(|line: Seq<char>| parse_row(line, ls[0].len() as int))
}

/// Whether a layout text makes a grid: at least one line, a non-empty
/// first line, and both extents within `MAX_DIM`.
pub open spec fn parse_ok(s: Seq<char>) -> bool {
    let ls = line_split(s);
    &&& ls.len() >= 1
    &&& ls[0].len() >= 1
    &&& ls.len() <= MAX_DIM
    &&& ls[0].len() <= MAX_DIM
}

/// The rendering of one grid row: each cell's glyph, then the two-character
/// escape `\` `n` that ends a saved row.
pub open spec fn render_row(row: Seq<Scenery>) -> Seq<char>
    decreases row.len(),
{
    if row.len() == 0 {
        seq!['\\', 'n']
    } else {
        seq![char_of_scenery(row[0])] + render_row(row.drop_first())
    }
}

/// The rendering of a whole grid: its rows rendered in order.
pub open spec fn render_grid(g: Seq<Seq<Scenery>>) -> Seq<char>
    decreases g.len(),
{
    if g.len() == 0 {
        Seq::<char>::empty()
    } else {
        render_row(g[0]) + render_grid(g.drop_first())
    }
}

/// The grid `g` with the cell at `(r, c)` replaced by `t`.
pub open spec fn gset(g: Seq<Seq<Scenery>>, r: int, c: int, t: Scenery) -> Seq<Seq<Scenery>> {
    g.update(r, g[r].update(c, t))
}

/// A two-dimensional, toroidal grid of scenery tiles.
#[derive(Debug, Clone)]
pub struct Grid {
    /// `[rows, cols]`, both at least 1.
    pub dimensions: [usize; 2],
    pub layout: Vec<Vec<Scenery>>,
}

impl Grid {
    /// The grid contents, row by row.
    pub open spec fn grid(&self) -> Seq<Seq<Scenery>> {
        Seq::new(self.layout@.len(), |r: int| self.layout@[r]@)
    }

    /// Number of rows.
    pub open spec fn rows(&self) -> int {
        self.dimensions[0] as int
    }

    /// Number of columns.
    pub open spec fn cols(&self) -> int {
        self.dimensions[1] as int
    }

    /// The tile at row `r`, column `c`.
    #[verifier::inline]
    pub open spec fn at(&self, r: int, c: int) -> Scenery {
        self.grid()[r][c]
    }

    /// Well-formedness: the dimensions describe the contents, the grid is
    /// rectangular, and both extents are at least 1 and within `MAX_DIM`.
    pub open spec fn wf(&self) -> bool {
        &&& self.grid().len() == self.rows()
        &&& 1 <= self.rows() <= MAX_DIM
        &&& 1 <= self.cols() <= MAX_DIM
        &&& forall|r: int|
            0 <= r < self.rows() ==> (#[trigger] self.grid()[r]).len() == self.cols()
    }

    /// Parses a rectangular block of characters into a grid: one row per
    /// line, each character a tile through the glyph table. The first line
    /// fixes the width; shorter lines are padded with `Empty`, longer ones
    /// cut. Returns `None` when the text has no line, an empty first line,
    /// or an extent beyond `MAX_DIM`.
    pub fn new(cmap: &str) -> (r: Option<Grid>)
        ensures
            r is Some <==> parse_ok(cmap@),
            r is Some ==> r.unwrap().wf(),
            r is Some ==> r.unwrap().rows() == line_split(cmap@).len(),
            r is Some ==> r.unwrap().cols() == line_split(cmap@)[0].len(),
            r is Some ==> r.unwrap().grid() == parse_grid(cmap@),
    {
        let ghost s = cmap@;
        let ghost ls = line_split(s);
        let n = cmap.unicode_len();

        // Split the text into lines, mapping each character through the
        // glyph table as it goes by.
        let mut raw: Vec<Vec<Scenery>> = Vec::new();
        let ghost mut done: Seq<Seq<char>> = Seq::<Seq<char>>::empty();
        let mut pos: usize = 0;
        proof {
            assert(s.subrange(0, n as int) =~= s);
            assert(Seq::<Seq<char>>::empty() + line_split(s) =~~= line_split(s));
        }
        while pos < n
            invariant
                s == cmap@,
                n == s.len(),
                pos <= n,
                ls == done + line_split(s.subrange(pos as int, n as int)),
                raw@.len() == done.len(),
                forall|r2: int|
                    0 <= r2 < done.len() ==> (#[trigger] raw@[r2])@.len() == done[r2].len(),
                forall|r2: int, c2: int|
                    0 <= r2 < done.len() && 0 <= c2 < done[r2].len() ==> (#[trigger] raw@[r2]@[c2])
                        == scenery_of_char(done[r2][c2]),
            decreases n - pos,
        {
            let ghost done0 = done;
            let mut cur: Vec<Scenery> = Vec::new();
            let mut j = pos;
            while j < n && cmap.get_char(j) != '\n'
                invariant
                    s == cmap@,
                    n == s.len(),
                    pos <= j <= n,
                    forall|t: int| pos <= t < j ==> s[t] != '\n',
                    cur@.len() == j - pos,
                    forall|c2: int|
                        0 <= c2 < cur@.len() ==> (#[trigger] cur@[c2]) == scenery_of_char(
                            s[pos + c2],
                        ),
                decreases n - j,
            {
                let ch = cmap.get_char(j);
                cur.push(Scenery::new(ch));
                j = j + 1;
            }
            // The characters pos..j form one full line: either the text
            // ended, or a newline stands at j.
            let ghost line = s.subrange(pos as int, j as int);
            let ghost suffix = s.subrange(pos as int, n as int);
            proof {
                assert(cur@.len() == line.len());
                assert(forall|c2: int|
                    0 <= c2 < line.len() ==> (#[trigger] cur@[c2]) == scenery_of_char(line[c2]));
                if j < n {
                    assert(suffix[j - pos] == '\n');
                    lemma_line_split_at_newline(suffix, j - pos);
                    assert(suffix.subrange(0, j - pos) =~= line);
                    assert(suffix.subrange(j - pos + 1, suffix.len() as int) =~= s.subrange(
                        j + 1,
                        n as int,
                    ));
                    done = done.push(line);
                    assert(done0 + (seq![line] + line_split(s.subrange(j + 1, n as int))) =~~= done
                        + line_split(s.subrange(j + 1, n as int)));
                } else {
                    lemma_line_split_no_newline(suffix);
                    assert(suffix =~= line);
                    done = done.push(line);
                    assert(s.subrange(n as int, n as int) =~= Seq::<char>::empty());
                    assert(done0 + seq![line] =~~= done + line_split(
                        s.subrange(n as int, n as int),
                    ));
                }
            }
            raw.push(cur);
            pos = if j < n {
                j + 1
            } else {
                n
            };
        }
        proof {
            assert(s.subrange(n as int, n as int) =~= Seq::<char>::empty());
            assert(done + Seq::<Seq<char>>::empty() =~~= done);
            assert(ls == done);
        }

        // Determine the size of the layout; reject degenerate ones.
        let rows = raw.len();
        if rows == 0 {
            return None;
        }
        let cols = raw[0].len();
        if cols == 0 || rows > MAX_DIM || cols > MAX_DIM {
            return None;
        }

        // Normalize every row to the width of the first: pad short rows
        // with empty cells, cut long ones.
        let mut layout: Vec<Vec<Scenery>> = Vec::new();
        let mut r2: usize = 0;
        while r2 < rows
            invariant
                rows == done.len(),
                rows == raw@.len(),
                cols == done[0].len(),
                r2 <= rows,
                layout@.len() == r2,
                forall|t: int| 0 <= t < done.len() ==> (#[trigger] raw@[t])@.len() == done[t].len(),
                forall|t: int, c2: int|
                    0 <= t < done.len() && 0 <= c2 < done[t].len() ==> (#[trigger] raw@[t]@[c2])
                        == scenery_of_char(done[t][c2]),
                forall|t: int|
                    0 <= t < r2 ==> (#[trigger] layout@[t])@ == parse_row(done[t], cols as int),
            decreases rows - r2,
        {
            let rlen = raw[r2].len();
            let mut row_vec: Vec<Scenery> = Vec::new();
            let mut c: usize = 0;
            while c < cols
                invariant
                    r2 < rows,
                    rows == done.len(),
                    rows == raw@.len(),
                    rlen == done[r2 as int].len(),
                    rlen == raw@[r2 as int]@.len(),
                    forall|t: int, c2: int|
                        0 <= t < done.len() && 0 <= c2 < done[t].len() ==> (
                        #[trigger] raw@[t]@[c2]) == scenery_of_char(done[t][c2]),
                    c <= cols,
                    row_vec@.len() == c,
                    forall|c2: int|
                        0 <= c2 < c ==> (#[trigger] row_vec@[c2]) == parse_row(
                            done[r2 as int],
                            cols as int,
                        )[c2],
                decreases cols - c,
            {
                if c < rlen {
                    let t = raw[r2][c];
                    row_vec.push(t);
                } else {
                    row_vec.push(Scenery::Empty);
                }
                c = c + 1;
            }
            proof {
                assert(row_vec@ =~= parse_row(done[r2 as int], cols as int));
            }
            layout.push(row_vec);
            r2 = r2 + 1;
        }

        let g = Grid { dimensions: [rows, cols], layout };
        proof {
            assert(g.grid() =~~= parse_grid(s));
            assert(g.wf());
        }
        Some(g)
    }

    /// Renders the grid back to text: each cell's glyph in row-major order,
    /// each row ended by the two-character escape `\` `n`, ready to stand
    /// inside a saved level's layout string.
    pub fn to_string(&self) -> (r: String)
        requires
            self.wf(),
        ensures
            r@ == render_grid(self.grid()),
    {
        let ghost g = self.grid();
        let mut buffer = String::new();
        let rows = self.dimensions[0];
        let cols = self.dimensions[1];
        proof {
            assert(g.subrange(0, g.len() as int) =~= g);
        }
        let mut y: usize = 0;
        while y < rows
            invariant
                self.wf(),
                rows == self.rows(),
                cols == self.cols(),
                g == self.grid(),
                y <= rows,
                render_grid(g) == buffer@ + render_grid(g.subrange(y as int, g.len() as int)),
            decreases rows - y,
        {
            proof {
                let suffix = g.subrange(y as int, g.len() as int);
                assert(suffix[0] == g[y as int]);
                assert(suffix.drop_first() =~= g.subrange(y as int + 1, g.len() as int));
                assert(g[y as int].subrange(0, cols as int) =~= g[y as int]);
                assert(buffer@ + (render_row(g[y as int]) + render_grid(
                    g.subrange(y as int + 1, g.len() as int),
                )) =~= (buffer@ + render_row(g[y as int].subrange(0, cols as int))) + render_grid(
                    g.subrange(y as int + 1, g.len() as int),
                ));
            }
            let mut x: usize = 0;
            while x < cols
                invariant
                    self.wf(),
                    rows == self.rows(),
                    cols == self.cols(),
                    g == self.grid(),
                    y < rows,
                    x <= cols,
                    render_grid(g) == (buffer@ + render_row(
                        g[y as int].subrange(x as int, cols as int),
                    )) + render_grid(g.subrange(y as int + 1, g.len() as int)),
                decreases cols - x,
            {
                let ghost rowsuf = g[y as int].subrange(x as int, cols as int);
                let ghost buf0 = buffer@;
                let tile = self.get([y, x]);
                buffer.append(glyph_str(tile));
                proof {
                    assert(rowsuf[0] == g[y as int][x as int]);
                    assert(rowsuf.drop_first() =~= g[y as int].subrange(
                        x as int + 1,
                        cols as int,
                    ));
                    assert(buf0 + render_row(rowsuf) =~= buffer@ + render_row(
                        g[y as int].subrange(x as int + 1, cols as int),
                    ));
                }
                x = x + 1;
            }
            let ghost buf1 = buffer@;
            buffer.append("\\n");
            proof {
                reveal_strlit("\\n");
                assert(("\\n")@ =~= seq!['\\', 'n']);
                assert(g[y as int].subrange(cols as int, cols as int) =~= Seq::<Scenery>::empty());
                assert(buf1 + render_row(g[y as int].subrange(cols as int, cols as int)) =~=
                    buffer@);
            }
            y = y + 1;
        }
        proof {
            assert(g.subrange(rows as int, g.len() as int) =~= Seq::<Seq<Scenery>>::empty());
        }
        buffer
    }

    /// The tile at a wrapped-valid position.
    pub fn get(&self, pos: [usize; 2]) -> (t: Scenery)
        requires
            self.wf(),
            pos[0] < self.rows(),
            pos[1] < self.cols(),
        ensures
            t == self.at(pos[0] as int, pos[1] as int),
    {
        self.layout[pos[0]][pos[1]]
    }

    /// Applies a signed `(delta row, delta col)` to an unsigned position under
    /// toroidal arithmetic. This is the sole coordinate-arithmetic primitive;
    /// all movement and cursor logic route through it.
    pub fn wrap(&self, user: &mut [usize; 2], change: [isize; 2])
        requires
            self.wf(),
            old(user)[0] < self.rows(),
            old(user)[1] < self.cols(),
            -self.rows() <= change[0] <= self.rows(),
            -self.cols() <= change[1] <= self.cols(),
        ensures
            final(user)[0] == wrap1(old(user)[0] as int, change[0] as int, self.rows()),
            final(user)[1] == wrap1(old(user)[1] as int, change[1] as int, self.cols()),
    {
        let y = user[0] as isize;
        let x = user[1] as isize;
        let rows = self.dimensions[0] as isize;
        let cols = self.dimensions[1] as isize;

        let ny: isize = if y + change[0] >= rows {
            y + change[0] - rows
        } else if y + change[0] < 0 {
            y + change[0] + rows
        } else {
            y + change[0]
        };
        let nx: isize = if x + change[1] >= cols {
            x + change[1] - cols
        } else if x + change[1] < 0 {
            x + change[1] + cols
        } else {
            x + change[1]
        };

        proof {
            lemma_wrap_range(y as int, change[0] as int, rows as int);
            lemma_wrap_range(x as int, change[1] as int, cols as int);
        }
        *user = [ny as usize, nx as usize];
    }

    /// Unconditionally overwrites the cell at `user`; used to clear an
    /// entity's previous marker before movement.
    pub fn overide(&mut self, user: &[usize; 2], scenery: Scenery)
        requires
            old(self).wf(),
            user[0] < old(self).rows(),
            user[1] < old(self).cols(),
        ensures
            final(self).wf(),
            final(self).dimensions == old(self).dimensions,
            final(self).grid() == gset(
                old(self).grid(),
                user[0] as int,
                user[1] as int,
                scenery,
            ),
    {
        let y = user[0];
        let x = user[1];
        proof {
            assert(self.layout@.len() == self.grid().len());
            assert(self.layout@[y as int]@ == self.grid()[y as int]);
        }
        self.layout[y][x] = scenery;
        proof {
            assert(self.grid() =~= gset(old(self).grid(), y as int, x as int, scenery));
        }
    }

    /// Sets the cell at `user` only if it is currently `Empty`; otherwise
    /// leaves the grid unchanged and reports the placement as blocked.
    /// Returns whether the tile was placed.
    pub fn update(&mut self, user: &[usize; 2], scenery: Scenery) -> (placed: bool)
        requires
            old(self).wf(),
            user[0] < old(self).rows(),
            user[1] < old(self).cols(),
        ensures
            final(self).wf(),
            final(self).dimensions == old(self).dimensions,
            placed == (old(self).at(user[0] as int, user[1] as int) == Scenery::Empty),
            placed ==> final(self).grid() == gset(
                old(self).grid(),
                user[0] as int,
                user[1] as int,
                scenery,
            ),
            !placed ==> final(self).grid() == old(self).grid(),
    {
        let y = user[0];
        let x = user[1];
        proof {
            assert(self.layout@.len() == self.grid().len());
            assert(self.layout@[y as int]@ == self.grid()[y as int]);
        }
        if self.layout[y][x] == Scenery::Empty {
            self.layout[y][x] = scenery;
            proof {
                assert(self.grid() =~= gset(old(self).grid(), y as int, x as int, scenery));
            }
            true
        } else {
            proof {
                assert(self.grid() =~= old(self).grid());
            }
            false
        }
    }

    /// Replaces every `StationaryCrab` marker with `Empty`; called once per
    /// tick before the current entity positions are stamped back on.
    pub fn decrab(&mut self)
        requires
            old(self).wf(),
        ensures
            final(self).wf(),
            final(self).dimensions == old(self).dimensions,
            final(self).grid().len() == old(self).grid().len(),
            forall|r: int, c: int|
                0 <= r < old(self).rows() && 0 <= c < old(self).cols()
                    ==> final(self).at(r, c) == (if old(self).at(r, c)
                        == Scenery::StationaryCrab {
                        Scenery::Empty
                    } else {
                        old(self).at(r, c)
                    }),
    {
        let rows = self.dimensions[0];
        let cols = self.dimensions[1];
        let mut y: usize = 0;
        while y < rows
            invariant
                rows == old(self).rows(),
                cols == old(self).cols(),
                y <= rows,
                self.wf(),
                self.dimensions == old(self).dimensions,
                self.grid().len() == old(self).grid().len(),
                forall|r: int, c: int|
                    0 <= r < y && 0 <= c < cols ==> self.at(r, c) == (if old(
                        self,
                    ).at(r, c) == Scenery::StationaryCrab {
                        Scenery::Empty
                    } else {
                        old(self).at(r, c)
                    }),
                forall|r: int, c: int|
                    y <= r < rows && 0 <= c < cols ==> self.at(r, c) == old(self).at(
                        r,
                        c,
                    ),
            decreases rows - y,
        {
            let mut x: usize = 0;
            while x < cols
                invariant
                    rows == old(self).rows(),
                    cols == old(self).cols(),
                    y < rows,
                    x <= cols,
                    self.wf(),
                    self.dimensions == old(self).dimensions,
                    self.grid().len() == old(self).grid().len(),
                    forall|r: int, c: int|
                        0 <= r < y && 0 <= c < cols ==> self.at(r, c) == (if old(
                            self,
                        ).at(r, c) == Scenery::StationaryCrab {
                            Scenery::Empty
                        } else {
                            old(self).at(r, c)
                        }),
                    forall|c: int|
                        0 <= c < x ==> self.at(y as int, c) == (if old(self).at(
                            y as int,
                            c,
                        ) == Scenery::StationaryCrab {
                            Scenery::Empty
                        } else {
                            old(self).at(y as int, c)
                        }),
                    forall|c: int|
                        x <= c < cols ==> self.at(y as int, c) == old(self).at(
                            y as int,
                            c,
                        ),
                    forall|r: int, c: int|
                        y < r < rows && 0 <= c < cols ==> self.at(r, c) == old(
                            self,
                        ).at(r, c),
                decreases cols - x,
            {
                proof {
                    assert(self.layout@.len() == self.grid().len());
                    assert(self.layout@[y as int]@ == self.grid()[y as int]);
                }
                if self.layout[y][x] == Scenery::StationaryCrab {
                    let ghost prev = self.grid();
                    self.layout[y][x] = Scenery::Empty;
                    proof {
                        assert(self.grid() =~= gset(prev, y as int, x as int, Scenery::Empty));
                    }
                }
                x = x + 1;
            }
            y = y + 1;
        }
    }
}

} // verus!
