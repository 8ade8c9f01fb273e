//! Program memory: a fixed-size two-dimensional grid of integer cells, with
//! bounded addressing for the `g` and `p` instructions and toroidal
//! (wraparound) movement for the instruction pointer.
//!
//! Source text is loaded by splitting it into lines on `\n`; short lines are
//! right-padded with spaces and missing rows are filled with blank rows.  A
//! program with too many rows, an over-long line, or a non-ASCII byte is
//! rejected at load time with a diagnostic that carries the part already
//! read and the unread remainder.

use crate::bytes::bytes_range;
use vstd::prelude::*;

verus! {

/// Number of columns of program memory.
pub const GRID_WIDTH: usize = 80;

/// Number of rows of program memory.
pub const GRID_HEIGHT: usize = 25;

/// A direction of instruction-pointer movement.
#[derive(Clone, Copy, PartialEq, Eq, Structural, Debug)]
pub enum Direction {
    Right,
    Left,
    Up,
    Down,
}

/// An instruction-pointer position: column `x`, row `y`, always in bounds.
#[derive(Clone, Copy, PartialEq, Eq, Structural, Debug)]
pub struct Position {
    pub x: usize,
    pub y: usize,
}

impl Position {
    /// The position lies within the grid.
    pub open spec fn wf(self) -> bool {
        self.x < GRID_WIDTH && self.y < GRID_HEIGHT
    }
}

/// The neighbouring position in direction `d`, wrapping at the grid's edges
/// to the opposite edge of the same row or column.
pub open spec fn spec_advance(p: Position, d: Direction) -> Position {
    match d {
        Direction::Right => Position {
            x: if p.x + 1 == GRID_WIDTH {
                0
            } else {
                (p.x + 1) as usize
            },
            y: p.y,
        },
        Direction::Left => Position {
            x: if p.x == 0 {
                (GRID_WIDTH - 1) as usize
            } else {
                (p.x - 1) as usize
            },
            y: p.y,
        },
        Direction::Up => Position {
            x: p.x,
            y: if p.y == 0 {
                (GRID_HEIGHT - 1) as usize
            } else {
                (p.y - 1) as usize
            },
        },
        Direction::Down => Position {
            x: p.x,
            y: if p.y + 1 == GRID_HEIGHT {
                0
            } else {
                (p.y + 1) as usize
            },
        },
    }
}

/// Move one step in direction `d` with wraparound.
pub fn advance(p: Position, d: Direction) -> (r: Position)
    requires
        p.wf(),
    ensures
        r == spec_advance(p, d),
        r.wf(),
{
    match d {
        Direction::Right => Position { x: if p.x + 1 == GRID_WIDTH { 0 } else { p.x + 1 }, y: p.y },
        Direction::Left => Position {
            x: if p.x == 0 {
                GRID_WIDTH - 1
            } else {
                p.x - 1
            },
            y: p.y,
        },
        Direction::Up => Position {
            x: p.x,
            y: if p.y == 0 {
                GRID_HEIGHT - 1
            } else {
                p.y - 1
            },
        },
        Direction::Down => Position {
            x: p.x,
            y: if p.y + 1 == GRID_HEIGHT {
                0
            } else {
                p.y + 1
            },
        },
    }
}

/// Movement is toroidal: stepping right from the last column lands on column
/// 0 of the same row, and stepping up from row 0 lands on the last row of
/// the same column.
pub proof fn lemma_grid_wraparound(p: Position)
    requires
        p.wf(),
    ensures
        p.x == GRID_WIDTH - 1 ==> spec_advance(p, Direction::Right) == (Position { x: 0, y: p.y }),
        p.y == 0 ==> spec_advance(p, Direction::Up) == (Position {
            x: p.x,
            y: (GRID_HEIGHT - 1) as usize,
        }),
{
}

/// Whether `(x, y)` addresses a cell of the grid.  Negative coordinates are
/// always out of bounds; there is no wraparound for `g` and `p`.
pub open spec fn in_bounds(x: i64, y: i64) -> bool {
    0 <= x < GRID_WIDTH && 0 <= y < GRID_HEIGHT
}

/// Cell lookup on the mathematical grid: `Some` cell in bounds, else `None`.
pub open spec fn spec_get(g: Seq<Seq<i64>>, x: i64, y: i64) -> Option<i64> {
    if in_bounds(x, y) {
        Some(g[y as int][x as int])
    } else {
        None
    }
}

/// Cell update on the mathematical grid: in bounds the cell is replaced,
/// out of bounds the grid is unchanged.
pub open spec fn spec_put(g: Seq<Seq<i64>>, x: i64, y: i64, v: i64) -> Seq<Seq<i64>> {
    if in_bounds(x, y) {
        g.update(y as int, g[y as int].update(x as int, v))
    } else {
        g
    }
}

/// A grid shape is well formed when it has exactly the fixed number of rows,
/// each of the fixed width.
pub open spec fn grid_wf(g: Seq<Seq<i64>>) -> bool {
    &&& g.len() == GRID_HEIGHT
    &&& forall|y: int| 0 <= y < g.len() ==> (#[trigger] g[y]).len() == GRID_WIDTH
}

/// Writing a cell in bounds and reading the same cell back yields the value
/// written, and an update never changes the grid's shape.
pub proof fn lemma_put_get_roundtrip(g: Seq<Seq<i64>>, x: i64, y: i64, v: i64)
    requires
        grid_wf(g),
        in_bounds(x, y),
    ensures
        spec_get(spec_put(g, x, y, v), x, y) == Some(v),
        grid_wf(spec_put(g, x, y, v)),
{
}

/// Program memory.
#[derive(Debug)]
pub struct Grid {
    rows: Vec<Vec<i64>>,
}

impl View for Grid {
    type V = Seq<Seq<i64>>;

    closed spec fn view(&self) -> Seq<Seq<i64>> {
        Seq::new(self.rows@.len(), |y: int| self.rows@[y]@)
    }
}

impl Grid {
    /// The grid has its fixed dimensions.
    pub open spec fn wf(&self) -> bool {
        grid_wf(self@)
    }

    /// Read the cell at column `x`, row `y`; `None` out of bounds.
    pub fn get(&self, x: i64, y: i64) -> (r: Option<i64>)
        requires
            self.wf(),
        ensures
            r == spec_get(self@, x, y),
    {
        if 0 <= x && x < GRID_WIDTH as i64 && 0 <= y && y < GRID_HEIGHT as i64 {
            Some(self.rows[y as usize][x as usize])
        } else {
            None
        }
    }

    /// The cell under an in-bounds position.
    pub fn cell_at(&self, p: Position) -> (r: i64)
        requires
            self.wf(),
            p.wf(),
        ensures
            r == self@[p.y as int][p.x as int],
    {
        proof {
            assert(self@[p.y as int] == self.rows@[p.y as int]@);
        }
        self.rows[p.y][p.x]
    }

    /// Write `v` into the cell at column `x`, row `y`; a no-op out of bounds.
    pub fn put(&mut self, x: i64, y: i64, v: i64)
        requires
            old(self).wf(),
        ensures
            final(self).wf(),
            final(self)@ == spec_put(old(self)@, x, y, v),
    {
        if 0 <= x && x < GRID_WIDTH as i64 && 0 <= y && y < GRID_HEIGHT as i64 {
            proof {
                assert(self@[y as int] == self.rows@[y as int]@);
            }
            let row: &mut Vec<i64> = &mut self.rows[y as usize];
            row[x as usize] = v;
            proof {
                assert(self@ =~~= spec_put(old(self)@, x, y, v));
            }
        } else {
            proof {
                assert(self@ =~~= spec_put(old(self)@, x, y, v));
            }
        }
    }
}

/// A load-time failure.  The first two variants carry the lines already
/// read (the over-long line truncated to the grid width) and the unread
/// remainder of the source, for diagnostic reporting.
#[derive(Debug)]
pub enum InitError {
    /// The source has more lines than the grid has rows.
    TooManyRows { read: Vec<Vec<u8>>, rest: Vec<u8> },
    /// A line of the source is longer than the grid is wide.
    TooManyCols { read: Vec<Vec<u8>>, rest: Vec<u8> },
    /// The source holds a byte outside the ASCII range.
    NonAscii { index: usize },
}

/// Index of the first occurrence of `b` in `s` at or after `i`, or `s.len()`.
pub open spec fn find_byte(s: Seq<u8>, b: u8, i: int) -> int
    recommends
        0 <= i <= s.len(),
    decreases s.len() - i,
{
    if i < 0 || i >= s.len() {
        s.len() as int
    } else if s[i] == b {
        i
    } else {
        find_byte(s, b, i + 1)
    }
}

/// Index of the first non-ASCII byte in `s` at or after `i`, or `s.len()`.
pub open spec fn find_non_ascii(s: Seq<u8>, i: int) -> int
    recommends
        0 <= i <= s.len(),
    decreases s.len() - i,
{
    if i < 0 || i >= s.len() {
        s.len() as int
    } else if s[i] >= 128 {
        i
    } else {
        find_non_ascii(s, i + 1)
    }
}

/// The lines of `s`, split on `\n`.  A final `\n` closes the last line
/// without opening a new one.
pub open spec fn split_lines(s: Seq<u8>) -> Seq<Seq<u8>>
    decreases s.len(),
{
    if s.len() == 0 {
        Seq::empty()
    } else {
        let j = find_byte(s, 10, 0);
        if 0 <= j < s.len() {
            seq![s.take(j)] + split_lines(s.skip(j + 1))
        } else {
            seq![s]
        }
    }
}

/// Byte offset in `s` at which line `k` starts.
pub open spec fn line_start(s: Seq<u8>, k: int) -> int
    decreases k,
{
    if k <= 0 {
        0
    } else {
        find_byte(s, 10, line_start(s, k - 1)) + 1
    }
}

/// Index of the first line longer than the grid is wide, or `ls.len()`.
pub open spec fn first_long_line(ls: Seq<Seq<u8>>) -> int
    decreases ls.len(),
{
    if ls.len() == 0 {
        0
    } else if ls[0].len() > GRID_WIDTH {
        0
    } else {
        1 + first_long_line(ls.skip(1))
    }
}

/// The cell that loading puts at column `x`, row `y`: the source byte where
/// the lines cover the position, else a space.
pub open spec fn padded_cell(ls: Seq<Seq<u8>>, x: int, y: int) -> i64 {
    if 0 <= y < ls.len() && 0 <= x < ls[y].len() {
        ls[y][x] as i64
    } else {
        32
    }
}

proof fn lemma_find_byte_props(s: Seq<u8>, b: u8, i: int)
    requires
        0 <= i <= s.len(),
    ensures
        i <= find_byte(s, b, i) <= s.len(),
        find_byte(s, b, i) < s.len() ==> s[find_byte(s, b, i)] == b,
        forall|j: int| i <= j < find_byte(s, b, i) ==> s[j] != b,
    decreases s.len() - i,
{
    if i < s.len() && s[i] != b {
        lemma_find_byte_props(s, b, i + 1);
    }
}

proof fn lemma_find_byte_is(s: Seq<u8>, b: u8, i: int, j: int)
    requires
        0 <= i <= j <= s.len(),
        forall|k: int| i <= k < j ==> s[k] != b,
        j < s.len() ==> s[j] == b,
    ensures
        find_byte(s, b, i) == j,
    decreases j - i,
{
    if i < j {
        lemma_find_byte_is(s, b, i + 1, j);
    }
}

proof fn lemma_find_non_ascii_is(s: Seq<u8>, i: int, j: int)
    requires
        0 <= i <= j <= s.len(),
        forall|k: int| i <= k < j ==> s[k] < 128,
        j < s.len() ==> s[j] >= 128,
    ensures
        find_non_ascii(s, i) == j,
    decreases j - i,
{
    if i < j {
        lemma_find_non_ascii_is(s, i + 1, j);
    }
}

proof fn lemma_find_byte_skip(s: Seq<u8>, b: u8, p: int)
    requires
        0 <= p <= s.len(),
    ensures
        find_byte(s, b, p) == p + find_byte(s.skip(p), b, 0),
{
    let t = s.skip(p);
    lemma_find_byte_props(t, b, 0);
    let f = find_byte(t, b, 0);
    assert forall|k: int| p <= k < p + f implies s[k] != b by {
        assert(t[k - p] != b);
    }
    lemma_find_byte_is(s, b, p, p + f);
}

proof fn lemma_first_long_line_ge(ls: Seq<Seq<u8>>, k: int)
    requires
        0 <= k <= ls.len(),
        forall|i: int| 0 <= i < k ==> (#[trigger] ls[i]).len() <= GRID_WIDTH,
    ensures
        first_long_line(ls) >= k,
    decreases ls.len(),
{
    if ls.len() == 0 {
    } else if ls[0].len() > GRID_WIDTH {
        assert(k == 0);
    } else {
        let k1 = if k > 0 { k - 1 } else { 0 };
        assert forall|i: int| 0 <= i < k1 implies (#[trigger] ls.skip(1)[i]).len()
            <= GRID_WIDTH by {
            assert(ls.skip(1)[i] == ls[i + 1]);
        }
        lemma_first_long_line_ge(ls.skip(1), k1);
    }
}

proof fn lemma_first_long_line_is(ls: Seq<Seq<u8>>, k: int)
    requires
        0 <= k <= ls.len(),
        forall|i: int| 0 <= i < k ==> (#[trigger] ls[i]).len() <= GRID_WIDTH,
        k < ls.len() ==> ls[k].len() > GRID_WIDTH,
    ensures
        first_long_line(ls) == k,
    decreases k, ls.len(),
{
    if ls.len() == 0 {
    } else if k == 0 {
    } else {
        assert(ls[0].len() <= GRID_WIDTH);
        assert forall|i: int| 0 <= i < k - 1 implies (#[trigger] ls.skip(1)[i]).len()
            <= GRID_WIDTH by {
            assert(ls.skip(1)[i] == ls[i + 1]);
        }
        if k - 1 < ls.skip(1).len() {
            assert(ls.skip(1)[k - 1] == ls[k]);
        }
        lemma_first_long_line_is(ls.skip(1), k - 1);
    }
}

/// Index of the first `\n` in `src` at or after `from`, or `src.len()`.
fn find_nl(src: &[u8], from: usize) -> (r: usize)
    requires
        from <= src.len(),
    ensures
        r == find_byte(src@, 10, from as int),
        from <= r <= src.len(),
{
    let n = src.len();
    let mut i: usize = from;
    while i < n
        invariant
            from <= i <= n == src.len(),
            forall|j: int| from <= j < i ==> src@[j] != 10,
        decreases n - i,
    {
        if src[i] == 10 {
            proof {
                lemma_find_byte_is(src@, 10, from as int, i as int);
            }
            return i;
        }
        i = i + 1;
    }
    proof {
        lemma_find_byte_is(src@, 10, from as int, n as int);
    }
    n
}

impl Grid {
    /// Load program source into a fresh grid.
    ///
    /// The source is split into lines on `\n`; a final `\n` is allowed.  The
    /// load fails on the first non-ASCII byte, on the first line longer than
    /// the grid is wide, and on more lines than the grid has rows — in that
    /// order of discovery along the text.  Lines are right-padded with
    /// spaces and missing rows filled with blank rows.
    pub fn load(src: &[u8]) -> (r: Result<Grid, InitError>)
        requires
            src.len() < usize::MAX,
        ensures
            ({
                let s = src@;
                let lines = split_lines(s);
                let bad = find_non_ascii(s, 0);
                let long = first_long_line(lines);
                if bad < s.len() {
                    r matches Err(InitError::NonAscii { index }) && index == bad
                } else if long < lines.len() && long < GRID_HEIGHT {
                    r matches Err(InitError::TooManyCols { read, rest })
                        && read.deep_view() == lines.take(long).push(
                        lines[long].take(GRID_WIDTH as int),
                    ) && rest@ == s.skip(line_start(s, long) + GRID_WIDTH)
                } else if lines.len() > GRID_HEIGHT {
                    r matches Err(InitError::TooManyRows { read, rest })
                        && read.deep_view() == lines.take(GRID_HEIGHT as int)
                        && rest@ == s.skip(line_start(s, GRID_HEIGHT as int))
                } else {
                    r matches Ok(g) && g.wf() && forall|x: int, y: int|
                        0 <= x < GRID_WIDTH && 0 <= y < GRID_HEIGHT ==> #[trigger] g@[y][x]
                            == padded_cell(lines, x, y)
                }
            }),
    {
        let n = src.len();

        // Reject the first non-ASCII byte.
        let mut i: usize = 0;
        while i < n
            invariant
                i <= n == src.len(),
                forall|j: int| 0 <= j < i ==> src@[j] < 128,
            decreases n - i,
        {
            if src[i] >= 128 {
                proof {
                    lemma_find_non_ascii_is(src@, 0, i as int);
                }
                return Err(InitError::NonAscii { index: i });
            }
            i = i + 1;
        }
        proof {
            lemma_find_non_ascii_is(src@, 0, n as int);
        }

        // Split into lines, checking the limits along the way.
        let ghost all_lines = split_lines(src@);
        let mut lines: Vec<Vec<u8>> = Vec::new();
        let mut p: usize = 0;
        proof {
            assert(src@.skip(0) =~= src@);
            assert(all_lines =~~= lines.deep_view() + split_lines(src@.skip(0)));
        }
        loop
            invariant_except_break
                p <= n == src.len(),
                n < usize::MAX,
                find_non_ascii(src@, 0) == src@.len(),
                all_lines == split_lines(src@),
                all_lines =~~= lines.deep_view() + split_lines(src@.skip(p as int)),
                p == line_start(src@, lines.len() as int),
                lines.len() <= GRID_HEIGHT,
                forall|k: int|
                    0 <= k < lines.len() ==> (#[trigger] lines.deep_view()[k]).len() <= GRID_WIDTH,
            ensures
                all_lines == split_lines(src@),
                lines.deep_view() =~~= all_lines,
                lines.len() <= GRID_HEIGHT,
                forall|k: int|
                    0 <= k < lines.len() ==> (#[trigger] lines.deep_view()[k]).len() <= GRID_WIDTH,
            decreases n - p,
        {
            let ghost t = src@.skip(p as int);
            if p >= n {
                proof {
                    assert(t =~= Seq::<u8>::empty());
                    assert(lines.deep_view() =~~= lines.deep_view() + split_lines(t));
                }
                break;
            }
            // Another line starts here.
            proof {
                lemma_find_byte_skip(src@, 10, p as int);
                lemma_find_byte_props(t, 10, 0);
                assert(split_lines(t).len() >= 1);
            }
            if lines.len() == GRID_HEIGHT {
                proof {
                    assert(all_lines.take(GRID_HEIGHT as int) =~~= lines.deep_view());
                    lemma_first_long_line_ge(all_lines, GRID_HEIGHT as int);
                }
                let rest = bytes_range(src, p, n);
                proof {
                    assert(rest@ =~= src@.skip(line_start(src@, GRID_HEIGHT as int)));
                }
                return Err(InitError::TooManyRows { read: lines, rest });
            }
            let j = find_nl(src, p);
            let ghost f = find_byte(t, 10, 0);
            let ghost line = t.take(f);
            proof {
                assert(j == p + f);
                assert(line =~= src@.subrange(p as int, j as int));
                if f == t.len() {
                    assert(split_lines(t) == seq![t]);
                    assert(t =~= line);
                } else {
                    assert(split_lines(t) == seq![line] + split_lines(t.skip(f + 1)));
                }
                assert(split_lines(t)[0] == line);
                assert(all_lines[lines.len() as int] == line);
            }
            if j - p > GRID_WIDTH {
                let ghost k = lines.len() as int;
                proof {
                    lemma_first_long_line_is(all_lines, k);
                    assert(all_lines.take(k) =~~= lines.deep_view());
                }
                let head = bytes_range(src, p, p + GRID_WIDTH);
                let rest = bytes_range(src, p + GRID_WIDTH, n);
                proof {
                    assert(head@ =~= all_lines[k].take(GRID_WIDTH as int));
                    assert(rest@ =~= src@.skip(line_start(src@, k) + GRID_WIDTH));
                }
                let mut read = lines;
                read.push(head);
                proof {
                    assert(read.deep_view() =~~= all_lines.take(k).push(
                        all_lines[k].take(GRID_WIDTH as int),
                    ));
                }
                return Err(InitError::TooManyCols { read, rest });
            }
            let row = bytes_range(src, p, j);
            let ghost prev = lines.deep_view();
            lines.push(row);
            proof {
                assert(lines.deep_view() =~~= prev.push(row@));
            }
            if j == n {
                // Last line, with no newline after it.
                proof {
                    assert(f == t.len());
                    assert(lines.deep_view() =~~= all_lines);
                }
                break;
            }
            p = j + 1;
            proof {
                assert(src@.skip(p as int) =~= t.skip(f + 1));
                assert(all_lines =~~= lines.deep_view() + split_lines(src@.skip(p as int)));
            }
        }

        // No line is over-long and there are at most as many lines as rows.
        proof {
            lemma_first_long_line_is(all_lines, all_lines.len() as int);
        }

        // Pad into the fixed-size grid.
        let mut rows: Vec<Vec<i64>> = Vec::new();
        let mut y: usize = 0;
        while y < GRID_HEIGHT
            invariant
                y <= GRID_HEIGHT,
                rows@.len() == y,
                lines.deep_view() =~= all_lines,
                forall|yy: int| 0 <= yy < y ==> (#[trigger] rows@[yy]@).len() == GRID_WIDTH,
                forall|yy: int, xx: int|
                    0 <= yy < y && 0 <= xx < GRID_WIDTH ==> #[trigger] rows@[yy]@[xx]
                        == padded_cell(all_lines, xx, yy),
            decreases GRID_HEIGHT - y,
        {
            let mut row: Vec<i64> = Vec::new();
            let mut x: usize = 0;
            while x < GRID_WIDTH
                invariant
                    x <= GRID_WIDTH,
                    y < GRID_HEIGHT,
                    row@.len() == x,
                    lines.deep_view() =~= all_lines,
                    forall|xx: int| 0 <= xx < x ==> row@[xx] == padded_cell(all_lines, xx, y as int),
                decreases GRID_WIDTH - x,
            {
                let v: i64 = if y < lines.len() && x < lines[y].len() {
                    lines[y][x] as i64
                } else {
                    32
                };
                proof {
                    if y < lines.len() {
                        assert(lines.deep_view()[y as int] == lines@[y as int]@);
                    }
                }
                row.push(v);
                x = x + 1;
            }
            rows.push(row);
            y = y + 1;
        }
        let g = Grid { rows };
        proof {
            assert forall|x: int, y: int|
                0 <= x < GRID_WIDTH && 0 <= y < GRID_HEIGHT implies #[trigger] g@[y][x]
                == padded_cell(all_lines, x, y) by {
                assert(g@[y] == rows@[y]@);
            }
            assert(g.wf());
        }
        Ok(g)
    }
}

} // verus!
