//! Level geometry builder.
//!
//! A level is a rectangular character grid: `#` a full block, `L` and `R`
//! the lower-left and lower-right half-block triangles, `S` the unique
//! player spawn cell, and a blank for empty space.  Rows shorter than the
//! widest one count as padded with blanks.  Text row 0 is the topmost
//! line, so the grid is read with the vertical axis flipped: grid row `y`
//! (used everywhere below) is text line `height - 1 - y`.
//!
//! The builder compiles the grid into a triangle list over the shared
//! `(width + 1) x (height + 1)` vertex lattice, so that neighbouring
//! cells share edges exactly, and returns the spawn cell.  The resulting
//! trimesh doubles as the world trigger region the contact classifier
//! tests sides against.

use vstd::prelude::*;
use crate::fixed::lemma_abs_mul_le;

verus! {

/// Largest accepted grid width and height, so every vertex index fits a
/// `u32` and all index arithmetic stays in range.
pub const GRID_LIMIT: usize = 32767;

/// A triangle of the level trimesh, as indices into the shared vertex
/// lattice.
#[derive(Clone, Copy, Debug, PartialEq, Eq, Structural)]
pub struct Tri {
    pub a: u32,
    pub b: u32,
    pub c: u32,
}

/// Why a grid was rejected.
#[derive(Clone, Copy, Debug, PartialEq, Eq, Structural)]
pub enum LevelError {
    /// A cell held a character other than `#`, `L`, `R`, `S` or blank.
    UnknownCell,
    /// No cell held the spawn marker `S`.
    NoSpawn,
    /// More than one cell held the spawn marker `S`.
    MultipleSpawns,
}

/// The compiled level: the trimesh of its filled cells and the spawn
/// cell, in bottom-up grid coordinates.
pub struct Level {
    pub width: usize,
    pub height: usize,
    pub spawn_x: usize,
    pub spawn_y: usize,
    pub triangles: Vec<Tri>,
}

/// The character of grid cell `(x, y)`, counting `y` up from the bottom
/// text line; positions beyond a row's end read as blank.
pub open spec fn cell_at(gs: Seq<Seq<char>>, x: int, y: int) -> char {
    let row = gs[gs.len() - 1 - y];
    if 0 <= x < row.len() {
        row[x]
    } else {
        ' '
    }
}

/// The characters a grid cell may hold.
pub open spec fn known_cell(c: char) -> bool {
    c == '#' || c == 'L' || c == 'R' || c == 'S' || c == ' '
}

/// Every cell of the `w x h` grid holds a known character.
pub open spec fn all_known(gs: Seq<Seq<char>>, w: int, h: int) -> bool {
    forall|x: int, y: int| 0 <= x < w && 0 <= y < h ==> known_cell(cell_at(gs, x, y))
}

/// Index of lattice vertex `(x, y)` in the row-major shared vertex grid
/// of a level `w` cells wide.
pub open spec fn vertex_index(x: int, y: int, w: int) -> int {
    x + y * (w + 1)
}

/// The triangles one cell contributes: two for a full block; for a
/// half block one triangle over the cell's bottom edge, with its third
/// vertex at the top-left corner for `L` (the lower-left half) and at
/// the top-right corner for `R` (the lower-right half); none for a
/// blank or the spawn marker.
pub open spec fn cell_tris(c: char, x: int, y: int, w: int) -> Seq<Tri> {
    if c == '#' {
        seq![
            Tri {
                a: vertex_index(x, y, w) as u32,
                b: vertex_index(x + 1, y, w) as u32,
                c: vertex_index(x, y + 1, w) as u32,
            },
            Tri {
                a: vertex_index(x + 1, y + 1, w) as u32,
                b: vertex_index(x, y + 1, w) as u32,
                c: vertex_index(x + 1, y, w) as u32,
            },
        ]
    } else if c == 'L' {
        seq![
            Tri {
                a: vertex_index(x, y, w) as u32,
                b: vertex_index(x + 1, y, w) as u32,
                c: vertex_index(x, y + 1, w) as u32,
            },
        ]
    } else if c == 'R' {
        seq![
            Tri {
                a: vertex_index(x, y, w) as u32,
                b: vertex_index(x + 1, y, w) as u32,
                c: vertex_index(x + 1, y + 1, w) as u32,
            },
        ]
    } else {
        seq![]
    }
}

/// Triangles of column `x`, rows `0` to `y` excluded, bottom row first.
pub open spec fn col_tris(gs: Seq<Seq<char>>, w: int, x: int, y: int) -> Seq<Tri>
    decreases y,
{
    if y <= 0 {
        seq![]
    } else {
        col_tris(gs, w, x, y - 1) + cell_tris(cell_at(gs, x, y - 1), x, y - 1, w)
    }
}

/// Triangles of columns `0` to `x` excluded, each column whole, leftmost
/// first.
pub open spec fn grid_tris_upto(gs: Seq<Seq<char>>, w: int, h: int, x: int) -> Seq<Tri>
    decreases x,
{
    if x <= 0 {
        seq![]
    } else {
        grid_tris_upto(gs, w, h, x - 1) + col_tris(gs, w, x - 1, h)
    }
}

/// All triangles of the grid, scanned column by column, bottom to top
/// inside a column.
pub open spec fn grid_tris(gs: Seq<Seq<char>>, w: int, h: int) -> Seq<Tri> {
    grid_tris_upto(gs, w, h, w)
}

/// Length of the longest row.
pub open spec fn max_width(gs: Seq<Seq<char>>) -> int
    decreases gs.len(),
{
    if gs.len() == 0 {
        0
    } else {
        let m = max_width(gs.drop_last());
        if gs.last().len() > m {
            gs.last().len() as int
        } else {
            m
        }
    }
}

/// Index of lattice vertex `(x, y)`, in executable form.
pub fn vidx(x: usize, y: usize, w: usize) -> (i: u32)
    requires
        x <= GRID_LIMIT + 1,
        y <= GRID_LIMIT + 1,
        w <= GRID_LIMIT,
    ensures
        i == vertex_index(x as int, y as int, w as int),
{
    proof {
        lemma_abs_mul_le(y as int, (w + 1) as int, 32768, 32768);
    }
    (x + y * (w + 1)) as u32
}

/// Builds the level from a character grid: the trimesh of its filled
/// cells and the unique spawn cell.  An unknown character marks corrupt
/// content: it is reported as an error for the caller to treat as a
/// fatal startup defect, never silently skipped.  Otherwise building
/// fails exactly when the number of `S` cells is not one.
pub fn build_level(grid: &Vec<Vec<char>>) -> (res: Result<Level, LevelError>)
    requires
        grid@.len() <= GRID_LIMIT,
        forall|i: int| 0 <= i < grid@.len() ==> #[trigger] grid@[i]@.len() <= GRID_LIMIT,
    ensures
        ({
            let gs = grid.deep_view();
            let w = max_width(gs);
            let h = gs.len() as int;
            &&& (res is Err && res->Err_0 == LevelError::UnknownCell) <==> !all_known(gs, w, h)
            &&& (res is Err && res->Err_0 == LevelError::NoSpawn) <==> (all_known(gs, w, h)
                && (forall|x: int, y: int| 0 <= x < w && 0 <= y < h ==> cell_at(gs, x, y) != 'S'))
            &&& (res is Err && res->Err_0 == LevelError::MultipleSpawns) <==> (all_known(gs, w, h)
                && (exists|x1: int, y1: int, x2: int, y2: int|
                    0 <= x1 < w && 0 <= y1 < h && 0 <= x2 < w && 0 <= y2 < h
                    && (x1, y1) != (x2, y2)
                    && cell_at(gs, x1, y1) == 'S' && cell_at(gs, x2, y2) == 'S'))
            &&& res is Ok ==> {
                let l = res->Ok_0;
                &&& l.width == w
                &&& l.height == h
                &&& 0 <= l.spawn_x < w && 0 <= l.spawn_y < h
                &&& cell_at(gs, l.spawn_x as int, l.spawn_y as int) == 'S'
                &&& forall|x: int, y: int|
                    0 <= x < w && 0 <= y < h && cell_at(gs, x, y) == 'S'
                        ==> x == l.spawn_x && y == l.spawn_y
                &&& l.triangles@ == grid_tris(gs, w, h)
            }
        }),
{
    let ghost gs = grid.deep_view();
    let h: usize = grid.len();
    let ghost hh = h as int;

    // Longest row.
    let mut w: usize = 0;
    let mut i: usize = 0;
    while i < h
        invariant
            i <= h,
            h == gs.len(),
            gs == grid.deep_view(),
            w == max_width(gs.take(i as int)),
            w <= GRID_LIMIT,
            grid@.len() <= GRID_LIMIT,
            forall|j: int| 0 <= j < grid@.len() ==> #[trigger] grid@[j]@.len() <= GRID_LIMIT,
        decreases h - i,
    {
        let rl: usize = grid[i].len();
        proof {
            assert(gs.take(i + 1).drop_last() =~= gs.take(i as int));
            assert(gs.take(i + 1).last() == gs[i as int]);
            assert(gs[i as int] == grid@[i as int]@);
        }
        if rl > w {
            w = rl;
        }
        i = i + 1;
    }
    proof {
        assert(gs.take(hh) =~= gs);
    }
    let ghost ww = w as int;

    let mut triangles: Vec<Tri> = Vec::new();
    // 0: none seen; 1: exactly one, at (sx, sy); 2: at least two, the
    // first two at (sx, sy) and (tx, ty).
    let mut n_spawns: u8 = 0;
    let mut sx: usize = 0;
    let mut sy: usize = 0;
    let mut tx: usize = 0;
    let mut ty: usize = 0;

    let mut x: usize = 0;
    while x < w
        invariant
            x <= w,
            h == gs.len(),
            gs == grid.deep_view(),
            ww == w as int,
            hh == h as int,
            ww == max_width(gs),
            w <= GRID_LIMIT,
            h <= GRID_LIMIT,
            grid@.len() <= GRID_LIMIT,
            forall|j: int| 0 <= j < grid@.len() ==> #[trigger] grid@[j]@.len() <= GRID_LIMIT,
            triangles@ == grid_tris_upto(gs, ww, hh, x as int),
            forall|xx: int, yy: int|
                0 <= xx < x && 0 <= yy < hh ==> known_cell(#[trigger] cell_at(gs, xx, yy)),
            n_spawns == 0 || n_spawns == 1 || n_spawns == 2,
            n_spawns == 0 ==> forall|xx: int, yy: int|
                0 <= xx < x && 0 <= yy < hh ==> #[trigger] cell_at(gs, xx, yy) != 'S',
            n_spawns == 1 ==> {
                &&& 0 <= sx < ww && 0 <= sy < hh && sx < x
                &&& cell_at(gs, sx as int, sy as int) == 'S'
                &&& forall|xx: int, yy: int|
                    0 <= xx < x && 0 <= yy < hh && #[trigger] cell_at(gs, xx, yy) == 'S'
                        ==> xx == sx && yy == sy
            },
            n_spawns == 2 ==> {
                &&& 0 <= sx < ww && 0 <= sy < hh
                &&& 0 <= tx < ww && 0 <= ty < hh
                &&& (sx, sy) != (tx, ty)
                &&& cell_at(gs, sx as int, sy as int) == 'S'
                &&& cell_at(gs, tx as int, ty as int) == 'S'
            },
        decreases w - x,
    {
        let mut y: usize = 0;
        while y < h
            invariant
                x < w,
                y <= h,
                h == gs.len(),
                gs == grid.deep_view(),
                ww == w as int,
                hh == h as int,
                ww == max_width(gs),
                w <= GRID_LIMIT,
                h <= GRID_LIMIT,
                grid@.len() <= GRID_LIMIT,
                forall|j: int| 0 <= j < grid@.len() ==> #[trigger] grid@[j]@.len() <= GRID_LIMIT,
                triangles@ == grid_tris_upto(gs, ww, hh, x as int) + col_tris(
                    gs,
                    ww,
                    x as int,
                    y as int,
                ),
                forall|xx: int, yy: int|
                    0 <= xx < ww && 0 <= yy < hh && (xx < x || (xx == x && yy < y))
                        ==> known_cell(#[trigger] cell_at(gs, xx, yy)),
                n_spawns == 0 || n_spawns == 1 || n_spawns == 2,
                n_spawns == 0 ==> forall|xx: int, yy: int|
                    0 <= xx < ww && 0 <= yy < hh && (xx < x || (xx == x && yy < y))
                        ==> #[trigger] cell_at(gs, xx, yy) != 'S',
                n_spawns == 1 ==> {
                    &&& 0 <= sx < ww && 0 <= sy < hh
                    &&& (sx < x || (sx == x && sy < y))
                    &&& cell_at(gs, sx as int, sy as int) == 'S'
                    &&& forall|xx: int, yy: int|
                        0 <= xx < ww && 0 <= yy < hh && (xx < x || (xx == x && yy < y))
                            && #[trigger] cell_at(gs, xx, yy) == 'S' ==> xx == sx && yy == sy
                },
                n_spawns == 2 ==> {
                    &&& 0 <= sx < ww && 0 <= sy < hh
                    &&& 0 <= tx < ww && 0 <= ty < hh
                    &&& (sx, sy) != (tx, ty)
                    &&& cell_at(gs, sx as int, sy as int) == 'S'
                    &&& cell_at(gs, tx as int, ty as int) == 'S'
                },
            decreases h - y,
        {
            // The character of cell (x, y): text line h - 1 - y, blank
            // past the row's end.
            let row: &Vec<char> = &grid[h - 1 - y];
            let c: char = if x < row.len() {
                row[x]
            } else {
                ' '
            };
            proof {
                assert(gs[hh - 1 - y as int] == grid@[hh - 1 - y as int]@);
                assert(c == cell_at(gs, x as int, y as int));
            }
            let ghost tris_before = triangles@;
            match c {
                '#' => {
                    triangles.push(Tri { a: vidx(x, y, w), b: vidx(x + 1, y, w), c: vidx(x, y + 1, w) });
                    triangles.push(Tri { a: vidx(x + 1, y + 1, w), b: vidx(x, y + 1, w), c: vidx(x + 1, y, w) });
                }
                'L' => {
                    triangles.push(Tri { a: vidx(x, y, w), b: vidx(x + 1, y, w), c: vidx(x, y + 1, w) });
                }
                'R' => {
                    triangles.push(Tri { a: vidx(x, y, w), b: vidx(x + 1, y, w), c: vidx(x + 1, y + 1, w) });
                }
                'S' => {
                    if n_spawns == 0 {
                        n_spawns = 1;
                        sx = x;
                        sy = y;
                    } else if n_spawns == 1 {
                        n_spawns = 2;
                        tx = x;
                        ty = y;
                    }
                }
                ' ' => {}
                _ => {
                    proof {
                        assert(!known_cell(cell_at(gs, x as int, y as int)));
                        assert(!all_known(gs, ww, hh));
                    }
                    return Err(LevelError::UnknownCell);
                }
            }
            proof {
                assert(triangles@ =~= tris_before + cell_tris(
                    cell_at(gs, x as int, y as int),
                    x as int,
                    y as int,
                    ww,
                ));
                assert(col_tris(gs, ww, x as int, y as int + 1) == col_tris(gs, ww, x as int, y as int)
                    + cell_tris(cell_at(gs, x as int, y as int), x as int, y as int, ww));
                assert(triangles@ =~= grid_tris_upto(gs, ww, hh, x as int) + col_tris(
                    gs,
                    ww,
                    x as int,
                    y as int + 1,
                ));
            }
            y = y + 1;
        }
        proof {
            assert(grid_tris_upto(gs, ww, hh, x as int + 1) == grid_tris_upto(gs, ww, hh, x as int)
                + col_tris(gs, ww, x as int, hh));
            assert(triangles@ =~= grid_tris_upto(gs, ww, hh, x as int + 1));
        }
        x = x + 1;
    }

    if n_spawns == 0 {
        Err(LevelError::NoSpawn)
    } else if n_spawns == 1 {
        Ok(Level { width: w, height: h, spawn_x: sx, spawn_y: sy, triangles })
    } else {
        Err(LevelError::MultipleSpawns)
    }
}

} // verus!
