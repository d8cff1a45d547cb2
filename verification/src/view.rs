//! What the renderer shows: where the camera stands over the map, and which
//! tiles lie under it.
//!
//! A map for drawing is a grid of tile codes, row by row. A code holds the
//! number of the tile's image and the number of quarter turns by which the
//! image is rotated. The size of a map counts its rows along `x` and the
//! length of a row along `y`; the tile under a point is looked up with `x`
//! as the column and `y` as the row, so that only on a square map every
//! tile under the canvas is a tile of the map.
use vstd::prelude::*;
use crate::fixed::{fx_add, fx_mul, fx_sub, product, sat, ONE};
use crate::map::MAX_TILES;
use crate::vec2::Vec2;

verus! {

/// The side of a tile.
pub const TILE_SIZE: i64 = 64_000_000;

/// The least number of rows and of columns of a map that can be drawn.
pub const MIN_TILES: usize = 20;

/// What a held control adds to the velocity with each reading of the controls.
pub const PUSH: i64 = 10_000;

/// What the renderer shows of the game: the canvas, the map, and the point
/// that the camera follows as it drifts over the map.
#[derive(Clone, Debug, PartialEq, Eq)]
pub struct Scene {
    pub canvas_size: Vec2,
    /// The tile codes, row by row.
    pub map: Vec<Vec<usize>>,
    pub pos: Vec2,
    pub vel: Vec2,
    /// The time of the last update.
    pub prev_update: i64,
}

/// The velocity after the controls are read: each control pushes by its
/// strength against or along its axis.
pub open spec fn pushed(vel: Vec2, left: i64, right: i64, up: i64, down: i64) -> Vec2 {
    Vec2 {
        x: sat(sat(vel.x - product(left as int, PUSH as int)) + product(right as int, PUSH as int)) as i64,
        y: sat(sat(vel.y - product(up as int, PUSH as int)) + product(down as int, PUSH as int)) as i64,
    }
}

/// A coordinate and its speed after a step: at the edges of `[0, size]` the
/// point stays on the edge and stops.
pub open spec fn kept_on_map(at: int, speed: int, size: int) -> (int, int) {
    if at <= 0 {
        if 0 >= size {
            (size, 0)
        } else {
            (0, 0)
        }
    } else if at >= size {
        (size, 0)
    } else {
        (at, speed)
    }
}

/// The size of the map that the rows make: the number of rows counts along
/// `x`, the length of a row along `y`; a map of no rows has no size.
pub open spec fn extent(map: Seq<Vec<usize>>) -> Vec2 {
    if map.len() == 0 {
        Vec2 { x: 0, y: 0 }
    } else {
        size_of(map.len() as int, map[0].len() as int)
    }
}

/// The scene after the time has moved on to `t`: the point has drifted
/// with its velocity and is kept on the map.
pub open spec fn drifted(w: Scene, t: i64) -> Scene {
    let size = extent(w.map@);
    let dt = sat(t - w.prev_update);
    let x = kept_on_map(sat(w.pos.x + product(w.vel.x as int, dt)), w.vel.x as int, size.x as int);
    let y = kept_on_map(sat(w.pos.y + product(w.vel.y as int, dt)), w.vel.y as int, size.y as int);
    Scene {
        pos: Vec2 { x: x.0 as i64, y: y.0 as i64 },
        vel: Vec2 { x: x.1 as i64, y: y.1 as i64 },
        prev_update: t,
        ..w
    }
}

fn keep_on_map(at: i64, speed: i64, size: i64) -> (r: (i64, i64))
    ensures
        (r.0 as int, r.1 as int) == kept_on_map(at as int, speed as int, size as int),
{
    let mut at = at;
    let mut speed = speed;
    if at <= 0 {
        at = 0;
        speed = 0;
    }
    if at >= size {
        at = size;
        speed = 0;
    }
    (at, speed)
}

impl Scene {
    /// The scene at the start of the game, for a canvas of the given size.
    pub fn new(width: i64, height: i64, map: Vec<Vec<usize>>) -> (w: Scene)
        ensures
            w == (Scene {
                canvas_size: Vec2 { x: width, y: height },
                map,
                pos: Vec2 { x: 640_000_000, y: 640_000_000 },
                vel: Vec2 { x: 20_000, y: 10_000 },
                prev_update: 0,
            }),
    {
        Scene {
            canvas_size: Vec2 { x: width, y: height },
            map,
            pos: Vec2 { x: 640_000_000, y: 640_000_000 },
            vel: Vec2 { x: 20_000, y: 10_000 },
            prev_update: 0,
        }
    }

    /// Reads the controls, each given by its strength.
    pub fn input(&mut self, left: i64, right: i64, up: i64, down: i64)
        ensures
            *final(self) == (Scene { vel: pushed(old(self).vel, left, right, up, down), ..*old(self) }),
    {
        self.vel.x = fx_sub(self.vel.x, fx_mul(left, PUSH));
        self.vel.x = fx_add(self.vel.x, fx_mul(right, PUSH));
        self.vel.y = fx_sub(self.vel.y, fx_mul(up, PUSH));
        self.vel.y = fx_add(self.vel.y, fx_mul(down, PUSH));
    }

    /// Moves the point on to the time `t`.
    pub fn update(&mut self, t: i64)
        ensures
            *final(self) == drifted(*old(self), t),
            0 <= final(self).pos.x <= extent(old(self).map@).x,
            0 <= final(self).pos.y <= extent(old(self).map@).y,
    {
        let dt: i64 = fx_sub(t, self.prev_update);
        let map_size = self.map_size();
        let x = keep_on_map(fx_add(self.pos.x, fx_mul(self.vel.x, dt)), self.vel.x, map_size.x);
        let y = keep_on_map(fx_add(self.pos.y, fx_mul(self.vel.y, dt)), self.vel.y, map_size.y);
        self.pos = Vec2 { x: x.0, y: y.0 };
        self.vel = Vec2 { x: x.1, y: y.1 };
        self.prev_update = t;
    }

    /// Finds what of the map lies under the canvas; see `frame`.
    pub fn draw(&self, align_to_pixels: bool) -> (f: Option<Frame>)
        ensures
            f is Some <==> drawable(self.map@, self.canvas_size),
            f matches Some(fr) ==> fr == frame_of(
                self.map@.len() as int,
                self.map@[0].len() as int,
                self.canvas_size,
                self.pos,
                align_to_pixels,
            ) && fr.first_col + fr.cols <= self.map@.len() && fr.first_row + fr.rows
                <= self.map@[0].len(),
    {
        frame(&self.map, self.canvas_size, self.pos, align_to_pixels)
    }

    /// The size of the map.
    pub fn map_size(&self) -> (size: Vec2)
        ensures
            size == extent(self.map@),
            0 <= size.x,
            0 <= size.y,
    {
        if self.map.len() == 0 {
            Vec2 { x: 0, y: 0 }
        } else {
            map_size(self.map.len(), self.map[0].len())
        }
    }
}

/// Whether the rows make a grid that can be drawn: at least `MIN_TILES` and
/// at most `MAX_TILES` rows and columns, all rows equally long.
pub open spec fn is_grid(map: Seq<Vec<usize>>) -> bool {
    &&& MIN_TILES <= map.len() <= MAX_TILES
    &&& MIN_TILES <= map[0].len() <= MAX_TILES
    &&& forall|r: int| 0 <= r < map.len() ==> (#[trigger] map[r]).len() == map[0].len()
}

/// The size of a grid of the given numbers of rows and columns: the rows
/// count along `x`, the columns along `y`.
pub open spec fn size_of(rows: int, cols: int) -> Vec2 {
    Vec2 { x: sat(rows * TILE_SIZE) as i64, y: sat(cols * TILE_SIZE) as i64 }
}

/// The size of a grid of the given numbers of rows and columns.
pub fn map_size(rows: usize, cols: usize) -> (size: Vec2)
    ensures
        size == size_of(rows as int, cols as int),
        0 <= size.x,
        0 <= size.y,
{
    assert(0 <= cols * TILE_SIZE <= 0xffff_ffff_ffff_ffff * 64_000_000) by (nonlinear_arith)
        requires
            0 <= cols <= 0xffff_ffff_ffff_ffff,
    ;
    assert(0 <= rows * TILE_SIZE <= 0xffff_ffff_ffff_ffff * 64_000_000) by (nonlinear_arith)
        requires
            0 <= rows <= 0xffff_ffff_ffff_ffff,
    ;
    Vec2 {
        x: crate::fixed::narrow((rows as i128) * (TILE_SIZE as i128)),
        y: crate::fixed::narrow((cols as i128) * (TILE_SIZE as i128)),
    }
}

/// Whether a canvas of the given size can show the map: the map is a grid
/// and its size no smaller than the canvas.
pub open spec fn drawable(map: Seq<Vec<usize>>, canvas: Vec2) -> bool {
    &&& is_grid(map)
    &&& 0 <= canvas.x <= map.len() * TILE_SIZE
    &&& 0 <= canvas.y <= map[0].len() * TILE_SIZE
}

/// `at` limited to `[low, high]`.
pub open spec fn clamped(at: int, low: int, high: int) -> int {
    if at < low {
        low
    } else if at > high {
        high
    } else {
        at
    }
}

/// The coordinate of the canvas's near edge on the map, for a camera that
/// follows `at` but never shows what lies beyond the map.
pub open spec fn near_edge(at: int, canvas: int, size: int) -> int {
    clamped(at, canvas / 2, size - (canvas - canvas / 2)) - canvas / 2
}

/// How far the near edge of the canvas lies into its tile; on request cut to whole units.
pub open spec fn into_tile(edge: int, align: bool) -> int {
    let offset = edge % (TILE_SIZE as int);
    if align {
        offset - offset % (ONE as int)
    } else {
        offset
    }
}

/// The number of tiles along one axis that reach into a canvas of the given
/// extent, the first of them starting `offset` before the canvas.
pub open spec fn tiles_across(canvas: int, offset: int) -> int {
    (canvas + offset + TILE_SIZE - 1) / (TILE_SIZE as int)
}

/// What of the map lies under the canvas.
#[derive(Clone, Copy, Debug, PartialEq, Eq, Structural)]
pub struct Frame {
    /// The corner of the canvas on the map.
    pub top_left: Vec2,
    /// How far the corner lies into its tile.
    pub offset: Vec2,
    /// The column and the row of the tile under the corner.
    pub first_col: usize,
    pub first_row: usize,
    /// The numbers of columns and of rows of tiles that reach into the canvas.
    pub cols: usize,
    pub rows: usize,
    /// Where on the canvas the followed point is.
    pub player: Vec2,
}

/// The frame of a canvas over a map for a followed point at `pos`.
pub open spec fn frame_of(rows: int, cols: int, canvas: Vec2, pos: Vec2, align: bool) -> Frame {
    let left = near_edge(pos.x as int, canvas.x as int, rows * TILE_SIZE);
    let top = near_edge(pos.y as int, canvas.y as int, cols * TILE_SIZE);
    Frame {
        top_left: Vec2 { x: left as i64, y: top as i64 },
        offset: Vec2 { x: into_tile(left, align) as i64, y: into_tile(top, align) as i64 },
        first_col: (left / (TILE_SIZE as int)) as usize,
        first_row: (top / (TILE_SIZE as int)) as usize,
        cols: tiles_across(canvas.x as int, into_tile(left, align)) as usize,
        rows: tiles_across(canvas.y as int, into_tile(top, align)) as usize,
        player: Vec2 { x: sat(pos.x - left) as i64, y: sat(pos.y - top) as i64 },
    }
}

/// The near edge lies on the map, and the tiles that reach into the canvas
/// from it are tiles of the map.
pub proof fn lemma_edge(at: int, canvas: int, count: int, align: bool)
    requires
        0 < count <= MAX_TILES,
        0 <= canvas <= count * TILE_SIZE,
    ensures
        ({
            let edge = near_edge(at, canvas, count * TILE_SIZE);
            let offset = into_tile(edge, align);
            &&& 0 <= edge <= count * TILE_SIZE - canvas
            &&& 0 <= offset <= edge % (TILE_SIZE as int) < TILE_SIZE
            &&& 0 <= edge / (TILE_SIZE as int)
            &&& 0 <= tiles_across(canvas, offset)
            &&& edge / (TILE_SIZE as int) + tiles_across(canvas, offset) <= count
        }),
{
    let size = count * TILE_SIZE;
    let edge = near_edge(at, canvas, size);
    let offset = into_tile(edge, align);
    let first = edge / (TILE_SIZE as int);
    let across = tiles_across(canvas, offset);
    assert(0 <= size <= 1_048_576 * TILE_SIZE) by (nonlinear_arith)
        requires
            0 < count <= 65_536,
            size == count * TILE_SIZE,
    ;
    let half = canvas / 2;
    assert(half <= size - (canvas - half));
    assert(0 <= edge <= size - canvas);
    let rest = edge % (TILE_SIZE as int);
    assert(edge == first * TILE_SIZE + rest);
    assert(0 <= offset <= rest);
    // the tiles reach no further than the canvas: (first + across) tiles end at or
    // before the first tile boundary at or after edge + canvas
    assert(across * TILE_SIZE <= canvas + offset + TILE_SIZE - 1);
    assert(first * TILE_SIZE + across * TILE_SIZE <= size + TILE_SIZE - 1);
    assert((first + across) * TILE_SIZE == first * TILE_SIZE + across * TILE_SIZE)
        by (nonlinear_arith);
    assert(first + across <= count) by (nonlinear_arith)
        requires
            (first + across) * TILE_SIZE <= count * TILE_SIZE + TILE_SIZE - 1,
            TILE_SIZE == 64_000_000,
    ;
}

fn edge_of(at: i64, canvas: i64, count: usize, align: bool) -> (r: (i64, i64, usize, usize))
    requires
        0 < count <= MAX_TILES,
        0 <= canvas <= count * TILE_SIZE,
    ensures
        r.0 == near_edge(at as int, canvas as int, count * TILE_SIZE),
        r.1 == into_tile(r.0 as int, align),
        r.2 == r.0 as int / (TILE_SIZE as int),
        r.3 == tiles_across(canvas as int, r.1 as int),
        r.2 + r.3 <= count,
{
    proof {
        lemma_edge(at as int, canvas as int, count as int, align);
        assert(0 <= count * TILE_SIZE <= 65_536 * TILE_SIZE) by (nonlinear_arith)
            requires
                0 < count <= 65_536,
        ;
    }
    let size: i64 = (count as i64) * TILE_SIZE;
    let low: i64 = canvas / 2;
    let high: i64 = size - (canvas - low);
    let camera: i64 = if at < low {
        low
    } else if at > high {
        high
    } else {
        at
    };
    let edge: i64 = camera - low;
    let rest: i64 = edge % TILE_SIZE;
    let offset: i64 = if align {
        rest - rest % ONE
    } else {
        rest
    };
    let first: usize = (edge / TILE_SIZE) as usize;
    let across: usize = ((canvas + offset + TILE_SIZE - 1) / TILE_SIZE) as usize;
    (edge, offset, first, across)
}

/// Whether the rows make a grid that can be drawn.
pub fn check_grid(map: &Vec<Vec<usize>>) -> (ok: bool)
    ensures
        ok == is_grid(map@),
{
    if map.len() < MIN_TILES || map.len() > MAX_TILES {
        return false;
    }
    let cols: usize = map[0].len();
    if cols < MIN_TILES || cols > MAX_TILES {
        return false;
    }
    let mut r: usize = 1;
    while r < map.len()
        invariant
            1 <= r <= map.len(),
            cols == map@[0].len(),
            forall|i: int| 0 <= i < r ==> (#[trigger] map@[i]).len() == cols,
        decreases map.len() - r,
    {
        if map[r].len() != cols {
            return false;
        }
        r += 1;
    }
    true
}

/// Finds what of the map lies under a canvas of the given size for a point
/// at `pos`. The camera follows the player but stops where the canvas would
/// show what lies beyond the map's size. Nothing is found where the map is
/// no grid or its size is smaller than the canvas.
pub fn frame(map: &Vec<Vec<usize>>, canvas: Vec2, pos: Vec2, align_to_pixels: bool) -> (f: Option<
    Frame,
>)
    ensures
        f is Some <==> drawable(map@, canvas),
        f matches Some(fr) ==> fr == frame_of(
            map@.len() as int,
            map@[0].len() as int,
            canvas,
            pos,
            align_to_pixels,
        ) && fr.first_col + fr.cols <= map@.len() && fr.first_row + fr.rows <= map@[0].len(),
{
    if !check_grid(map) {
        return None;
    }
    let rows: usize = map.len();
    let cols: usize = map[0].len();
    proof {
        assert(0 <= cols * TILE_SIZE <= 65_536 * TILE_SIZE) by (nonlinear_arith)
            requires
                0 < cols <= 65_536,
        ;
        assert(0 <= rows * TILE_SIZE <= 65_536 * TILE_SIZE) by (nonlinear_arith)
            requires
                0 < rows <= 65_536,
        ;
    }
    if canvas.x < 0 || canvas.x > (rows as i64) * TILE_SIZE || canvas.y < 0 || canvas.y > (
    cols as i64) * TILE_SIZE {
        return None;
    }
    let x = edge_of(pos.x, canvas.x, rows, align_to_pixels);
    let y = edge_of(pos.y, canvas.y, cols, align_to_pixels);
    Some(
        Frame {
            top_left: Vec2 { x: x.0, y: y.0 },
            offset: Vec2 { x: x.1, y: y.1 },
            first_col: x.2,
            first_row: y.2,
            cols: x.3,
            rows: y.3,
            player: Vec2 { x: fx_sub(pos.x, x.0), y: fx_sub(pos.y, y.0) },
        },
    )
}

/// One tile to draw.
#[derive(Clone, Copy, Debug, PartialEq, Eq, Structural)]
pub struct TileDraw {
    /// The number of the tile's image.
    pub image: usize,
    /// The number of quarter turns by which the image is rotated.
    pub turns: usize,
    /// The place of the tile's corner on the canvas.
    pub at: Vec2,
}

/// The tile in column `i` and row `j` of those under the canvas.
pub open spec fn tile_of(map: Seq<Vec<usize>>, f: Frame, i: int, j: int) -> TileDraw {
    let code = map[f.first_row + j][f.first_col + i];
    TileDraw {
        image: code / 4,
        turns: code % 4,
        at: Vec2 { x: (i * TILE_SIZE - f.offset.x) as i64, y: (j * TILE_SIZE - f.offset.y) as i64 },
    }
}

/// Whether the frame has a tile in column `i` and row `j`, and the map holds it.
pub open spec fn has_tile(map: Seq<Vec<usize>>, f: Frame, i: int, j: int) -> bool {
    &&& 0 <= i < f.cols
    &&& 0 <= j < f.rows
    &&& f.first_row + j < map.len()
    &&& f.first_col + i < map[f.first_row + j].len()
    &&& f.cols <= MAX_TILES
    &&& f.rows <= MAX_TILES
    &&& 0 <= f.offset.x < TILE_SIZE
    &&& 0 <= f.offset.y < TILE_SIZE
}

/// Looks up the tile in column `i` and row `j` of those under the canvas.
pub fn tile_at(map: &Vec<Vec<usize>>, f: &Frame, i: usize, j: usize) -> (t: Option<TileDraw>)
    ensures
        t is Some <==> has_tile(map@, *f, i as int, j as int),
        t matches Some(tile) ==> tile == tile_of(map@, *f, i as int, j as int),
{
    if i >= f.cols || j >= f.rows || f.cols > MAX_TILES || f.rows > MAX_TILES {
        return None;
    }
    if f.offset.x < 0 || f.offset.x >= TILE_SIZE || f.offset.y < 0 || f.offset.y >= TILE_SIZE {
        return None;
    }
    if f.first_row >= map.len() || j >= map.len() - f.first_row {
        return None;
    }
    let row: &Vec<usize> = &map[f.first_row + j];
    if f.first_col >= row.len() || i >= row.len() - f.first_col {
        return None;
    }
    let code: usize = row[f.first_col + i];
    assert(0 <= i * TILE_SIZE <= 65_536 * TILE_SIZE) by (nonlinear_arith)
        requires
            0 <= i < 65_536,
    ;
    assert(0 <= j * TILE_SIZE <= 65_536 * TILE_SIZE) by (nonlinear_arith)
        requires
            0 <= j < 65_536,
    ;
    Some(
        TileDraw {
            image: code / 4,
            turns: code % 4,
            at: Vec2 {
                x: (i as i64) * TILE_SIZE - f.offset.x,
                y: (j as i64) * TILE_SIZE - f.offset.y,
            },
        },
    )
}

/// Every tile of a frame of a drawable square map is there to be looked up.
pub proof fn framed_tiles_are_on_the_map(
    map: Seq<Vec<usize>>,
    canvas: Vec2,
    pos: Vec2,
    align: bool,
    i: int,
    j: int,
)
    requires
        drawable(map, canvas),
        map.len() == map[0].len(),
        0 <= i < frame_of(map.len() as int, map[0].len() as int, canvas, pos, align).cols,
        0 <= j < frame_of(map.len() as int, map[0].len() as int, canvas, pos, align).rows,
    ensures
        has_tile(map, frame_of(map.len() as int, map[0].len() as int, canvas, pos, align), i, j),
{
    lemma_edge(pos.x as int, canvas.x as int, map.len() as int, align);
    lemma_edge(pos.y as int, canvas.y as int, map[0].len() as int, align);
    let f = frame_of(map.len() as int, map[0].len() as int, canvas, pos, align);
    assert(map[f.first_row + j].len() == map[0].len());
}

} // verus!
