//! The static tile map that bodies collide with.
//!
//! The map is a grid of square tiles, each either open or blocking. Whatever
//! lies outside the grid blocks. A segment is tested at equally spaced sample
//! points, close enough together that no tile is stepped over, up to a fixed
//! number of samples.
use vstd::prelude::*;
use crate::fixed::quot;
use crate::vec2::Vec2;

verus! {

/// The largest number of rows and of columns a map may have.
pub const MAX_TILES: usize = 65_536;

/// The largest number of steps a segment is divided into.
pub const MAX_STEPS: i64 = 65_536;

/// Whether `cells` and `tile` describe a map: at least one row and one
/// column, all rows equally long, and a positive tile size.
pub open spec fn valid_grid(cells: Seq<Vec<bool>>, tile: i64) -> bool {
    &&& tile > 0
    &&& 0 < cells.len() <= MAX_TILES
    &&& 0 < cells[0].len() <= MAX_TILES
    &&& forall|r: int| 0 <= r < cells.len() ==> (#[trigger] cells[r]).len() == cells[0].len()
}

/// A grid of tiles.
pub struct TileMap {
    cells: Vec<Vec<bool>>,
    tile: i64,
}

/// The magnitude of an integer.
pub open spec fn abs(x: int) -> int {
    if x < 0 {
        -x
    } else {
        x
    }
}

/// The larger of two integers.
pub open spec fn larger(a: int, b: int) -> int {
    if a >= b {
        a
    } else {
        b
    }
}

/// The distance between two sample points for a tile of size `tile`: half a tile, at least 1.
pub open spec fn stride(tile: int) -> int {
    larger(tile / 2, 1)
}

/// The number of steps into which the segment from `a` to `b` is divided.
pub open spec fn steps(a: Vec2, b: Vec2, tile: int) -> int {
    let reach = larger(abs(b.x - a.x), abs(b.y - a.y));
    let wanted = reach / stride(tile) + 1;
    if wanted > MAX_STEPS {
        MAX_STEPS as int
    } else {
        wanted
    }
}

/// The `k`-th of the sample points that divide the segment from `a` to `b` into `n` steps.
pub open spec fn sample(a: Vec2, b: Vec2, k: int, n: int) -> Vec2 {
    Vec2 {
        x: (a.x + quot((b.x - a.x) * k, n)) as i64,
        y: (a.y + quot((b.y - a.y) * k, n)) as i64,
    }
}

/// A part of the way from 0 to `d` lies between 0 and `d`.
pub proof fn lemma_part(d: int, k: int, n: int)
    requires
        0 <= k <= n,
        0 < n,
    ensures
        d >= 0 ==> 0 <= quot(d * k, n) <= d,
        d <= 0 ==> d <= quot(d * k, n) <= 0,
        k == 0 ==> quot(d * k, n) == 0,
        k == n ==> quot(d * k, n) == d,
{
    let m = abs(d);
    assert(0 <= m * k <= m * n) by (nonlinear_arith)
        requires
            0 <= m,
            0 <= k <= n,
    ;
    assert(0 <= (m * k) / n <= m) by (nonlinear_arith)
        requires
            0 <= m * k <= m * n,
            0 < n,
            0 <= m,
    ;
    if d >= 0 {
        assert(d * k == m * k);
    } else {
        assert(d * k == -(m * k)) by (nonlinear_arith)
            requires
                m == -d,
        ;
    }
    if k == 0 {
        assert(m * k == 0) by (nonlinear_arith)
            requires
                k == 0,
        ;
    }
    if k == n {
        assert((m * n) / n == m) by (nonlinear_arith)
            requires
                0 < n,
                0 <= m,
        ;
    }
}

impl TileMap {
    #[verifier::type_invariant]
    spec fn inv(self) -> bool {
        valid_grid(self.cells@, self.tile)
    }

    /// The tiles, row by row; a row runs along x.
    pub closed spec fn grid(self) -> Seq<Vec<bool>> {
        self.cells@
    }

    /// The side of a tile.
    pub closed spec fn tile_size(self) -> i64 {
        self.tile
    }

    /// What holds of every map.
    pub open spec fn wf(self) -> bool {
        valid_grid(self.grid(), self.tile_size())
    }

    /// The number of rows.
    pub open spec fn rows(self) -> int {
        self.grid().len() as int
    }

    /// The number of columns.
    pub open spec fn cols(self) -> int {
        self.grid()[0].len() as int
    }

    /// The column of the tile that holds `p`.
    pub open spec fn col_of(self, p: Vec2) -> int {
        (p.x as int) / (self.tile_size() as int)
    }

    /// The row of the tile that holds `p`.
    pub open spec fn row_of(self, p: Vec2) -> int {
        (p.y as int) / (self.tile_size() as int)
    }

    /// Whether a body cannot be at `p`: outside the grid, or on a blocking tile.
    #[verifier::opaque]
    pub open spec fn blocked(self, p: Vec2) -> bool {
        ||| p.x < 0
        ||| p.y < 0
        ||| self.col_of(p) >= self.cols()
        ||| self.row_of(p) >= self.rows()
        ||| self.grid()[self.row_of(p)][self.col_of(p)]
    }

    /// The first blocked sample point on the way from `a` to `b`, starting
    /// with the `k`-th of `n` steps.
    pub open spec fn scan(self, a: Vec2, b: Vec2, k: int, n: int) -> Option<Vec2>
        decreases n - k + 1,
    {
        if k > n {
            None
        } else if self.blocked(sample(a, b, k, n)) {
            Some(sample(a, b, k, n))
        } else {
            self.scan(a, b, k + 1, n)
        }
    }

    /// The blocked sample point nearest to `a` on the segment from `a` to `b`, if any.
    pub open spec fn hit(self, a: Vec2, b: Vec2) -> Option<Vec2> {
        self.scan(a, b, 0, steps(a, b, self.tile_size() as int))
    }

    /// Builds a map from rows of tiles, `true` for a blocking tile; refuses
    /// what is no grid.
    pub fn new(cells: Vec<Vec<bool>>, tile: i64) -> (m: Option<TileMap>)
        ensures
            m is Some <==> valid_grid(cells@, tile),
            m matches Some(map) ==> map.grid() == cells@ && map.tile_size() == tile && map.wf(),
    {
        if tile <= 0 || cells.len() == 0 || cells.len() > MAX_TILES {
            return None;
        }
        let cols: usize = cells[0].len();
        if cols == 0 || cols > MAX_TILES {
            return None;
        }
        let mut r: usize = 1;
        while r < cells.len()
            invariant
                1 <= r <= cells.len(),
                cols == cells@[0].len(),
                forall|i: int| 0 <= i < r ==> (#[trigger] cells@[i]).len() == cols,
            decreases cells.len() - r,
        {
            if cells[r].len() != cols {
                return None;
            }
            r += 1;
        }
        Some(TileMap { cells, tile })
    }

    /// Whether a body cannot be at `p`.
    pub fn collision(&self, p: Vec2) -> (b: bool)
        ensures
            b == self.blocked(p),
    {
        proof {
            use_type_invariant(self);
            reveal(TileMap::blocked);
        }
        if p.x < 0 || p.y < 0 {
            return true;
        }
        let col: i64 = p.x / self.tile;
        let row: i64 = p.y / self.tile;
        if col >= self.cells[0].len() as i64 || row >= self.cells.len() as i64 {
            return true;
        }
        self.cells[row as usize][col as usize]
    }

    /// The number of steps into which the segment from `a` to `b` is divided.
    fn step_count(&self, a: Vec2, b: Vec2) -> (n: i64)
        ensures
            n == steps(a, b, self.tile_size() as int),
            0 < n <= MAX_STEPS,
    {
        proof {
            use_type_invariant(self);
        }
        let dx: i128 = b.x as i128 - a.x as i128;
        let dy: i128 = b.y as i128 - a.y as i128;
        let ax: i128 = if dx < 0 { -dx } else { dx };
        let ay: i128 = if dy < 0 { -dy } else { dy };
        let reach: i128 = if ax >= ay { ax } else { ay };
        let half: i64 = self.tile / 2;
        let stride: i128 = if half >= 1 { half as i128 } else { 1 };
        let wanted: i128 = reach / stride + 1;
        if wanted > MAX_STEPS as i128 {
            MAX_STEPS
        } else {
            wanted as i64
        }
    }

    /// The `k`-th sample point on the way from `a` to `b` in `n` steps.
    fn sample_at(a: Vec2, b: Vec2, k: i64, n: i64) -> (p: Vec2)
        requires
            0 <= k <= n <= MAX_STEPS,
            0 < n,
        ensures
            p == sample(a, b, k as int, n as int),
    {
        let dx: i128 = b.x as i128 - a.x as i128;
        let dy: i128 = b.y as i128 - a.y as i128;
        proof {
            lemma_part(dx as int, k as int, n as int);
            lemma_part(dy as int, k as int, n as int);
            assert(-0x1_0000_0000_0000_0000 * 65_536 <= dx * k <= 0x1_0000_0000_0000_0000 * 65_536)
                by (nonlinear_arith)
                requires
                    -0x1_0000_0000_0000_0000 <= dx <= 0x1_0000_0000_0000_0000,
                    0 <= k <= 65_536,
            ;
            assert(-0x1_0000_0000_0000_0000 * 65_536 <= dy * k <= 0x1_0000_0000_0000_0000 * 65_536)
                by (nonlinear_arith)
                requires
                    -0x1_0000_0000_0000_0000 <= dy <= 0x1_0000_0000_0000_0000,
                    0 <= k <= 65_536,
            ;
        }
        let qx: i128 = (dx * (k as i128)) / (n as i128);
        let qy: i128 = (dy * (k as i128)) / (n as i128);
        Vec2 { x: (a.x as i128 + qx) as i64, y: (a.y as i128 + qy) as i64 }
    }

    /// The blocked sample point nearest to `a` on the segment from `a` to `b`, if any.
    pub fn collision_between(&self, a: Vec2, b: Vec2) -> (h: Option<Vec2>)
        ensures
            h == self.hit(a, b),
    {
        let n: i64 = self.step_count(a, b);
        let mut k: i64 = 0;
        while k <= n
            invariant
                0 <= k <= n + 1,
                0 < n <= MAX_STEPS,
                self.hit(a, b) == self.scan(a, b, k as int, n as int),
            decreases n + 1 - k,
        {
            let p: Vec2 = TileMap::sample_at(a, b, k, n);
            if self.collision(p) {
                return Some(p);
            }
            k += 1;
        }
        None
    }
}

/// What a hit is: a blocked sample point with no blocked sample point before
/// it; and where there is no hit, no sample point is blocked. The segment's
/// first sample point is `a` and its last is `b`.
pub proof fn a_hit_is_the_first_blocked_sample(map: TileMap, a: Vec2, b: Vec2)
    requires
        map.wf(),
    ensures
        ({
            let n = steps(a, b, map.tile_size() as int);
            &&& 0 < n <= MAX_STEPS
            &&& sample(a, b, 0, n) == a
            &&& sample(a, b, n, n) == b
            &&& match map.hit(a, b) {
                Some(p) => exists|k: int|
                    0 <= k <= n && p == sample(a, b, k, n) && map.blocked(p) && forall|j: int|
                        0 <= j < k ==> !map.blocked(#[trigger] sample(a, b, j, n)),
                None => forall|j: int| 0 <= j <= n ==> !map.blocked(#[trigger] sample(a, b, j, n)),
            }
        }),
{
    let n = steps(a, b, map.tile_size() as int);
    lemma_part(b.x - a.x, 0, n);
    lemma_part(b.y - a.y, 0, n);
    lemma_part(b.x - a.x, n, n);
    lemma_part(b.y - a.y, n, n);
    lemma_scan(map, a, b, 0, n);
}

proof fn lemma_scan(map: TileMap, a: Vec2, b: Vec2, k: int, n: int)
    requires
        0 <= k <= n + 1,
    ensures
        match map.scan(a, b, k, n) {
            Some(p) => exists|i: int|
                k <= i <= n && p == sample(a, b, i, n) && map.blocked(p) && forall|j: int|
                    k <= j < i ==> !map.blocked(#[trigger] sample(a, b, j, n)),
            None => forall|j: int| k <= j <= n ==> !map.blocked(#[trigger] sample(a, b, j, n)),
        },
    decreases n - k + 1,
{
    if k > n {
    } else if map.blocked(sample(a, b, k, n)) {
        let p = sample(a, b, k, n);
        assert(k <= k <= n && p == sample(a, b, k, n) && map.blocked(p));
    } else {
        lemma_scan(map, a, b, k + 1, n);
        match map.scan(a, b, k + 1, n) {
            Some(p) => {
                let i = choose|i: int|
                    k + 1 <= i <= n && p == sample(a, b, i, n) && map.blocked(p) && forall|j: int|
                        k + 1 <= j < i ==> !map.blocked(#[trigger] sample(a, b, j, n));
                assert forall|j: int| k <= j < i implies !map.blocked(#[trigger] sample(a, b, j, n)) by {
                    if j == k {
                    }
                }
                assert(k <= i <= n && p == sample(a, b, i, n) && map.blocked(p));
            },
            None => {
                assert forall|j: int| k <= j <= n implies !map.blocked(#[trigger] sample(a, b, j, n)) by {
                    if j == k {
                    }
                }
            },
        }
    }
}

} // verus!
