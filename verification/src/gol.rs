//! Conway's Game of Life on a bounded grid (cells outside the grid are dead).

use crate::clock::{clock_now, elapsed_since};
use std::time::Instant;
use vstd::prelude::*;

verus! {

/// Seconds that a dead grid waits before it is seeded again.
pub const RESTART_DELAY_SECS: u64 = 10;

/// Position of cell `(x, y)` in the row-major cell vector of a grid `w` wide.
pub open spec fn cell_index(w: int, x: int, y: int) -> int {
    y * w + x
}

/// Whether `(x, y)` is a live cell of grid `g` (`w` by `h`); outside the grid no cell lives.
pub open spec fn alive_at(g: Seq<bool>, w: int, h: int, x: int, y: int) -> bool {
    0 <= x < w && 0 <= y < h && g[cell_index(w, x, y)]
}

/// 1 when the cell at offset `(dx, dy)` from `(x, y)` is alive, else 0.
pub open spec fn live_at(g: Seq<bool>, w: int, h: int, x: int, y: int, dx: int, dy: int) -> int {
    if alive_at(g, w, h, x + dx, y + dy) {
        1
    } else {
        0
    }
}

/// The number of live cells among the eight neighbours of `(x, y)`.
pub open spec fn live_neighbors(g: Seq<bool>, w: int, h: int, x: int, y: int) -> int {
    live_at(g, w, h, x, y, -1, -1) + live_at(g, w, h, x, y, 0, -1) + live_at(g, w, h, x, y, 1, -1)
        + live_at(g, w, h, x, y, -1, 0) + live_at(g, w, h, x, y, 1, 0)
        + live_at(g, w, h, x, y, -1, 1) + live_at(g, w, h, x, y, 0, 1)
        + live_at(g, w, h, x, y, 1, 1)
}

/// Conway's rule B3/S23: a cell is born with three live neighbours and
/// survives with two or three.
pub open spec fn next_alive(g: Seq<bool>, w: int, h: int, x: int, y: int) -> bool {
    let n = live_neighbors(g, w, h, x, y);
    n == 3 || (alive_at(g, w, h, x, y) && n == 2)
}

/// `g2` is the generation that follows `g1` on a `w` by `h` grid.
pub open spec fn is_next_generation(g2: Seq<bool>, g1: Seq<bool>, w: int, h: int) -> bool {
    &&& g2.len() == g1.len()
    &&& forall|x: int, y: int|
        0 <= x < w && 0 <= y < h ==> #[trigger] g2[cell_index(w, x, y)] == next_alive(
            g1,
            w,
            h,
            x,
            y,
        )
}

/// The pseudo-random seed bit of cell `(x, y)` for `seed`: an integer hash of
/// the coordinates in wrapping `u32` arithmetic.
pub open spec fn seed_bit(x: u32, y: u32, seed: u32) -> bool {
    let n = x.wrapping_mul(374761393u32).wrapping_add(y.wrapping_mul(668265263u32)).wrapping_add(
        seed,
    );
    let m = (n ^ (n >> 13u32)).wrapping_mul(1274126177u32);
    (m ^ (m >> 16u32)) & 1u32 == 1u32
}

/// `g` is the seeded grid of `w` by `h` cells for `seed`.
pub open spec fn is_seeded(g: Seq<bool>, w: int, h: int, seed: u32) -> bool {
    &&& g.len() == w * h
    &&& forall|x: int, y: int|
        0 <= x < w && 0 <= y < h ==> #[trigger] g[cell_index(w, x, y)] == seed_bit(
            x as u32,
            y as u32,
            seed,
        )
}

/// No cell of `g` is alive.
pub open spec fn all_dead(g: Seq<bool>) -> bool {
    forall|i: int| 0 <= i < g.len() ==> !#[trigger] g[i]
}

proof fn lemma_index_bound(w: int, h: int, x: int, y: int)
    requires
        0 <= x < w,
        0 <= y < h,
    ensures
        0 <= cell_index(w, x, y) < w * h,
{
    assert(0 <= y * w + x < w * h) by (nonlinear_arith)
        requires
            0 <= x < w,
            0 <= y < h,
    ;
}

proof fn lemma_index_injective(w: int, x1: int, y1: int, x2: int, y2: int)
    requires
        0 <= x1 < w,
        0 <= x2 < w,
        0 <= y1,
        0 <= y2,
        cell_index(w, x1, y1) == cell_index(w, x2, y2),
    ensures
        x1 == x2,
        y1 == y2,
{
    if y1 < y2 {
        assert(y1 * w + x1 < y2 * w + x2) by (nonlinear_arith)
            requires
                0 <= x1 < w,
                0 <= x2,
                0 <= y1 < y2,
        ;
    } else if y2 < y1 {
        assert(y2 * w + x2 < y1 * w + x1) by (nonlinear_arith)
            requires
                0 <= x2 < w,
                0 <= x1,
                0 <= y2 < y1,
        ;
    }
}

/// Conway's Game of Life on a `width` by `height` grid whose border is dead.
pub struct GameOfLife {
    /// The cells, row by row: cell `(x, y)` is `cells[y * width + x]`.
    pub cells: Vec<bool>,
    pub width: u32,
    pub height: u32,
    pub generation: u32,
    /// Set when a step leaves no live cell.
    pub is_dead: bool,
    /// When the grid died.
    pub death_time: Option<Instant>,
}

/// `after` is the game one generation on from the live game `before`: the
/// same size, the next grid, the generation counted up, and dead exactly
/// when no cell lives.
pub open spec fn next_state(before: GameOfLife, after: GameOfLife) -> bool {
    &&& after.wf()
    &&& after.width == before.width
    &&& after.height == before.height
    &&& is_next_generation(after.grid(), before.grid(), before.width as int, before.height as int)
    &&& after.generation == before.generation + 1
    &&& after.dead() == all_dead(after.grid())
}

/// `after` is the game `before` seeded again from its generation number:
/// the same size, the seeded grid, generation 0, alive.
pub open spec fn reseeded(before: GameOfLife, after: GameOfLife) -> bool {
    &&& after.wf()
    &&& after.width == before.width
    &&& after.height == before.height
    &&& is_seeded(after.grid(), before.width as int, before.height as int, before.generation)
    &&& after.generation == 0
    &&& !after.dead()
}

/// `after` is what one step can make of `before` whatever time has passed:
/// a dead game is left as it is or seeded again, a live one advances.
pub open spec fn stepped(before: GameOfLife, after: GameOfLife) -> bool {
    &&& before.dead() ==> after == before || reseeded(before, after)
    &&& !before.dead() ==> next_state(before, after)
}

/// Whether a game that died `elapsed_secs` whole seconds ago is due to be
/// seeded again.
pub fn restart_due(elapsed_secs: u64) -> (b: bool)
    ensures
        b == (elapsed_secs >= RESTART_DELAY_SECS),
{
    elapsed_secs >= RESTART_DELAY_SECS
}

impl GameOfLife {
    /// The cells, row by row.
    pub open spec fn grid(&self) -> Seq<bool> {
        self.cells@
    }

    /// Whether the grid has died out and waits for a restart.
    pub open spec fn dead(&self) -> bool {
        self.is_dead
    }

    /// The grid has `width * height` cells, that number fits in `u32`, and a
    /// dead grid knows when it died.
    pub open spec fn wf(&self) -> bool {
        &&& self.cells@.len() == self.width * self.height
        &&& self.width * self.height <= u32::MAX
        &&& self.is_dead ==> self.death_time is Some
    }

    /// A new game of `width` by `height` cells, seeded with seed 0.
    pub fn new(width: u32, height: u32) -> (gol: Self)
        requires
            width * height <= u32::MAX,
        ensures
            gol.wf(),
            gol.width == width,
            gol.height == height,
            gol.generation == 0,
            !gol.dead(),
            is_seeded(gol.grid(), width as int, height as int, 0),
    {
        let n: u32 = width * height;
        let mut cells: Vec<bool> = Vec::new();
        let mut i: u32 = 0;
        while i < n
            invariant
                i <= n,
                cells@.len() == i,
            decreases n - i,
        {
            cells.push(false);
            i = i + 1;
        }
        let mut gol = GameOfLife {
            cells,
            width,
            height,
            generation: 0,
            is_dead: false,
            death_time: None,
        };
        gol.randomize();
        gol
    }

    /// Seeds every cell from the current generation number, then starts
    /// over at generation 0, alive.
    pub fn randomize(&mut self)
        requires
            old(self).wf(),
        ensures
            final(self).wf(),
            final(self).width == old(self).width,
            final(self).height == old(self).height,
            final(self).generation == 0,
            !final(self).dead(),
            is_seeded(
                final(self).grid(),
                old(self).width as int,
                old(self).height as int,
                old(self).generation,
            ),
    {
        let w = self.width;
        let h = self.height;
        let seed = self.generation;
        let ghost wi = w as int;
        let mut y: u32 = 0;
        while y < h
            invariant
                w == self.width,
                h == self.height,
                wi == w as int,
                seed == old(self).generation,
                self.cells@.len() == w * h,
                w * h <= u32::MAX,
                y <= h,
                forall|xx: int, yy: int|
                    0 <= xx < w && 0 <= yy < y ==> #[trigger] self.cells@[cell_index(wi, xx, yy)]
                        == seed_bit(xx as u32, yy as u32, seed),
            decreases h - y,
        {
            let mut x: u32 = 0;
            while x < w
                invariant
                    w == self.width,
                    h == self.height,
                    wi == w as int,
                    seed == old(self).generation,
                    self.cells@.len() == w * h,
                    w * h <= u32::MAX,
                    y < h,
                    x <= w,
                    forall|xx: int, yy: int|
                        0 <= xx < w && 0 <= yy < h && (yy < y || (yy == y && xx < x))
                            ==> #[trigger] self.cells@[cell_index(wi, xx, yy)] == seed_bit(
                            xx as u32,
                            yy as u32,
                            seed,
                        ),
                decreases w - x,
            {
                proof {
                    lemma_index_bound(wi, h as int, x as int, y as int);
                }
                let idx: u32 = y * w + x;
                let ghost before = self.cells@;
                let bit = rand_simple(x, y, seed);
                self.cells.set(idx as usize, bit);
                proof {
                    assert forall|xx: int, yy: int|
                        0 <= xx < w && 0 <= yy < h && (yy < y || (yy == y && xx < x + 1))
                            implies #[trigger] self.cells@[cell_index(wi, xx, yy)] == seed_bit(
                            xx as u32,
                            yy as u32,
                            seed,
                        ) by {
                        lemma_index_bound(wi, h as int, xx, yy);
                        if xx != x || yy != y {
                            if cell_index(wi, xx, yy) == idx {
                                lemma_index_injective(wi, xx, yy, x as int, y as int);
                            }
                            assert(self.cells@[cell_index(wi, xx, yy)] == before[cell_index(
                                wi,
                                xx,
                                yy,
                            )]);
                        }
                    }
                }
                x = x + 1;
            }
            y = y + 1;
        }
        self.generation = 0;
        self.is_dead = false;
        self.death_time = None;
    }

    /// The number of live neighbours of the cell `(x, y)`.
    pub fn count_neighbors(&self, x: u32, y: u32) -> (count: u32)
        requires
            self.wf(),
            x < self.width,
            y < self.height,
        ensures
            count == live_neighbors(self.grid(), self.width as int, self.height as int, x as int, y as int),
    {
        let ghost g = self.cells@;
        let ghost wi = self.width as int;
        let ghost hi = self.height as int;
        let mut count: u32 = 0;
        let w = self.width as i64;
        let h = self.height as i64;
        let mut dy: i64 = -1;
        while dy <= 1
            invariant
                -1 <= dy <= 2,
                w == wi,
                h == hi,
                wi == self.width as int,
                hi == self.height as int,
                g == self.cells@,
                self.wf(),
                x < self.width,
                y < self.height,
                count == rows_before(g, wi, hi, x as int, y as int, dy as int),
            decreases 2 - dy,
        {
            let mut dx: i64 = -1;
            while dx <= 1
                invariant
                    -1 <= dx <= 2,
                    -1 <= dy <= 1,
                    w == wi,
                    h == hi,
                    wi == self.width as int,
                    hi == self.height as int,
                    g == self.cells@,
                    self.wf(),
                    x < self.width,
                    y < self.height,
                    count == rows_before(g, wi, hi, x as int, y as int, dy as int) + row_prefix(
                        g,
                        wi,
                        hi,
                        x as int,
                        y as int,
                        dy as int,
                        dx as int,
                    ),
                decreases 2 - dx,
            {
                if !(dx == 0 && dy == 0) {
                    let nx = x as i64 + dx;
                    let ny = y as i64 + dy;
                    if nx >= 0 && nx < w && ny >= 0 && ny < h {
                        let ux = nx as u32;
                        let uy = ny as u32;
                        proof {
                            lemma_index_bound(wi, hi, ux as int, uy as int);
                        }
                        if self.cells[(uy * self.width + ux) as usize] {
                            count = count + 1;
                        }
                    }
                }
                dx = dx + 1;
            }
            dy = dy + 1;
        }
        count
    }

    /// Advances the game by one generation. A dead game instead waits: once
    /// ten seconds have passed since it died, it is seeded again.
    pub fn step(&mut self)
        requires
            old(self).wf(),
            old(self).dead() || old(self).generation < u32::MAX,
        ensures
            stepped(*old(self), *final(self)),
    {
        let elapsed_secs: u64 = if self.is_dead {
            match &self.death_time {
                Some(t) => elapsed_since(t).as_secs(),
                None => 0,
            }
        } else {
            0
        };
        self.step_after(elapsed_secs);
    }

    /// One step of the game, where a dead game has waited `elapsed_secs`
    /// whole seconds since it died: a live game advances one generation; a
    /// dead one is seeded again once the restart delay has passed, and is
    /// left as it is before.
    pub fn step_after(&mut self, elapsed_secs: u64)
        requires
            old(self).wf(),
            old(self).dead() || old(self).generation < u32::MAX,
        ensures
            old(self).dead() && elapsed_secs >= RESTART_DELAY_SECS ==> reseeded(*old(self), *final(self)),
            old(self).dead() && elapsed_secs < RESTART_DELAY_SECS ==> *final(self) == *old(self),
            !old(self).dead() ==> next_state(*old(self), *final(self)),
    {
        if self.is_dead {
            if restart_due(elapsed_secs) {
                self.randomize();
            }
            return;
        }
        let w = self.width;
        let h = self.height;
        let ghost wi = w as int;
        let ghost hi = h as int;
        let ghost g = self.cells@;
        let n: u32 = w * h;
        let mut new_cells: Vec<bool> = Vec::new();
        let mut i: u32 = 0;
        while i < n
            invariant
                i <= n,
                new_cells@.len() == i,
                forall|j: int| 0 <= j < i ==> !#[trigger] new_cells@[j],
            decreases n - i,
        {
            new_cells.push(false);
            i = i + 1;
        }
        proof {
            assert forall|xx: int, yy: int|
                0 <= xx < w && 0 <= yy < h implies !#[trigger] new_cells@[cell_index(wi, xx, yy)] by {
                lemma_index_bound(wi, hi, xx, yy);
            }
        }
        let mut y: u32 = 0;
        while y < h
            invariant
                w == self.width,
                h == self.height,
                wi == w as int,
                hi == h as int,
                g == self.cells@,
                self.wf(),
                n == w * h,
                new_cells@.len() == n,
                y <= h,
                forall|xx: int, yy: int|
                    0 <= xx < w && 0 <= yy < h ==> #[trigger] new_cells@[cell_index(wi, xx, yy)]
                        == (yy < y && next_alive(g, wi, hi, xx, yy)),
            decreases h - y,
        {
            proof {
                if w * h == 0 {
                    assert(w == 0) by (nonlinear_arith)
                        requires
                            w * h == 0,
                            h > 0,
                    ;
                }
            }
            let mut x: u32 = 0;
            while x < w
                invariant
                    w == self.width,
                    h == self.height,
                    wi == w as int,
                    hi == h as int,
                    g == self.cells@,
                    self.wf(),
                    n == w * h,
                    new_cells@.len() == n,
                    y < h,
                    x <= w,
                    forall|xx: int, yy: int|
                        0 <= xx < w && 0 <= yy < h ==> #[trigger] new_cells@[cell_index(
                            wi,
                            xx,
                            yy,
                        )] == ((yy < y || (yy == y && xx < x)) && next_alive(g, wi, hi, xx, yy)),
                decreases w - x,
            {
                proof {
                    lemma_index_bound(wi, hi, x as int, y as int);
                }
                let idx: u32 = y * w + x;
                let neighbors = self.count_neighbors(x, y);
                let alive = self.cells[idx as usize];
                let ghost before = new_cells@;
                if neighbors == 3 || (alive && neighbors == 2) {
                    new_cells.set(idx as usize, true);
                }
                proof {
                    assert(alive == alive_at(g, wi, hi, x as int, y as int));
                    assert forall|xx: int, yy: int|
                        0 <= xx < w && 0 <= yy < h implies #[trigger] new_cells@[cell_index(
                            wi,
                            xx,
                            yy,
                        )] == ((yy < y || (yy == y && xx < x + 1)) && next_alive(
                            g,
                            wi,
                            hi,
                            xx,
                            yy,
                        )) by {
                        lemma_index_bound(wi, hi, xx, yy);
                        if xx != x || yy != y {
                            if cell_index(wi, xx, yy) == idx {
                                lemma_index_injective(wi, xx, yy, x as int, y as int);
                            }
                            assert(new_cells@[cell_index(wi, xx, yy)] == before[cell_index(
                                wi,
                                xx,
                                yy,
                            )]);
                        }
                    }
                }
                x = x + 1;
            }
            y = y + 1;
        }
        self.cells = new_cells;
        self.generation = self.generation + 1;
        let mut any = false;
        let mut k: usize = 0;
        let len = self.cells.len();
        while k < len
            invariant_except_break
                !any,
            invariant
                len == self.cells@.len(),
                k <= len,
                forall|j: int| 0 <= j < k ==> !#[trigger] self.cells@[j],
            ensures
                any ==> k < len && self.cells@[k as int],
                !any ==> k >= len,
            decreases len - k,
        {
            if self.cells[k] {
                any = true;
                break;
            }
            k = k + 1;
        }
        if !any {
            self.is_dead = true;
            self.death_time = Some(clock_now());
        }
    }

    /// Whether `(x, y)` holds a live cell; coordinates outside the grid do not.
    pub fn cell_alive(&self, x: u32, y: u32) -> (alive: bool)
        requires
            self.wf(),
        ensures
            alive == alive_at(self.grid(), self.width as int, self.height as int, x as int, y as int),
    {
        if x >= self.width || y >= self.height {
            return false;
        }
        proof {
            lemma_index_bound(self.width as int, self.height as int, x as int, y as int);
        }
        self.cells[(y * self.width + x) as usize]
    }

    /// The generation counter.
    pub fn generation(&self) -> (g: u32)
        ensures
            g == self.generation,
    {
        self.generation
    }

    /// Whether every cell has died.
    pub fn is_dead(&self) -> (d: bool)
        ensures
            d == self.dead(),
    {
        self.is_dead
    }
}

impl GameOfLife {
    /// The glyph for terminal cell `(x, row)`, which shows the two game cells
    /// `(x, 2 * row)` (upper half) and `(x, 2 * row + 1)` (lower half); `None`
    /// when both are dead.
    pub fn half_block(&self, x: u32, row: u32) -> (glyph: Option<char>)
        requires
            self.wf(),
            row < 0x8000_0000,
        ensures
            glyph == half_block_glyph(
                alive_at(self.grid(), self.width as int, self.height as int, x as int, 2 * row),
                alive_at(self.grid(), self.width as int, self.height as int, x as int, 2 * row + 1),
            ),
    {
        let top = self.cell_alive(x, row * 2);
        let bottom = self.cell_alive(x, row * 2 + 1);
        if top && bottom {
            Some('█')
        } else if top {
            Some('▀')
        } else if bottom {
            Some('▄')
        } else {
            None
        }
    }
}

/// The half-block glyph that shows an upper and a lower cell in one terminal cell.
pub open spec fn half_block_glyph(top: bool, bottom: bool) -> Option<char> {
    if top && bottom {
        Some('█')
    } else if top {
        Some('▀')
    } else if bottom {
        Some('▄')
    } else {
        None
    }
}

/// Two grids of `w * h` cells that agree on every cell `(x, y)` are equal.
pub proof fn lemma_grids_equal(g1: Seq<bool>, g2: Seq<bool>, w: int, h: int)
    requires
        w > 0,
        h >= 0,
        g1.len() == w * h,
        g2.len() == w * h,
        forall|x: int, y: int|
            0 <= x < w && 0 <= y < h ==> #[trigger] g1[cell_index(w, x, y)] == g2[cell_index(
                w,
                x,
                y,
            )],
    ensures
        g1 == g2,
{
    assert forall|i: int| 0 <= i < g1.len() implies g1[i] == g2[i] by {
        let x = i % w;
        let y = i / w;
        vstd::arithmetic::div_mod::lemma_fundamental_div_mod(i, w);
        assert(0 <= x < w);
        assert(0 <= y) by {
            vstd::arithmetic::div_mod::lemma_div_pos_is_pos(i, w);
        }
        assert(y < h) by {
            if y >= h {
                assert(w * y >= w * h) by (nonlinear_arith)
                    requires
                        y >= h,
                        w > 0,
                ;
            }
        }
        assert(cell_index(w, x, y) == i) by (nonlinear_arith)
            requires
                i == w * y + x,
        ;
        assert(g1[cell_index(w, x, y)] == g2[cell_index(w, x, y)]);
    }
    assert(g1 =~= g2);
}

/// The next generation is a function of the current grid: two successors of
/// the same grid are the same grid.
pub proof fn lemma_next_generation_unique(g2: Seq<bool>, g3: Seq<bool>, g1: Seq<bool>, w: int, h: int)
    requires
        w > 0,
        h >= 0,
        g1.len() == w * h,
        is_next_generation(g2, g1, w, h),
        is_next_generation(g3, g1, w, h),
    ensures
        g2 == g3,
{
    assert forall|x: int, y: int| 0 <= x < w && 0 <= y < h implies #[trigger] g2[cell_index(w, x, y)]
        == g3[cell_index(w, x, y)] by {
        assert(g2[cell_index(w, x, y)] == next_alive(g1, w, h, x, y));
        assert(g3[cell_index(w, x, y)] == next_alive(g1, w, h, x, y));
    }
    lemma_grids_equal(g2, g3, w, h);
}

/// Seeding is deterministic: the seeded grid of a size and a seed is unique,
/// so two games made with the same size start from the same grid.
pub proof fn lemma_seeding_deterministic(g1: Seq<bool>, g2: Seq<bool>, w: int, h: int, seed: u32)
    requires
        w > 0,
        h >= 0,
        is_seeded(g1, w, h, seed),
        is_seeded(g2, w, h, seed),
    ensures
        g1 == g2,
{
    assert forall|x: int, y: int| 0 <= x < w && 0 <= y < h implies #[trigger] g1[cell_index(w, x, y)]
        == g2[cell_index(w, x, y)] by {
        assert(g1[cell_index(w, x, y)] == seed_bit(x as u32, y as u32, seed));
        assert(g2[cell_index(w, x, y)] == seed_bit(x as u32, y as u32, seed));
    }
    lemma_grids_equal(g1, g2, w, h);
}

/// An empty grid stays empty: no cell is born without live neighbours.
pub proof fn lemma_empty_stays_empty(g2: Seq<bool>, g1: Seq<bool>, w: int, h: int)
    requires
        w > 0,
        h >= 0,
        g1.len() == w * h,
        all_dead(g1),
        is_next_generation(g2, g1, w, h),
    ensures
        all_dead(g2),
{
    assert forall|x: int, y: int| 0 <= x < w && 0 <= y < h implies !#[trigger] g2[cell_index(w, x, y)] by {
        assert forall|dx: int, dy: int| #[trigger] live_at(g1, w, h, x, y, dx, dy) == 0 by {
            if 0 <= x + dx < w && 0 <= y + dy < h {
                lemma_index_bound(w, h, x + dx, y + dy);
            }
        }
        lemma_index_bound(w, h, x, y);
        assert(!alive_at(g1, w, h, x, y));
        assert(live_neighbors(g1, w, h, x, y) == 0);
    }
    assert forall|i: int| 0 <= i < g2.len() implies !#[trigger] g2[i] by {
        let x = i % w;
        let y = i / w;
        vstd::arithmetic::div_mod::lemma_fundamental_div_mod(i, w);
        vstd::arithmetic::div_mod::lemma_div_pos_is_pos(i, w);
        if y >= h {
            assert(w * y >= w * h) by (nonlinear_arith)
                requires
                    y >= h,
                    w > 0,
            ;
        }
        assert(cell_index(w, x, y) == i) by (nonlinear_arith)
            requires
                i == w * y + x,
        ;
        assert(!g2[cell_index(w, x, y)]);
    }
}

/// The sum of the neighbour terms of the rows above `dy` (rows -1 up to `dy - 1`).
spec fn rows_before(g: Seq<bool>, w: int, h: int, x: int, y: int, dy: int) -> int {
    let top = live_at(g, w, h, x, y, -1, -1) + live_at(g, w, h, x, y, 0, -1) + live_at(g, w, h, x, y, 1, -1);
    let mid = live_at(g, w, h, x, y, -1, 0) + live_at(g, w, h, x, y, 1, 0);
    let bot = live_at(g, w, h, x, y, -1, 1) + live_at(g, w, h, x, y, 0, 1) + live_at(g, w, h, x, y, 1, 1);
    if dy <= -1 {
        0
    } else if dy == 0 {
        top
    } else if dy == 1 {
        top + mid
    } else {
        top + mid + bot
    }
}

/// The sum of the neighbour terms of row `dy` left of column `dx` (the centre is never counted).
spec fn row_prefix(g: Seq<bool>, w: int, h: int, x: int, y: int, dy: int, dx: int) -> int {
    let t = |ddx: int| if ddx == 0 && dy == 0 { 0 } else { live_at(g, w, h, x, y, ddx, dy) };
    if dx <= -1 {
        0
    } else if dx == 0 {
        t(-1)
    } else if dx == 1 {
        t(-1) + t(0)
    } else {
        t(-1) + t(0) + t(1)
    }
}

/// The seed bit of cell `(x, y)` for `seed`.
fn rand_simple(x: u32, y: u32, seed: u32) -> (bit: bool)
    ensures
        bit == seed_bit(x, y, seed),
{
    let n = x.wrapping_mul(374761393).wrapping_add(y.wrapping_mul(668265263)).wrapping_add(seed);
    let m = (n ^ (n >> 13)).wrapping_mul(1274126177);
    (m ^ (m >> 16)) & 1 == 1
}

/// The live cells of `g` are exactly the row of three centred on `(x, y)`.
pub open spec fn only_row_of_three(g: Seq<bool>, w: int, h: int, x: int, y: int) -> bool {
    forall|a: int, b: int| #[trigger] alive_at(g, w, h, a, b) == (b == y && x - 1 <= a <= x + 1)
}

/// The live cells of `g` are exactly the column of three centred on `(x, y)`.
pub open spec fn only_column_of_three(g: Seq<bool>, w: int, h: int, x: int, y: int) -> bool {
    forall|a: int, b: int| #[trigger] alive_at(g, w, h, a, b) == (a == x && y - 1 <= b <= y + 1)
}

/// The live cells of `g` are exactly the 2x2 block whose top left cell is `(x, y)`.
pub open spec fn only_block(g: Seq<bool>, w: int, h: int, x: int, y: int) -> bool {
    forall|a: int, b: int| #[trigger] alive_at(g, w, h, a, b) == (x <= a <= x + 1 && y <= b <= y + 1)
}

/// A blinker turns: a lone row of three, clear of the border, becomes the
/// column of three through its centre.
pub proof fn lemma_row_becomes_column(g2: Seq<bool>, g1: Seq<bool>, w: int, h: int, x: int, y: int)
    requires
        1 <= x,
        x + 1 < w,
        1 <= y,
        y + 1 < h,
        only_row_of_three(g1, w, h, x, y),
        is_next_generation(g2, g1, w, h),
    ensures
        only_column_of_three(g2, w, h, x, y),
{
    assert forall|a: int, b: int| #[trigger] alive_at(g2, w, h, a, b) == (a == x && y - 1 <= b <= y + 1) by {
        if 0 <= a < w && 0 <= b < h {
            assert(g2[cell_index(w, a, b)] == next_alive(g1, w, h, a, b));
        }
    }
}

/// A blinker turns back: a lone column of three, clear of the border,
/// becomes the row of three through its centre.
pub proof fn lemma_column_becomes_row(g2: Seq<bool>, g1: Seq<bool>, w: int, h: int, x: int, y: int)
    requires
        1 <= x,
        x + 1 < w,
        1 <= y,
        y + 1 < h,
        only_column_of_three(g1, w, h, x, y),
        is_next_generation(g2, g1, w, h),
    ensures
        only_row_of_three(g2, w, h, x, y),
{
    assert forall|a: int, b: int| #[trigger] alive_at(g2, w, h, a, b) == (b == y && x - 1 <= a <= x + 1) by {
        if 0 <= a < w && 0 <= b < h {
            assert(g2[cell_index(w, a, b)] == next_alive(g1, w, h, a, b));
        }
    }
}

/// A 2x2 block is a still life, also against the border of the grid.
pub proof fn lemma_block_is_still(g2: Seq<bool>, g1: Seq<bool>, w: int, h: int, x: int, y: int)
    requires
        0 <= x,
        x + 1 < w,
        0 <= y,
        y + 1 < h,
        only_block(g1, w, h, x, y),
        is_next_generation(g2, g1, w, h),
    ensures
        only_block(g2, w, h, x, y),
{
    assert forall|a: int, b: int| #[trigger] alive_at(g2, w, h, a, b) == (x <= a <= x + 1 && y <= b <= y + 1) by {
        if 0 <= a < w && 0 <= b < h {
            assert(g2[cell_index(w, a, b)] == next_alive(g1, w, h, a, b));
        }
    }
}

/// A blinker has period two: a live game whose only live cells are a row
/// of three clear of the border shows the column of three after one step
/// and the row again after the next, two generations on and alive
/// throughout.
pub proof fn lemma_blinker_period_two(g0: GameOfLife, g1: GameOfLife, g2: GameOfLife, x: int, y: int)
    requires
        g0.wf(),
        !g0.dead(),
        1 <= x,
        x + 1 < g0.width,
        1 <= y,
        y + 1 < g0.height,
        only_row_of_three(g0.grid(), g0.width as int, g0.height as int, x, y),
        stepped(g0, g1),
        stepped(g1, g2),
    ensures
        !g1.dead(),
        only_column_of_three(g1.grid(), g0.width as int, g0.height as int, x, y),
        !g2.dead(),
        g2.width == g0.width,
        g2.height == g0.height,
        only_row_of_three(g2.grid(), g0.width as int, g0.height as int, x, y),
        g2.generation == g0.generation + 2,
{
    let w = g0.width as int;
    let h = g0.height as int;
    lemma_row_becomes_column(g1.grid(), g0.grid(), w, h, x, y);
    assert(alive_at(g1.grid(), w, h, x, y));
    lemma_index_bound(w, h, x, y);
    assert(!all_dead(g1.grid()));
    lemma_column_becomes_row(g2.grid(), g1.grid(), w, h, x, y);
    assert(alive_at(g2.grid(), w, h, x, y));
    assert(!all_dead(g2.grid()));
}

/// A 2x2 block stays: a live game whose only live cells are a 2x2 block
/// keeps exactly that block, one generation on and alive.
pub proof fn lemma_block_stays(g0: GameOfLife, g1: GameOfLife, x: int, y: int)
    requires
        g0.wf(),
        !g0.dead(),
        0 <= x,
        x + 1 < g0.width,
        0 <= y,
        y + 1 < g0.height,
        only_block(g0.grid(), g0.width as int, g0.height as int, x, y),
        stepped(g0, g1),
    ensures
        !g1.dead(),
        g1.width == g0.width,
        g1.height == g0.height,
        only_block(g1.grid(), g0.width as int, g0.height as int, x, y),
        g1.generation == g0.generation + 1,
{
    let w = g0.width as int;
    let h = g0.height as int;
    lemma_block_is_still(g1.grid(), g0.grid(), w, h, x, y);
    assert(alive_at(g1.grid(), w, h, x, y));
    lemma_index_bound(w, h, x, y);
    assert(!all_dead(g1.grid()));
}

/// A step keeps the size of the grid and keeps a game well formed, and a
/// game is dead only while no cell lives.
pub proof fn lemma_step_keeps_shape(before: GameOfLife, after: GameOfLife)
    requires
        before.wf(),
        before.dead() ==> all_dead(before.grid()),
        stepped(before, after),
    ensures
        after.wf(),
        after.width == before.width,
        after.height == before.height,
        after.dead() ==> all_dead(after.grid()),
{
}

} // verus!
