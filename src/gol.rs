//! The grid engine: neighbor counting and the simultaneous generation update.
use crate::count::{
    count_grid, count_row, lemma_count_grid_bound, lemma_count_grid_combine, lemma_count_grid_empty,
    lemma_count_grid_replace, lemma_count_grid_take, lemma_count_row_empty, lemma_count_row_mark,
    lemma_count_row_take,
};
use crate::params::{HEIGHT_GAME_GRIDS, WIDTH_GAME_GRIDS};
use rand::Rng;
use vstd::prelude::*;

verus! {

/// The contents of a map of rows, as a sequence of rows.
pub open spec fn grid_of(map: &Vec<Vec<bool>>) -> Seq<Seq<bool>> {
    Seq::new(map@.len(), |y: int| map@[y]@)
}

/// 1 when `(x, y)` lies on the grid and its cell is alive, 0 otherwise.
pub open spec fn cell(g: Seq<Seq<bool>>, x: int, y: int) -> int {
    if 0 <= y < g.len() && 0 <= x < g[y].len() && g[y][x] {
        1
    } else {
        0
    }
}

/// The number of live cells among the eight around `(x, y)`; positions off
/// the grid count as dead (the grid does not wrap).
pub open spec fn neighbor_count(g: Seq<Seq<bool>>, x: int, y: int) -> int {
    cell(g, x - 1, y - 1) + cell(g, x, y - 1) + cell(g, x + 1, y - 1)
        + cell(g, x - 1, y) + cell(g, x + 1, y)
        + cell(g, x - 1, y + 1) + cell(g, x, y + 1) + cell(g, x + 1, y + 1)
}

/// The classic rule: a live cell survives with two or three live
/// neighbors, a dead cell comes alive with exactly three.
pub open spec fn next_state(alive: bool, n: int) -> bool {
    if alive {
        n == 2 || n == 3
    } else {
        n == 3
    }
}

/// The next generation, every cell decided from `g` alone.
pub open spec fn next_grid(g: Seq<Seq<bool>>) -> Seq<Seq<bool>> {
    Seq::new(g.len(), |y: int| Seq::new(g[y].len(), |x: int| next_state(g[y][x], neighbor_count(g, x, y))))
}

/// The cells that are alive in `g` and dead in the next generation.
pub open spec fn deaths(g: Seq<Seq<bool>>) -> Seq<Seq<bool>> {
    Seq::new(g.len(), |y: int| Seq::new(g[y].len(), |x: int| g[y][x] && !next_grid(g)[y][x]))
}

/// The cells that are dead in `g` and alive in the next generation.
pub open spec fn births(g: Seq<Seq<bool>>) -> Seq<Seq<bool>> {
    Seq::new(g.len(), |y: int| Seq::new(g[y].len(), |x: int| !g[y][x] && next_grid(g)[y][x]))
}

/// A rectangular grid whose number of cells fits an `i32` counter.
pub open spec fn valid_grid(g: Seq<Seq<bool>>) -> bool {
    &&& forall|y: int| 0 <= y < g.len() ==> #[trigger] g[y].len() == g[0].len()
    &&& g.len() <= i32::MAX
    &&& g.len() > 0 ==> g.len() * g[0].len() <= i32::MAX
}

/// The abstract state of a world: its cells and its three counters.
pub struct WorldState {
    pub map: Seq<Seq<bool>>,
    pub generation: int,
    pub living: int,
    pub dead: int,
}

/// The state after one generation: the map advanced simultaneously,
/// `living` moved by births minus deaths and `dead` by deaths.
pub open spec fn step_state(s: WorldState) -> WorldState {
    WorldState {
        map: next_grid(s.map),
        generation: s.generation + 1,
        living: s.living + count_grid(births(s.map)) - count_grid(deaths(s.map)),
        dead: s.dead + count_grid(deaths(s.map)),
    }
}

/// Each counter of `s` fits an `i32`.
pub open spec fn counters_fit(s: WorldState) -> bool {
    &&& i32::MIN <= s.generation <= i32::MAX
    &&& i32::MIN <= s.living <= i32::MAX
    &&& i32::MIN <= s.dead <= i32::MAX
}

/// Number of cells of a rectangular grid.
pub open spec fn cell_total(g: Seq<Seq<bool>>) -> int {
    if g.len() > 0 {
        (g.len() * g[0].len()) as int
    } else {
        0
    }
}

/// Margins that keep every counter within `i32` whatever one generation
/// brings: at most `cell_total` births and as many deaths.
pub open spec fn counters_have_room(s: WorldState) -> bool {
    &&& s.generation < i32::MAX
    &&& s.dead + cell_total(s.map) <= i32::MAX
    &&& i32::MIN <= s.living - cell_total(s.map)
    &&& s.living + cell_total(s.map) <= i32::MAX
}

/// With room in the counters, the next generation's counters fit.
pub proof fn lemma_room_suffices(s: WorldState)
    requires
        valid_grid(s.map),
        counters_have_room(s),
        s.dead >= i32::MIN,
        s.generation >= i32::MIN,
    ensures
        counters_fit(step_state(s)),
{
    let g = s.map;
    if g.len() > 0 {
        let w = g[0].len() as int;
        assert(forall|j: int| 0 <= j < births(g).len() ==> #[trigger] births(g)[j].len() == w);
        assert(forall|j: int| 0 <= j < deaths(g).len() ==> #[trigger] deaths(g)[j].len() == w);
        lemma_count_grid_bound(births(g), w);
        lemma_count_grid_bound(deaths(g), w);
    } else {
        lemma_count_grid_bound(births(g), 0);
        lemma_count_grid_bound(deaths(g), 0);
    }
}

/// Relies on rand's `Rng::gen_range` on the thread's generator: a value drawn
/// from `[0, bound)`. It panics when `bound <= 0`, which `requires` rules out.
#[verifier::external_body]
pub(crate) fn random_below(bound: i32) -> (r: i32)
    requires
        bound > 0,
    ensures
        0 <= r < bound,
{
    rand::thread_rng().gen_range::<i32>(0, bound)
}

/// A map of `height` rows of `width` dead cells.
pub fn dead_map(width: usize, height: usize) -> (r: Vec<Vec<bool>>)
    ensures
        r@.len() == height,
        forall|y: int| 0 <= y < height ==> #[trigger] r@[y]@.len() == width,
        forall|y: int, x: int| 0 <= y < height && 0 <= x < width ==> !#[trigger] r@[y]@[x],
{
    let mut locals: Vec<Vec<bool>> = Vec::new();
    let mut j: usize = 0;
    while j < height
        invariant
            j <= height,
            locals@.len() == j,
            forall|y: int| 0 <= y < j ==> #[trigger] locals@[y]@.len() == width,
            forall|y: int, x: int| 0 <= y < j && 0 <= x < width ==> !#[trigger] locals@[y]@[x],
        decreases height - j,
    {
        let mut row: Vec<bool> = Vec::new();
        let mut i: usize = 0;
        while i < width
            invariant
                i <= width,
                row@ == Seq::new(i as nat, |x: int| false),
            decreases width - i,
        {
            row.push(false);
            i = i + 1;
        }
        locals.push(row);
        j = j + 1;
    }
    locals
}

/// Defines the map and meta data.
pub struct World {
    /// Rows of cells; `map[y][x]` is true when the cell at `(x, y)` is alive.
    map: Vec<Vec<bool>>,
    /// Number of generations computed so far.
    generation: i32,
    /// Number of living cells.
    living: i32,
    /// Total number of living cells that died.
    dead: i32,
}

impl View for World {
    type V = WorldState;

    closed spec fn view(&self) -> WorldState {
        WorldState {
            map: grid_of(&self.map),
            generation: self.generation as int,
            living: self.living as int,
            dead: self.dead as int,
        }
    }
}

impl World {
    /// The map is a valid grid.
    pub closed spec fn wf(&self) -> bool {
        valid_grid(grid_of(&self.map))
    }

    /// A world of the default size, `WIDTH_GAME_GRIDS` by `HEIGHT_GAME_GRIDS`,
    /// seeded with `num_pop` random draws (see `with_size`).
    pub fn new(num_pop: i32) -> (r: World)
        ensures
            r.wf(),
            r@.map.len() == HEIGHT_GAME_GRIDS,
            forall|y: int| 0 <= y < r@.map.len() ==> #[trigger] r@.map[y].len() == WIDTH_GAME_GRIDS,
            r@.generation == 0,
            r@.dead == 0,
            r@.living == count_grid(r@.map),
            num_pop <= 0 ==> r@.living == 0,
            num_pop > 0 ==> 1 <= r@.living <= num_pop,
    {
        Self::with_size(WIDTH_GAME_GRIDS as usize, HEIGHT_GAME_GRIDS as usize, num_pop)
    }

    /// A `width` by `height` world, all dead but for `num_pop` cells drawn
    /// uniformly at random, with replacement (see `seeded`). `living` is the
    /// number of cells actually alive, which is at most `num_pop`;
    /// `generation` and `dead` start at zero.
    pub fn with_size(width: usize, height: usize, num_pop: i32) -> (r: World)
        requires
            0 < width,
            0 < height,
            width * height <= i32::MAX,
        ensures
            r.wf(),
            r@.map.len() == height,
            forall|y: int| 0 <= y < r@.map.len() ==> #[trigger] r@.map[y].len() == width,
            r@.generation == 0,
            r@.dead == 0,
            r@.living == count_grid(r@.map),
            num_pop <= 0 ==> r@.living == 0,
            num_pop > 0 ==> 1 <= r@.living <= num_pop,
    {
        proof {
            assert(width <= width * height && height <= width * height) by (nonlinear_arith)
                requires
                    width >= 1,
                    height >= 1,
            ;
        }
        let mut draws: Vec<(usize, usize)> = Vec::new();
        let mut k: i32 = 0;
        while k < num_pop
            invariant
                0 < width <= i32::MAX,
                0 < height <= i32::MAX,
                0 <= k,
                num_pop <= 0 ==> k == 0,
                num_pop > 0 ==> k <= num_pop,
                draws@.len() == k,
                forall|i: int| 0 <= i < draws@.len() ==> (#[trigger] draws@[i]).0 < width && draws@[i].1 < height,
            decreases num_pop - k,
        {
            let x = random_below(width as i32);
            let y = random_below(height as i32);
            draws.push((x as usize, y as usize));
            k = k + 1;
        }
        Self::seeded(width, height, &draws)
    }

    /// A `width` by `height` world whose live cells are exactly the positions
    /// `(x, y)` listed in `draws` (a position listed twice is alive once).
    /// `living` is the number of live cells; `generation` and `dead` are zero.
    pub fn seeded(width: usize, height: usize, draws: &Vec<(usize, usize)>) -> (r: World)
        requires
            0 < width,
            0 < height,
            width * height <= i32::MAX,
            forall|i: int| 0 <= i < draws@.len() ==> (#[trigger] draws@[i]).0 < width && draws@[i].1 < height,
        ensures
            r.wf(),
            r@.map.len() == height,
            forall|y: int| 0 <= y < r@.map.len() ==> #[trigger] r@.map[y].len() == width,
            forall|y: int, x: int|
                0 <= y < height && 0 <= x < width ==> #[trigger] r@.map[y][x] == exists|i: int|
                    0 <= i < draws@.len() && draws@[i] == (x as usize, y as usize),
            r@.generation == 0,
            r@.dead == 0,
            r@.living == count_grid(r@.map),
            0 <= r@.living <= draws@.len(),
            draws@.len() > 0 ==> r@.living >= 1,
    {
        proof {
            assert(width <= width * height && height <= width * height) by (nonlinear_arith)
                requires
                    width >= 1,
                    height >= 1,
            ;
        }
        let mut locals = dead_map(width, height);
        proof {
            lemma_count_grid_empty(grid_of(&locals));
        }
        let n = draws.len();
        let mut living: i32 = 0;
        let mut k: usize = 0;
        while k < n
            invariant
                n == draws@.len(),
                0 < width <= i32::MAX,
                0 < height <= i32::MAX,
                width * height <= i32::MAX,
                forall|i: int| 0 <= i < draws@.len() ==> (#[trigger] draws@[i]).0 < width && draws@[i].1 < height,
                locals@.len() == height,
                forall|y: int| 0 <= y < height ==> #[trigger] locals@[y]@.len() == width,
                forall|y: int, x: int|
                    0 <= y < height && 0 <= x < width ==> #[trigger] locals@[y]@[x] == exists|i: int|
                        0 <= i < k && draws@[i] == (x as usize, y as usize),
                living == count_grid(grid_of(&locals)),
                k <= n,
                0 <= living <= k,
                k > 0 ==> living >= 1,
            decreases n - k,
        {
            let (x, y) = draws[k];
            let ghost g = grid_of(&locals);
            proof {
                lemma_count_row_mark(g[y as int], x as int);
                lemma_count_grid_replace(g, y as int, g[y as int].update(x as int, true));
                let g2 = g.update(y as int, g[y as int].update(x as int, true));
                assert forall|b: int| 0 <= b < g2.len() implies #[trigger] g2[b].len() == width by {
                    assert(locals@[b]@.len() == width);
                }
                lemma_count_grid_bound(g2, width as int);
                assert(height * width <= i32::MAX) by (nonlinear_arith)
                    requires
                        width * height <= i32::MAX,
                ;
            }
            if !locals[y][x] {
                living = living + 1;
            }
            locals[y][x] = true;
            proof {
                assert(grid_of(&locals) =~= g.update(y as int, g[y as int].update(x as int, true)));
                assert forall|b: int, a: int| 0 <= b < height && 0 <= a < width implies #[trigger] locals@[b]@[a]
                    == exists|i: int| 0 <= i < k + 1 && draws@[i] == (a as usize, b as usize) by {
                    if a == x && b == y {
                        assert(draws@[k as int] == (a as usize, b as usize));
                    } else {
                        assert(locals@[b]@[a] == g[b][a]);
                        if exists|i: int| 0 <= i < k + 1 && draws@[i] == (a as usize, b as usize) {
                            let i = choose|i: int| 0 <= i < k + 1 && draws@[i] == (a as usize, b as usize);
                            assert(i < k);
                        }
                    }
                }
            }
            k = k + 1;
        }
        proof {
            let g = grid_of(&locals);
            assert(g.len() * g[0].len() == width * height) by (nonlinear_arith)
                requires
                    g.len() == height,
                    g[0].len() == width,
            ;
            assert forall|y: int| 0 <= y < g.len() implies #[trigger] g[y].len() == g[0].len() by {
                assert(locals@[y]@.len() == width);
            }
        }
        World { map: locals, generation: 0, living: living, dead: 0 }
    }

    /// Builds a world from a map and the three counters, as given. The map
    /// must be rectangular, with a number of cells that fits an `i32`.
    pub fn set_all(map: Vec<Vec<bool>>, generation: i32, living: i32, dead: i32) -> (r: World)
        requires
            valid_grid(grid_of(&map)),
        ensures
            r.wf(),
            r@ == (WorldState {
                map: grid_of(&map),
                generation: generation as int,
                living: living as int,
                dead: dead as int,
            }),
    {
        World { map: map, generation: generation, living: living, dead: dead }
    }

    /// Advances the world by one generation. Every cell's next state is
    /// decided from the map as it was before the call; the map is then
    /// replaced as a whole and the counters move by the births and deaths.
    pub fn clasic_generation(&mut self)
        requires
            old(self).wf(),
            counters_fit(step_state(old(self)@)),
        ensures
            final(self).wf(),
            final(self)@ == step_state(old(self)@),
    {
        let ghost g = grid_of(&self.map);
        let h = self.map.len();
        let w = if h == 0 {
            0
        } else {
            self.map[0].len()
        };
        proof {
            if h > 0 {
                assert(w <= h * w) by (nonlinear_arith)
                    requires
                        h >= 1,
                ;
            }
        }
        let mut next: Vec<Vec<bool>> = Vec::new();
        let mut born: i32 = 0;
        let mut died: i32 = 0;
        let mut y: usize = 0;
        while y < h
            invariant
                g == grid_of(&self.map),
                valid_grid(g),
                h == g.len(),
                h > 0 ==> w == g[0].len(),
                h > 0 ==> w <= i32::MAX,
                y <= h,
                next@.len() == y,
                forall|j: int| 0 <= j < y ==> #[trigger] next@[j]@ == next_grid(g)[j],
                born == count_grid(births(g).take(y as int)),
                died == count_grid(deaths(g).take(y as int)),
                0 <= born,
                0 <= died,
                born + died <= y * w,
            decreases h - y,
        {
            let mut row: Vec<bool> = Vec::new();
            let mut x: usize = 0;
            while x < w
                invariant
                    g == grid_of(&self.map),
                    valid_grid(g),
                    h == g.len(),
                    w == g[0].len(),
                    w <= i32::MAX,
                    y < h,
                    x <= w,
                    row@ == next_grid(g)[y as int].take(x as int),
                    born == count_grid(births(g).take(y as int)) + count_row(
                        births(g)[y as int].take(x as int),
                    ),
                    died == count_grid(deaths(g).take(y as int)) + count_row(
                        deaths(g)[y as int].take(x as int),
                    ),
                    0 <= born,
                    0 <= died,
                    born + died <= y * w + x,
                decreases w - x,
            {
                let n = Self::num_neighbors(&self.map, x as i32, y as i32);
                let alive = self.map[y][x];
                let now = if alive {
                    n == 2 || n == 3
                } else {
                    n == 3
                };
                proof {
                    lemma_count_row_take(births(g)[y as int], x as int);
                    lemma_count_row_take(deaths(g)[y as int], x as int);
                    assert(y * w + x + 1 <= h * w) by (nonlinear_arith)
                        requires
                            y < h,
                            x < w,
                    ;
                }
                if alive && !now {
                    died = died + 1;
                }
                if !alive && now {
                    born = born + 1;
                }
                row.push(now);
                proof {
                    assert(row@ =~= next_grid(g)[y as int].take(x + 1));
                }
                x = x + 1;
            }
            proof {
                assert(row@ =~= next_grid(g)[y as int]);
                assert(births(g)[y as int].take(w as int) =~= births(g)[y as int]);
                assert(deaths(g)[y as int].take(w as int) =~= deaths(g)[y as int]);
                lemma_count_grid_take(births(g), y as int);
                lemma_count_grid_take(deaths(g), y as int);
                assert(y * w + w == (y + 1) * w) by (nonlinear_arith);
            }
            next.push(row);
            y = y + 1;
        }
        proof {
            assert(births(g).take(h as int) =~= births(g));
            assert(deaths(g).take(h as int) =~= deaths(g));
            assert(grid_of(&next) =~= next_grid(g));
        }
        self.map = next;
        self.generation = self.generation + 1;
        self.living = (self.living as i64 + born as i64 - died as i64) as i32;
        self.dead = self.dead + died;
    }

    /// Whether the counters have room for one more generation (see
    /// `counters_have_room`); when they do, `update` may be called.
    pub fn can_update(&self) -> (r: bool)
        requires
            self.wf(),
        ensures
            r == counters_have_room(self@),
            r ==> counters_fit(step_state(self@)),
    {
        let h = self.map.len();
        proof {
            let g = self@.map;
            if h > 0 {
                assert(g[0].len() <= g.len() * g[0].len()) by (nonlinear_arith)
                    requires
                        g.len() >= 1,
                ;
            }
        }
        let total: i64 = if h == 0 {
            0
        } else {
            h as i64 * self.map[0].len() as i64
        };
        proof {
            if counters_have_room(self@) {
                lemma_room_suffices(self@);
            }
        }
        self.generation < i32::MAX && self.dead as i64 + total <= i32::MAX as i64 && i32::MIN as i64
            <= self.living as i64 - total && self.living as i64 + total <= i32::MAX as i64
    }

    /// Advances the world by one generation and returns its counters:
    /// `(generation, living, dead)`.
    pub fn update(&mut self) -> (r: (i32, i32, i32))
        requires
            old(self).wf(),
            counters_fit(step_state(old(self)@)),
        ensures
            final(self).wf(),
            final(self)@ == step_state(old(self)@),
            r.0 == final(self)@.generation,
            r.1 == final(self)@.living,
            r.2 == final(self)@.dead,
    {
        self.clasic_generation();
        (self.generation, self.living, self.dead)
    }

    /// Whether the cell at `(x, y)` is alive.
    pub fn is_alive(&self, x: i32, y: i32) -> (r: bool)
        requires
            0 <= y < self@.map.len(),
            0 <= x < self@.map[y as int].len(),
        ensures
            r == self@.map[y as int][x as int],
    {
        self.map[y as usize][x as usize]
    }

    pub fn generation(&self) -> (r: i32)
        ensures
            r == self@.generation,
    {
        self.generation
    }

    pub fn living(&self) -> (r: i32)
        ensures
            r == self@.living,
    {
        self.living
    }

    pub fn dead(&self) -> (r: i32)
        ensures
            r == self@.dead,
    {
        self.dead
    }

    /// Number of rows of the grid.
    pub fn height(&self) -> (r: usize)
        ensures
            r == self@.map.len(),
    {
        self.map.len()
    }

    /// Number of cells in each row of the grid.
    pub fn width(&self) -> (r: usize)
        requires
            self.wf(),
        ensures
            self@.map.len() > 0 ==> r == self@.map[0].len(),
            self@.map.len() == 0 ==> r == 0,
    {
        if self.map.len() == 0 {
            0
        } else {
            self.map[0].len()
        }
    }
    /// 1 when `(x, y)` lies on the map and its cell is alive, 0 otherwise.
    fn cell_at(map: &Vec<Vec<bool>>, x: i64, y: i64) -> (r: i32)
        requires
            -1 <= x <= 0x8000_0000,
            -1 <= y <= 0x8000_0000,
        ensures
            r == cell(grid_of(map), x as int, y as int),
    {
        if 0 <= y && (y as usize) < map.len() && 0 <= x && (x as usize) < map[y as usize].len()
            && map[y as usize][x as usize] {
            1
        } else {
            0
        }
    }

    /// Determines the number of living neighbors around `(x, y)`.
    pub fn num_neighbors(map: &Vec<Vec<bool>>, x: i32, y: i32) -> (r: i32)
        requires
            0 <= y < map@.len(),
            0 <= x < map@[y as int]@.len(),
        ensures
            r == neighbor_count(grid_of(map), x as int, y as int),
            0 <= r <= 8,
    {
        let a = x as i64;
        let b = y as i64;
        Self::cell_at(map, a - 1, b - 1) + Self::cell_at(map, a, b - 1) + Self::cell_at(map, a + 1, b - 1)
            + Self::cell_at(map, a - 1, b) + Self::cell_at(map, a + 1, b)
            + Self::cell_at(map, a - 1, b + 1) + Self::cell_at(map, a, b + 1) + Self::cell_at(map, a + 1, b + 1)
    }
}

/// `g` has exactly one live cell, at `(x, y)`.
pub open spec fn single_live_cell(g: Seq<Seq<bool>>, x: int, y: int) -> bool {
    &&& 0 <= y < g.len()
    &&& 0 <= x < g[y].len()
    &&& forall|j: int, i: int| 0 <= j < g.len() && 0 <= i < g[j].len() ==> #[trigger] g[j][i] == (i == x && j == y)
}

/// `(i, j)` is one of the eight positions around `(x, y)`.
pub open spec fn adjacent(i: int, j: int, x: int, y: int) -> bool {
    -1 <= i - x <= 1 && -1 <= j - y <= 1 && !(i == x && j == y)
}

/// With a single live cell on the grid, that cell has no live neighbor and
/// every position around it that lies on the grid has exactly one, at a
/// corner, on an edge and inside alike.
pub proof fn lemma_single_cell_neighbors(g: Seq<Seq<bool>>, x: int, y: int)
    requires
        single_live_cell(g, x, y),
    ensures
        neighbor_count(g, x, y) == 0,
        forall|i: int, j: int|
            0 <= j < g.len() && 0 <= i < g[j].len() && adjacent(i, j, x, y)
                ==> #[trigger] neighbor_count(g, i, j) == 1,
{
}

/// Changing a cell that is not next to `(x, y)` leaves the neighbor count of
/// `(x, y)` as it was: only the eight surrounding positions count, so a cell
/// across the opposite edge of the grid is never a neighbor.
pub proof fn lemma_no_wraparound(g: Seq<Seq<bool>>, x: int, y: int, i: int, j: int, v: bool)
    requires
        0 <= j < g.len(),
        0 <= i < g[j].len(),
        i - x > 1 || x - i > 1 || j - y > 1 || y - j > 1,
    ensures
        neighbor_count(g.update(j, g[j].update(i, v)), x, y) == neighbor_count(g, x, y),
{
}

/// A grid with a single live cell counts one.
pub proof fn lemma_count_single(g: Seq<Seq<bool>>, x: int, y: int)
    requires
        single_live_cell(g, x, y),
    ensures
        count_grid(g) == 1,
{
    let e = Seq::new(g.len(), |j: int| Seq::new(g[j].len(), |i: int| false));
    lemma_count_grid_empty(e);
    lemma_count_row_empty(e[y]);
    lemma_count_row_mark(e[y], x);
    lemma_count_grid_replace(e, y, e[y].update(x, true));
    assert(g =~~= e.update(y, e[y].update(x, true)));
}

/// A world whose only live cell is isolated loses it in one generation:
/// the map becomes empty, `living` drops by one, `dead` grows by one and
/// `generation` by one.
pub proof fn lemma_isolated_cell_dies(s: WorldState, x: int, y: int)
    requires
        single_live_cell(s.map, x, y),
    ensures
        forall|j: int, i: int|
            0 <= j < step_state(s).map.len() && 0 <= i < step_state(s).map[j].len()
                ==> !#[trigger] step_state(s).map[j][i],
        count_grid(step_state(s).map) == 0,
        step_state(s).generation == s.generation + 1,
        step_state(s).living == s.living - 1,
        step_state(s).dead == s.dead + 1,
{
    let g = s.map;
    lemma_single_cell_neighbors(g, x, y);
    assert(deaths(g) =~~= g);
    lemma_count_single(g, x, y);
    lemma_count_grid_empty(births(g));
    lemma_count_grid_empty(next_grid(g));
}

/// The live cells of the next generation are those of this one, plus the
/// births, minus the deaths.
pub proof fn lemma_next_count(g: Seq<Seq<bool>>)
    ensures
        count_grid(next_grid(g)) == count_grid(g) + count_grid(births(g)) - count_grid(deaths(g)),
{
    lemma_count_grid_combine(g, births(g), deaths(g), next_grid(g));
}

/// When `living` is the number of live cells, it still is after a generation.
pub proof fn lemma_living_tracks_cells(s: WorldState)
    requires
        s.living == count_grid(s.map),
    ensures
        step_state(s).living == count_grid(step_state(s).map),
{
    lemma_next_count(s.map);
}

/// Every cell of the next state is decided from the state before the step
/// alone: its own value there and its neighbor count there, never a value
/// already updated in the same step.
pub proof fn lemma_step_from_snapshot(s: WorldState)
    ensures
        step_state(s).map.len() == s.map.len(),
        forall|y: int| 0 <= y < s.map.len() ==> #[trigger] step_state(s).map[y].len() == s.map[y].len(),
        forall|y: int, x: int|
            0 <= y < s.map.len() && 0 <= x < s.map[y].len() ==> #[trigger] step_state(s).map[y][x] == next_state(
                s.map[y][x],
                neighbor_count(s.map, x, y),
            ),
{
}

/// The grid after `k` generations.
pub open spec fn evolve(g: Seq<Seq<bool>>, k: nat) -> Seq<Seq<bool>>
    decreases k,
{
    if k == 0 {
        g
    } else {
        next_grid(evolve(g, (k - 1) as nat))
    }
}

/// The number of deaths over the first `k` generations from `g`.
pub open spec fn deaths_over(g: Seq<Seq<bool>>, k: nat) -> int
    decreases k,
{
    if k == 0 {
        0
    } else {
        deaths_over(g, (k - 1) as nat) + count_grid(deaths(evolve(g, (k - 1) as nat)))
    }
}

/// The state after `k` steps.
pub open spec fn steps(s: WorldState, k: nat) -> WorldState
    decreases k,
{
    if k == 0 {
        s
    } else {
        step_state(steps(s, (k - 1) as nat))
    }
}

/// The counters accumulate across steps, never reset: after `k` steps the
/// map has evolved `k` generations, `generation` has grown by `k`, `dead` by
/// every death of those generations, and `living`, when it counted the live
/// cells at the start, counts them still.
pub proof fn lemma_counters_accumulate(s: WorldState, k: nat)
    ensures
        steps(s, k).map == evolve(s.map, k),
        steps(s, k).generation == s.generation + k,
        steps(s, k).dead == s.dead + deaths_over(s.map, k),
        s.living == count_grid(s.map) ==> steps(s, k).living == count_grid(steps(s, k).map),
    decreases k,
{
    if k > 0 {
        let p = steps(s, (k - 1) as nat);
        lemma_counters_accumulate(s, (k - 1) as nat);
        if s.living == count_grid(s.map) {
            lemma_living_tracks_cells(p);
        }
    }
}

} // verus!
