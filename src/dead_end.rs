//! A second engine: the world as a flat list of positions, each carrying its
//! own state, its neighbor count and whether it changed in the last
//! generation (so that a renderer can redraw the changed cells only).
use crate::gol::{dead_map, grid_of, neighbor_count, next_grid, next_state, random_below};
use vstd::prelude::*;

verus! {

/// Width of the world.
pub const MAX_WIDTH: i32 = 50;

/// Depth (height) of the world.
pub const MAX_DEPTH: i32 = 50;

/// What a location holds.
pub struct LocationView {
    pub life: bool,
    pub altered: bool,
    pub living_neighbors: int,
}

/// The state of a location.
#[derive(Clone, Copy)]
pub struct Location {
    life: bool,
    altered: bool,
    living_neighbors: u64,
}

impl View for Location {
    type V = LocationView;

    closed spec fn view(&self) -> LocationView {
        LocationView {
            life: self.life,
            altered: self.altered,
            living_neighbors: self.living_neighbors as int,
        }
    }
}

impl Location {
    /// A dead location, marked as altered so that it is drawn once.
    pub fn new() -> (r: Location)
        ensures
            r@ == (LocationView { life: false, altered: true, living_neighbors: 0 }),
    {
        Location { life: false, altered: true, living_neighbors: 0 }
    }

    /// Sets the location alive or dead and marks it as altered.
    pub fn update(&mut self, health: bool)
        ensures
            final(self)@ == (LocationView { life: health, altered: true, ..old(self)@ }),
    {
        self.life = health;
        self.altered = true;
    }

    /// Marks the location as unchanged.
    pub fn unaltered(&mut self)
        ensures
            final(self)@ == (LocationView { altered: false, ..old(self)@ }),
    {
        self.altered = false;
    }

    pub fn is_alive(&self) -> (r: bool)
        ensures
            r == self@.life,
    {
        self.life
    }

    pub fn living_neighbors(&self) -> (r: u64)
        ensures
            r == self@.living_neighbors,
    {
        self.living_neighbors
    }

    pub fn is_altered(&self) -> (r: bool)
        ensures
            r == self@.altered,
    {
        self.altered
    }
}

/// What a coordinate holds.
pub struct CoordinateView {
    pub x: int,
    pub y: int,
    pub cell: LocationView,
}

/// A position of the world with the location there.
#[derive(Clone, Copy)]
pub struct Coordinate {
    x: i32,
    y: i32,
    cell: Location,
}

impl View for Coordinate {
    type V = CoordinateView;

    closed spec fn view(&self) -> CoordinateView {
        CoordinateView { x: self.x as int, y: self.y as int, cell: self.cell@ }
    }
}

impl Coordinate {
    /// A new, dead location at `(x, y)`.
    pub fn new(x: i32, y: i32) -> (r: Coordinate)
        ensures
            r@ == (CoordinateView {
                x: x as int,
                y: y as int,
                cell: LocationView { life: false, altered: true, living_neighbors: 0 },
            }),
    {
        Coordinate { x: x, y: y, cell: Location::new() }
    }

    pub fn get_coords(&self) -> (r: (i32, i32))
        ensures
            r.0 == self@.x,
            r.1 == self@.y,
    {
        (self.x, self.y)
    }

    pub fn location(&self) -> (r: &Location)
        ensures
            r@ == self@.cell,
    {
        &self.cell
    }
}

impl PartialEq for Coordinate {
    /// Two coordinates are equal when they name the same position.
    fn eq(&self, other: &Coordinate) -> (r: bool) {
        self.x == other.x && self.y == other.y
    }
}

impl vstd::std_specs::cmp::PartialEqSpecImpl for Coordinate {
    open spec fn obeys_eq_spec() -> bool {
        true
    }

    open spec fn eq_spec(&self, other: &Coordinate) -> bool {
        self@.x == other@.x && self@.y == other@.y
    }
}

impl Eq for Coordinate {

}

/// Positions ordered by column, then by row.
pub open spec fn position_order(a: CoordinateView, b: CoordinateView) -> core::cmp::Ordering {
    if a.x < b.x {
        core::cmp::Ordering::Less
    } else if a.x > b.x {
        core::cmp::Ordering::Greater
    } else if a.y < b.y {
        core::cmp::Ordering::Less
    } else if a.y > b.y {
        core::cmp::Ordering::Greater
    } else {
        core::cmp::Ordering::Equal
    }
}

impl PartialOrd for Coordinate {
    fn partial_cmp(&self, other: &Coordinate) -> (r: Option<core::cmp::Ordering>) {
        if self.x < other.x {
            Some(core::cmp::Ordering::Less)
        } else if self.x > other.x {
            Some(core::cmp::Ordering::Greater)
        } else if self.y < other.y {
            Some(core::cmp::Ordering::Less)
        } else if self.y > other.y {
            Some(core::cmp::Ordering::Greater)
        } else {
            Some(core::cmp::Ordering::Equal)
        }
    }
}

impl vstd::std_specs::cmp::PartialOrdSpecImpl for Coordinate {
    open spec fn obeys_partial_cmp_spec() -> bool {
        true
    }

    open spec fn partial_cmp_spec(&self, other: &Coordinate) -> Option<core::cmp::Ordering> {
        Some(position_order(self@, other@))
    }
}

/// Some coordinate of the list stands at `(x, y)`.
pub open spec fn holds_position(cells: Seq<Coordinate>, x: int, y: int) -> bool {
    exists|i: int| 0 <= i < cells.len() && cells[i]@.x == x && cells[i]@.y == y
}

/// Every position of the world stands in the list exactly once, and nothing
/// else does.
pub open spec fn on_grid_once(cells: Seq<Coordinate>) -> bool {
    &&& cells.len() == MAX_WIDTH * MAX_DEPTH
    &&& forall|i: int|
        0 <= i < cells.len() ==> 0 <= (#[trigger] cells[i]@).x < MAX_WIDTH && 0 <= cells[i]@.y < MAX_DEPTH
    &&& forall|i: int, j: int|
        #![trigger cells[i]@, cells[j]@]
        0 <= i < cells.len() && 0 <= j < cells.len() && cells[i]@.x == cells[j]@.x && cells[i]@.y == cells[j]@.y
            ==> i == j
    &&& forall|x: int, y: int|
        0 <= x < MAX_WIDTH && 0 <= y < MAX_DEPTH ==> #[trigger] holds_position(cells, x, y)
}

/// The list holds the positions column by column: entry `i` stands at
/// `(i / MAX_DEPTH, i % MAX_DEPTH)`.
pub open spec fn laid_out(cells: Seq<Coordinate>) -> bool {
    &&& cells.len() == MAX_WIDTH * MAX_DEPTH
    &&& forall|i: int|
        0 <= i < cells.len() ==> (#[trigger] cells[i]@).x == i / MAX_DEPTH as int && cells[i]@.y == i
            % MAX_DEPTH as int
}

/// Among the first `n` coordinates, one at `(x, y)` is alive.
pub open spec fn alive_among(cells: Seq<Coordinate>, n: int, x: int, y: int) -> bool {
    exists|j: int| 0 <= j < n && cells[j]@.x == x && cells[j]@.y == y && cells[j]@.cell.life
}

/// The life states of the list, by position, as rows of the grid.
pub open spec fn life_grid(cells: Seq<Coordinate>) -> Seq<Seq<bool>> {
    Seq::new(
        MAX_DEPTH as nat,
        |y: int| Seq::new(MAX_WIDTH as nat, |x: int| alive_among(cells, cells.len() as int, x, y)),
    )
}

/// A list laid out column by column holds each position exactly once.
pub proof fn lemma_laid_out_once(cells: Seq<Coordinate>)
    requires
        laid_out(cells),
    ensures
        on_grid_once(cells),
{
    assert forall|x: int, y: int| 0 <= x < MAX_WIDTH && 0 <= y < MAX_DEPTH implies #[trigger] holds_position(
        cells,
        x,
        y,
    ) by {
        let i = x * MAX_DEPTH + y;
        assert(cells[i]@.x == x && cells[i]@.y == y);
    }
    assert forall|i: int, j: int|
        #![trigger cells[i]@, cells[j]@]
        0 <= i < cells.len() && 0 <= j < cells.len() && cells[i]@.x == cells[j]@.x && cells[i]@.y == cells[j]@.y
            implies i == j by {
        assert(i == (i / MAX_DEPTH as int) * MAX_DEPTH + i % MAX_DEPTH as int);
        assert(j == (j / MAX_DEPTH as int) * MAX_DEPTH + j % MAX_DEPTH as int);
    }
}

/// The classic rule applied to a location from its recorded neighbor count:
/// a cell that dies or is born is marked altered, a cell that survives is
/// marked unaltered, and a dead cell that stays dead keeps its mark.
pub open spec fn settle(l: LocationView) -> LocationView {
    if l.life {
        if l.living_neighbors < 2 || l.living_neighbors > 3 {
            LocationView { life: false, altered: true, ..l }
        } else {
            LocationView { altered: false, ..l }
        }
    } else if l.living_neighbors == 3 {
        LocationView { life: true, altered: true, ..l }
    } else {
        l
    }
}

/// `c` with its neighbor count taken from the grid `g`.
pub open spec fn counted(c: CoordinateView, g: Seq<Seq<bool>>) -> CoordinateView {
    CoordinateView {
        cell: LocationView { living_neighbors: neighbor_count(g, c.x, c.y), ..c.cell },
        ..c
    }
}

/// The world as a list of coordinates.
pub struct World {
    cells: Vec<Coordinate>,
}

impl World {
    pub closed spec fn cells(&self) -> Seq<Coordinate> {
        self.cells@
    }

    /// A world over the given list.
    pub fn new(map: Vec<Coordinate>) -> (r: World)
        ensures
            r.cells() == map@,
    {
        World { cells: map }
    }

    /// The life states of the list, placed by the positions its coordinates
    /// carry.
    fn life_map(cells: &Vec<Coordinate>) -> (r: Vec<Vec<bool>>)
        requires
            on_grid_once(cells@),
        ensures
            grid_of(&r) == life_grid(cells@),
    {
        let mut grid = dead_map(MAX_WIDTH as usize, MAX_DEPTH as usize);
        let n = cells.len();
        let mut i: usize = 0;
        while i < n
            invariant
                n == cells@.len(),
                on_grid_once(cells@),
                i <= n,
                grid@.len() == MAX_DEPTH,
                forall|y: int| 0 <= y < MAX_DEPTH ==> #[trigger] grid@[y]@.len() == MAX_WIDTH,
                forall|y: int, x: int|
                    0 <= y < MAX_DEPTH && 0 <= x < MAX_WIDTH ==> #[trigger] grid@[y]@[x] == alive_among(
                        cells@,
                        i as int,
                        x,
                        y,
                    ),
            decreases n - i,
        {
            proof {
                let c = cells@[i as int]@;
                assert(0 <= c.x < MAX_WIDTH && 0 <= c.y < MAX_DEPTH);
            }
            let x = cells[i].x as usize;
            let y = cells[i].y as usize;
            let life = cells[i].cell.life;
            let ghost prev = grid@;
            let now = grid[y][x] || life;
            grid[y][x] = now;
            proof {
                let c = cells@;
                assert forall|b: int, a: int| 0 <= b < MAX_DEPTH && 0 <= a < MAX_WIDTH implies #[trigger] grid@[b]@[a]
                    == alive_among(c, i + 1, a, b) by {
                    if a == x && b == y {
                        if alive_among(c, i as int, a, b) {
                            let j = choose|j: int| 0 <= j < i && c[j]@.x == a && c[j]@.y == b && c[j]@.cell.life;
                            assert(0 <= j < i + 1 && c[j]@.x == a && c[j]@.y == b && c[j]@.cell.life);
                        }
                        if life {
                            assert(c[i as int]@.x == a && c[i as int]@.y == b && c[i as int]@.cell.life);
                        }
                        if alive_among(c, i + 1, a, b) {
                            let j = choose|j: int| 0 <= j < i + 1 && c[j]@.x == a && c[j]@.y == b && c[j]@.cell.life;
                            if j < i {
                                assert(alive_among(c, i as int, a, b));
                            }
                        }
                    } else {
                        assert(grid@[b]@[a] == prev[b]@[a]);
                        if alive_among(c, i + 1, a, b) {
                            let j = choose|j: int| 0 <= j < i + 1 && c[j]@.x == a && c[j]@.y == b && c[j]@.cell.life;
                            assert(j != i);
                            assert(alive_among(c, i as int, a, b));
                        }
                        if alive_among(c, i as int, a, b) {
                            let j = choose|j: int| 0 <= j < i && c[j]@.x == a && c[j]@.y == b && c[j]@.cell.life;
                            assert(0 <= j < i + 1 && c[j]@.x == a && c[j]@.y == b && c[j]@.cell.life);
                        }
                    }
                }
            }
            i = i + 1;
        }
        proof {
            assert(grid_of(&grid) =~~= life_grid(cells@));
        }
        grid
    }

    /// Records in each location the number of live cells around its
    /// position.
    pub fn update_neighbors(&mut self)
        requires
            on_grid_once(old(self).cells()),
        ensures
            final(self).cells().len() == old(self).cells().len(),
            forall|i: int|
                0 <= i < old(self).cells().len() ==> #[trigger] final(self).cells()[i]@ == counted(
                    old(self).cells()[i]@,
                    life_grid(old(self).cells()),
                ),
    {
        let grid = Self::life_map(&self.cells);
        let ghost g = life_grid(self.cells@);
        let n = self.cells.len();
        let mut i: usize = 0;
        while i < n
            invariant
                n == old(self).cells().len(),
                on_grid_once(old(self).cells()),
                g == life_grid(old(self).cells()),
                grid_of(&grid) == g,
                i <= n,
                self.cells@.len() == n,
                forall|j: int| 0 <= j < i ==> #[trigger] self.cells@[j]@ == counted(old(self).cells()[j]@, g),
                forall|j: int| i <= j < n ==> #[trigger] self.cells@[j] == old(self).cells()[j],
            decreases n - i,
        {
            let x = self.cells[i].x;
            let y = self.cells[i].y;
            proof {
                let c = old(self).cells()[i as int]@;
                assert(c.x == x && c.y == y);
                assert(0 <= c.x < MAX_WIDTH && 0 <= c.y < MAX_DEPTH);
                assert(g.len() == MAX_DEPTH);
                assert(grid_of(&grid).len() == grid@.len());
                assert(grid@.len() == MAX_DEPTH);
                assert(grid_of(&grid)[y as int] == grid@[y as int]@);
                assert(grid_of(&grid)[y as int].len() == MAX_WIDTH);
            }
            let num_life = crate::gol::World::num_neighbors(&grid, x, y);
            self.cells[i].cell.living_neighbors = num_life as u64;
            i = i + 1;
        }
    }

    /// Advances the world by one generation: records the neighbor counts of
    /// the current generation, then applies the classic rule to each
    /// location from its recorded count (see `settle`). The life states
    /// change exactly as one generation of the grid engine changes the grid.
    pub fn update(&mut self)
        requires
            on_grid_once(old(self).cells()),
        ensures
            final(self).cells().len() == old(self).cells().len(),
            forall|i: int|
                0 <= i < old(self).cells().len() ==> #[trigger] final(self).cells()[i]@ == (CoordinateView {
                    cell: settle(counted(old(self).cells()[i]@, life_grid(old(self).cells())).cell),
                    ..old(self).cells()[i]@
                }),
            on_grid_once(final(self).cells()),
            life_grid(final(self).cells()) == next_grid(life_grid(old(self).cells())),
    {
        self.update_neighbors();
        let ghost counted_cells = self.cells@;
        let n = self.cells.len();
        let mut i: usize = 0;
        while i < n
            invariant
                n == counted_cells.len(),
                i <= n,
                self.cells@.len() == n,
                forall|j: int| 0 <= j < i ==> #[trigger] self.cells@[j]@ == (CoordinateView {
                    cell: settle(counted_cells[j]@.cell),
                    ..counted_cells[j]@
                }),
                forall|j: int| i <= j < n ==> #[trigger] self.cells@[j] == counted_cells[j],
            decreases n - i,
        {
            let live_neighbors = self.cells[i].cell.living_neighbors;
            if self.cells[i].cell.life {
                if live_neighbors < 2 || live_neighbors > 3 {
                    self.cells[i].cell.update(false);
                } else {
                    self.cells[i].cell.unaltered();
                }
            } else {
                if live_neighbors == 3 {
                    self.cells[i].cell.update(true);
                }
            }
            i = i + 1;
        }
        proof {
            lemma_same_generation(old(self).cells(), self.cells@);
        }
    }

    /// The coordinate at index `i` of the list.
    pub fn get(&self, i: usize) -> (r: &Coordinate)
        requires
            i < self.cells().len(),
        ensures
            *r == self.cells()[i as int],
    {
        &self.cells[i]
    }

    pub fn len(&self) -> (r: usize)
        ensures
            r == self.cells().len(),
    {
        self.cells.len()
    }
}

/// All `MAX_WIDTH * MAX_DEPTH` positions, column by column, each marked
/// altered and with no neighbors recorded; the entries whose index is listed
/// in `draws` are alive, the others dead.
pub fn seed_cells(draws: &Vec<usize>) -> (r: Vec<Coordinate>)
    requires
        forall|k: int| 0 <= k < draws@.len() ==> #[trigger] draws@[k] < MAX_WIDTH * MAX_DEPTH,
    ensures
        laid_out(r@),
        on_grid_once(r@),
        forall|i: int| 0 <= i < r@.len() ==> (#[trigger] r@[i]@).cell.altered && r@[i]@.cell.living_neighbors == 0,
        forall|i: int|
            0 <= i < r@.len() ==> (#[trigger] r@[i]@).cell.life == exists|k: int|
                0 <= k < draws@.len() && draws@[k] == i,
{
    let mut locals: Vec<Coordinate> = Vec::new();
    let mut x: i32 = 0;
    while x < MAX_WIDTH
        invariant
            0 <= x <= MAX_WIDTH,
            locals@.len() == x * MAX_DEPTH,
            forall|i: int|
                0 <= i < locals@.len() ==> (#[trigger] locals@[i]@).x == i / MAX_DEPTH as int && locals@[i]@.y == i
                    % MAX_DEPTH as int,
            forall|i: int|
                0 <= i < locals@.len() ==> (#[trigger] locals@[i]@).cell == (LocationView {
                    life: false,
                    altered: true,
                    living_neighbors: 0,
                }),
        decreases MAX_WIDTH - x,
    {
        let mut y: i32 = 0;
        while y < MAX_DEPTH
            invariant
                0 <= x < MAX_WIDTH,
                0 <= y <= MAX_DEPTH,
                locals@.len() == x * MAX_DEPTH + y,
                forall|i: int|
                    0 <= i < locals@.len() ==> (#[trigger] locals@[i]@).x == i / MAX_DEPTH as int && locals@[i]@.y
                        == i % MAX_DEPTH as int,
                forall|i: int|
                    0 <= i < locals@.len() ==> (#[trigger] locals@[i]@).cell == (LocationView {
                        life: false,
                        altered: true,
                        living_neighbors: 0,
                    }),
            decreases MAX_DEPTH - y,
        {
            proof {
                let i = x * MAX_DEPTH + y;
                assert(i / MAX_DEPTH as int == x && i % MAX_DEPTH as int == y);
            }
            locals.push(Coordinate::new(x, y));
            y = y + 1;
        }
        x = x + 1;
    }
    let n = draws.len();
    let mut k: usize = 0;
    while k < n
        invariant
            n == draws@.len(),
            k <= n,
            forall|k: int| 0 <= k < draws@.len() ==> #[trigger] draws@[k] < MAX_WIDTH * MAX_DEPTH,
            locals@.len() == MAX_WIDTH * MAX_DEPTH,
            forall|i: int|
                0 <= i < locals@.len() ==> (#[trigger] locals@[i]@).x == i / MAX_DEPTH as int && locals@[i]@.y == i
                    % MAX_DEPTH as int,
            forall|i: int|
                0 <= i < locals@.len() ==> (#[trigger] locals@[i]@).cell.altered && locals@[i]@.cell.living_neighbors
                    == 0,
            forall|i: int|
                0 <= i < locals@.len() ==> (#[trigger] locals@[i]@).cell.life == exists|j: int|
                    0 <= j < k && draws@[j] == i,
        decreases n - k,
    {
        let i = draws[k];
        let ghost prev = locals@;
        locals[i].cell.update(true);
        proof {
            assert(locals@[i as int]@ == (CoordinateView {
                cell: LocationView { life: true, altered: true, ..prev[i as int]@.cell },
                ..prev[i as int]@
            }));
            assert forall|m: int| 0 <= m < locals@.len() implies (#[trigger] locals@[m]@).cell.life == exists|j: int|
                0 <= j < k + 1 && draws@[j] == m by {
                if m == i {
                    assert(draws@[k as int] == m);
                } else {
                    assert(locals@[m] == prev[m]);
                    if exists|j: int| 0 <= j < k + 1 && draws@[j] == m {
                        let j = choose|j: int| 0 <= j < k + 1 && draws@[j] == m;
                        assert(j < k);
                    }
                }
            }
        }
        k = k + 1;
    }
    proof {
        lemma_laid_out_once(locals@);
    }
    locals
}

/// All `MAX_WIDTH * MAX_DEPTH` positions, column by column, each marked
/// altered, with `num_pop` of them drawn uniformly at random, with
/// replacement, and set alive (see `seed_cells`).
pub fn build_world(num_pop: i32) -> (r: Vec<Coordinate>)
    ensures
        laid_out(r@),
        on_grid_once(r@),
        forall|i: int| 0 <= i < r@.len() ==> (#[trigger] r@[i]@).cell.altered && r@[i]@.cell.living_neighbors == 0,
        num_pop <= 0 ==> forall|i: int| 0 <= i < r@.len() ==> !(#[trigger] r@[i]@).cell.life,
        num_pop > 0 ==> exists|i: int| 0 <= i < r@.len() && (#[trigger] r@[i]@).cell.life,
{
    let mut draws: Vec<usize> = Vec::new();
    let mut k: i32 = 0;
    while k < num_pop
        invariant
            0 <= k,
            num_pop <= 0 ==> k == 0,
            draws@.len() == k,
            forall|j: int| 0 <= j < draws@.len() ==> #[trigger] draws@[j] < MAX_WIDTH * MAX_DEPTH,
        decreases num_pop - k,
    {
        let i = random_below(MAX_WIDTH * MAX_DEPTH);
        draws.push(i as usize);
        k = k + 1;
    }
    let r = seed_cells(&draws);
    proof {
        if num_pop > 0 {
            let i = draws@[0] as int;
            assert(draws@[0] == i);
            assert(r@[i]@.cell.life);
        }
    }
    r
}

/// On a list that holds each position exactly once, a generation of this
/// engine changes the life states exactly as a generation of the grid
/// engine changes the grid.
pub proof fn lemma_same_generation(before: Seq<Coordinate>, after: Seq<Coordinate>)
    requires
        on_grid_once(before),
        after.len() == before.len(),
        forall|i: int|
            0 <= i < before.len() ==> #[trigger] after[i]@ == (CoordinateView {
                cell: settle(counted(before[i]@, life_grid(before)).cell),
                ..before[i]@
            }),
    ensures
        on_grid_once(after),
        life_grid(after) == next_grid(life_grid(before)),
{
    let g = life_grid(before);
    assert forall|i: int| 0 <= i < after.len() implies (#[trigger] after[i]@).x == before[i]@.x && after[i]@.y
        == before[i]@.y by {
        assert(after[i]@ == (CoordinateView { cell: settle(counted(before[i]@, g).cell), ..before[i]@ }));
    }
    assert forall|x: int, y: int| 0 <= x < MAX_WIDTH && 0 <= y < MAX_DEPTH implies #[trigger] holds_position(
        after,
        x,
        y,
    ) by {
        assert(holds_position(before, x, y));
        let i = choose|i: int| 0 <= i < before.len() && before[i]@.x == x && before[i]@.y == y;
        assert(after[i]@.x == x && after[i]@.y == y);
    }
    assert forall|i: int, j: int|
        #![trigger after[i]@, after[j]@]
        0 <= i < after.len() && 0 <= j < after.len() && after[i]@.x == after[j]@.x && after[i]@.y == after[j]@.y
            implies i == j by {
        assert(before[i]@.x == before[j]@.x && before[i]@.y == before[j]@.y);
    }
    assert forall|y: int, x: int| 0 <= y < MAX_DEPTH && 0 <= x < MAX_WIDTH implies #[trigger] life_grid(
        after,
    )[y][x] == next_grid(g)[y][x] by {
        assert(holds_position(before, x, y));
        let i = choose|i: int| 0 <= i < before.len() && before[i]@.x == x && before[i]@.y == y;
        assert(after[i]@ == (CoordinateView { cell: settle(counted(before[i]@, g).cell), ..before[i]@ }));
        if alive_among(before, before.len() as int, x, y) {
            let j = choose|j: int|
                0 <= j < before.len() && before[j]@.x == x && before[j]@.y == y && before[j]@.cell.life;
            assert(j == i);
        }
        if before[i]@.cell.life {
            assert(alive_among(before, before.len() as int, x, y));
        }
        assert(g[y][x] == before[i]@.cell.life);
        if alive_among(after, after.len() as int, x, y) {
            let j = choose|j: int|
                0 <= j < after.len() && after[j]@.x == x && after[j]@.y == y && after[j]@.cell.life;
            assert(j == i);
        }
        if after[i]@.cell.life {
            assert(alive_among(after, after.len() as int, x, y));
        }
        assert(next_grid(g)[y][x] == next_state(g[y][x], neighbor_count(g, x, y)));
    }
    assert(life_grid(after) =~~= next_grid(g));
}

} // verus!
