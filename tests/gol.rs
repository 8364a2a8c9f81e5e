use game_of_life::gol::World;
use game_of_life::params::{HEIGHT_GAME_GRIDS, WIDTH_GAME_GRIDS};

fn empty_map(width: usize, height: usize) -> Vec<Vec<bool>> {
    vec![vec![false; width]; height]
}

fn live_cells(world: &World) -> Vec<(i32, i32)> {
    let mut cells = Vec::new();
    for y in 0..world.height() as i32 {
        for x in 0..world.width() as i32 {
            if world.is_alive(x, y) {
                cells.push((x, y));
            }
        }
    }
    cells
}

#[test]
fn test_gol_update_and_classic_generation() {
    //update causes a generation, and since the map only has one life it should kill it,
    //leaving no living and one dead
    let mut world = World::new(1);
    assert_eq!((1, 0, 1), world.update());

    //Three live cells in a row make a blinker, which kills two cells each generation and creates two.
    let mut locals: Vec<Vec<bool>> = vec![vec![false; WIDTH_GAME_GRIDS as usize]; HEIGHT_GAME_GRIDS as usize];
    locals[1][0] = true;
    locals[1][1] = true;
    locals[1][2] = true;
    world = World::set_all(locals, 0, 3, 0);
    assert_eq!((1, 3, 2), world.update());
    assert_eq!((2, 3, 4), world.update());
}

#[test]
fn test_gol_num_neighbors() {
    let mut locals: Vec<Vec<bool>> = vec![vec![false; WIDTH_GAME_GRIDS as usize]; HEIGHT_GAME_GRIDS as usize];
    for y in 0..HEIGHT_GAME_GRIDS {
        for x in 0..WIDTH_GAME_GRIDS {
            locals[y as usize][x as usize] = true;

            if y == 0 {
                //top left corner
                if x == 0 {
                    assert_eq!(0, World::num_neighbors(&locals, x, y), "Should have no neighbors.");
                    assert_eq!(1, World::num_neighbors(&locals, x + 1, y), "Should have one neighbor.");
                    assert_eq!(1, World::num_neighbors(&locals, x, y + 1), "Should have one neighbor.");
                    assert_eq!(1, World::num_neighbors(&locals, x + 1, y + 1), "Should have one neighbor.");
                }
                //top right corner
                else if x == WIDTH_GAME_GRIDS - 1 {
                    assert_eq!(0, World::num_neighbors(&locals, x, y), "Should have no neighbors.");
                    assert_eq!(1, World::num_neighbors(&locals, x - 1, y), "Should have one neighbor.");
                    assert_eq!(1, World::num_neighbors(&locals, x - 1, y + 1), "Should have one neighbor.");
                    assert_eq!(1, World::num_neighbors(&locals, x, y + 1), "Should have one neighbor.");
                }
                //top row
                else {
                    assert_eq!(0, World::num_neighbors(&locals, x, y), "Should have no neighbors.");
                    assert_eq!(1, World::num_neighbors(&locals, x - 1, y), "Should have one neighbor.");
                    assert_eq!(1, World::num_neighbors(&locals, x + 1, y), "Should have one neighbor.");
                    assert_eq!(1, World::num_neighbors(&locals, x - 1, y + 1), "Should have one neighbor.");
                    assert_eq!(1, World::num_neighbors(&locals, x, y + 1), "Should have one neighbor.");
                    assert_eq!(1, World::num_neighbors(&locals, x + 1, y + 1), "Should have one neighbor.");
                }
            } else if y == HEIGHT_GAME_GRIDS - 1 {
                //bottom left corner
                if x == 0 {
                    assert_eq!(0, World::num_neighbors(&locals, x, y), "Should have no neighbors.");
                    assert_eq!(1, World::num_neighbors(&locals, x, y - 1), "Should have one neighbor.");
                    assert_eq!(1, World::num_neighbors(&locals, x + 1, y - 1), "Should have one neighbor.");
                    assert_eq!(1, World::num_neighbors(&locals, x + 1, y), "Should have one neighbor.");
                }
                //bottom right corner
                else if x == WIDTH_GAME_GRIDS - 1 {
                    assert_eq!(0, World::num_neighbors(&locals, x, y), "Should have no neighbors.");
                    assert_eq!(1, World::num_neighbors(&locals, x - 1, y - 1), "Should have one neighbor.");
                    assert_eq!(1, World::num_neighbors(&locals, x, y - 1), "Should have one neighbor.");
                    assert_eq!(1, World::num_neighbors(&locals, x - 1, y), "Should have one neighbor.");
                }
                //bottom row
                else {
                    assert_eq!(0, World::num_neighbors(&locals, x, y), "Should have no neighbors.");
                    assert_eq!(1, World::num_neighbors(&locals, x - 1, y - 1), "Should have one neighbor.");
                    assert_eq!(1, World::num_neighbors(&locals, x, y - 1), "Should have one neighbor.");
                    assert_eq!(1, World::num_neighbors(&locals, x + 1, y - 1), "Should have one neighbor.");
                    assert_eq!(1, World::num_neighbors(&locals, x - 1, y), "Should have one neighbor.");
                    assert_eq!(1, World::num_neighbors(&locals, x + 1, y), "Should have one neighbor.");
                }
            } else {
                //left column
                if x == 0 {
                    assert_eq!(0, World::num_neighbors(&locals, x, y), "Should have no neighbors.");
                    assert_eq!(1, World::num_neighbors(&locals, x, y - 1), "Should have one neighbor.");
                    assert_eq!(1, World::num_neighbors(&locals, x + 1, y - 1), "Should have one neighbor.");
                    assert_eq!(1, World::num_neighbors(&locals, x + 1, y), "Should have one neighbor.");
                    assert_eq!(1, World::num_neighbors(&locals, x, y + 1), "Should have one neighbor.");
                    assert_eq!(1, World::num_neighbors(&locals, x + 1, y + 1), "Should have one neighbor.");
                }
                //right column
                else if x == WIDTH_GAME_GRIDS - 1 {
                    assert_eq!(0, World::num_neighbors(&locals, x, y), "Should have no neighbors.");
                    assert_eq!(1, World::num_neighbors(&locals, x - 1, y - 1), "Should have one neighbor.");
                    assert_eq!(1, World::num_neighbors(&locals, x, y - 1), "Should have one neighbor.");
                    assert_eq!(1, World::num_neighbors(&locals, x - 1, y), "Should have one neighbor.");
                    assert_eq!(1, World::num_neighbors(&locals, x - 1, y + 1), "Should have one neighbor.");
                    assert_eq!(1, World::num_neighbors(&locals, x, y + 1), "Should have one neighbor.");
                }
                //Anywhere in the middle
                else {
                    assert_eq!(0, World::num_neighbors(&locals, x, y), "Should have no neighbors.");
                    assert_eq!(1, World::num_neighbors(&locals, x - 1, y - 1), "Should have one neighbor.");
                    assert_eq!(1, World::num_neighbors(&locals, x, y - 1), "Should have one neighbor.");
                    assert_eq!(1, World::num_neighbors(&locals, x + 1, y - 1), "Should have one neighbor.");
                    assert_eq!(1, World::num_neighbors(&locals, x - 1, y), "Should have one neighbor.");
                    assert_eq!(1, World::num_neighbors(&locals, x + 1, y), "Should have one neighbor.");
                    assert_eq!(1, World::num_neighbors(&locals, x - 1, y + 1), "Should have one neighbor.");
                    assert_eq!(1, World::num_neighbors(&locals, x, y + 1), "Should have one neighbor.");
                    assert_eq!(1, World::num_neighbors(&locals, x + 1, y + 1), "Should have one neighbor.");
                }
            }

            locals[y as usize][x as usize] = false;
        }
    }
}

#[test]
fn single_cell_neighbors_on_small_grid() {
    // Every position of a 3 by 3 grid, with the one live cell at each of the nine places in turn.
    for cy in 0..3i32 {
        for cx in 0..3i32 {
            let mut map = empty_map(3, 3);
            map[cy as usize][cx as usize] = true;
            for y in 0..3i32 {
                for x in 0..3i32 {
                    let expected = if x == cx && y == cy {
                        0
                    } else if (x - cx).abs() <= 1 && (y - cy).abs() <= 1 {
                        1
                    } else {
                        0
                    };
                    assert_eq!(expected, World::num_neighbors(&map, x, y));
                }
            }
        }
    }
}

#[test]
fn full_grid_neighbor_counts() {
    let map = vec![vec![true; 4]; 4];
    assert_eq!(3, World::num_neighbors(&map, 0, 0));
    assert_eq!(5, World::num_neighbors(&map, 1, 0));
    assert_eq!(5, World::num_neighbors(&map, 0, 2));
    assert_eq!(8, World::num_neighbors(&map, 1, 1));
    assert_eq!(3, World::num_neighbors(&map, 3, 3));
}

#[test]
fn isolated_cell_dies() {
    let mut map = empty_map(5, 4);
    map[2][3] = true;
    let mut world = World::set_all(map, 0, 1, 0);
    assert_eq!((1, 0, 1), world.update());
    assert!(live_cells(&world).is_empty());
}

#[test]
fn isolated_corner_cell_dies() {
    let mut map = empty_map(3, 3);
    map[0][0] = true;
    let mut world = World::set_all(map, 7, 1, 2);
    assert_eq!((8, 0, 3), world.update());
}

#[test]
fn blinker_oscillates_and_counters_accumulate() {
    let mut map = empty_map(5, 5);
    map[2][1] = true;
    map[2][2] = true;
    map[2][3] = true;
    let mut world = World::set_all(map, 0, 3, 0);
    assert_eq!((1, 3, 2), world.update());
    assert_eq!(vec![(2, 1), (2, 2), (2, 3)], live_cells(&world));
    assert_eq!((2, 3, 4), world.update());
    assert_eq!(vec![(1, 2), (2, 2), (3, 2)], live_cells(&world));
    assert_eq!((3, 3, 6), world.update());
}

#[test]
fn no_wraparound_at_corners() {
    let mut map = empty_map(6, 5);
    map[4][5] = true;
    map[0][0] = true;
    assert_eq!(0, World::num_neighbors(&map, 0, 0));
    assert_eq!(0, World::num_neighbors(&map, 5, 4));
    // Neither cell sees the other, so both die.
    let mut world = World::set_all(map, 0, 2, 0);
    assert_eq!((1, 0, 2), world.update());
}

#[test]
fn no_wraparound_across_edges() {
    let mut map = empty_map(6, 6);
    // A vertical line on the left edge: a torus would give the right edge neighbors.
    map[1][0] = true;
    map[2][0] = true;
    map[3][0] = true;
    assert_eq!(0, World::num_neighbors(&map, 5, 2));
    assert_eq!(1, World::num_neighbors(&map, 0, 0));
    assert_eq!(3, World::num_neighbors(&map, 1, 2));
    let mut world = World::set_all(map, 0, 3, 0);
    world.update();
    assert_eq!(vec![(0, 2), (1, 2)], live_cells(&world));
}

#[test]
fn is_alive_is_repeatable() {
    let mut map = empty_map(4, 3);
    map[1][2] = true;
    let world = World::set_all(map, 0, 1, 0);
    for _ in 0..5 {
        assert!(world.is_alive(2, 1));
        assert!(!world.is_alive(1, 2));
        assert!(!world.is_alive(0, 0));
    }
}

#[test]
fn block_is_still_life() {
    let mut map = empty_map(4, 4);
    map[1][1] = true;
    map[1][2] = true;
    map[2][1] = true;
    map[2][2] = true;
    let mut world = World::set_all(map, 0, 4, 0);
    assert_eq!((1, 4, 0), world.update());
    assert_eq!(vec![(1, 1), (2, 1), (1, 2), (2, 2)], live_cells(&world));
}

#[test]
fn update_is_simultaneous() {
    // Updating in place, row by row, would kill (1, 0) before (1, 1) and (0, 1)
    // were decided; from one snapshot the vertical blinker turns horizontal.
    let mut map = empty_map(3, 3);
    map[0][1] = true;
    map[1][1] = true;
    map[2][1] = true;
    let mut world = World::set_all(map, 0, 3, 0);
    assert_eq!((1, 3, 2), world.update());
    assert_eq!(vec![(0, 1), (1, 1), (2, 1)], live_cells(&world));
}

#[test]
fn birth_needs_exactly_three() {
    let mut map = empty_map(4, 4);
    map[0][0] = true;
    map[0][1] = true;
    map[1][0] = true;
    let mut world = World::set_all(map, 0, 3, 0);
    assert_eq!((1, 4, 0), world.update());
    assert!(world.is_alive(1, 1));
}

#[test]
fn overcrowded_cell_dies() {
    let mut map = empty_map(3, 3);
    map[1][1] = true;
    map[0][0] = true;
    map[0][2] = true;
    map[2][0] = true;
    map[2][2] = true;
    let mut world = World::set_all(map, 0, 5, 0);
    // The center has four neighbors and the corners one each: all five die.
    // Each edge midpoint has three and comes alive.
    assert_eq!((1, 4, 5), world.update());
    assert_eq!(vec![(1, 0), (0, 1), (2, 1), (1, 2)], live_cells(&world));
}

#[test]
fn new_world_counts_realized_cells() {
    for pop in [0, 1, 5, 50, 400] {
        let world = World::with_size(10, 8, pop);
        assert_eq!(8, world.height());
        assert_eq!(10, world.width());
        assert_eq!(0, world.generation());
        assert_eq!(0, world.dead());
        let cells = live_cells(&world).len() as i32;
        assert_eq!(cells, world.living());
        assert!(cells <= pop);
        if pop > 0 {
            assert!(cells >= 1);
        }
    }
}

#[test]
fn new_world_has_default_size() {
    let world = World::new(2000);
    assert_eq!(HEIGHT_GAME_GRIDS as usize, world.height());
    assert_eq!(WIDTH_GAME_GRIDS as usize, world.width());
    assert_eq!(live_cells(&world).len() as i32, world.living());
    assert!(world.living() >= 1 && world.living() <= 2000);
}

#[test]
fn negative_population_gives_empty_world() {
    let world = World::with_size(3, 3, -4);
    assert_eq!(0, world.living());
    assert!(live_cells(&world).is_empty());
}

#[test]
fn seeding_fills_a_single_cell_grid() {
    let world = World::with_size(1, 1, 10);
    assert_eq!(1, world.living());
    assert!(world.is_alive(0, 0));
}

#[test]
fn empty_grid_stays_empty() {
    let mut world = World::set_all(empty_map(7, 3), 0, 0, 0);
    assert_eq!((1, 0, 0), world.update());
    let mut none = World::set_all(Vec::new(), 4, 0, 0);
    assert_eq!((5, 0, 0), none.update());
    assert_eq!(0, none.width());
}

#[test]
fn can_update_guards_counters() {
    let map = empty_map(2, 2);
    assert!(World::set_all(map.clone(), 0, 0, 0).can_update());
    assert!(!World::set_all(map.clone(), i32::MAX, 0, 0).can_update());
    assert!(!World::set_all(map.clone(), 0, 0, i32::MAX - 3).can_update());
    assert!(World::set_all(map.clone(), 0, 0, i32::MAX - 4).can_update());
    assert!(!World::set_all(map.clone(), 0, i32::MIN + 3, 0).can_update());
    assert!(!World::set_all(map, 0, i32::MAX - 3, 0).can_update());
}

#[test]
fn seeded_marks_exactly_the_draws() {
    let draws = vec![(0, 0), (3, 2), (0, 0), (4, 1)];
    let world = World::seeded(5, 3, &draws);
    assert_eq!(vec![(0, 0), (4, 1), (3, 2)], live_cells(&world));
    assert_eq!(3, world.living());
    assert_eq!(0, world.generation());
    assert_eq!(0, world.dead());
    let empty = World::seeded(2, 2, &Vec::new());
    assert_eq!(0, empty.living());
    assert!(live_cells(&empty).is_empty());
}

#[test]
fn counters_accumulate_over_ticks() {
    let mut map = empty_map(6, 6);
    map[2][1] = true;
    map[2][2] = true;
    map[2][3] = true;
    let mut world = World::set_all(map, 0, 3, 0);
    for k in 1..=10 {
        assert_eq!((k, 3, 2 * k), world.update());
    }
}
