use game_of_life::game::Game;
use game_of_life::ui::{Frame, UiElem};
use game_of_life::params::{HEIGHT_GAME_GRIDS, INITIAL_POPULATION, POS_OPTION_X, POS_OPTION_Y, SIZE_GRID_PIXELS, WIDTH_GAME_GRIDS};

// A pixel inside the `line`-th option, counting from one.
fn option_pixel(line: i32) -> (i32, i32) {
    ((POS_OPTION_X + 6) * SIZE_GRID_PIXELS, (POS_OPTION_Y + 7 * line) * SIZE_GRID_PIXELS + 3)
}

#[test]
fn classic_layout() {
    let mut game = Game::classic();
    assert!(!game.paused);
    assert_eq!(HEIGHT_GAME_GRIDS as usize, game.game.height());
    assert_eq!(WIDTH_GAME_GRIDS as usize, game.game.width());
    assert!(game.game.living() >= 1 && game.game.living() <= INITIAL_POPULATION);
    assert_eq!("Stats".to_string(), game.stat.get_header());
    assert_eq!(3, game.stat.num_children());
    assert_eq!("Generation : ".to_string(), game.stat.nth_child(0).get_header());
    assert_eq!("Options".to_string(), game.option.get_header());
    assert_eq!("Pause".to_string(), game.option.nth_child(0).get_header());
    assert_eq!("Restart".to_string(), game.option.nth_child(1).get_header());
    assert_eq!(0, game.advanced.num_children());
}

#[test]
fn tick_shows_counters() {
    let mut game = Game::classic();
    assert!(game.update());
    assert_eq!(1, game.game.generation());
    let living = game.game.living();
    let dead = game.game.dead();
    assert_eq!("1".to_string(), game.stat.nth_child(0).get_text());
    assert_eq!(living.to_string(), game.stat.nth_child(1).get_text());
    assert_eq!(dead.to_string(), game.stat.nth_child(2).get_text());
    assert!(game.update());
    assert_eq!("2".to_string(), game.stat.nth_child(0).get_text());
}

#[test]
fn pause_and_start() {
    let mut game = Game::classic();
    let (x, y) = option_pixel(1);
    assert!(game.mouse_click(x, y));
    assert!(game.paused);
    assert_eq!("Start".to_string(), game.option.nth_child(0).get_header());
    // Paused: ticks change nothing.
    assert!(game.update());
    assert_eq!(0, game.game.generation());
    assert_eq!("".to_string(), game.stat.nth_child(0).get_text());
    assert!(game.mouse_click(x, y));
    assert!(!game.paused);
    assert_eq!("Pause".to_string(), game.option.nth_child(0).get_header());
    assert!(game.update());
    assert_eq!(1, game.game.generation());
}

#[test]
fn restart_makes_a_fresh_world() {
    let mut game = Game::classic();
    game.update();
    game.update();
    assert_eq!(2, game.game.generation());
    let (x, y) = option_pixel(2);
    assert!(game.mouse_click(x, y));
    assert_eq!(0, game.game.generation());
    assert_eq!(0, game.game.dead());
    assert_eq!("0".to_string(), game.stat.nth_child(0).get_text());
    assert_eq!(game.game.living().to_string(), game.stat.nth_child(1).get_text());
    assert_eq!("0".to_string(), game.stat.nth_child(2).get_text());
    assert!(!game.paused);
}

#[test]
fn click_elsewhere_takes_no_option() {
    let mut game = Game::classic();
    assert!(!game.mouse_click(3, 3));
    assert!(!game.mouse_click(-1, -1));
    assert!(!game.paused);
    assert_eq!(0, game.game.generation());
}

#[test]
fn restart_leaves_a_larger_stats_panel_alone() {
    let mut game = Game::classic();
    let frames: Vec<Frame> = (0..4).map(|i| Frame::new((0, 0), 1, 1, 0, i, "s".to_string(), "old")).collect();
    game.stat = UiElem::new((0, 0), 0, 0, "Stats".to_string(), frames);
    let (x, y) = option_pixel(2);
    assert!(game.mouse_click(x, y));
    assert_eq!(0, game.game.generation());
    for i in 0..4 {
        assert_eq!("old".to_string(), game.stat.nth_child(i).get_text());
    }
}
