//! The program's state between frames: the world, the three panels and the
//! pause flag, with what happens on each tick and on each click. Timing,
//! drawing and the window belong to the host.
use crate::count::count_grid;
use crate::gol::{counters_have_room, step_state, World, WorldState};
use crate::params::{
    HEIGHT_ADVANCED_GRIDS, HEIGHT_GAME_GRIDS, HEIGHT_OPTION_GRIDS, HEIGHT_STAT_GRIDS, HEIGHT_UI_LINE,
    INITIAL_POPULATION, POS_ADVANCED_X, POS_ADVANCED_Y, POS_OPTION_X, POS_OPTION_Y, POS_STAT_X,
    POS_STAT_Y, WIDTH_ADVANCED_GRIDS, WIDTH_GAME_GRIDS, WIDTH_OPTION_GRIDS, WIDTH_STAT_GRIDS,
    WIDTH_UI_INDENT,
};
use crate::ui::{first_covering, click_result, Frame, FrameView, UiElem};
use vstd::prelude::*;

verus! {

/// The character of a decimal digit.
pub open spec fn digit_char(d: nat) -> char {
    seq!['0', '1', '2', '3', '4', '5', '6', '7', '8', '9'][d as int]
}

/// The decimal digits of `n`, most significant first, without leading zeros.
pub open spec fn digits(n: nat) -> Seq<char>
    decreases n,
{
    if n < 10 {
        seq![digit_char(n)]
    } else {
        digits(n / 10).push(digit_char(n % 10))
    }
}

/// `n` written in decimal, with a leading minus sign when negative.
pub open spec fn decimal(n: int) -> Seq<char> {
    if n < 0 {
        seq!['-'] + digits((-n) as nat)
    } else {
        digits(n as nat)
    }
}

/// Relies on `i32`'s `Display`, through `ToString::to_string`: the number in
/// decimal, with a minus sign when negative.
#[verifier::external_body]
fn decimal_text(n: i32) -> (r: String)
    ensures
        r@ == decimal(n as int),
{
    n.to_string()
}

/// The texts the statistics panel shows for a world: generation, living
/// and dead.
pub open spec fn stat_texts(s: WorldState) -> Seq<Seq<char>> {
    seq![decimal(s.generation), decimal(s.living), decimal(s.dead)]
}

/// `t` is the frames `s` with the texts `texts`, one for each.
pub open spec fn with_texts(s: Seq<Frame>, t: Seq<Frame>, texts: Seq<Seq<char>>) -> bool {
    &&& t.len() == s.len()
    &&& forall|i: int| 0 <= i < s.len() ==> #[trigger] t[i]@ == (FrameView { text: texts[i], ..s[i]@ })
}

/// A panel frame of the default layout: `line` lines down from the top of
/// the panel at `(x, y)`.
pub open spec fn panel_line(x: int, y: int, line: int, header: Seq<char>) -> FrameView {
    FrameView {
        x: x + WIDTH_UI_INDENT,
        y: y + line * HEIGHT_UI_LINE,
        height: HEIGHT_UI_LINE as int,
        width: WIDTH_STAT_GRIDS - WIDTH_UI_INDENT,
        header: header,
        text: Seq::empty(),
    }
}

/// A freshly seeded world of the default size.
pub open spec fn fresh_world(w: World) -> bool {
    &&& w.wf()
    &&& w@.map.len() == HEIGHT_GAME_GRIDS
    &&& forall|y: int| 0 <= y < w@.map.len() ==> #[trigger] w@.map[y].len() == WIDTH_GAME_GRIDS
    &&& w@.generation == 0
    &&& w@.dead == 0
    &&& w@.living == count_grid(w@.map)
    &&& 1 <= w@.living <= INITIAL_POPULATION
}

/// The header of the option that a click at `(px, py)` hits, if any.
pub open spec fn option_taken(g: Game, px: int, py: int) -> Option<Seq<char>> {
    let s = g.option.children();
    let k = first_covering(s, px, py);
    if k < s.len() {
        Some(s[k]@.header)
    } else {
        None
    }
}

/// The world and its panels.
pub struct Game {
    pub game: World,
    pub option: UiElem<Frame>,
    pub stat: UiElem<Frame>,
    pub advanced: UiElem<Frame>,
    pub paused: bool,
}

impl Game {
    /// A running game with classic rules: a fresh world, the statistics
    /// panel (generation, living, fatalities), the options panel (pause,
    /// restart) and an empty advanced options panel.
    pub fn classic() -> (r: Game)
        ensures
            fresh_world(r.game),
            !r.paused,
            r.stat.position() == (POS_STAT_X, POS_STAT_Y),
            r.stat.header() == "Stats"@,
            r.stat.children().len() == 3,
            r.stat.children()[0]@ == panel_line(POS_STAT_X as int, POS_STAT_Y as int, 1, "Generation : "@),
            r.stat.children()[1]@ == panel_line(POS_STAT_X as int, POS_STAT_Y as int, 2, "Living         : "@),
            r.stat.children()[2]@ == panel_line(POS_STAT_X as int, POS_STAT_Y as int, 3, "Fatalities   : "@),
            r.option.position() == (POS_OPTION_X, POS_OPTION_Y),
            r.option.header() == "Options"@,
            r.option.children().len() == 2,
            r.option.children()[0]@ == panel_line(POS_OPTION_X as int, POS_OPTION_Y as int, 1, "Pause"@),
            r.option.children()[1]@ == panel_line(POS_OPTION_X as int, POS_OPTION_Y as int, 2, "Restart"@),
            r.advanced.position() == (POS_ADVANCED_X, POS_ADVANCED_Y),
            r.advanced.header() == "Advanced Options"@,
            r.advanced.children().len() == 0,
    {
        proof {
            reveal_strlit("");
            assert(""@ =~= Seq::<char>::empty());
        }
        let stat_pos = (POS_STAT_X, POS_STAT_Y);
        let option_pos = (POS_OPTION_X, POS_OPTION_Y);
        let width = WIDTH_STAT_GRIDS - WIDTH_UI_INDENT;
        let generation = Frame::new(
            stat_pos,
            HEIGHT_UI_LINE,
            width,
            WIDTH_UI_INDENT,
            HEIGHT_UI_LINE,
            "Generation : ".to_string(),
            "",
        );
        let living = Frame::new(
            stat_pos,
            HEIGHT_UI_LINE,
            width,
            WIDTH_UI_INDENT,
            2 * HEIGHT_UI_LINE,
            "Living         : ".to_string(),
            "",
        );
        let fatalities = Frame::new(
            stat_pos,
            HEIGHT_UI_LINE,
            width,
            WIDTH_UI_INDENT,
            3 * HEIGHT_UI_LINE,
            "Fatalities   : ".to_string(),
            "",
        );
        let statelem = UiElem::new(
            stat_pos,
            HEIGHT_STAT_GRIDS,
            width,
            "Stats".to_string(),
            vec![generation, living, fatalities],
        );
        let optionelem = UiElem::new(
            option_pos,
            HEIGHT_OPTION_GRIDS,
            WIDTH_OPTION_GRIDS - WIDTH_UI_INDENT,
            "Options".to_string(),
            vec![
                Frame::new(option_pos, HEIGHT_UI_LINE, width, WIDTH_UI_INDENT, HEIGHT_UI_LINE, "Pause".to_string(), ""),
                Frame::new(option_pos, HEIGHT_UI_LINE, width, WIDTH_UI_INDENT, 2 * HEIGHT_UI_LINE, "Restart".to_string(), ""),
            ],
        );
        let advancedelem = UiElem::new(
            (POS_ADVANCED_X, POS_ADVANCED_Y),
            HEIGHT_ADVANCED_GRIDS,
            WIDTH_ADVANCED_GRIDS - WIDTH_UI_INDENT,
            "Advanced Options".to_string(),
            Vec::new(),
        );
        Game {
            game: World::new(INITIAL_POPULATION),
            option: optionelem,
            stat: statelem,
            advanced: advancedelem,
            paused: false,
        }
    }

    /// Shows the counters of the world in the statistics panel.
    fn show_counters(&mut self, counts: (i32, i32, i32))
        requires
            old(self).stat.children().len() <= 3,
        ensures
            final(self).game == old(self).game,
            final(self).option == old(self).option,
            final(self).advanced == old(self).advanced,
            final(self).paused == old(self).paused,
            final(self).stat.position() == old(self).stat.position(),
            final(self).stat.header() == old(self).stat.header(),
            with_texts(
                old(self).stat.children(),
                final(self).stat.children(),
                seq![decimal(counts.0 as int), decimal(counts.1 as int), decimal(counts.2 as int)],
            ),
    {
        let texts = vec![decimal_text(counts.0), decimal_text(counts.1), decimal_text(counts.2)];
        self.stat.update(Some(texts));
    }

    /// One tick: unless paused, advances the world by one generation and
    /// shows its counters. Returns false, changing nothing, when the
    /// counters have no room for another generation.
    pub fn update(&mut self) -> (r: bool)
        requires
            old(self).game.wf(),
            old(self).stat.children().len() <= 3,
        ensures
            old(self).paused ==> r && *final(self) == *old(self),
            !old(self).paused && !counters_have_room(old(self).game@) ==> !r && *final(self) == *old(self),
            !old(self).paused && counters_have_room(old(self).game@) ==> {
                &&& r
                &&& final(self).game.wf()
                &&& final(self).game@ == step_state(old(self).game@)
                &&& with_texts(old(self).stat.children(), final(self).stat.children(), stat_texts(final(self).game@))
                &&& final(self).stat.position() == old(self).stat.position()
                &&& final(self).stat.header() == old(self).stat.header()
                &&& final(self).option == old(self).option
                &&& final(self).advanced == old(self).advanced
                &&& final(self).paused == old(self).paused
            },
    {
        if self.paused {
            return true;
        }
        if !self.game.can_update() {
            return false;
        }
        let counts = self.game.update();
        self.show_counters(counts);
        true
    }

    /// A click at pixel `(x, y)`. On the options panel, "Pause" pauses,
    /// "Start" resumes and "Restart" replaces the world with a fresh one and
    /// shows its counters; a click elsewhere goes to the statistics panel,
    /// and past it to the advanced panel. Returns whether an option was
    /// taken, so that the host redraws. A statistics panel with more than
    /// the three counter lines is left as it is.
    pub fn mouse_click(&mut self, x: i32, y: i32) -> (r: bool)
        ensures
            click_result(old(self).option.children(), final(self).option.children(), x as int, y as int),
            final(self).option.position() == old(self).option.position(),
            final(self).option.header() == old(self).option.header(),
            r == (option_taken(*old(self), x as int, y as int) == Some("Pause"@) || option_taken(
                *old(self),
                x as int,
                y as int,
            ) == Some("Start"@) || option_taken(*old(self), x as int, y as int) == Some("Restart"@)),
            option_taken(*old(self), x as int, y as int) == Some("Pause"@) ==> final(self).paused,
            option_taken(*old(self), x as int, y as int) == Some("Start"@) ==> !final(self).paused,
            option_taken(*old(self), x as int, y as int) != Some("Pause"@) && option_taken(
                *old(self),
                x as int,
                y as int,
            ) != Some("Start"@) ==> final(self).paused == old(self).paused,
            option_taken(*old(self), x as int, y as int) == Some("Restart"@) ==> fresh_world(final(self).game),
            option_taken(*old(self), x as int, y as int) == Some("Restart"@) && old(self).stat.children().len() <= 3
                ==> with_texts(old(self).stat.children(), final(self).stat.children(), stat_texts(final(self).game@)),
            option_taken(*old(self), x as int, y as int) == Some("Restart"@) && old(self).stat.children().len() > 3
                ==> final(self).stat == old(self).stat,
            option_taken(*old(self), x as int, y as int) != Some("Restart"@) ==> final(self).game == old(self).game,
            option_taken(*old(self), x as int, y as int) is Some && option_taken(*old(self), x as int, y as int)
                != Some("Restart"@) ==> final(self).stat == old(self).stat,
            option_taken(*old(self), x as int, y as int) is Some ==> final(self).advanced == old(self).advanced,
            option_taken(*old(self), x as int, y as int) is None ==> click_result(
                old(self).stat.children(),
                final(self).stat.children(),
                x as int,
                y as int,
            ),
            option_taken(*old(self), x as int, y as int) is None && first_covering(
                old(self).stat.children(),
                x as int,
                y as int,
            ) == old(self).stat.children().len() ==> click_result(
                old(self).advanced.children(),
                final(self).advanced.children(),
                x as int,
                y as int,
            ),
            option_taken(*old(self), x as int, y as int) is None && first_covering(
                old(self).stat.children(),
                x as int,
                y as int,
            ) < old(self).stat.children().len() ==> final(self).advanced == old(self).advanced,
    {
        proof {
            reveal_strlit("Pause");
            reveal_strlit("Start");
            reveal_strlit("Restart");
            assert("Pause"@[0] != "Start"@[0]);
            assert("Pause"@.len() != "Restart"@.len());
            assert("Start"@.len() != "Restart"@.len());
        }
        match self.option.mouse_click(x, y) {
            Some(header) => {
                if header == "Pause".to_string() {
                    self.paused = true;
                    true
                } else if header == "Start".to_string() {
                    self.paused = false;
                    true
                } else if header == "Restart".to_string() {
                    self.game = World::new(INITIAL_POPULATION);
                    if self.stat.num_children() <= 3 {
                        let counts = (0, self.game.living(), 0);
                        self.show_counters(counts);
                    }
                    true
                } else {
                    false
                }
            },
            None => {
                match self.stat.mouse_click(x, y) {
                    Some(_) => {},
                    None => {
                        let _ = self.advanced.mouse_click(x, y);
                    },
                }
                false
            },
        }
    }
}

} // verus!
