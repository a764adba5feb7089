//! The per-tick decisions of the game loop: screen layout, update
//! cadences, collision handling, game-over and replay.

use vstd::prelude::*;
use crate::objects::{lemma_advanced_len, survivors, update_shape, ObjectField, Rect};
use crate::player::{area_ok_for_moves, stepped, InputEvent, Player};

verus! {

/// Rows reserved at the bottom of the screen for the info panel.
pub const INFOPANEL_HEIGHT: i32 = 4;

/// The whole terminal surface assumed by the game: 80 by 24 cells at the
/// origin.
pub fn screen_area() -> (r: Rect)
    ensures
        r.offset == (0i32, 0i32),
        r.bounds == (80i32, 24i32),
        r.wf(),
{
    Rect { offset: (0, 0), bounds: (80, 24) }
}

/// The playable region derived from the screen: one column inside each
/// vertical frame edge, with the info panel and frame rows taken off the
/// height.
pub fn game_area_for(screen: Rect) -> (r: Rect)
    requires
        screen.wf(),
        screen.spec_width() >= 2,
        screen.spec_height() >= INFOPANEL_HEIGHT + 4,
    ensures
        r.offset == (0i32, 0i32),
        r.bounds.0 == screen.spec_width() - 2,
        r.bounds.1 == screen.spec_height() - INFOPANEL_HEIGHT - 4,
        r.wf(),
{
    Rect {
        offset: (0, 0),
        bounds: (screen.width() - 2, screen.height() - INFOPANEL_HEIGHT - 4),
    }
}

/// Colour-pair choice for one segment of the energy bar, keyed by the
/// segment's position along the meter.
pub fn energy_bar_color(i: i32) -> (c: i16)
    ensures
        c == (if i > 100 {
            5i16
        } else if i > 50 {
            2i16
        } else if i > 25 {
            3i16
        } else {
            4i16
        }),
{
    if i > 100 {
        5
    } else if i > 50 {
        2
    } else if i > 25 {
        3
    } else {
        4
    }
}

/// The background stars scroll on every seventh tick.
pub open spec fn stars_due(tick: int) -> bool {
    tick % 7 == 0
}

/// The hazards advance on every twentieth tick, and only after a
/// ramp-up grace period of 100 ticks.
pub open spec fn asteroids_due(tick: int) -> bool {
    tick > 100 && tick % 20 == 0
}

/// During the intro, the stars scroll on every fiftieth tick.
pub fn intro_stars_due(tick: i32) -> (r: bool)
    requires
        0 <= tick,
    ensures
        r == (tick as int % 50 == 0),
{
    tick % 50 == 0
}

/// Machine limits under which one play tick cannot move the player's
/// coordinates out of `i32`.
pub open spec fn pos_in_range(pos: (i32, i32)) -> bool {
    &&& i32::MIN + 2 <= pos.0
    &&& pos.0 + 3 <= i32::MAX
    &&& pos.1 + 3 <= i32::MAX
}

/// One play-phase step of the hazard field: when `due`, one field
/// update takes the objects from `pre` to a middle state `mid`
/// (`update_shape`), else `mid` is `pre` itself; then a collision pass
/// against `r` leaves `post`, and each object removed by that pass
/// costs 10 energy.
pub open spec fn hazard_step(
    pre: Seq<(int, int)>,
    mid: Seq<(int, int)>,
    post: Seq<(int, int)>,
    due: bool,
    b: Rect,
    r: Rect,
    e0: int,
    e1: int,
) -> bool {
    &&& (if due {
        update_shape(mid, pre, b)
    } else {
        mid == pre
    })
    &&& post == survivors(mid, r)
    &&& e1 == e0 - 10 * (mid.len() - post.len())
}

/// Progress through the intro narrative: which line is being shown, and
/// how many of its characters have been revealed.
#[derive(Debug, Clone, Copy, PartialEq, Eq, Structural)]
pub struct StoryState {
    pub part: usize,
    pub position: usize,
}

impl StoryState {
    pub fn new() -> (s: Self)
        ensures
            s.part == 0,
            s.position == 0,
    {
        Self { part: 0, position: 0 }
    }

    /// One intro tick on a line of `line_len` characters: reveals one
    /// more character while the line is not yet complete.  Returns
    /// whether a character was revealed this tick.
    pub fn reveal_step(&mut self, line_len: usize) -> (revealed: bool)
        ensures
            revealed == (old(self).position < line_len),
            final(self).part == old(self).part,
            final(self).position == (if old(self).position < line_len {
                old(self).position + 1
            } else {
                old(self).position as int
            }),
    {
        if self.position < line_len {
            self.position += 1;
            true
        } else {
            false
        }
    }

    /// The skip key: jumps to the start of the next line.
    pub fn skip(&mut self)
        requires
            old(self).part < usize::MAX,
        ensures
            final(self).part == old(self).part + 1,
            final(self).position == 0,
    {
        self.part += 1;
        self.position = 0;
    }

    /// The intro is over once every one of the `line_count` lines has
    /// been skipped past.
    pub fn finished(&self, line_count: usize) -> (r: bool)
        ensures
            r == (self.part >= line_count),
    {
        self.part >= line_count
    }
}

/// The play-phase state: the tick counter, the player, the two object
/// fields, and whether the game has ended.
#[derive(Debug)]
pub struct GameState {
    pub tick: i32,
    pub player: Player,
    pub stars: ObjectField,
    pub asteroids: ObjectField,
    pub game_over: bool,
}

impl GameState {
    /// A fresh game over `game_area`: tick zero, the default player,
    /// and both fields empty.
    pub fn new(game_area: Rect) -> (g: Self)
        ensures
            g.tick == 0,
            g.game_over == false,
            g.player.pos == (10i32, 10i32),
            g.player.bounds == (Rect { offset: (9, 10), bounds: (3, 2) }),
            g.player.energy == 100,
            g.player.disp_char == 'o',
            g.stars.spec_bounds() == game_area,
            g.stars.objects().len() == 0,
            g.asteroids.spec_bounds() == game_area,
            g.asteroids.objects().len() == 0,
    {
        Self {
            tick: 0,
            player: Player::default(),
            stars: ObjectField::new(game_area, Vec::new()),
            asteroids: ObjectField::new(game_area, Vec::new()),
            game_over: false,
        }
    }

    /// One tick of the play phase: the input event moves the player
    /// (clamped to `game_area`); each field updates when its cadence is
    /// due; the player's bounding box is recomputed; every hazard inside
    /// it is removed at a cost of 10 energy each; the game ends when the
    /// energy reaches zero or below; and the tick counter advances.
    pub fn play_tick(&mut self, input: InputEvent, game_area: &Rect)
        requires
            area_ok_for_moves(*game_area),
            pos_in_range(old(self).player.pos),
            old(self).stars.spec_bounds().wf(),
            0 < old(self).stars.spec_bounds().spec_width(),
            old(self).asteroids.spec_bounds().wf(),
            0 < old(self).asteroids.spec_bounds().spec_width(),
            0 <= old(self).tick < i32::MAX,
            old(self).player.energy - 10 * (old(self).asteroids.objects().len() + 1) >= i32::MIN,
        ensures
            final(self).tick == old(self).tick + 1,
            (final(self).player.pos.0 as int, final(self).player.pos.1 as int) == stepped(
                (old(self).player.pos.0 as int, old(self).player.pos.1 as int),
                input,
                *game_area,
            ),
            final(self).player.disp_char == old(self).player.disp_char,
            final(self).player.bounds.offset.0 == final(self).player.pos.0 - 1,
            final(self).player.bounds.offset.1 == final(self).player.pos.1,
            final(self).player.bounds.bounds == (3i32, 2i32),
            final(self).player.bounds.wf(),
            final(self).stars.spec_bounds() == old(self).stars.spec_bounds(),
            stars_due(old(self).tick as int) ==> update_shape(
                final(self).stars.objects(),
                old(self).stars.objects(),
                old(self).stars.spec_bounds(),
            ),
            !stars_due(old(self).tick as int) ==> final(self).stars.objects() == old(
                self,
            ).stars.objects(),
            final(self).asteroids.spec_bounds() == old(self).asteroids.spec_bounds(),
            exists|mid: Seq<(int, int)>|
                hazard_step(
                    old(self).asteroids.objects(),
                    mid,
                    final(self).asteroids.objects(),
                    asteroids_due(old(self).tick as int),
                    old(self).asteroids.spec_bounds(),
                    final(self).player.bounds,
                    old(self).player.energy as int,
                    final(self).player.energy as int,
                ),
            final(self).game_over == (old(self).game_over || final(self).player.energy <= 0),
    {
        self.player.parse_input(input, game_area);
        if self.tick % 7 == 0 {
            self.stars.update();
        }
        if self.tick > 100 && self.tick % 20 == 0 {
            self.asteroids.update();
        }
        self.player.update_bounds();
        proof {
            lemma_advanced_len(
                old(self).asteroids.objects(),
                old(self).asteroids.spec_bounds().spec_bottom(),
            );
        }
        let ghost mid: Seq<(int, int)> = self.asteroids.objects();
        self.asteroids.remove_hits(&self.player.bounds, &mut self.player.energy);
        if self.player.energy <= 0 {
            self.game_over = true;
        }
        self.tick = self.tick + 1;
        proof {
            assert(hazard_step(
                old(self).asteroids.objects(),
                mid,
                self.asteroids.objects(),
                asteroids_due(old(self).tick as int),
                old(self).asteroids.spec_bounds(),
                self.player.bounds,
                old(self).player.energy as int,
                self.player.energy as int,
            ));
        }
    }

    /// The replay action from the game-over screen: the tick counter,
    /// the player's position and energy return to their starting
    /// values, both fields are emptied, and play resumes.
    pub fn reset(&mut self)
        ensures
            final(self).tick == 0,
            final(self).game_over == false,
            final(self).player.pos == (10i32, 10i32),
            final(self).player.energy == 100,
            final(self).player.bounds == old(self).player.bounds,
            final(self).player.disp_char == old(self).player.disp_char,
            final(self).stars.spec_bounds() == old(self).stars.spec_bounds(),
            final(self).stars.objects().len() == 0,
            final(self).asteroids.spec_bounds() == old(self).asteroids.spec_bounds(),
            final(self).asteroids.objects().len() == 0,
    {
        self.tick = 0;
        self.player.pos = (10, 10);
        self.player.energy = 100;
        self.stars.clear();
        self.asteroids.clear();
        self.game_over = false;
    }
}

} // verus!
