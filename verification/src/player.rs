//! The player: position, derived bounding box, energy, and the clamped
//! response to directional input.

use vstd::prelude::*;
use crate::objects::Rect;

verus! {

/// One polled key event, already mapped from whatever input device the
/// caller reads.
#[derive(Debug, Clone, Copy, PartialEq, Eq, Structural)]
pub enum InputEvent {
    Up,
    Down,
    Left,
    Right,
    Skip,
    Quit,
    Idle,
}

/// The player-controlled ship.
#[derive(Debug)]
pub struct Player {
    pub pos: (i32, i32),
    pub bounds: Rect,
    pub disp_char: char,
    pub energy: i32,
}

impl Default for Player {
    /// The starting state: position (10, 10), its 3-by-2 bounding box,
    /// glyph 'o', full energy.
    fn default() -> (p: Self)
        ensures
            p.pos == (10i32, 10i32),
            p.bounds == (Rect { offset: (9, 10), bounds: (3, 2) }),
            p.disp_char == 'o',
            p.energy == 100,
    {
        let pos = (10, 10);
        Self {
            pos,
            bounds: Rect { offset: (pos.0 - 1, pos.1), bounds: (3, 2) },
            disp_char: 'o',
            energy: 100,
        }
    }
}

/// Machine limits under which the movement guards of `parse_input` can
/// be evaluated without overflow.
pub open spec fn area_ok_for_moves(area: Rect) -> bool {
    &&& area.wf()
    &&& area.spec_bottom() < i32::MAX
    &&& area.spec_left() < i32::MAX
    &&& i32::MIN + 2 <= area.spec_right()
}

/// Where one input event takes a position inside `area`: one cell in the
/// given direction when the move stays within the area's margins,
/// unchanged otherwise.  Non-directional events never move the position.
pub open spec fn stepped(pos: (int, int), c: InputEvent, area: Rect) -> (int, int) {
    match c {
        InputEvent::Up => if pos.1 > area.spec_top() {
            (pos.0, pos.1 - 1)
        } else {
            pos
        },
        InputEvent::Down => if pos.1 < area.spec_bottom() + 1 {
            (pos.0, pos.1 + 1)
        } else {
            pos
        },
        InputEvent::Left => if pos.0 > area.spec_left() + 1 {
            (pos.0 - 1, pos.1)
        } else {
            pos
        },
        InputEvent::Right => if pos.0 < area.spec_right() - 2 {
            (pos.0 + 1, pos.1)
        } else {
            pos
        },
        _ => pos,
    }
}

/// `n` repeated applications of the same input event.
pub open spec fn stepped_times(pos: (int, int), c: InputEvent, area: Rect, n: nat) -> (int, int)
    decreases n,
{
    if n == 0 {
        pos
    } else {
        stepped(stepped_times(pos, c, area, (n - 1) as nat), c, area)
    }
}

impl Player {
    /// Applies one input event to the position, clamped to `game_area`;
    /// events other than the four directions are ignored.
    pub fn parse_input(&mut self, c: InputEvent, game_area: &Rect)
        requires
            area_ok_for_moves(*game_area),
        ensures
            (final(self).pos.0 as int, final(self).pos.1 as int) == stepped(
                (old(self).pos.0 as int, old(self).pos.1 as int),
                c,
                *game_area,
            ),
            final(self).bounds == old(self).bounds,
            final(self).disp_char == old(self).disp_char,
            final(self).energy == old(self).energy,
    {
        match c {
            InputEvent::Up => {
                if self.pos.1 > game_area.top() {
                    self.pos.1 -= 1;
                }
            },
            InputEvent::Down => {
                if self.pos.1 < game_area.bottom() + 1 {
                    self.pos.1 += 1
                }
            },
            InputEvent::Left => {
                if self.pos.0 > game_area.left() + 1 {
                    self.pos.0 -= 1;
                }
            },
            InputEvent::Right => {
                if self.pos.0 < game_area.right() - 2 {
                    self.pos.0 += 1
                }
            },
            _ => (),
        }
    }

    /// Recomputes the bounding box from the position: 3 cells wide
    /// centred on the position, 2 cells tall starting at its row.
    pub fn update_bounds(&mut self)
        requires
            i32::MIN < old(self).pos.0,
            old(self).pos.0 + 2 <= i32::MAX,
            old(self).pos.1 + 2 <= i32::MAX,
        ensures
            final(self).bounds.offset.0 == old(self).pos.0 - 1,
            final(self).bounds.offset.1 == old(self).pos.1,
            final(self).bounds.bounds == (3i32, 2i32),
            final(self).bounds.wf(),
            final(self).pos == old(self).pos,
            final(self).disp_char == old(self).disp_char,
            final(self).energy == old(self).energy,
    {
        self.bounds = Rect { offset: (self.pos.0 - 1, self.pos.1), bounds: (3, 2) };
    }
}

/// Moving up is clamped at the area's top row: `n` repeated upward
/// moves from any row at or below the top edge land exactly `n` rows
/// higher until the top row is reached, and on the top row — never
/// above it — from then on.  In particular, once `n` reaches the
/// distance to the top edge, the row is exactly `area.spec_top()` and
/// further presses change nothing.
pub proof fn lemma_up_stops_at_top(pos: (int, int), area: Rect, n: nat)
    requires
        pos.1 >= area.spec_top(),
    ensures
        stepped_times(pos, InputEvent::Up, area, n).0 == pos.0,
        stepped_times(pos, InputEvent::Up, area, n).1 == (if pos.1 - n >= area.spec_top() {
            pos.1 - n
        } else {
            area.spec_top()
        }),
    decreases n,
{
    if n > 0 {
        lemma_up_stops_at_top(pos, area, (n - 1) as nat);
    }
}

/// Moving right is clamped two cells short of the area's right edge:
/// `n` repeated rightward moves from any column at or left of that
/// margin land exactly `n` columns further until the margin is reached,
/// and on column `area.spec_right() - 2` — never past it — from then
/// on.  In particular, once `n` reaches the distance to the margin, the
/// column is exactly `area.spec_right() - 2` and further presses change
/// nothing.
pub proof fn lemma_right_stops_at_margin(pos: (int, int), area: Rect, n: nat)
    requires
        pos.0 <= area.spec_right() - 2,
    ensures
        stepped_times(pos, InputEvent::Right, area, n).1 == pos.1,
        stepped_times(pos, InputEvent::Right, area, n).0 == (if pos.0 + n <= area.spec_right()
            - 2 {
            pos.0 + n
        } else {
            area.spec_right() - 2
        }),
    decreases n,
{
    if n > 0 {
        lemma_right_stops_at_margin(pos, area, (n - 1) as nat);
    }
}

} // verus!
