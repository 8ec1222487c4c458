//! The level editor's decisions: brush size, placing and removing holes.
use crate::fixed::{add_spec, fx_add, fx_mul, mul_spec, ONE};
use crate::mode::{EditorState, Event};
use crate::objects::Hole;
use crate::rod::clamp_spec;
use crate::state::GameState;
use crate::vector::Vec2;
use vstd::prelude::*;

verus! {

/// The editor's controls at one substep.
#[derive(Clone, Copy, Debug)]
pub struct EditorInput {
    /// Mouse wheel movement, fixed-point.
    pub wheel: i64,
    /// Where on the table a hole is to be placed, if anywhere.
    pub click: Option<Vec2>,
    /// Finish editing.
    pub enter: bool,
    /// Take back the last hole.
    pub undo: bool,
}

/// Smallest and largest brush size.
pub const BRUSH_MIN: i64 = 8_000_000;

pub const BRUSH_MAX: i64 = 100_000_000;

/// Brush size units per unit of wheel movement.
pub const BRUSH_PER_WHEEL: i64 = 6_000_000;

/// Brush size per unit of hole radius.
pub const BRUSH_PER_RADIUS: i64 = 500;

/// The brush after the wheel moved by `wheel`: kept within its bounds, then
/// rounded to the nearest even whole size, halves up.
pub open spec fn brush_after(radius: int, wheel: int) -> int {
    let x = clamp_spec(add_spec(radius, mul_spec(wheel, BRUSH_PER_WHEEL as int)), BRUSH_MIN as int, BRUSH_MAX as int);
    (x + ONE) / (2 * ONE as int) * (2 * ONE)
}

/// Whether `new` is `old` with hole `h` added at the end of its holes.
pub open spec fn hole_added(new: GameState, old: GameState, h: Hole) -> bool {
    &&& new.level.holes@ == old.level.holes@.push(h)
    &&& new.level.goals == old.level.goals
    &&& new.level.background_image == old.level.background_image
    &&& new.level.level_file == old.level.level_file
    &&& new.objects == old.objects
    &&& new.progress == old.progress
    &&& new.camera == old.camera
}

/// `g2`, `e2` and event `r` are what one substep of `input` makes of the
/// game `g` and the brush `e`: the brush follows the wheel; then a click
/// places a hole of the brush's size, or else confirming closes the editor
/// (the caller keeps the level), or else an undo takes back the last hole.
pub open spec fn editor_step(
    g: GameState,
    e: EditorState,
    input: EditorInput,
    g2: GameState,
    e2: EditorState,
    r: Option<Event>,
) -> bool {
    &&& e2.radius == brush_after(e.radius as int, input.wheel as int)
    &&& match input.click {
        Some(p) => r.is_none() && hole_added(
            g2,
            g,
            Hole { pos: p, radius: (e2.radius / BRUSH_PER_RADIUS) as i64 },
        ),
        None => if input.enter {
            r == Some(Event::EditorClosed) && g2 == g
        } else if input.undo {
            &&& r.is_none()
            &&& g2.level.holes@ == if g.level.holes@.len() > 0 {
                g.level.holes@.drop_last()
            } else {
                g.level.holes@
            }
            &&& g2.level.goals == g.level.goals
            &&& g2.level.background_image == g.level.background_image
            &&& g2.level.level_file == g.level.level_file
            &&& g2.objects == g.objects
            &&& g2.progress == g.progress
            &&& g2.camera == g.camera
        } else {
            r.is_none() && g2 == g
        },
    }
}

/// One substep of the editor, as `editor_step` says.
pub fn update_editor(game: &mut GameState, editor: &mut EditorState, input: &EditorInput) -> (r: Option<Event>)
    ensures
        editor_step(*old(game), *old(editor), *input, *final(game), *final(editor), r),
{
    let x = fx_add(editor.radius, fx_mul(input.wheel, BRUSH_PER_WHEEL));
    let x = if x < BRUSH_MIN {
        BRUSH_MIN
    } else if x > BRUSH_MAX {
        BRUSH_MAX
    } else {
        x
    };
    editor.radius = (x + ONE) / (2 * ONE) * (2 * ONE);
    match input.click {
        Some(p) => {
            game.level.holes.push(Hole { pos: p, radius: editor.radius / BRUSH_PER_RADIUS });
            None
        },
        None => {
            if input.enter {
                Some(Event::EditorClosed)
            } else {
                if input.undo {
                    game.level.holes.pop();
                }
                None
            }
        },
    }
}

} // verus!
