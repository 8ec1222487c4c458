//! One substep of play: the physics pipeline, then the round's outcome.
use crate::balls::{integrate_spec, update_balls};
use crate::level::{edge_step, hole_step, update_level};
use crate::mode::Event;
use crate::objects::{Ball, BallView, Input, Table, BALL_RADIUS, TABLE_WIDTH};
use crate::rod::{rod_step, update_actuators, update_rod_physics};
use crate::state::{goal_hole, GameProgressState, GameState};
use vstd::prelude::*;

verus! {

/// A ball in play that has sunk past two ball radii below the table while a
/// hole holds it.
pub open spec fn sunk(b: BallView, br: int) -> bool {
    b.active && b.pos.z < -2 * br && b.in_hole.is_some()
}

/// Ball `k` is the first sunk ball of the list.
pub open spec fn first_sunk(balls: Seq<Ball>, k: int, br: int) -> bool {
    &&& 0 <= k < balls.len()
    &&& sunk(balls[k]@, br)
    &&& forall|j: int| 0 <= j < k ==> !sunk(#[trigger] balls[j]@, br)
}

/// The event that a ball sunk in `hole` brings: the goal hole completes the
/// round, or the game after its last goal; another hole loses the round, or
/// ends the game when no ball is left.
pub open spec fn outcome_event(hole: usize, p: GameProgressState, goals: Seq<usize>) -> Event {
    if hole == goal_hole(goals, p.goal_index) {
        if p.goal_index + 1 >= goals.len() {
            Event::GameCompleted
        } else {
            Event::RoundCompleted
        }
    } else if p.balls_left == 0 {
        Event::GameEnded
    } else {
        Event::RoundLost
    }
}

/// The progress after a ball sinks in `hole`: a lost round costs a ball.
pub open spec fn outcome_progress(hole: usize, p: GameProgressState, goals: Seq<usize>) -> GameProgressState {
    if hole != goal_hole(goals, p.goal_index) && p.balls_left > 0 {
        GameProgressState { balls_left: (p.balls_left - 1) as u16, ..p }
    } else {
        p
    }
}

/// The outcome rule from `balls` and `p` to `balls2`, `p_after` and event `r`:
/// the first sunk ball, if any, leaves play and decides the event;
/// otherwise nothing changes and there is no event.
pub open spec fn outcome(
    balls: Seq<Ball>,
    p: GameProgressState,
    goals: Seq<usize>,
    br: int,
    balls2: Seq<Ball>,
    p_after: GameProgressState,
    r: Option<Event>,
) -> bool {
    &&& balls2.len() == balls.len()
    &&& match r {
        None => {
            &&& forall|i: int| 0 <= i < balls.len() ==> !sunk(#[trigger] balls[i]@, br)
            &&& balls2 == balls
            &&& p_after == p
        },
        Some(e) => exists|k: int|
            {
                &&& #[trigger] first_sunk(balls, k, br)
                &&& e == outcome_event(balls[k]@.in_hole.unwrap(), p, goals)
                &&& p_after == outcome_progress(balls[k]@.in_hole.unwrap(), p, goals)
                &&& balls2[k]@ == BallView { active: false, ..balls[k]@ }
                &&& forall|j: int| 0 <= j < balls.len() && j != k ==> balls2[j] == balls[j]
            },
    }
}

/// Looks for the first sunk ball, takes it out of play, and says what its
/// hole means for the game.
pub fn evaluate_outcome(game: &mut GameState, table: &Table) -> (r: Option<Event>)
    ensures
        outcome(
            old(game).objects.balls@,
            old(game).progress,
            old(game).level.goals@,
            table.ball_radius as int,
            final(game).objects.balls@,
            final(game).progress,
            r,
        ),
        final(game).objects.actuators == old(game).objects.actuators,
        final(game).camera == old(game).camera,
        final(game).level == old(game).level,
{
    let ghost br = table.ball_radius as int;
    let depth: i128 = -2 * (table.ball_radius as i128);
    let mut i: usize = 0;
    while i < game.objects.balls.len()
        invariant
            i <= game.objects.balls@.len(),
            *game == *old(game),
            depth == -2 * br,
            br == table.ball_radius,
            forall|j: int| 0 <= j < i ==> !sunk(#[trigger] game.objects.balls@[j]@, br),
        decreases game.objects.balls@.len() - i,
    {
        let b = &game.objects.balls[i];
        if b.active && (b.pos.z as i128) < depth && b.in_hole.is_some() {
            let hole = b.in_hole.unwrap();
            assert(first_sunk(old(game).objects.balls@, i as int, br));
            let goal = game.get_goal_hole();
            let event;
            if hole == goal {
                if game.progress.goal_index as u128 + 1 >= game.level.goals.len() as u128 {
                    event = Event::GameCompleted;
                } else {
                    event = Event::RoundCompleted;
                }
            } else if game.progress.balls_left == 0 {
                event = Event::GameEnded;
            } else {
                game.progress.balls_left = game.progress.balls_left - 1;
                event = Event::RoundLost;
            }
            game.objects.balls[i].active = false;
            return Some(event);
        }
        i = i + 1;
    }
    None
}

/// One ball through the physics of one substep: rod, edges, holes, then
/// integration.
pub open spec fn substep_ball(
    b: BallView,
    a: [crate::objects::Actuator; 2],
    holes: Seq<crate::objects::Hole>,
    t: Table,
    dt: int,
) -> BallView {
    let br = t.ball_radius as int;
    integrate_spec(hole_step(edge_step(rod_step(b, a, br), t), holes, br), dt)
}

/// `g2` and event `r` are what one substep of `dt` under `input` makes of
/// game `g`: the actuators step, every ball goes through `substep_ball`,
/// and the outcome rule reads the result.
pub open spec fn game_step(g: GameState, input: Input, dt: int, g2: GameState, r: Option<Event>) -> bool {
    &&& g2.objects.actuators[0] == crate::rod::actuator_step(
        g.objects.actuators[0],
        input.actuators[0] as int,
        dt,
        crate::rod::mean_y(g.objects.actuators),
    )
    &&& g2.objects.actuators[1] == crate::rod::actuator_step(
        g.objects.actuators[1],
        input.actuators[1] as int,
        dt,
        crate::rod::mean_y(g.objects.actuators),
    )
    &&& g2.objects.actuators[0].wf()
    &&& g2.objects.actuators[1].wf()
    &&& exists|mid: Seq<Ball>|
        {
            &&& mid.len() == g.objects.balls@.len()
            &&& forall|i: int|
                0 <= i < mid.len() ==> (#[trigger] mid[i])@ == substep_ball(
                    g.objects.balls@[i]@,
                    g2.objects.actuators,
                    g.level.holes@,
                    Table { width: TABLE_WIDTH, ball_radius: BALL_RADIUS },
                    dt,
                )
            &&& outcome(
                mid,
                g.progress,
                g.level.goals@,
                BALL_RADIUS as int,
                g2.objects.balls@,
                g2.progress,
                r,
            )
        }
    &&& g2.camera == g.camera
    &&& g2.level == g.level
}

/// One substep of length `dt` of the game on the standard table: the
/// actuators follow the input, the balls meet the rod, the edges and the
/// holes and then move, and the round's outcome is read off the result.
pub fn update_game(game: &mut GameState, input: &Input, dt: i64) -> (r: Option<Event>)
    requires
        old(game).objects.actuators[0].wf(),
        old(game).objects.actuators[1].wf(),
    ensures
        game_step(*old(game), *input, dt as int, *final(game), r),
{
    let table = Table::standard();
    let ghost b0 = game.objects.balls@;
    update_actuators(&mut game.objects.actuators, input, dt);
    update_rod_physics(&mut game.objects.balls, &game.objects.actuators, &table);
    update_level(game, &table);
    update_balls(&mut game.objects.balls, dt);
    let ghost mid = game.objects.balls@;
    assert forall|i: int| 0 <= i < mid.len() implies (#[trigger] mid[i])@ == substep_ball(
        b0[i]@,
        game.objects.actuators,
        game.level.holes@,
        table,
        dt as int,
    ) by {}
    evaluate_outcome(game, &table)
}

} // verus!

verus! {

/// A lone ball in play, held by the goal hole at three ball radii below the
/// table, completes the round, or the game at the last goal; it leaves
/// play, and the progress keeps its balls.
pub proof fn law_goal_ball_completes(
    balls: Seq<Ball>,
    p: GameProgressState,
    goals: Seq<usize>,
    br: int,
    balls2: Seq<Ball>,
    p_after: GameProgressState,
    r: Option<Event>,
)
    requires
        br > 0,
        balls.len() == 1,
        balls[0]@.active,
        balls[0]@.in_hole == Some(goal_hole(goals, p.goal_index)),
        balls[0]@.pos.z == -3 * br,
        outcome(balls, p, goals, br, balls2, p_after, r),
    ensures
        r == Some(
            if p.goal_index + 1 >= goals.len() {
                Event::GameCompleted
            } else {
                Event::RoundCompleted
            },
        ),
        !balls2[0]@.active,
        p_after == p,
{
    assert(sunk(balls[0]@, br));
    if r is Some {
        let k = choose|k: int| #[trigger] first_sunk(balls, k, br) && ({
            let e = r.unwrap();
            &&& e == outcome_event(balls[k]@.in_hole.unwrap(), p, goals)
            &&& p_after == outcome_progress(balls[k]@.in_hole.unwrap(), p, goals)
            &&& balls2[k]@ == BallView { active: false, ..balls[k]@ }
        });
        assert(k == 0);
    }
}

/// With no ball left, a ball lost in a hole other than the goal ends the
/// game, and the game then goes back to the menu rather than on.
pub proof fn law_last_ball_lost_ends_game(
    balls: Seq<Ball>,
    p: GameProgressState,
    goals: Seq<usize>,
    br: int,
    balls2: Seq<Ball>,
    p_after: GameProgressState,
    r: Option<Event>,
    g: GameState,
    d: crate::mode::DisplayState,
    ctx: crate::mode::Context,
    next: crate::mode::State,
)
    requires
        balls.len() == 1,
        sunk(balls[0]@, br),
        balls[0]@.in_hole.unwrap() != goal_hole(goals, p.goal_index),
        p.balls_left == 0,
        outcome(balls, p, goals, br, balls2, p_after, r),
        crate::mode::transitions_to(crate::mode::State::Game(g, d), Event::GameEnded, ctx, next),
    ensures
        r == Some(Event::GameEnded),
        !balls2[0]@.active,
        next is Menu,
{
    if r is Some {
        let k = choose|k: int| #[trigger] first_sunk(balls, k, br) && ({
            let e = r.unwrap();
            &&& e == outcome_event(balls[k]@.in_hole.unwrap(), p, goals)
            &&& p_after == outcome_progress(balls[k]@.in_hole.unwrap(), p, goals)
            &&& balls2[k]@ == BallView { active: false, ..balls[k]@ }
        });
        assert(k == 0);
    }
}

} // verus!

verus! {

/// The longest physics substep: 0.008.
pub const TARGET_DELTATIME: i64 = 8_000;

/// How many substeps a frame of length `dt` is cut into: enough that none is
/// longer than `TARGET_DELTATIME`, and at least one.
pub open spec fn substeps_for(dt: int) -> int {
    if dt <= 0 {
        1
    } else {
        (dt + TARGET_DELTATIME - 1) / (TARGET_DELTATIME as int)
    }
}

/// Cuts a frame of length `dt` into substeps when a game is running: their
/// number and their length. Other modes take the frame whole.
pub fn calculate_frames(state: &crate::mode::State, dt: i64) -> (r: (u64, i64))
    ensures
        r.0 >= 1,
        state is Game ==> r.0 == substeps_for(dt as int) && r.1 == (dt as int) / (r.0 as int),
        state is Game && dt > 0 ==> 0 <= r.1 <= TARGET_DELTATIME,
        !(state is Game) ==> r == (1u64, dt),
{
    match state {
        crate::mode::State::Game(_, _) => {
            if dt <= 0 {
                (1, dt)
            } else {
                let n: u64 = (dt as u64) / (TARGET_DELTATIME as u64) + if (dt as u64) % (TARGET_DELTATIME as u64) != 0 {
                    1
                } else {
                    0
                };
                proof {
                    let d = dt as int;
                    let t = TARGET_DELTATIME as int;
                    vstd::arithmetic::div_mod::lemma_fundamental_div_mod(d, t);
                    vstd::arithmetic::div_mod::lemma_fundamental_div_mod(d + t - 1, t);
                    assert(n == (d + t - 1) / t);
                    assert(n >= 1);
                    assert(d <= n * t);
                    lemma_substep_bound(d, n as int, t);
                }
                let step: i64 = ((dt as u64) / n) as i64;
                (n, step)
            }
        },
        _ => (1, dt),
    }
}

proof fn lemma_substep_bound(d: int, n: int, t: int)
    requires
        d > 0,
        n >= 1,
        t > 0,
        d <= n * t,
    ensures
        0 <= d / n <= t,
{
    vstd::arithmetic::div_mod::lemma_div_pos_is_pos(d, n);
    vstd::arithmetic::div_mod::lemma_div_is_ordered(d, n * t, n);
    vstd::arithmetic::div_mod::lemma_div_multiples_vanish(t, n);
}

} // verus!

verus! {

/// `s` begins with `prefix`.
pub open spec fn extends(s: Seq<crate::vector::Vec3>, prefix: Seq<crate::vector::Vec3>) -> bool {
    s.len() >= prefix.len() && s.subrange(0, prefix.len() as int) == prefix
}

/// The collision solvers only append impulses to a ball's list, and the
/// integrator spends them all: after a substep, a ball in play has no
/// impulse pending.
pub proof fn law_impulses_appended_then_spent(
    b: BallView,
    a: [crate::objects::Actuator; 2],
    holes: Seq<crate::objects::Hole>,
    t: Table,
    dt: int,
)
    ensures
        extends(rod_step(b, a, t.ball_radius as int).impulses, b.impulses),
        extends(edge_step(b, t).impulses, b.impulses),
        extends(hole_step(b, holes, t.ball_radius as int).impulses, b.impulses),
        b.active ==> substep_ball(b, a, holes, t, dt).impulses.len() == 0,
{
    let br = t.ball_radius as int;
    assert(rod_step(b, a, br).impulses.subrange(0, b.impulses.len() as int) =~= b.impulses);
    assert(edge_step(b, t).impulses.subrange(0, b.impulses.len() as int) =~= b.impulses);
    if b.active {
        crate::level::lemma_holes_append(b, holes, br, holes.len());
        let e = edge_step(rod_step(b, a, br), t);
        assert(e.active);
        crate::level::lemma_holes_read_position(e, e, holes, br, holes.len());
    } else {
        assert(hole_step(b, holes, br).impulses =~= b.impulses);
    }
}

} // verus!

verus! {

/// What one substep of a mode needs to hold before it runs: a menu's pick
/// among its entries, and a game's actuators in range.
pub open spec fn state_ready(s: crate::mode::State) -> bool {
    match s {
        crate::mode::State::Menu(_, m) => m.wf(),
        crate::mode::State::Game(g, _) => g.objects.actuators[0].wf() && g.objects.actuators[1].wf(),
        crate::mode::State::Score(g, _) => g.objects.actuators[0].wf() && g.objects.actuators[1].wf(),
        _ => true,
    }
}

/// `s2` and event `r` are what one substep makes of mode `s`: the menu
/// follows the controls; in a game or on the score screen, escape ends the
/// game, and otherwise the display's clock and the game advance; the editor
/// follows its own controls; other modes stay as they are.
pub open spec fn state_step(
    s: crate::mode::State,
    input: Input,
    editor_input: crate::editor::EditorInput,
    dt: int,
    now: u64,
    s2: crate::mode::State,
    r: Option<Event>,
) -> bool {
    match s {
        crate::mode::State::Menu(g, m) => match s2 {
            crate::mode::State::Menu(g2, m2) => g2 == g && crate::menu::menu_step(m, input, m2, r),
            _ => false,
        },
        crate::mode::State::Game(g, d) => if input.escape {
            s2 == s && r == Some(Event::GameEnded)
        } else {
            match s2 {
                crate::mode::State::Game(g2, d2) => crate::menu::display_step(d, now, d2)
                    && game_step(g, input, dt, g2, r),
                _ => false,
            }
        },
        crate::mode::State::Score(g, d) => if input.escape {
            s2 == s && r == Some(Event::GameEnded)
        } else {
            match s2 {
                crate::mode::State::Score(g2, d2) => crate::menu::display_step(d, now, d2)
                    && game_step(g, input, dt, g2, r),
                _ => false,
            }
        },
        crate::mode::State::Editor(g, e) => match s2 {
            crate::mode::State::Editor(g2, e2) => crate::editor::editor_step(
                g,
                e,
                editor_input,
                g2,
                e2,
                r,
            ),
            _ => false,
        },
        _ => s2 == s && r.is_none(),
    }
}

/// One substep of the current mode at time `now`, with a substep length of
/// `dt`; reports the event that ends the mode, if one comes.
pub fn update_state(
    state: &mut crate::mode::State,
    input: &Input,
    editor_input: &crate::editor::EditorInput,
    dt: i64,
    now: u64,
) -> (r: Option<Event>)
    requires
        state_ready(*old(state)),
    ensures
        state_step(*old(state), *input, *editor_input, dt as int, now, *final(state), r),
{
    match state {
        crate::mode::State::Menu(_, menu) => crate::menu::update_menu(menu, input),
        crate::mode::State::Game(game, display) => {
            if input.escape {
                return Some(Event::GameEnded);
            }
            crate::menu::update_display(display, now);
            update_game(game, input, dt)
        },
        crate::mode::State::Score(game, display) => {
            if input.escape {
                return Some(Event::GameEnded);
            }
            crate::menu::update_display(display, now);
            update_game(game, input, dt)
        },
        crate::mode::State::Editor(game, editor) => crate::editor::update_editor(
            game,
            editor,
            editor_input,
        ),
        _ => None,
    }
}

} // verus!
