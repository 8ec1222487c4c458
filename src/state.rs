//! The game's long-lived data: level, progress, objects, and what the screen
//! shows.
use crate::objects::{home, home_actuators, spawned_ball, Actuator, Ball, Hole};
use crate::vector::Vec2;
use vstd::prelude::*;

verus! {

/// The lives a new game starts with.
pub const START_BALLS: u16 = 4;

/// Milliseconds between a round being set up and its clock starting.
pub const ROUND_DELAY_MS: u64 = 1000;

/// The countdown a round starts from, in seconds.
pub const ROUND_SECONDS: u64 = 99;

/// How far the progress of a game has come.
#[derive(Clone, Copy, Debug, PartialEq, Eq, Structural)]
pub struct GameProgressState {
    /// Position in the level's list of goals.
    pub goal_index: usize,
    /// When the round's clock started, in milliseconds.
    pub start_time: u64,
    pub score: u16,
    pub balls_left: u16,
}

/// Whole seconds a round's clock has run at time `now` (milliseconds),
/// rounded half up; none before it starts.
pub open spec fn elapsed_seconds(start: u64, now: u64) -> int {
    let elapsed: int = if now > start {
        now - start
    } else {
        0
    };
    (elapsed + 500) / 1000
}

/// Seconds left on a round's clock at time `now`: the countdown less the
/// elapsed seconds, and never below zero.
pub open spec fn time_left(start: u64, now: u64) -> u16 {
    let secs = elapsed_seconds(start, now);
    if secs >= ROUND_SECONDS {
        0
    } else {
        (ROUND_SECONDS - secs) as u16
    }
}

/// What a completed round adds to the score: the round's elapsed seconds,
/// as far as a `u16` holds them.
pub open spec fn round_bonus(start: u64, now: u64) -> u16 {
    let secs = elapsed_seconds(start, now);
    if secs > u16::MAX {
        u16::MAX
    } else {
        secs as u16
    }
}

/// When a round set up at `now` starts its clock.
pub open spec fn round_start(now: u64) -> u64 {
    now.saturating_add(ROUND_DELAY_MS)
}

impl GameProgressState {
    /// Whole seconds this round's clock has run at time `now`.
    pub fn elapsed(&self, now: u64) -> (r: u64)
        ensures
            r == elapsed_seconds(self.start_time, now),
    {
        let elapsed: u64 = if now > self.start_time {
            now - self.start_time
        } else {
            0
        };
        let secs: u64 = elapsed / 1000 + if elapsed % 1000 >= 500 {
            1
        } else {
            0
        };
        assert(secs == (elapsed + 500) / 1000) by (nonlinear_arith)
            requires
                secs == elapsed / 1000 + if elapsed % 1000 >= 500 {
                    1int
                } else {
                    0int
                },
                elapsed >= 0,
        {
            vstd::arithmetic::div_mod::lemma_fundamental_div_mod(elapsed as int, 1000);
            vstd::arithmetic::div_mod::lemma_fundamental_div_mod((elapsed + 500) as int, 1000);
        }
        secs
    }

    /// Seconds left on this round's clock at time `now`.
    pub fn time(&self, now: u64) -> (r: u16)
        ensures
            r == time_left(self.start_time, now),
    {
        let secs = self.elapsed(now);
        if secs >= ROUND_SECONDS {
            0
        } else {
            (ROUND_SECONDS - secs) as u16
        }
    }

    /// What completing the round at time `now` adds to the score.
    pub fn bonus(&self, now: u64) -> (r: u16)
        ensures
            r == round_bonus(self.start_time, now),
    {
        let secs = self.elapsed(now);
        if secs > u16::MAX as u64 {
            u16::MAX
        } else {
            secs as u16
        }
    }
}

/// A level: holes, and the order in which their indices are goals.
#[derive(Debug)]
pub struct GameLevelState {
    pub background_image: String,
    pub goals: Vec<usize>,
    pub holes: Vec<Hole>,
    pub level_file: String,
}

pub struct LevelView {
    pub background_image: Seq<char>,
    pub goals: Seq<usize>,
    pub holes: Seq<Hole>,
    pub level_file: Seq<char>,
}

impl View for GameLevelState {
    type V = LevelView;

    open spec fn view(&self) -> LevelView {
        LevelView {
            background_image: self.background_image@,
            goals: self.goals@,
            holes: self.holes@,
            level_file: self.level_file@,
        }
    }
}

/// The level an editor starts from: no holes and no goals.
pub open spec fn blank_level() -> LevelView {
    LevelView {
        background_image: "level_example.png"@,
        goals: seq![],
        holes: seq![],
        level_file: "level_new.json"@,
    }
}

impl GameLevelState {
    pub fn new() -> (r: GameLevelState)
        ensures
            r@ == blank_level(),
    {
        let r = GameLevelState {
            background_image: "level_example.png".to_owned(),
            goals: Vec::new(),
            holes: Vec::new(),
            level_file: "level_new.json".to_owned(),
        };
        assert(r@.goals =~= blank_level().goals);
        assert(r@.holes =~= blank_level().holes);
        r
    }

    /// A copy of this level.
    pub fn duplicate(&self) -> (r: GameLevelState)
        ensures
            r@ == self@,
    {
        let mut goals: Vec<usize> = Vec::new();
        let mut i: usize = 0;
        while i < self.goals.len()
            invariant
                i <= self.goals@.len(),
                goals@ == self.goals@.subrange(0, i as int),
            decreases self.goals@.len() - i,
        {
            goals.push(self.goals[i]);
            i = i + 1;
            assert(goals@ =~= self.goals@.subrange(0, i as int));
        }
        let mut holes: Vec<Hole> = Vec::new();
        let mut j: usize = 0;
        while j < self.holes.len()
            invariant
                j <= self.holes@.len(),
                holes@ == self.holes@.subrange(0, j as int),
            decreases self.holes@.len() - j,
        {
            holes.push(self.holes[j]);
            j = j + 1;
            assert(holes@ =~= self.holes@.subrange(0, j as int));
        }
        assert(goals@ =~= self.goals@);
        assert(holes@ =~= self.holes@);
        GameLevelState {
            background_image: self.background_image.clone(),
            goals,
            holes,
            level_file: self.level_file.clone(),
        }
    }
}

/// The balls and the two actuators.
#[derive(Debug)]
pub struct GameObjectState {
    pub balls: Vec<Ball>,
    pub actuators: [Actuator; 2],
}

/// The view's offset and turn.
#[derive(Clone, Copy, Debug, PartialEq, Eq, Structural)]
pub struct GameCameraState {
    pub pos: Vec2,
    pub vel: Vec2,
    pub rotation: i64,
}

pub open spec fn camera_at_rest() -> GameCameraState {
    GameCameraState { pos: Vec2 { x: 0, y: 0 }, vel: Vec2 { x: 0, y: 0 }, rotation: 0 }
}

/// Everything a game in progress is made of.
#[derive(Debug)]
pub struct GameState {
    pub objects: GameObjectState,
    pub camera: GameCameraState,
    pub level: GameLevelState,
    pub progress: GameProgressState,
}

/// One ball fresh at the spawn point, and the actuators at home.
pub open spec fn objects_fresh(o: GameObjectState) -> bool {
    &&& o.balls@.len() == 1
    &&& o.balls@[0]@ == spawned_ball()
    &&& o.actuators == home_actuators()
}

/// A new game on `level` set up at time `now`.
pub open spec fn is_new_game(g: GameState, level: LevelView, now: u64) -> bool {
    &&& objects_fresh(g.objects)
    &&& g.camera == camera_at_rest()
    &&& g.level@ == level
    &&& g.progress == GameProgressState {
        goal_index: 0,
        start_time: round_start(now),
        score: 0,
        balls_left: START_BALLS,
    }
}

/// `new` is `old` with its round set up again at time `now`.
pub open spec fn is_reset_of(new: GameState, old: GameState, now: u64) -> bool {
    &&& objects_fresh(new.objects)
    &&& new.camera == old.camera
    &&& new.level == old.level
    &&& new.progress == GameProgressState { start_time: round_start(now), ..old.progress }
}

/// The progress after the current goal is reached at time `now`: the next
/// goal, and the round's elapsed time added to the score.
pub open spec fn advanced(p: GameProgressState, now: u64) -> GameProgressState {
    GameProgressState {
        goal_index: p.goal_index.saturating_add(1),
        score: p.score.saturating_add(round_bonus(p.start_time, now)),
        ..p
    }
}

/// `new` is `old` moved on to its next round at time `now`.
pub open spec fn is_next_round_of(new: GameState, old: GameState, now: u64) -> bool {
    &&& objects_fresh(new.objects)
    &&& new.camera == old.camera
    &&& new.level == old.level
    &&& new.progress == GameProgressState {
        start_time: round_start(now),
        ..advanced(old.progress, now)
    }
}

/// The hole a level asks for at goal `index`; hole 0 past the list's end.
pub open spec fn goal_hole(goals: Seq<usize>, index: usize) -> usize {
    if index < goals.len() {
        goals[index as int]
    } else {
        0
    }
}

fn fresh_objects() -> (r: GameObjectState)
    ensures
        objects_fresh(r),
{
    let mut balls: Vec<Ball> = Vec::new();
    balls.push(Ball::new());
    GameObjectState { balls, actuators: home() }
}

impl GameState {
    /// A new game on a blank level, set up at time `now`.
    pub fn new(now: u64) -> (r: GameState)
        ensures
            is_new_game(r, blank_level(), now),
    {
        GameState::load(GameLevelState::new(), now)
    }

    /// A new game on `level`, set up at time `now`.
    pub fn load(level: GameLevelState, now: u64) -> (r: GameState)
        ensures
            is_new_game(r, level@, now),
    {
        GameState {
            objects: fresh_objects(),
            camera: GameCameraState {
                pos: Vec2 { x: 0, y: 0 },
                vel: Vec2 { x: 0, y: 0 },
                rotation: 0,
            },
            level,
            progress: GameProgressState {
                goal_index: 0,
                start_time: now.saturating_add(ROUND_DELAY_MS),
                score: 0,
                balls_left: START_BALLS,
            },
        }
    }

    /// Sets the round up again at time `now`: one fresh ball, the actuators
    /// at home, the clock restarted; the progress is kept.
    pub fn reset_round(self, now: u64) -> (r: GameState)
        ensures
            is_reset_of(r, self, now),
    {
        let mut g = self;
        g.objects = fresh_objects();
        g.progress.start_time = now.saturating_add(ROUND_DELAY_MS);
        g
    }

    /// Moves on to the next goal at time `now`, adds the round's elapsed
    /// seconds to the score, and sets the round up again.
    pub fn next_round(self, now: u64) -> (r: GameState)
        ensures
            is_next_round_of(r, self, now),
    {
        let mut g = self;
        let bonus = g.progress.bonus(now);
        g.progress.goal_index = g.progress.goal_index.saturating_add(1);
        g.progress.score = g.progress.score.saturating_add(bonus);
        g.reset_round(now)
    }

    /// The hole that the current goal asks for.
    pub fn get_goal_hole(&self) -> (r: usize)
        ensures
            r == goal_hole(self.level.goals@, self.progress.goal_index),
    {
        if self.progress.goal_index < self.level.goals.len() {
            self.level.goals[self.progress.goal_index]
        } else {
            0
        }
    }
}

} // verus!
