//! The top-level mode of the application and its transition function.
use crate::state::{
    blank_level, is_new_game, is_next_round_of, is_reset_of, GameLevelState, GameState,
};
use vstd::prelude::*;

verus! {

/// What moves the application from one mode to the next.
#[derive(Debug)]
pub enum Event {
    AppInitialized,
    AppLoaded,
    SplashTimeout,
    /// A menu entry was chosen; it holds the entry in lower case.
    MenuSelected(String),
    GameEnded,
    GameCompleted,
    RoundCompleted,
    RoundLost,
    EditorClosed,
}

impl PartialEq for Event {
    fn eq(&self, o: &Event) -> (r: bool) {
        match (self, o) {
            (Event::AppInitialized, Event::AppInitialized) => true,
            (Event::AppLoaded, Event::AppLoaded) => true,
            (Event::SplashTimeout, Event::SplashTimeout) => true,
            (Event::MenuSelected(a), Event::MenuSelected(b)) => *a == *b,
            (Event::GameEnded, Event::GameEnded) => true,
            (Event::GameCompleted, Event::GameCompleted) => true,
            (Event::RoundCompleted, Event::RoundCompleted) => true,
            (Event::RoundLost, Event::RoundLost) => true,
            (Event::EditorClosed, Event::EditorClosed) => true,
            _ => false,
        }
    }
}

impl vstd::std_specs::cmp::PartialEqSpecImpl for Event {
    open spec fn obeys_eq_spec() -> bool {
        true
    }

    /// The same kind of event, and the same menu entry.
    open spec fn eq_spec(&self, o: &Event) -> bool {
        match (*self, *o) {
            (Event::MenuSelected(a), Event::MenuSelected(b)) => a@ == b@,
            (Event::AppInitialized, Event::AppInitialized) => true,
            (Event::AppLoaded, Event::AppLoaded) => true,
            (Event::SplashTimeout, Event::SplashTimeout) => true,
            (Event::GameEnded, Event::GameEnded) => true,
            (Event::GameCompleted, Event::GameCompleted) => true,
            (Event::RoundCompleted, Event::RoundCompleted) => true,
            (Event::RoundLost, Event::RoundLost) => true,
            (Event::EditorClosed, Event::EditorClosed) => true,
            _ => false,
        }
    }
}

/// A line of text for the score display.
#[derive(Clone, Copy, Debug, PartialEq, Eq, Structural)]
pub enum Message {
    /// "`n` left": balls that remain.
    Left(u16),
    /// "last ball".
    LastBall,
    /// "great": a goal was reached.
    Great,
    /// "score `n`".
    Score(u16),
    /// "game over".
    GameOver,
}

/// What the score display shows over the game.
#[derive(Debug)]
pub struct DisplayState {
    /// A message shown for a short while, from `start_time` on.
    pub message: Option<Message>,
    /// Lines shown at the end of a game.
    pub messages: Vec<Message>,
    /// When the message was put up, in milliseconds.
    pub start_time: u64,
}

impl DisplayState {
    pub open spec fn is_blank(self) -> bool {
        self.message.is_none() && self.messages@.len() == 0 && self.start_time == 0
    }

    /// A display that shows the clock and the score.
    pub fn new() -> (r: DisplayState)
        ensures
            r.is_blank(),
    {
        DisplayState { message: None, messages: Vec::new(), start_time: 0 }
    }

    /// A display that shows `message` from time `now` on.
    pub fn message(message: Message, now: u64) -> (r: DisplayState)
        ensures
            r.message == Some(message),
            r.messages@.len() == 0,
            r.start_time == now,
    {
        DisplayState { message: Some(message), messages: Vec::new(), start_time: now }
    }

    /// A display that shows these lines.
    pub fn messages(messages: Vec<Message>) -> (r: DisplayState)
        ensures
            r.message.is_none(),
            r.messages@ == messages@,
            r.start_time == 0,
    {
        DisplayState { message: None, messages, start_time: 0 }
    }
}

/// The main menu's entries and which of them is picked.
#[derive(Debug)]
pub struct MenuState {
    pub selected: usize,
    pub options: Vec<String>,
}

impl MenuState {
    /// The entries are there and one of them is picked.
    pub open spec fn wf(self) -> bool {
        self.selected < self.options@.len()
    }

    pub open spec fn is_main(self) -> bool {
        &&& self.selected == 0
        &&& self.options@.len() == 2
        &&& self.options@[0]@ == "Start"@
        &&& self.options@[1]@ == "Quit"@
    }

    /// The main menu, with its first entry picked.
    pub fn main() -> (r: MenuState)
        ensures
            r.is_main(),
            r.wf(),
    {
        let mut options: Vec<String> = Vec::new();
        options.push("Start".to_owned());
        options.push("Quit".to_owned());
        MenuState { selected: 0, options }
    }
}

/// The level editor's brush.
#[derive(Clone, Copy, Debug, PartialEq, Eq, Structural)]
pub struct EditorState {
    /// Radius of the next hole placed.
    pub radius: i64,
}

/// Brush radius a new editor starts with: 0.04.
pub const EDITOR_RADIUS: i64 = 40_000;

/// The application's mode; each carries the data it owns.
#[derive(Debug)]
pub enum State {
    Initial,
    Splash,
    Loading,
    Menu(GameState, MenuState),
    Game(GameState, DisplayState),
    Score(GameState, DisplayState),
    Editor(GameState, EditorState),
    Terminating,
}

/// What a transition may need from outside: the time, and the levels that
/// a game and the editor start on.
#[derive(Debug)]
pub struct Context {
    /// The time in milliseconds.
    pub now: u64,
    pub game_level: GameLevelState,
    pub editor_level: GameLevelState,
}

/// The display after a round is lost with `balls` left.
pub open spec fn lost_message(balls: u16) -> Message {
    if balls == 0 {
        Message::LastBall
    } else {
        Message::Left(balls)
    }
}

/// Whether `r` is what mode `s` becomes on event `e`.
pub open spec fn transitions_to(s: State, e: Event, ctx: Context, r: State) -> bool {
    let now = ctx.now;
    match (s, e) {
        (State::Initial, Event::AppInitialized) => r is Loading,
        (State::Loading, Event::AppLoaded) => r is Splash,
        (State::Splash, Event::SplashTimeout) => match r {
            State::Menu(g, m) => is_new_game(g, blank_level(), now) && m.is_main(),
            _ => false,
        },
        (State::Menu(g0, m0), Event::MenuSelected(item)) => {
            if item@ == "start"@ {
                match r {
                    State::Game(g, d) => is_new_game(g, ctx.game_level@, now) && d.is_blank(),
                    _ => false,
                }
            } else if item@ == "editor"@ {
                match r {
                    State::Editor(g, ed) => is_new_game(g, ctx.editor_level@, now) && ed.radius
                        == EDITOR_RADIUS,
                    _ => false,
                }
            } else if item@ == "quit"@ {
                r is Terminating
            } else {
                r == State::Menu(g0, m0)
            }
        },
        (State::Game(g0, _), Event::GameCompleted) => match r {
            State::Score(g, d) => {
                &&& is_next_round_of(g, g0, now)
                &&& d.message.is_none()
                &&& d.start_time == 0
                &&& d.messages@ == seq![
                    Message::Score(g.progress.score),
                    Message::Score(g.progress.score),
                    Message::GameOver,
                ]
            },
            _ => false,
        },
        (State::Game(g0, _), Event::GameEnded) => match r {
            State::Menu(g, m) => g == g0 && m.is_main(),
            _ => false,
        },
        (State::Score(g0, _), Event::GameEnded) => match r {
            State::Menu(g, m) => g == g0 && m.is_main(),
            _ => false,
        },
        (State::Game(g0, _), Event::RoundLost) => match r {
            State::Game(g, d) => {
                &&& is_reset_of(g, g0, now)
                &&& d.message == Some(lost_message(g0.progress.balls_left))
                &&& d.messages@.len() == 0
                &&& d.start_time == now
            },
            _ => false,
        },
        (State::Game(g0, _), Event::RoundCompleted) => match r {
            State::Game(g, d) => {
                &&& is_next_round_of(g, g0, now)
                &&& d.message == Some(Message::Great)
                &&& d.messages@.len() == 0
                &&& d.start_time == now
            },
            _ => false,
        },
        (State::Editor(g0, _), Event::EditorClosed) => match r {
            State::Game(g, d) => is_reset_of(g, g0, now) && d.is_blank(),
            _ => false,
        },
        (s0, _) => r == s0,
    }
}

impl State {
    /// The mode that this one becomes on `event`; an event that this mode
    /// does not take leaves it as it is.
    pub fn transition(self, event: Event, ctx: &Context) -> (r: State)
        ensures
            transitions_to(self, event, *ctx, r),
    {
        let now = ctx.now;
        match (self, event) {
            (State::Initial, Event::AppInitialized) => State::Loading,
            (State::Loading, Event::AppLoaded) => State::Splash,
            (State::Splash, Event::SplashTimeout) => State::Menu(GameState::new(now), MenuState::main()),
            (State::Menu(g0, m0), Event::MenuSelected(item)) => {
                if item == "start".to_owned() {
                    State::Game(GameState::load(ctx.game_level.duplicate(), now), DisplayState::new())
                } else if item == "editor".to_owned() {
                    State::Editor(
                        GameState::load(ctx.editor_level.duplicate(), now),
                        EditorState { radius: EDITOR_RADIUS },
                    )
                } else if item == "quit".to_owned() {
                    State::Terminating
                } else {
                    State::Menu(g0, m0)
                }
            },
            (State::Game(g0, _), Event::GameCompleted) => {
                let g = g0.next_round(now);
                let score = g.progress.score;
                let mut lines: Vec<Message> = Vec::new();
                lines.push(Message::Score(score));
                lines.push(Message::Score(score));
                lines.push(Message::GameOver);
                assert(lines@ =~= seq![Message::Score(score), Message::Score(score), Message::GameOver]);
                State::Score(g, DisplayState::messages(lines))
            },
            (State::Game(g0, _), Event::GameEnded) => State::Menu(g0, MenuState::main()),
            (State::Score(g0, _), Event::GameEnded) => State::Menu(g0, MenuState::main()),
            (State::Game(g0, _), Event::RoundLost) => {
                let message = if g0.progress.balls_left == 0 {
                    Message::LastBall
                } else {
                    Message::Left(g0.progress.balls_left)
                };
                State::Game(g0.reset_round(now), DisplayState::message(message, now))
            },
            (State::Game(g0, _), Event::RoundCompleted) => {
                State::Game(g0.next_round(now), DisplayState::message(Message::Great, now))
            },
            (State::Editor(g0, _), Event::EditorClosed) => {
                State::Game(g0.reset_round(now), DisplayState::new())
            },
            (s0, _) => s0,
        }
    }
}

} // verus!

verus! {

/// Starting a game from the menu gives one fresh ball and the actuators at
/// home, whatever the menu's game held.
pub proof fn law_start_gives_fresh_round(
    g: GameState,
    m: MenuState,
    item: String,
    ctx: Context,
    r: State,
)
    requires
        item@ == "start"@,
        transitions_to(State::Menu(g, m), Event::MenuSelected(item), ctx, r),
    ensures
        r is Game,
        r->Game_0.objects.balls@.len() == 1,
        r->Game_0.objects.balls@[0]@ == crate::objects::spawned_ball(),
        r->Game_0.objects.actuators == crate::objects::home_actuators(),
{
}

} // verus!
