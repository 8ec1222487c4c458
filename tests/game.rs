use seesaw::{
    evaluate_outcome, update_display, update_game, update_menu, Ball, Context, DisplayState,
    Event, GameLevelState, GameProgressState, GameState, Hole, Input, MenuState, Message, State,
    Table, Vec2, Vec3, BALL_RADIUS, ONE,
};

fn level(holes: Vec<Hole>, goals: Vec<usize>) -> GameLevelState {
    GameLevelState {
        background_image: "level_example.png".to_string(),
        goals,
        holes,
        level_file: "level_example.json".to_string(),
    }
}

fn two_hole_level(goals: Vec<usize>) -> GameLevelState {
    level(
        vec![
            Hole { pos: Vec2::new(300_000, 500_000), radius: 50_000 },
            Hole { pos: Vec2::new(700_000, 500_000), radius: 50_000 },
        ],
        goals,
    )
}

fn ctx(now: u64) -> Context {
    Context {
        now,
        game_level: two_hole_level(vec![0, 1]),
        editor_level: GameLevelState::new(),
    }
}

fn no_input() -> Input {
    Input {
        actuators: [0, 0],
        menu_up: false,
        menu_down: false,
        enter: false,
        escape: false,
    }
}

fn sunk_game(goals: Vec<usize>, hole: usize, balls_left: u16) -> GameState {
    let mut g = GameState::load(two_hole_level(goals), 0);
    g.objects.balls[0].pos = Vec3::new(300_000, 500_000, -3 * BALL_RADIUS);
    g.objects.balls[0].in_hole = Some(hole);
    g.progress.balls_left = balls_left;
    g
}

fn is_home(g: &GameState) -> bool {
    let a = g.objects.actuators;
    a[0].pos == Vec2::new(0, 1_722_222)
        && a[1].pos == Vec2::new(907_407, 1_722_222)
        && a[0].vel == 0
        && a[1].vel == 0
}

#[test]
fn goal_ball_completes_round() {
    let mut g = sunk_game(vec![0, 1], 0, 4);
    let r = evaluate_outcome(&mut g, &Table::standard());
    assert!(matches!(r, Some(Event::RoundCompleted)));
    assert!(!g.objects.balls[0].active);
    assert_eq!(g.progress.balls_left, 4);
    assert!(matches!(evaluate_outcome(&mut g, &Table::standard()), None));
}

#[test]
fn goal_ball_at_last_goal_completes_game() {
    let mut g = sunk_game(vec![0], 0, 4);
    let r = evaluate_outcome(&mut g, &Table::standard());
    assert!(matches!(r, Some(Event::GameCompleted)));
    assert!(!g.objects.balls[0].active);
}

#[test]
fn wrong_hole_loses_round() {
    let mut g = sunk_game(vec![1, 0], 0, 2);
    let r = evaluate_outcome(&mut g, &Table::standard());
    assert!(matches!(r, Some(Event::RoundLost)));
    assert_eq!(g.progress.balls_left, 1);
    assert!(!g.objects.balls[0].active);
}

#[test]
fn wrong_hole_without_balls_ends_game() {
    let mut g = sunk_game(vec![1, 0], 0, 0);
    let r = evaluate_outcome(&mut g, &Table::standard());
    assert!(matches!(r, Some(Event::GameEnded)));
    assert_eq!(g.progress.balls_left, 0);
    let next = State::Game(g, DisplayState::new()).transition(Event::GameEnded, &ctx(10));
    assert!(matches!(next, State::Menu(_, _)));
}

#[test]
fn ball_not_deep_enough_is_no_outcome() {
    let mut g = sunk_game(vec![0], 0, 4);
    g.objects.balls[0].pos.z = -2 * BALL_RADIUS;
    assert!(evaluate_outcome(&mut g, &Table::standard()).is_none());
    assert!(g.objects.balls[0].active);
    g.objects.balls[0].pos.z = -3 * BALL_RADIUS;
    g.objects.balls[0].in_hole = None;
    assert!(evaluate_outcome(&mut g, &Table::standard()).is_none());
}

#[test]
fn start_gives_fresh_round() {
    let mut g = GameState::new(0);
    g.objects.balls.push(Ball::new());
    g.objects.balls[0].pos = Vec3::new(1, 2, 3);
    g.objects.actuators[0].pos.y = 5;
    let menu = State::Menu(g, MenuState::main());
    let next = menu.transition(Event::MenuSelected("start".to_string()), &ctx(2_000));
    match next {
        State::Game(g, d) => {
            assert_eq!(g.objects.balls.len(), 1);
            assert_eq!(g.objects.balls[0].pos, Vec3::new(500_000, 1_666_666, BALL_RADIUS));
            assert!(is_home(&g));
            assert_eq!(g.level.goals, vec![0, 1]);
            assert_eq!(g.level.holes.len(), 2);
            assert_eq!(g.progress.start_time, 3_000);
            assert_eq!(g.progress.balls_left, 4);
            assert!(d.message.is_none());
        }
        _ => panic!("expected a game"),
    }
}

#[test]
fn app_start_sequence() {
    let c = ctx(0);
    let s = State::Initial.transition(Event::AppInitialized, &c);
    assert!(matches!(s, State::Loading));
    let s = s.transition(Event::AppLoaded, &c);
    assert!(matches!(s, State::Splash));
    let s = s.transition(Event::SplashTimeout, &c);
    match &s {
        State::Menu(g, m) => {
            assert_eq!(m.selected, 0);
            assert_eq!(m.options, vec!["Start".to_string(), "Quit".to_string()]);
            assert!(g.level.holes.is_empty());
            assert_eq!(g.level.level_file, "level_new.json");
        }
        _ => panic!("expected the menu"),
    }
    let s = s.transition(Event::MenuSelected("quit".to_string()), &c);
    assert!(matches!(s, State::Terminating));
}

#[test]
fn menu_editor_and_back() {
    let c = ctx(0);
    let s = State::Menu(GameState::new(0), MenuState::main())
        .transition(Event::MenuSelected("editor".to_string()), &c);
    match &s {
        State::Editor(_, e) => assert_eq!(e.radius, 40_000),
        _ => panic!("expected the editor"),
    }
    let s = s.transition(Event::EditorClosed, &ctx(500));
    match s {
        State::Game(g, d) => {
            assert!(d.message.is_none());
            assert_eq!(g.progress.start_time, 1_500);
        }
        _ => panic!("expected a game"),
    }
}

#[test]
fn unknown_menu_entry_changes_nothing() {
    let s = State::Menu(GameState::new(0), MenuState::main())
        .transition(Event::MenuSelected("help".to_string()), &ctx(0));
    assert!(matches!(s, State::Menu(_, _)));
}

#[test]
fn event_out_of_place_changes_nothing() {
    let s = State::Initial.transition(Event::RoundLost, &ctx(0));
    assert!(matches!(s, State::Initial));
    let s = State::Splash.transition(Event::AppLoaded, &ctx(0));
    assert!(matches!(s, State::Splash));
}

#[test]
fn round_lost_shows_balls_left() {
    let g = sunk_game(vec![0, 1], 1, 3);
    let s = State::Game(g, DisplayState::new()).transition(Event::RoundLost, &ctx(7_000));
    match s {
        State::Game(g, d) => {
            assert_eq!(d.message, Some(Message::Left(3)));
            assert_eq!(d.start_time, 7_000);
            assert!(g.objects.balls[0].active);
            assert_eq!(g.objects.balls[0].in_hole, None);
            assert_eq!(g.progress.goal_index, 0);
        }
        _ => panic!("expected a game"),
    }
    let g = sunk_game(vec![0, 1], 1, 0);
    let s = State::Game(g, DisplayState::new()).transition(Event::RoundLost, &ctx(7_000));
    match s {
        State::Game(_, d) => assert_eq!(d.message, Some(Message::LastBall)),
        _ => panic!("expected a game"),
    }
}

#[test]
fn round_completed_adds_time_bonus() {
    let mut g = GameState::load(two_hole_level(vec![0, 1]), 0);
    g.progress.score = 10;
    // the clock started at 1000 ms; at 11400 ms 10.4 s have gone: 10 more
    let s = State::Game(g, DisplayState::new()).transition(Event::RoundCompleted, &ctx(11_400));
    match s {
        State::Game(g, d) => {
            assert_eq!(g.progress.goal_index, 1);
            assert_eq!(g.progress.score, 20);
            assert_eq!(d.message, Some(Message::Great));
            assert!(is_home(&g));
        }
        _ => panic!("expected a game"),
    }
}

#[test]
fn game_completed_shows_score() {
    let g = GameState::load(two_hole_level(vec![0]), 0);
    // the clock started at 1000 ms; at 43500 ms 42.5 s have gone: 43
    let s = State::Game(g, DisplayState::new()).transition(Event::GameCompleted, &ctx(43_500));
    match s {
        State::Score(g, d) => {
            assert_eq!(g.progress.score, 43);
            assert_eq!(
                d.messages,
                vec![Message::Score(43), Message::Score(43), Message::GameOver]
            );
            let s = State::Score(g, d).transition(Event::GameEnded, &ctx(2_000));
            assert!(matches!(s, State::Menu(_, _)));
        }
        _ => panic!("expected the score"),
    }
}

#[test]
fn time_left_counts_down() {
    let p = GameProgressState { goal_index: 0, start_time: 1_000, score: 0, balls_left: 4 };
    assert_eq!(p.time(0), 99);
    assert_eq!(p.time(3_600), 96);
    assert_eq!(p.time(3_499), 97);
    assert_eq!(p.time(1_000_000), 0);
    assert_eq!(p.elapsed(0), 0);
    assert_eq!(p.elapsed(3_499), 2);
    assert_eq!(p.bonus(1_000_000), 999);
    assert_eq!(p.bonus(u64::MAX), u16::MAX);
}

#[test]
fn menu_moves_and_wraps() {
    let mut m = MenuState::main();
    let up = Input { menu_up: true, ..no_input() };
    let down = Input { menu_down: true, ..no_input() };
    assert!(update_menu(&mut m, &up).is_none());
    assert_eq!(m.selected, 1);
    update_menu(&mut m, &down);
    assert_eq!(m.selected, 0);
    update_menu(&mut m, &down);
    assert_eq!(m.selected, 1);
    let enter = Input { enter: true, ..no_input() };
    match update_menu(&mut m, &enter) {
        Some(Event::MenuSelected(s)) => assert_eq!(s, "quit"),
        _ => panic!("expected a selection"),
    }
}

#[test]
fn menu_start_from_controls() {
    let mut m = MenuState::main();
    let enter = Input { enter: true, ..no_input() };
    let ev = update_menu(&mut m, &enter).unwrap();
    let s = State::Menu(GameState::new(0), m).transition(ev, &ctx(0));
    assert!(matches!(s, State::Game(_, _)));
}

#[test]
fn display_message_expires() {
    let mut d = DisplayState::message(Message::Great, 1_000);
    update_display(&mut d, 2_500);
    assert_eq!(d.message, Some(Message::Great));
    update_display(&mut d, 2_501);
    assert_eq!(d.message, None);
}

#[test]
fn ball_dropped_into_single_goal_completes_game() {
    let lvl = level(vec![Hole { pos: Vec2::new(ONE / 2, ONE / 2), radius: 50_000 }], vec![0]);
    let mut g = GameState::load(lvl, 0);
    g.objects.balls[0].pos = Vec3::new(ONE / 2, ONE / 2, ONE / 10);
    g.objects.balls[0].vel = Vec3::new(0, 0, 0);
    g.objects.balls[0].forces = vec![Vec3::new(0, 0, -9_810_000)];
    let mut event = None;
    for _ in 0..1000 {
        event = update_game(&mut g, &no_input(), 8_000);
        if event.is_some() {
            break;
        }
        assert!(g.objects.balls[0].impulses.is_empty());
        assert_eq!(g.objects.balls[0].in_hole, Some(0));
    }
    assert!(matches!(event, Some(Event::GameCompleted)));
    assert!(!g.objects.balls[0].active);
    assert!(g.objects.balls[0].pos.z < -2 * BALL_RADIUS);
}

#[test]
fn ball_on_open_table_rests_on_it() {
    let lvl = level(vec![Hole { pos: Vec2::new(ONE / 2, ONE / 2), radius: 50_000 }], vec![0]);
    let mut g = GameState::load(lvl, 0);
    g.objects.balls[0].pos = Vec3::new(200_000, 200_000, BALL_RADIUS);
    g.objects.balls[0].vel = Vec3::new(0, 0, 0);
    g.objects.balls[0].forces = vec![Vec3::new(0, 0, -9_810_000)];
    for _ in 0..500 {
        assert!(update_game(&mut g, &no_input(), 8_000).is_none());
        let z = g.objects.balls[0].pos.z;
        assert!(BALL_RADIUS - 1_000 < z && z <= BALL_RADIUS, "z = {}", z);
    }
    assert!(g.objects.balls[0].active);
}
