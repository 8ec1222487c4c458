//! A ball-on-a-seesaw table game: fixed-point physics for the ball, the rod
//! and the holes, the round outcome rules and the game's state machine.
//!
//! Real quantities are fixed-point integers in millionths (see `fixed`), so
//! that every step of the simulation is exact and proved.
pub mod balls;
pub mod editor;
pub mod fixed;
pub mod game;
pub mod level;
pub mod menu;
pub mod mode;
pub mod objects;
pub mod rod;
pub mod state;
pub mod vector;

pub use balls::{drag_balls, update_balls};
pub use fixed::{LIMIT, ONE};
pub use editor::{update_editor, EditorInput};
pub use game::{calculate_frames, evaluate_outcome, update_game, update_state};
pub use level::{update_edge_physics, update_hole_physics, update_level};
pub use menu::{update_display, update_menu};
pub use mode::{Context, DisplayState, EditorState, Event, MenuState, Message, State};
pub use objects::{Actuator, Ball, Hole, Input, Table, BALL_RADIUS};
pub use rod::{update_actuators, update_rod_physics};
pub use state::{GameCameraState, GameLevelState, GameObjectState, GameProgressState, GameState};
pub use vector::{Vec2, Vec3};
