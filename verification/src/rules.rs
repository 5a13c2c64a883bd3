use vstd::prelude::*;

verus! {

/// Marks "no cable": the value of the grabbed-object slot when nothing is
/// held, and of a socket's connection when no cable sits in it.
pub const NO_OBJECT: i32 = 1000;

/// Number of cables (and of sockets) in one round.
pub const CABLE_COUNT: usize = 8;

/// How many random "take one out, put it at the end" moves mix the cables.
pub const SHUFFLE_MOVES: usize = 20;

/// Frames during which a button shows its pressed image and ignores clicks.
pub const BUTTON_CLICK_FRAMES: i32 = 120;

/// Frames during which a slider ignores further clicks after one click.
pub const SLIDER_WAIT_FRAMES: i32 = 300;

/// Frames the slider knob takes to travel from one end to the other.
pub const SLIDER_MAX_FRAMES: i32 = 300;

/// Frames a requested message stays on screen.
pub const TEXT_FRAMES: i32 = 300;

/// Button that starts a new round.
pub const RESET_BUTTON: i32 = 0;

/// Button that checks the connections.
pub const CHECK_BUTTON: i32 = 1;

/// Button that switches between the game and the settings screen.
pub const SETTINGS_BUTTON: i32 = 2;

/// Message asking to connect every cable before checking.
pub const CONNECT_ALL_TEXT: i32 = 0;

/// Message asking to start a new round after a check.
pub const CLICK_RESET_TEXT: i32 = 1;

/// The slider that chooses what a reset clears.
pub const CLEAR_MODE_SLIDER: i32 = 0;

/// Screen shown: the game.
pub const MAIN_SCREEN: i32 = 0;

/// Screen shown: the settings.
pub const SETTINGS_SCREEN: i32 = 1;

} // verus!
