//! Interaction core of a 2D physics puzzle game: a player-driven hand that
//! grabs and releases physics objects, a recorder that captures a timed
//! trajectory of goals and grab events, and a playback engine that replays
//! the capture forever on an autonomous ghost hand.
//!
//! The engine collaborators (rendering, physics integration, asset loading,
//! input devices) live outside this crate; the simulation state lives in a
//! plain entity table (`World`) and every rule that reads or mutates it is
//! verified here.

use vstd::prelude::*;

mod hand;
mod level;
mod object;
mod recording;
mod submit;
mod timer;
mod world;

pub use hand::Goal;
pub use hand::Grabbing;
pub use hand::HAND_OFFSET;
pub use hand::Hand;
pub use hand::HandActions;
pub use hand::Signals;
pub use level::CurrentLevel;
pub use level::LoadLevel;
pub use level::LoadObject;
pub use level::load_event;
pub use level::reload_level;
pub use object::Collector;
pub use object::CollectorInteraction;
pub use object::ColliderInfo;
pub use object::Extent;
pub use object::GrabInteractions;
pub use object::Grabbed;
pub use object::Hitbox;
pub use object::Object;
pub use object::ObjectInfo;
pub use object::ShapeKind;
pub use recording::Playback;
pub use recording::Recording;
pub use recording::driven_by;
pub use recording::lemma_driven_step;
pub use recording::lemma_grab_queue_keeps_pace;
pub use recording::lemma_playback_queues_empty_at_wrap;
pub use recording::lemma_recording_sample_count;
pub use recording::lemma_replay_reproduces_capture;
pub use submit::Deliveries;
pub use submit::SUBMIT_THRESHOLD;
pub use submit::submitting;
pub use timer::MILLIS_PER_SEC;
pub use timer::RESET_PERIOD_MS;
pub use timer::ResetConfig;
pub use timer::ResetText;
pub use timer::Timer;
pub use timer::setup_text;
pub use timer::update_reset;
pub use world::Joint;
pub use world::World;
pub use world::setup;

verus! {

/// A point in the 2D play field, in integer world units.
#[derive(Clone, Copy, PartialEq, Eq, Structural, Debug)]
pub struct Pos {
    pub x: i32,
    pub y: i32,
}

/// A velocity command handed to the physics integrator, per axis.
///
/// Wide enough to hold any proportional error term over `Pos` coordinates.
#[derive(Clone, Copy, PartialEq, Eq, Structural, Debug)]
pub struct Vel {
    pub x: i64,
    pub y: i64,
}

/// Proportional gain of the motion controller: velocity = error * GAIN.
pub const GAIN: i64 = 5;

/// Length of the recording window — and of one playback loop — in seconds.
pub const RECORDING_TIME: u64 = 3;

/// The same window in the milliseconds the simulation clocks run on.
pub const RECORDING_WINDOW_MS: u64 = RECORDING_TIME * timer::MILLIS_PER_SEC;

/// Everything one session of the interaction core owns: the entity table
/// and the bookkeeping resources the systems share.
pub struct Game {
    pub world: world::World,
    pub current_level: level::CurrentLevel,
    pub deliveries: submit::Deliveries,
    pub reset: timer::ResetConfig,
    pub reset_text: timer::ResetText,
}

impl Game {
    pub open spec fn wf(self) -> bool {
        &&& self.world.wf()
        &&& self.reset.wf()
    }
}

/// Wire a fresh session together: an empty world, level zero, an empty
/// delivery tally, and the reset countdown at the top of its cycle.
pub fn register() -> (g: Game)
    ensures
        g.wf(),
        g.world.hands@.len() == 0,
        g.world.objects@.len() == 0,
        g.world.joints@.len() == 0,
        g.current_level.0 == 0,
        g.deliveries.0 == 0,
        g.reset.timer.elapsed == 0,
        g.reset_text.seconds == 10,
{
    Game {
        world: world::setup(),
        current_level: level::CurrentLevel(0),
        deliveries: submit::Deliveries(0),
        reset: timer::ResetConfig { timer: timer::Timer::new(timer::RESET_PERIOD_MS, true) },
        reset_text: timer::setup_text(),
    }
}

} // verus!
