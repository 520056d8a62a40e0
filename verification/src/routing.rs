//! Which pages need the game engine, what the engine is set to on each page, and when its
//! canvas is mounted.
use vstd::prelude::*;
use vstd::string::StringExecFns;

verus! {

/// The pages of the client.
#[derive(Debug, Clone, PartialEq)]
pub enum Route {
    Home,
    Play { room_id: String },
    Editor,
    Panic,
    NotFound,
    Debug,
    DebugGrpc,
    DebugP2p,
}

/// What the game engine is set to.
#[derive(Debug, Clone, Copy, PartialEq, Eq, Structural)]
pub enum EngineMode {
    /// Start the game (on the play page)
    Game,
    /// Start the editor (on the editor page)
    Editor,
    /// Clear whatever runs (any other page)
    Cleared,
}

/// The play page and the editor show the engine's canvas.
pub open spec fn needs_engine(route: Option<Route>) -> bool {
    match route {
        Some(Route::Play { .. }) | Some(Route::Editor) => true,
        _ => false,
    }
}

/// Whether the page shows the engine's canvas.
pub fn route_needs_bevy(route: &Option<Route>) -> (r: bool)
    ensures
        r == needs_engine(*route),
{
    match route {
        Some(Route::Play { .. }) | Some(Route::Editor) => true,
        _ => false,
    }
}

/// The engine mode for a page.
pub open spec fn engine_mode_of(route: Option<Route>) -> EngineMode {
    match route {
        Some(Route::Play { .. }) => EngineMode::Game,
        Some(Route::Editor) => EngineMode::Editor,
        _ => EngineMode::Cleared,
    }
}

/// What the engine is set to when the page changes.
pub fn engine_mode(route: &Option<Route>) -> (r: EngineMode)
    ensures
        r == engine_mode_of(*route),
{
    match route {
        Some(Route::Play { .. }) => EngineMode::Game,
        Some(Route::Editor) => EngineMode::Editor,
        _ => EngineMode::Cleared,
    }
}

/// Whether the engine was ever started: once started, its canvas stays mounted (only hidden)
/// so that it is never started twice.
#[derive(Debug, Clone, Copy)]
pub struct EngineLatch {
    pub ever_started: bool,
}

impl EngineLatch {
    /// Not started yet.
    pub fn new() -> (r: Self)
        ensures
            !r.ever_started,
    {
        EngineLatch { ever_started: false }
    }

    /// The page changed: records a page that needs the engine, and says whether the engine's
    /// canvas is mounted.
    pub fn visit(&mut self, needs: bool) -> (mounted: bool)
        ensures
            (final(self).ever_started, mounted) == after_visit(old(self).ever_started, needs),
    {
        let mounted = needs || self.ever_started;
        if needs {
            self.ever_started = true;
        }
        mounted
    }
}

/// After a page change from a latch that recorded `ever`: the new record and whether the
/// canvas is mounted.
pub open spec fn after_visit(ever: bool, needs: bool) -> (bool, bool) {
    (ever || needs, needs || ever)
}

/// Once a page needed the engine, the canvas stays mounted on every later page, whatever it
/// needs; before that, it is mounted exactly on the pages that need it.
pub proof fn law_engine_stays_mounted(ever: bool, needs: bool)
    ensures
        ever ==> after_visit(ever, needs).0 && after_visit(ever, needs).1,
        !ever ==> after_visit(ever, needs).1 == needs,
        needs ==> after_visit(ever, needs).0,
{
}

/// How long the "copied" feedback of the share button lasts, in milliseconds.
pub const SHARE_FEEDBACK_MS: u32 = 2000;

/// The address of a room's play page on a site served from `origin`: `{origin}/play/{room_id}`.
pub fn share_url(origin: &str, room_id: &str) -> (r: String)
    ensures
        r@ == origin@ + "/play/"@ + room_id@,
{
    let mut v = String::from_str(origin);
    v.append("/play/");
    v.append(room_id);
    v
}

} // verus!
