//! Camera mode logic for the game viewport.
//!
//! Three camera modes:
//! - FollowMe: track the local player's marble
//! - FollowLeader: track the leading marble
//! - Overview: show the entire map
//!
//! This module holds the decisions of the camera: which mode it is in, how the keys switch
//! modes, and when the followed leader may change (hysteresis with a cooldown). Positions,
//! zoom and projection are computed by the renderer around it.
use vstd::prelude::*;

verus! {

/// Camera viewing mode.
#[derive(Debug, Clone, Copy, PartialEq, Eq, Structural)]
pub enum CameraMode {
    /// Follow the local player's marble.
    FollowMe,
    /// Follow the leading player's marble.
    FollowLeader,
    /// Overview of the entire map (default).
    Overview,
}

impl Default for CameraMode {
    fn default() -> (r: Self)
        ensures
            r == CameraMode::Overview,
    {
        CameraMode::Overview
    }
}

/// Frames of cooldown after the followed leader changes (60 frames = 1 second at 60fps).
pub const LEADER_SWITCH_COOLDOWN: u32 = 60;

/// Which candidate the camera follows in FollowLeader mode.
#[derive(Debug, Clone, Copy, PartialEq, Eq, Structural)]
pub enum LeaderPick {
    /// The marble furthest ahead (none if no marble was found).
    Best,
    /// The marble closest to the leader followed so far.
    Current,
}

/// The mode after Tab: FollowMe and FollowLeader alternate; Overview goes to FollowMe.
pub open spec fn next_follow_mode(m: CameraMode) -> CameraMode {
    match m {
        CameraMode::FollowMe => CameraMode::FollowLeader,
        CameraMode::FollowLeader => CameraMode::FollowMe,
        CameraMode::Overview => CameraMode::FollowMe,
    }
}

/// The leader decision of one frame, from the cooldown left and what the frame found.
///
/// `had_leader`: a leader was being followed; `best_found`: some marble has a position;
/// `tracked_found`: a marble is near the followed leader; `best_clearly_ahead`: the furthest
/// marble is ahead of that one by more than the switch margin. Returns the pick and the new
/// cooldown.
pub open spec fn leader_decision(
    cooldown: u32,
    had_leader: bool,
    best_found: bool,
    tracked_found: bool,
    best_clearly_ahead: bool,
) -> (LeaderPick, u32) {
    let c: u32 = if cooldown > 0 { (cooldown - 1) as u32 } else { 0 };
    if c > 0 && tracked_found {
        (LeaderPick::Current, c)
    } else if best_found && tracked_found {
        if best_clearly_ahead {
            (LeaderPick::Best, LEADER_SWITCH_COOLDOWN)
        } else {
            (LeaderPick::Current, c)
        }
    } else if best_found && !had_leader {
        (LeaderPick::Best, LEADER_SWITCH_COOLDOWN)
    } else {
        (LeaderPick::Best, c)
    }
}

/// Modes `(mode, previous_mode)` after Tab.
pub open spec fn after_toggle_follow(m: (CameraMode, CameraMode)) -> (CameraMode, CameraMode) {
    (next_follow_mode(m.0), m.0)
}

/// Modes `(mode, previous_mode)` after the backtick key.
pub open spec fn after_toggle_overview(m: (CameraMode, CameraMode)) -> (CameraMode, CameraMode) {
    if m.0 == CameraMode::Overview {
        (m.1, m.1)
    } else {
        (CameraMode::Overview, m.0)
    }
}

/// Modes `(mode, previous_mode)` after choosing mode `new_mode` directly.
pub open spec fn after_set_mode(m: (CameraMode, CameraMode), new_mode: CameraMode) -> (
    CameraMode,
    CameraMode,
) {
    if m.0 != new_mode {
        (new_mode, m.0)
    } else {
        m
    }
}

/// Overview always has some other mode to go back to.
pub open spec fn consistent(m: (CameraMode, CameraMode)) -> bool {
    m.0 == CameraMode::Overview ==> m.1 != CameraMode::Overview
}

/// Hysteresis state for following the leader.
#[derive(Debug, Clone, Copy)]
pub struct LeaderHysteresis {
    /// Frames left before the followed leader may change again.
    leader_switch_cooldown: u32,
}

impl LeaderHysteresis {
    /// Frames left before the followed leader may change again.
    pub closed spec fn cooldown(self) -> u32 {
        self.leader_switch_cooldown
    }

    /// No cooldown running.
    pub fn new() -> (r: Self)
        ensures
            r.cooldown() == 0,
    {
        LeaderHysteresis { leader_switch_cooldown: 0 }
    }

    /// Decides, for one frame, which marble the camera follows: see [`leader_decision`].
    pub fn pick(
        &mut self,
        had_leader: bool,
        best_found: bool,
        tracked_found: bool,
        best_clearly_ahead: bool,
    ) -> (r: LeaderPick)
        ensures
            (r, final(self).cooldown()) == leader_decision(
                old(self).cooldown(),
                had_leader,
                best_found,
                tracked_found,
                best_clearly_ahead,
            ),
    {
        // Decrease cooldown
        if self.leader_switch_cooldown > 0 {
            self.leader_switch_cooldown = self.leader_switch_cooldown - 1;
        }
        // If on cooldown and we have a tracked position, keep it
        if self.leader_switch_cooldown > 0 && tracked_found {
            return LeaderPick::Current;
        }
        // Hysteresis: only switch leader if the new leader is significantly ahead
        if best_found && tracked_found {
            if best_clearly_ahead {
                self.leader_switch_cooldown = LEADER_SWITCH_COOLDOWN;
                LeaderPick::Best
            } else {
                LeaderPick::Current
            }
        } else if best_found && !had_leader {
            // First time tracking, start cooldown
            self.leader_switch_cooldown = LEADER_SWITCH_COOLDOWN;
            LeaderPick::Best
        } else {
            // No current tracking or no marbles, use best
            LeaderPick::Best
        }
    }
}

/// Mode state of the camera.
#[derive(Debug, Clone, Copy)]
pub struct CameraState {
    /// Current camera mode.
    pub mode: CameraMode,
    /// Previous mode (for Overview toggle restoration).
    pub previous_mode: CameraMode,
    /// Leader switching state.
    pub leader: LeaderHysteresis,
}

impl CameraState {

    /// A camera in Overview, returning to FollowMe, with no leader cooldown.
    pub fn new() -> (r: Self)
        ensures
            r.mode == CameraMode::Overview,
            r.previous_mode == CameraMode::FollowMe,
            r.leader.cooldown() == 0,
    {
        CameraState {
            mode: CameraMode::Overview,
            previous_mode: CameraMode::FollowMe,
            leader: LeaderHysteresis::new(),
        }
    }

    /// Toggle between FollowMe and FollowLeader modes (Tab key).
    /// - If in FollowMe: switch to FollowLeader
    /// - If in FollowLeader: switch to FollowMe
    /// - If in Overview: switch to FollowMe
    pub fn toggle_follow(&mut self)
        ensures
            (final(self).mode, final(self).previous_mode) == after_toggle_follow((old(self).mode, old(self).previous_mode)),
            final(self).leader.cooldown() == old(self).leader.cooldown(),
    {
        self.previous_mode = self.mode;
        self.mode = match self.mode {
            CameraMode::FollowMe => CameraMode::FollowLeader,
            CameraMode::FollowLeader => CameraMode::FollowMe,
            CameraMode::Overview => CameraMode::FollowMe,
        };
    }

    /// Toggle Overview mode on/off (backtick key).
    /// - If in Overview: restore the previous mode
    /// - Otherwise: save the current mode and switch to Overview
    pub fn toggle_overview(&mut self)
        ensures
            (final(self).mode, final(self).previous_mode) == after_toggle_overview((old(self).mode, old(self).previous_mode)),
            final(self).leader.cooldown() == old(self).leader.cooldown(),
    {
        if self.mode == CameraMode::Overview {
            self.mode = self.previous_mode;
        } else {
            self.previous_mode = self.mode;
            self.mode = CameraMode::Overview;
        }
    }

    /// The current camera mode.
    pub fn mode(&self) -> (r: CameraMode)
        ensures
            r == self.mode,
    {
        self.mode
    }

    /// Set the camera mode directly (Q/W/E keys and UI buttons).
    pub fn set_mode(&mut self, mode: CameraMode)
        ensures
            (final(self).mode, final(self).previous_mode) == after_set_mode((old(self).mode, old(self).previous_mode), mode),
            final(self).leader.cooldown() == old(self).leader.cooldown(),
    {
        if self.mode != mode {
            self.previous_mode = self.mode;
            self.mode = mode;
        }
    }

    /// Decides, for one frame in FollowLeader mode, which marble the camera follows.
    ///
    /// The cooldown counts down one frame; while it lasts, a marble near the followed leader
    /// keeps being followed. Otherwise the followed marble is dropped for the furthest one only
    /// when that one is clearly ahead, which starts a new cooldown; the first leader also starts
    /// one.
    pub fn pick_leader(
        &mut self,
        had_leader: bool,
        best_found: bool,
        tracked_found: bool,
        best_clearly_ahead: bool,
    ) -> (r: LeaderPick)
        ensures
            (r, final(self).leader.cooldown()) == leader_decision(
                old(self).leader.cooldown(),
                had_leader,
                best_found,
                tracked_found,
                best_clearly_ahead,
            ),
            final(self).mode == old(self).mode,
            final(self).previous_mode == old(self).previous_mode,
    {
        self.leader.pick(had_leader, best_found, tracked_found, best_clearly_ahead)
    }
}

/// What the camera centres on in a frame.
#[derive(Debug, Clone, Copy, PartialEq, Eq, Structural)]
pub enum CameraTarget {
    /// The centre of the map
    MapCenter,
    /// This player's marble (the map centre when it is gone)
    MyMarble,
    /// The leading marble (the map centre when there is none)
    Leader,
}

/// What a mode centres on: Overview the map, FollowMe this player's marble when the player
/// is known, FollowLeader the leader. The mode itself never changes on its own.
pub open spec fn target_of(mode: CameraMode, me_known: bool) -> CameraTarget {
    match mode {
        CameraMode::Overview => CameraTarget::MapCenter,
        CameraMode::FollowMe => if me_known {
            CameraTarget::MyMarble
        } else {
            CameraTarget::MapCenter
        },
        CameraMode::FollowLeader => CameraTarget::Leader,
    }
}

/// What the camera centres on in `mode`, `me_known` saying whether this player is known.
pub fn camera_target(mode: CameraMode, me_known: bool) -> (r: CameraTarget)
    ensures
        r == target_of(mode, me_known),
{
    match mode {
        CameraMode::Overview => CameraTarget::MapCenter,
        CameraMode::FollowMe => if me_known {
            CameraTarget::MyMarble
        } else {
            CameraTarget::MapCenter
        },
        CameraMode::FollowLeader => CameraTarget::Leader,
    }
}

/// Overview zooms to fit the whole map; both follow modes use the close-up zoom.
pub fn zooms_to_fit(mode: CameraMode) -> (r: bool)
    ensures
        r == (mode == CameraMode::Overview),
{
    match mode {
        CameraMode::Overview => true,
        _ => false,
    }
}

impl Default for CameraState {
    fn default() -> (r: Self)
        ensures
            r.mode == CameraMode::Overview,
            r.previous_mode == CameraMode::FollowMe,
            r.leader.cooldown() == 0,
    {
        Self::new()
    }
}

// ============================================================================
// Laws
// ============================================================================
/// Tab never enters Overview; it alternates the two follow modes, so pressing it twice in a
/// follow mode comes back to that mode.
pub proof fn law_follow_toggle_cycle(m: (CameraMode, CameraMode))
    ensures
        after_toggle_follow(m).0 != CameraMode::Overview,
        m.0 == CameraMode::Overview ==> after_toggle_follow(m).0 == CameraMode::FollowMe,
        m.0 != CameraMode::Overview ==> after_toggle_follow(after_toggle_follow(m)).0 == m.0,
{
}

/// The new camera is consistent, and every mode change keeps it so.
pub proof fn law_consistency_kept(m: (CameraMode, CameraMode), new_mode: CameraMode)
    requires
        consistent(m),
    ensures
        consistent(after_toggle_follow(m)),
        consistent(after_toggle_overview(m)),
        consistent(after_set_mode(m, new_mode)),
        consistent((CameraMode::Overview, CameraMode::FollowMe)),
{
}

/// In a consistent camera the backtick key always changes the mode, and pressing it twice
/// restores the mode the camera was in.
pub proof fn law_overview_round_trip(m: (CameraMode, CameraMode))
    requires
        consistent(m),
    ensures
        after_toggle_overview(m).0 != m.0,
        after_toggle_overview(after_toggle_overview(m)).0 == m.0,
        m.0 != CameraMode::Overview ==> after_toggle_overview(m).1 == m.0,
{
}

/// Choosing the current mode changes nothing; choosing another remembers the current one.
pub proof fn law_set_mode(m: (CameraMode, CameraMode), new_mode: CameraMode)
    ensures
        after_set_mode(m, new_mode).0 == new_mode,
        m.0 == new_mode ==> after_set_mode(m, new_mode) == m,
        m.0 != new_mode ==> after_set_mode(m, new_mode).1 == m.0,
{
}

/// While a cooldown runs, a marble near the followed leader keeps being followed.
pub proof fn law_cooldown_keeps_leader(
    cooldown: u32,
    had_leader: bool,
    best_found: bool,
    best_clearly_ahead: bool,
)
    requires
        cooldown > 1,
    ensures
        leader_decision(cooldown, had_leader, best_found, true, best_clearly_ahead).0
            == LeaderPick::Current,
        leader_decision(cooldown, had_leader, best_found, true, best_clearly_ahead).1 == cooldown
            - 1,
{
}

/// The followed marble is only dropped for one that is clearly ahead, and dropping it starts a
/// full cooldown.
pub proof fn law_switch_needs_margin(
    cooldown: u32,
    had_leader: bool,
    best_found: bool,
    best_clearly_ahead: bool,
)
    requires
        best_found,
        leader_decision(cooldown, had_leader, best_found, true, best_clearly_ahead).0
            == LeaderPick::Best,
    ensures
        best_clearly_ahead,
        leader_decision(cooldown, had_leader, best_found, true, best_clearly_ahead).1
            == LEADER_SWITCH_COOLDOWN,
{
}

/// After a switch, the new leader is kept for the next frames whenever it is still found
/// near its position.
pub proof fn law_switch_then_hold(had: bool, best: bool, ahead: bool, cooldown: u32)
    requires
        leader_decision(cooldown, had, best, true, ahead).0 == LeaderPick::Best,
        best,
    ensures
        forall|b2: bool, a2: bool|
            #[trigger] leader_decision(
                leader_decision(cooldown, had, best, true, ahead).1,
                true,
                b2,
                true,
                a2,
            ).0 == LeaderPick::Current,
{
}

/// Each mode centres on its own target: FollowLeader always on the leader, whatever is known of
/// this player; only FollowMe with this player known on this player's marble; and the map
/// centre otherwise.
pub proof fn law_mode_targets(mode: CameraMode, me_known: bool)
    ensures
        (target_of(mode, me_known) == CameraTarget::Leader) <==> (mode == CameraMode::FollowLeader),
        (target_of(mode, me_known) == CameraTarget::MyMarble) <==> (mode == CameraMode::FollowMe
            && me_known),
        (target_of(mode, me_known) == CameraTarget::MapCenter) <==> (mode == CameraMode::Overview
            || (mode == CameraMode::FollowMe && !me_known)),
{
}

} // verus!
