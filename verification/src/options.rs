//! Application options and the drivers that run an application.

use vstd::prelude::*;
use vstd::string::StringExecFns;

verus! {

/// Configuration options for the application.
#[derive(Clone, Debug)]
pub struct RetGuiOptions {
    /// The title of the application window.
    pub app_name: String,
}

impl Default for RetGuiOptions {
    /// The options of an application named `retgui`.
    fn default() -> (r: RetGuiOptions)
        ensures
            r.app_name@ == "retgui"@,
    {
        RetGuiOptions { app_name: String::from_str("retgui") }
    }
}

impl RetGuiOptions {
    /// Options with the given application name.
    pub fn basic(app_name: &str) -> (r: RetGuiOptions)
        ensures
            r.app_name@ == app_name@,
    {
        RetGuiOptions { app_name: String::from_str(app_name) }
    }
}

/// The kinds of driver that can run an application.
#[derive(Clone, Copy, Debug, PartialEq, Eq, Structural)]
pub enum DriverKind {
    Winit,
    Headless,
}

impl Default for DriverKind {
    fn default() -> (r: DriverKind)
        ensures
            r == DriverKind::Winit,
    {
        DriverKind::Winit
    }
}

/// Passes events to the application and drives it forward.
pub trait Driver {
    /// Runs the application until completion, usually until every window
    /// is closed.
    fn run(self);
}

/// The most passes a headless application gets to settle.
pub const MAX_SETTLE_PASSES: usize = 64;

/// How far a headless application has come in settling: the passes made,
/// and how many passes in a row had nothing to do.
#[derive(Clone, Copy, Debug, PartialEq, Eq, Structural)]
pub struct SettleState {
    pub passes: usize,
    pub idle_passes: usize,
}

/// What follows a pass of a headless application.
#[derive(Clone, Copy, Debug, PartialEq, Eq, Structural)]
pub enum SettleOutcome {
    /// Two passes in a row processed no event and left no window to redraw.
    Settled,
    /// Ask the windows to redraw that need it, and make another pass.
    Again,
    /// Ask the windows to redraw that need it; the passes are used up
    /// without settling.
    Unsettled,
}

/// The outcome of a pass that processed `events` events and left `dirty`
/// windows to redraw.
pub open spec fn settle_spec(st: SettleState, events: usize, dirty: usize) -> (SettleState, SettleOutcome) {
    let idle: usize = if dirty == 0 && events == 0 {
        (st.idle_passes + 1) as usize
    } else {
        0
    };
    let next = SettleState { passes: (st.passes + 1) as usize, idle_passes: idle };
    if idle == 2 {
        (next, SettleOutcome::Settled)
    } else if next.passes == MAX_SETTLE_PASSES {
        (next, SettleOutcome::Unsettled)
    } else {
        (next, SettleOutcome::Again)
    }
}

impl SettleState {
    /// Before the first pass.
    pub fn new() -> (r: SettleState)
        ensures
            r == (SettleState { passes: 0, idle_passes: 0 }),
    {
        SettleState { passes: 0, idle_passes: 0 }
    }

    /// Takes the result of a pass: `events` events processed and `dirty`
    /// windows left to redraw.
    pub fn after_pass(&mut self, events: usize, dirty: usize) -> (r: SettleOutcome)
        requires
            old(self).passes < MAX_SETTLE_PASSES,
            old(self).idle_passes < 2,
        ensures
            (*final(self), r) == settle_spec(*old(self), events, dirty),
            r == SettleOutcome::Again ==> final(self).passes < MAX_SETTLE_PASSES && final(self).idle_passes < 2,
    {
        self.idle_passes = if dirty == 0 && events == 0 {
            self.idle_passes + 1
        } else {
            0
        };
        self.passes = self.passes + 1;
        if self.idle_passes == 2 {
            SettleOutcome::Settled
        } else if self.passes == MAX_SETTLE_PASSES {
            SettleOutcome::Unsettled
        } else {
            SettleOutcome::Again
        }
    }
}

/// Two idle passes in a row settle a headless application that has passes
/// left for them.
pub proof fn lemma_two_idle_passes_settle(st: SettleState)
    requires
        st.idle_passes == 0,
        st.passes + 2 < MAX_SETTLE_PASSES,
    ensures
        settle_spec(st, 0, 0).1 == SettleOutcome::Again,
        settle_spec(settle_spec(st, 0, 0).0, 0, 0).1 == SettleOutcome::Settled,
{
}

} // verus!
