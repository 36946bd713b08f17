//! State of the performance overlay: whether it shows, whether its detail card is
//! open, and how long it has been since the last audio activity (for auto-hide).

use vstd::prelude::*;

verus! {

/// Milliseconds without activity after which the overlay hides itself.
pub const PERF_HUD_IDLE_MS: u64 = 4_000;

/// State of the performance overlay.
pub struct PerfHudState {
    pub visible: bool,
    pub expanded: bool,
    /// Milliseconds since the last xrun or update.
    pub last_activity_ms: u64,
}

impl Default for PerfHudState {
    fn default() -> (s: Self)
        ensures
            !s.visible,
            !s.expanded,
            s.last_activity_ms == 0,
    {
        PerfHudState { visible: false, expanded: false, last_activity_ms: 0 }
    }
}

/// Records activity (an xrun or an update): the idle time starts again from zero.
pub fn perf_hud_on_activity(st: &mut PerfHudState)
    ensures
        *final(st) == (PerfHudState { last_activity_ms: 0, ..*old(st) }),
{
    st.last_activity_ms = 0;
}

/// Advances the idle time by `dt_ms` milliseconds, stopping at the largest value.
pub fn perf_hud_tick(st: &mut PerfHudState, dt_ms: u64)
    ensures
        *final(st) == (PerfHudState {
            last_activity_ms: if old(st).last_activity_ms + dt_ms > u64::MAX {
                u64::MAX
            } else {
                (old(st).last_activity_ms + dt_ms) as u64
            },
            ..*old(st)
        }),
{
    st.last_activity_ms = st.last_activity_ms.saturating_add(dt_ms);
}

/// Whether the detail card is drawn this frame: when it is forced open or the
/// pointer is over the overlay's chip.
pub fn perf_hud_card_visible(st: &PerfHudState, hovered: bool) -> (r: bool)
    ensures
        r == (st.expanded || hovered),
{
    st.expanded || hovered
}

/// Settles the overlay after a frame in which it was drawn: it hides when its
/// close button was clicked, or when it has been idle for more than
/// `PERF_HUD_IDLE_MS` while neither hovered nor forced open.
pub fn perf_hud_end_frame(st: &mut PerfHudState, hovered: bool, close_clicked: bool)
    ensures
        final(st).expanded == old(st).expanded,
        final(st).last_activity_ms == old(st).last_activity_ms,
        final(st).visible == (old(st).visible && !close_clicked && !(old(st).last_activity_ms > PERF_HUD_IDLE_MS
            && !hovered && !old(st).expanded)),
{
    let idle = st.last_activity_ms > PERF_HUD_IDLE_MS;
    if close_clicked {
        st.visible = false;
    }
    if idle && !hovered && !st.expanded {
        st.visible = false;
    }
}

} // verus!
