use vstd::prelude::*;

use crate::preset::RenderMode;

verus! {

/// What runs during one frame, decided from the transport controls.
#[derive(Copy, Clone, PartialEq, Eq, Structural, Debug)]
pub struct FrameGates {
    /// Simulation time (analytic time and FDTD substeps) advances.
    pub advance: bool,
    /// The auto-pulse clock runs (and may fire a fresh FDTD pulse).
    pub pulse_clock_runs: bool,
    /// The demo clock runs (and may switch to the next preset).
    pub demo_clock_runs: bool,
}

/// The frame's gates: time advances while playing or for a single step;
/// auto-pulses only run in FDTD mode while time advances; the demo cycle
/// only runs in the analytic modes.
pub fn frame_gates(
    playing: bool,
    step_once: bool,
    auto_pulse: bool,
    demo_cycle: bool,
    render_mode: RenderMode,
) -> (g: FrameGates)
    ensures
        g.advance == (playing || step_once),
        g.pulse_clock_runs == (auto_pulse && render_mode == RenderMode::Fdtd && (playing || step_once)),
        g.demo_clock_runs == (demo_cycle && render_mode != RenderMode::Fdtd),
{
    let fdtd = match render_mode {
        RenderMode::Fdtd => true,
        _ => false,
    };
    let advance = playing || step_once;
    FrameGates {
        advance,
        pulse_clock_runs: auto_pulse && fdtd && advance,
        demo_clock_runs: demo_cycle && !fdtd,
    }
}

/// Mouse buttons the camera reacts to.
#[derive(Copy, Clone, PartialEq, Eq, Structural, Debug)]
pub enum PointerButton {
    /// Orbits the camera while held.
    Right,
    /// Also orbits the camera while held.
    Middle,
    /// Any other button (ignored).
    Other,
}

/// Which camera-drag buttons are held.
#[derive(Copy, Clone, PartialEq, Eq, Structural, Debug)]
pub struct DragButtons {
    pub rmb_down: bool,
    pub mmb_down: bool,
}

impl DragButtons {
    /// No button held.
    pub fn new() -> (d: DragButtons)
        ensures
            !d.rmb_down && !d.mmb_down,
    {
        DragButtons { rmb_down: false, mmb_down: false }
    }

    /// A button was pressed or released. Events the panel consumed leave the
    /// held state unchanged.
    pub fn button(&mut self, b: PointerButton, pressed: bool, consumed: bool)
        ensures
            final(self).rmb_down == if !consumed && b == PointerButton::Right { pressed } else { old(self).rmb_down },
            final(self).mmb_down == if !consumed && b == PointerButton::Middle { pressed } else { old(self).mmb_down },
    {
        if !consumed {
            match b {
                PointerButton::Right => self.rmb_down = pressed,
                PointerButton::Middle => self.mmb_down = pressed,
                PointerButton::Other => {},
            }
        }
    }

    /// For a cursor move: whether the camera orbits. A right- or
    /// middle-button drag orbits, unless the panel consumed the move.
    pub fn drag(&self, consumed: bool) -> (orbit: bool)
        ensures
            orbit == (!consumed && (self.rmb_down || self.mmb_down)),
    {
        !consumed && (self.rmb_down || self.mmb_down)
    }
}

} // verus!
