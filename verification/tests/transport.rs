use hopf_sta_viz::preset::RenderMode;
use hopf_sta_viz::transport::{frame_gates, DragButtons, PointerButton};

#[test]
fn gates_follow_transport() {
    let g = frame_gates(true, false, true, true, RenderMode::Fdtd);
    assert!(g.advance && g.pulse_clock_runs && !g.demo_clock_runs);
    let g = frame_gates(false, false, true, true, RenderMode::Fdtd);
    assert!(!g.advance && !g.pulse_clock_runs && !g.demo_clock_runs);
    let g = frame_gates(false, true, true, false, RenderMode::Fdtd);
    assert!(g.advance && g.pulse_clock_runs);
    let g = frame_gates(true, false, true, true, RenderMode::Lines);
    assert!(g.advance && !g.pulse_clock_runs && g.demo_clock_runs);
    // The demo cycle runs even while paused.
    let g = frame_gates(false, false, false, true, RenderMode::Particles);
    assert!(!g.advance && g.demo_clock_runs);
}

#[test]
fn drag_buttons_respect_panel() {
    let mut d = DragButtons::new();
    assert!(!d.drag(false));
    d.button(PointerButton::Right, true, false);
    assert!(d.drag(false));
    assert!(!d.drag(true));
    d.button(PointerButton::Right, false, false);
    assert!(!d.drag(false));
    d.button(PointerButton::Middle, true, true); // consumed by the panel
    assert!(!d.drag(false));
    d.button(PointerButton::Middle, true, false);
    assert!(d.drag(false)); // a middle-button drag orbits as well
    d.button(PointerButton::Other, false, false);
    assert!(d.drag(false));
    d.button(PointerButton::Middle, false, false);
    assert!(!d.drag(false));
}
