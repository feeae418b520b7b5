use hopf_sta_viz::preset::{FieldMode, Preset, RenderMode};
use hopf_sta_viz::web_preset::{Shape, WebField, WebPreset};

#[test]
fn preset_labels() {
    assert_eq!(Preset::Hopfion.label(), "Hopfion (Rañada link)");
    assert_eq!(Preset::PhotonHopfion.label(), "Single-photon hopfion");
    assert_eq!(Preset::Donut.label(), "Flying donut (link=0)");
    assert_eq!(Preset::PlanePhoton.label(), "Plane-wave photon");
    assert_eq!(Preset::CpPhoton.label(), "Circular-pol photon");
    assert_eq!(Preset::Trefoil.label(), "Trefoil hopfion (k=2)");
    assert_eq!(Preset::StaCrunch.label(), "STA crunch (stress test)");
}

#[test]
fn preset_shader_ids() {
    let ids: Vec<u32> = Preset::all().iter().map(|p| p.shader_id()).collect();
    assert_eq!(ids, vec![0, 1, 2, 3, 4, 5, 0]);
    for p in Preset::all() {
        assert!(p.shader_id() < 6);
    }
}

#[test]
fn preset_names_match_debug() {
    for p in Preset::all() {
        assert_eq!(p.name(), format!("{:?}", p));
    }
    for m in [FieldMode::E, FieldMode::B, FieldMode::Both, FieldMode::Poynting] {
        assert_eq!(m.name(), format!("{:?}", m));
    }
    for m in [RenderMode::Lines, RenderMode::Particles, RenderMode::Fdtd] {
        assert_eq!(m.name(), format!("{:?}", m));
    }
}

#[test]
fn preset_counts_table() {
    let c = Preset::Hopfion.counts();
    assert_eq!((c.seeds, c.steps, c.particles), (2048, 256, 131_072));
    let c = Preset::PlanePhoton.counts();
    assert_eq!((c.seeds, c.steps, c.particles), (768, 220, 65_536));
    let c = Preset::StaCrunch.counts();
    assert_eq!((c.seeds, c.steps, c.particles), (8192, 512, 600_000));
    let c = Preset::Trefoil.counts();
    assert_eq!((c.seeds, c.steps, c.particles), (2048, 320, 131_072));
}

#[test]
fn preset_switch_flags() {
    // Hopfion -> PhotonHopfion: same counts, nothing to rebuild.
    let s = Preset::PhotonHopfion.switch_from(2048, 256, 131_072);
    assert!(!s.topology_changed && !s.particles_changed);
    // Hopfion -> PlanePhoton: every count changes.
    let s = Preset::PlanePhoton.switch_from(2048, 256, 131_072);
    assert!(s.topology_changed && s.particles_changed);
    assert_eq!((s.seeds, s.steps, s.particles), (768, 220, 65_536));
    // Only the step count differs.
    let s = Preset::Trefoil.switch_from(2048, 256, 131_072);
    assert!(s.topology_changed && !s.particles_changed);
}

#[test]
fn demo_walk_order() {
    let mut p = Preset::Hopfion;
    let mut seen = Vec::new();
    for _ in 0..7 {
        seen.push(p);
        p = p.demo_next();
    }
    assert_eq!(
        seen,
        vec![
            Preset::Hopfion,
            Preset::PhotonHopfion,
            Preset::Donut,
            Preset::CpPhoton,
            Preset::Trefoil,
            Preset::PlanePhoton,
            Preset::StaCrunch
        ]
    );
    // Seven switches bring every preset back to itself.
    assert_eq!(p, Preset::Hopfion);
    for q in Preset::all() {
        let mut r = q;
        for _ in 0..7 {
            r = r.demo_next();
        }
        assert_eq!(r, q);
    }
}

#[test]
fn channel_ids_per_mode() {
    assert_eq!(FieldMode::E.channel_ids(), vec![0]);
    assert_eq!(FieldMode::B.channel_ids(), vec![1]);
    assert_eq!(FieldMode::Both.channel_ids(), vec![0, 1]);
    assert_eq!(FieldMode::Poynting.channel_ids(), vec![2]);
}

#[test]
fn web_preset_labels_and_shapes() {
    assert_eq!(WebPreset::Hopfion.label(), "Hopfion · linked null ring (index 1)");
    assert_eq!(WebPreset::FlyingDonut.label(), "Flying donut · Hellwarth–Nouchi");
    assert_eq!(WebPreset::PhasedArray.label(), "Phased array · steered beam");
    assert_eq!(WebPreset::RadialDonut.shape(), Shape::RadialDonut);
    assert_eq!(WebPreset::CpPhoton.shape(), Shape::CpPhoton);
    assert_eq!(WebPreset::Trefoil.shape(), Shape::Trefoil);
}

#[test]
fn web_preset_next_wraps() {
    assert_eq!(WebPreset::Hopfion.next(), WebPreset::PhotonHopfion);
    assert_eq!(WebPreset::Trefoil.next(), WebPreset::PhasedArray);
    assert_eq!(WebPreset::PhasedArray.next(), WebPreset::Hopfion);
    let all = WebPreset::all();
    for (i, p) in all.iter().enumerate() {
        assert_eq!(p.next(), all[(i + 1) % all.len()]);
        let mut q = *p;
        for _ in 0..8 {
            q = q.next();
        }
        assert_eq!(q, *p);
    }
}

#[test]
fn web_field_traced_lines() {
    assert_eq!(WebField::Poynting.traced_lines(), (false, false));
    assert_eq!(WebField::E.traced_lines(), (true, false));
    assert_eq!(WebField::B.traced_lines(), (false, true));
    assert_eq!(WebField::Both.traced_lines(), (true, true));
}
