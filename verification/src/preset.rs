use vstd::prelude::*;

verus! {

/// Which slice of the Faraday bivector is integrated and drawn.
#[derive(Copy, Clone, PartialEq, Eq, Structural, Debug)]
pub enum FieldMode {
    E,
    B,
    Both,
    Poynting,
}

/// How the field is shown: streamlines, advected particles, or the FDTD grid.
#[derive(Copy, Clone, PartialEq, Eq, Structural, Debug)]
pub enum RenderMode {
    Lines,
    Particles,
    Fdtd,
}

/// The closed-form hopfion field configurations.
#[derive(Copy, Clone, PartialEq, Eq, Structural, Debug)]
pub enum Preset {
    Hopfion,
    PhotonHopfion,
    Donut,
    PlanePhoton,
    CpPhoton,
    Trefoil,
    StaCrunch,
}

/// The shader-side preset selector for each preset.
pub open spec fn shader_id_of(p: Preset) -> u32 {
    match p {
        Preset::Hopfion => 0,
        Preset::PhotonHopfion => 1,
        Preset::Donut => 2,
        Preset::PlanePhoton => 3,
        Preset::CpPhoton => 4,
        Preset::Trefoil => 5,
        Preset::StaCrunch => 0,
    }
}

/// The panel text shown for each preset.
pub open spec fn preset_label(p: Preset) -> Seq<char> {
    match p {
        Preset::Hopfion => "Hopfion (Rañada link)"@,
        Preset::PhotonHopfion => "Single-photon hopfion"@,
        Preset::Donut => "Flying donut (link=0)"@,
        Preset::PlanePhoton => "Plane-wave photon"@,
        Preset::CpPhoton => "Circular-pol photon"@,
        Preset::Trefoil => "Trefoil hopfion (k=2)"@,
        Preset::StaCrunch => "STA crunch (stress test)"@,
    }
}

impl Preset {
    /// Human-readable name of the preset for the control panel.
    pub fn label(self) -> (r: &'static str)
        ensures
            r@ == preset_label(self),
    {
        match self {
            Preset::Hopfion => "Hopfion (Rañada link)",
            Preset::PhotonHopfion => "Single-photon hopfion",
            Preset::Donut => "Flying donut (link=0)",
            Preset::PlanePhoton => "Plane-wave photon",
            Preset::CpPhoton => "Circular-pol photon",
            Preset::Trefoil => "Trefoil hopfion (k=2)",
            Preset::StaCrunch => "STA crunch (stress test)",
        }
    }

    /// Index of the evaluator the field shader runs for this preset.
    pub fn shader_id(self) -> (r: u32)
        ensures
            r == shader_id_of(self),
            r < 6,
    {
        match self {
            Preset::Hopfion => 0,
            Preset::PhotonHopfion => 1,
            Preset::Donut => 2,
            Preset::PlanePhoton => 3,
            Preset::CpPhoton => 4,
            Preset::Trefoil => 5,
            Preset::StaCrunch => 0,
        }
    }
}

/// The variant name of a preset, as `{:?}` prints it.
pub open spec fn preset_name(p: Preset) -> Seq<char> {
    match p {
        Preset::Hopfion => "Hopfion"@,
        Preset::PhotonHopfion => "PhotonHopfion"@,
        Preset::Donut => "Donut"@,
        Preset::PlanePhoton => "PlanePhoton"@,
        Preset::CpPhoton => "CpPhoton"@,
        Preset::Trefoil => "Trefoil"@,
        Preset::StaCrunch => "StaCrunch"@,
    }
}

/// The variant name of a field mode, as `{:?}` prints it.
pub open spec fn field_mode_name(m: FieldMode) -> Seq<char> {
    match m {
        FieldMode::E => "E"@,
        FieldMode::B => "B"@,
        FieldMode::Both => "Both"@,
        FieldMode::Poynting => "Poynting"@,
    }
}

/// The variant name of a render mode, as `{:?}` prints it.
pub open spec fn render_mode_name(m: RenderMode) -> Seq<char> {
    match m {
        RenderMode::Lines => "Lines"@,
        RenderMode::Particles => "Particles"@,
        RenderMode::Fdtd => "Fdtd"@,
    }
}

impl Preset {
    /// The preset's variant name; it tags remarks and exported presets.
    pub fn name(self) -> (r: &'static str)
        ensures
            r@ == preset_name(self),
    {
        match self {
            Preset::Hopfion => "Hopfion",
            Preset::PhotonHopfion => "PhotonHopfion",
            Preset::Donut => "Donut",
            Preset::PlanePhoton => "PlanePhoton",
            Preset::CpPhoton => "CpPhoton",
            Preset::Trefoil => "Trefoil",
            Preset::StaCrunch => "StaCrunch",
        }
    }
}

impl FieldMode {
    /// The mode's variant name; it tags remarks and exported presets.
    pub fn name(self) -> (r: &'static str)
        ensures
            r@ == field_mode_name(self),
    {
        match self {
            FieldMode::E => "E",
            FieldMode::B => "B",
            FieldMode::Both => "Both",
            FieldMode::Poynting => "Poynting",
        }
    }
}

impl RenderMode {
    /// The mode's variant name; it tags remarks and exported presets.
    pub fn name(self) -> (r: &'static str)
        ensures
            r@ == render_mode_name(self),
    {
        match self {
            RenderMode::Lines => "Lines",
            RenderMode::Particles => "Particles",
            RenderMode::Fdtd => "Fdtd",
        }
    }
}

/// All presets, in the order the preset selector lists them.
pub open spec fn preset_order() -> Seq<Preset> {
    seq![
        Preset::Hopfion,
        Preset::PhotonHopfion,
        Preset::Donut,
        Preset::PlanePhoton,
        Preset::CpPhoton,
        Preset::Trefoil,
        Preset::StaCrunch,
    ]
}

/// The order in which the demo mode walks through the presets.
pub open spec fn demo_order() -> Seq<Preset> {
    seq![
        Preset::Hopfion,
        Preset::PhotonHopfion,
        Preset::Donut,
        Preset::CpPhoton,
        Preset::Trefoil,
        Preset::PlanePhoton,
        Preset::StaCrunch,
    ]
}

/// Position of a preset in the demo walk.
pub open spec fn demo_position(p: Preset) -> int {
    match p {
        Preset::Hopfion => 0,
        Preset::PhotonHopfion => 1,
        Preset::Donut => 2,
        Preset::CpPhoton => 3,
        Preset::Trefoil => 4,
        Preset::PlanePhoton => 5,
        Preset::StaCrunch => 6,
    }
}

/// The preset the demo shows after `p` (the walk wraps around).
pub open spec fn demo_successor(p: Preset) -> Preset {
    demo_order()[(demo_position(p) + 1) % 7]
}

/// Streamline and particle counts a preset asks for.
#[derive(Copy, Clone, PartialEq, Eq, Structural, Debug)]
pub struct PresetCounts {
    /// Number of streamline seeds.
    pub seeds: u32,
    /// Integration steps (vertices) per streamline.
    pub steps: u32,
    /// Number of advected particles.
    pub particles: u32,
}

/// The counts of each preset: (seeds, steps per line, particles).
pub open spec fn preset_counts(p: Preset) -> (u32, u32, u32) {
    match p {
        Preset::Hopfion => (2048, 256, 131_072),
        Preset::PhotonHopfion => (2048, 256, 131_072),
        Preset::Donut => (1536, 256, 131_072),
        Preset::PlanePhoton => (768, 220, 65_536),
        Preset::CpPhoton => (1536, 256, 131_072),
        Preset::Trefoil => (2048, 320, 131_072),
        Preset::StaCrunch => (8192, 512, 600_000),
    }
}

/// The result of switching to a preset: the new requested counts, and which
/// GPU buffers must be rebuilt because a count changed.
#[derive(Copy, Clone, PartialEq, Eq, Structural, Debug)]
pub struct PresetSwitch {
    pub seeds: u32,
    pub steps: u32,
    pub particles: u32,
    /// The seed or step count changed: streamline buffers need a rebuild.
    pub topology_changed: bool,
    /// The particle count changed: particle buffers need a rebuild.
    pub particles_changed: bool,
}

impl Preset {
    /// Every preset, in selector order.
    pub fn all() -> (v: Vec<Preset>)
        ensures
            v@ == preset_order(),
    {
        let v = vec![
            Preset::Hopfion,
            Preset::PhotonHopfion,
            Preset::Donut,
            Preset::PlanePhoton,
            Preset::CpPhoton,
            Preset::Trefoil,
            Preset::StaCrunch,
        ];
        assert(v@ =~= preset_order());
        v
    }

    /// The streamline / particle counts this preset asks for.
    pub fn counts(self) -> (c: PresetCounts)
        ensures
            (c.seeds, c.steps, c.particles) == preset_counts(self),
    {
        match self {
            Preset::Hopfion => PresetCounts { seeds: 2048, steps: 256, particles: 131_072 },
            Preset::PhotonHopfion => PresetCounts { seeds: 2048, steps: 256, particles: 131_072 },
            Preset::Donut => PresetCounts { seeds: 1536, steps: 256, particles: 131_072 },
            Preset::PlanePhoton => PresetCounts { seeds: 768, steps: 220, particles: 65_536 },
            Preset::CpPhoton => PresetCounts { seeds: 1536, steps: 256, particles: 131_072 },
            Preset::Trefoil => PresetCounts { seeds: 2048, steps: 320, particles: 131_072 },
            Preset::StaCrunch => PresetCounts { seeds: 8192, steps: 512, particles: 600_000 },
        }
    }

    /// The preset the demo cycle switches to after this one.
    pub fn demo_next(self) -> (n: Preset)
        ensures
            n == demo_successor(self),
    {
        let order = vec![
            Preset::Hopfion,
            Preset::PhotonHopfion,
            Preset::Donut,
            Preset::CpPhoton,
            Preset::Trefoil,
            Preset::PlanePhoton,
            Preset::StaCrunch,
        ];
        assert(order@ =~= demo_order());
        let mut i: usize = 0;
        while i < order.len() && order[i] != self
            invariant
                order@ == demo_order(),
                0 <= i <= 7,
                forall|q: int| 0 <= q < i ==> order@[q] != self,
            decreases 7 - i,
        {
            i = i + 1;
        }
        if i == order.len() {
            i = 0;
        }
        assert(order@[i as int] == self) by {
            assert(order@[demo_position(self)] == self);
        }
        order[(i + 1) % order.len()]
    }

    /// Switch from the requested counts `(seeds, steps, particles)` to this
    /// preset's counts, reporting which buffer families changed.
    pub fn switch_from(self, seeds: u32, steps: u32, particles: u32) -> (s: PresetSwitch)
        ensures
            (s.seeds, s.steps, s.particles) == preset_counts(self),
            s.topology_changed == (seeds != preset_counts(self).0 || steps != preset_counts(self).1),
            s.particles_changed == (particles != preset_counts(self).2),
    {
        let c = self.counts();
        PresetSwitch {
            seeds: c.seeds,
            steps: c.steps,
            particles: c.particles,
            topology_changed: seeds != c.seeds || steps != c.steps,
            particles_changed: particles != c.particles,
        }
    }
}

impl FieldMode {
    /// Channel ids (0 = E, 1 = B, 2 = Poynting S) drawn in this mode.
    pub fn channel_ids(self) -> (ids: Vec<u32>)
        ensures
            ids@ == match self {
                FieldMode::E => seq![0u32],
                FieldMode::B => seq![1u32],
                FieldMode::Both => seq![0u32, 1u32],
                FieldMode::Poynting => seq![2u32],
            },
    {
        let ids = match self {
            FieldMode::E => vec![0u32],
            FieldMode::B => vec![1u32],
            FieldMode::Both => vec![0u32, 1u32],
            FieldMode::Poynting => vec![2u32],
        };
        proof {
            match self {
                FieldMode::E => assert(ids@ =~= seq![0u32]),
                FieldMode::B => assert(ids@ =~= seq![1u32]),
                FieldMode::Both => assert(ids@ =~= seq![0u32, 1u32]),
                FieldMode::Poynting => assert(ids@ =~= seq![2u32]),
            }
        }
        ids
    }
}

/// `p` after `n` steps of the demo walk.
pub open spec fn demo_after(p: Preset, n: nat) -> Preset
    decreases n,
{
    if n == 0 {
        p
    } else {
        demo_successor(demo_after(p, (n - 1) as nat))
    }
}

/// Number of demo switches from `p` to `q`.
pub open spec fn demo_distance(p: Preset, q: Preset) -> nat {
    ((demo_position(q) - demo_position(p) + 7) % 7) as nat
}

/// The demo walk is one cycle through all seven presets: from any preset it
/// visits every preset within seven switches and is back after exactly seven.
pub proof fn lemma_demo_cycle(p: Preset)
    ensures
        demo_after(p, 7) == p,
        forall|q: Preset| demo_distance(p, q) < 7 && #[trigger] demo_after(p, demo_distance(p, q)) == q,
{
    lemma_demo_after_position(p, 7);
    lemma_demo_position_injective(demo_after(p, 7), p);
    assert forall|q: Preset| demo_distance(p, q) < 7 && #[trigger] demo_after(p, demo_distance(p, q)) == q by {
        lemma_demo_after_position(p, demo_distance(p, q));
        lemma_mod_shift(demo_position(p), demo_position(q), 7);
        lemma_demo_position_injective(demo_after(p, demo_distance(p, q)), q);
    }
}

proof fn lemma_demo_position_injective(a: Preset, b: Preset)
    ensures
        demo_position(a) == demo_position(b) ==> a == b,
        0 <= demo_position(a) < 7,
{
}

proof fn lemma_demo_after_position(p: Preset, n: nat)
    ensures
        demo_position(demo_after(p, n)) == (demo_position(p) + n) % 7,
    decreases n,
{
    if n > 0 {
        lemma_demo_after_position(p, (n - 1) as nat);
    }
}

/// Distinct presets switch to distinct presets (the demo walk never merges).
pub proof fn lemma_demo_successor_injective(p: Preset, q: Preset)
    ensures
        demo_successor(p) == demo_successor(q) ==> p == q,
{
}

/// Going `(b - a) mod m` steps forward from position `a` lands on `b`.
pub proof fn lemma_mod_shift(a: int, b: int, m: int)
    requires
        0 < m,
        0 <= a < m,
        0 <= b < m,
    ensures
        0 <= (b - a + m) % m < m,
        (a + (b - a + m) % m) % m == b,
{
    if b >= a {
        assert((b - a + m) % m == b - a) by {
            vstd::arithmetic::div_mod::lemma_fundamental_div_mod_converse(b - a + m, m, 1, b - a);
        }
    } else {
        assert((b - a + m) % m == b - a + m) by {
            vstd::arithmetic::div_mod::lemma_fundamental_div_mod_converse(b - a + m, m, 0, b - a + m);
        }
        vstd::arithmetic::div_mod::lemma_fundamental_div_mod_converse(b + m, m, 1, b);
    }
    if b >= a {
        vstd::arithmetic::div_mod::lemma_fundamental_div_mod_converse(b, m, 0, b);
    }
}


/// Each preset asks for the streamline and particle counts of the
/// simulation's defaults: Hopfion and the single-photon hopfion 2048 seeds
/// of 256 steps, the flying donut and the circular-pol photon 1536 seeds of
/// 256 steps, the plane-wave photon 768 seeds of 220 steps, the trefoil 2048
/// seeds of 320 steps, all of them with 131072 particles but the plane-wave
/// photon (65536); the stress test asks for 8192 seeds of 512 steps and
/// 600000 particles.
pub proof fn lemma_preset_counts(p: Preset)
    ensures
        preset_counts(Preset::Hopfion) == (2048u32, 256u32, 131072u32),
        preset_counts(Preset::PhotonHopfion) == (2048u32, 256u32, 131072u32),
        preset_counts(Preset::Donut) == (1536u32, 256u32, 131072u32),
        preset_counts(Preset::PlanePhoton) == (768u32, 220u32, 65536u32),
        preset_counts(Preset::CpPhoton) == (1536u32, 256u32, 131072u32),
        preset_counts(Preset::Trefoil) == (2048u32, 320u32, 131072u32),
        preset_counts(Preset::StaCrunch) == (8192u32, 512u32, 600000u32),
        preset_counts(p).2 == 131072 <==> (p != Preset::PlanePhoton && p != Preset::StaCrunch),
        preset_counts(p).1 == 256 <==> (p != Preset::PlanePhoton && p != Preset::Trefoil
            && p != Preset::StaCrunch),
{
}

/// Switching between two presets that ask for the same particle count keeps
/// the particle buffers; between presets whose seed and step counts agree it
/// keeps the streamline buffers. Hopfion to flying donut, for one, rebuilds
/// the streamlines (2048 to 1536 seeds) but keeps the 131072 particles.
pub proof fn lemma_switch_rebuilds(from: Preset, to: Preset)
    ensures
        ({
            let c = preset_counts(from);
            let d = preset_counts(to);
            &&& (c.2 == d.2 <==> (from == to || ((from != Preset::PlanePhoton && from != Preset::StaCrunch)
                && (to != Preset::PlanePhoton && to != Preset::StaCrunch))))
            &&& (from == Preset::Hopfion && to == Preset::Donut ==> c.0 != d.0 && c.2 == d.2 && d.2 == 131072)
        }),
{
}

/// The panel text of each preset.
pub proof fn lemma_preset_labels()
    ensures
        preset_label(Preset::Hopfion) == "Hopfion (Rañada link)"@,
        preset_label(Preset::PhotonHopfion) == "Single-photon hopfion"@,
        preset_label(Preset::Donut) == "Flying donut (link=0)"@,
        preset_label(Preset::PlanePhoton) == "Plane-wave photon"@,
        preset_label(Preset::CpPhoton) == "Circular-pol photon"@,
        preset_label(Preset::Trefoil) == "Trefoil hopfion (k=2)"@,
        preset_label(Preset::StaCrunch) == "STA crunch (stress test)"@,
{
}

/// Each preset runs its own field evaluator (0 to 5, in selector order),
/// except the stress test, which reuses the hopfion's evaluator 0.
pub proof fn lemma_shader_ids(p: Preset, q: Preset)
    ensures
        shader_id_of(Preset::Hopfion) == 0,
        shader_id_of(Preset::PhotonHopfion) == 1,
        shader_id_of(Preset::Donut) == 2,
        shader_id_of(Preset::PlanePhoton) == 3,
        shader_id_of(Preset::CpPhoton) == 4,
        shader_id_of(Preset::Trefoil) == 5,
        shader_id_of(Preset::StaCrunch) == 0,
        shader_id_of(p) == shader_id_of(q) ==> p == q || ((p == Preset::Hopfion || p == Preset::StaCrunch)
            && (q == Preset::Hopfion || q == Preset::StaCrunch)),
{
}

/// The variant names that tag remarks: each preset, field mode and render
/// mode is named as written in its declaration.
pub proof fn lemma_variant_names()
    ensures
        preset_name(Preset::Hopfion) == "Hopfion"@,
        preset_name(Preset::PhotonHopfion) == "PhotonHopfion"@,
        preset_name(Preset::Donut) == "Donut"@,
        preset_name(Preset::PlanePhoton) == "PlanePhoton"@,
        preset_name(Preset::CpPhoton) == "CpPhoton"@,
        preset_name(Preset::Trefoil) == "Trefoil"@,
        preset_name(Preset::StaCrunch) == "StaCrunch"@,
        field_mode_name(FieldMode::E) == "E"@,
        field_mode_name(FieldMode::B) == "B"@,
        field_mode_name(FieldMode::Both) == "Both"@,
        field_mode_name(FieldMode::Poynting) == "Poynting"@,
        render_mode_name(RenderMode::Lines) == "Lines"@,
        render_mode_name(RenderMode::Particles) == "Particles"@,
        render_mode_name(RenderMode::Fdtd) == "Fdtd"@,
{
}

/// The preset selector lists the presets in declaration order, and the demo
/// walks Hopfion, single-photon hopfion, flying donut, circular-pol photon,
/// trefoil, plane-wave photon, stress test, and back to Hopfion.
pub proof fn lemma_preset_orders()
    ensures
        preset_order().len() == 7,
        preset_order()[0] == Preset::Hopfion,
        preset_order()[1] == Preset::PhotonHopfion,
        preset_order()[2] == Preset::Donut,
        preset_order()[3] == Preset::PlanePhoton,
        preset_order()[4] == Preset::CpPhoton,
        preset_order()[5] == Preset::Trefoil,
        preset_order()[6] == Preset::StaCrunch,
        demo_successor(Preset::Hopfion) == Preset::PhotonHopfion,
        demo_successor(Preset::PhotonHopfion) == Preset::Donut,
        demo_successor(Preset::Donut) == Preset::CpPhoton,
        demo_successor(Preset::CpPhoton) == Preset::Trefoil,
        demo_successor(Preset::Trefoil) == Preset::PlanePhoton,
        demo_successor(Preset::PlanePhoton) == Preset::StaCrunch,
        demo_successor(Preset::StaCrunch) == Preset::Hopfion,
{
}

} // verus!
