use vstd::prelude::*;

use crate::preset::lemma_mod_shift;

verus! {

/// The null-field pattern stamped into the FDTD grid by the launch source.
#[derive(Copy, Clone, PartialEq, Eq, Structural, Debug)]
pub enum Shape {
    Hopfion,
    PhotonHopfion,
    FlyingDonut,
    RadialDonut,
    PlanePhoton,
    CpPhoton,
    Trefoil,
    PhasedArray,
}

/// The launch-source choices of the browser build.
#[derive(Copy, Clone, PartialEq, Eq, Structural, Debug)]
pub enum WebPreset {
    Hopfion,
    PhotonHopfion,
    FlyingDonut,
    RadialDonut,
    PlanePhoton,
    CpPhoton,
    Trefoil,
    PhasedArray,
}

/// Which slice of the field the browser build draws.
#[derive(Copy, Clone, PartialEq, Eq, Structural, Debug)]
pub enum WebField {
    /// The tracer cloud riding S = E x B.
    Poynting,
    /// Electric field lines.
    E,
    /// Magnetic field lines.
    B,
    /// Electric and magnetic field lines together.
    Both,
}

/// All browser presets, in selector (and cycle) order.
pub open spec fn web_preset_order() -> Seq<WebPreset> {
    seq![
        WebPreset::Hopfion,
        WebPreset::PhotonHopfion,
        WebPreset::FlyingDonut,
        WebPreset::RadialDonut,
        WebPreset::PlanePhoton,
        WebPreset::CpPhoton,
        WebPreset::Trefoil,
        WebPreset::PhasedArray,
    ]
}

/// Position of a browser preset in the selector order.
pub open spec fn web_preset_position(p: WebPreset) -> int {
    match p {
        WebPreset::Hopfion => 0,
        WebPreset::PhotonHopfion => 1,
        WebPreset::FlyingDonut => 2,
        WebPreset::RadialDonut => 3,
        WebPreset::PlanePhoton => 4,
        WebPreset::CpPhoton => 5,
        WebPreset::Trefoil => 6,
        WebPreset::PhasedArray => 7,
    }
}

/// The preset after `p` in the cycle (wrapping from the last to the first).
pub open spec fn web_preset_successor(p: WebPreset) -> WebPreset {
    web_preset_order()[(web_preset_position(p) + 1) % 8]
}

/// The source pattern of each preset.
pub open spec fn shape_of(p: WebPreset) -> Shape {
    match p {
        WebPreset::Hopfion => Shape::Hopfion,
        WebPreset::PhotonHopfion => Shape::PhotonHopfion,
        WebPreset::FlyingDonut => Shape::FlyingDonut,
        WebPreset::RadialDonut => Shape::RadialDonut,
        WebPreset::PlanePhoton => Shape::PlanePhoton,
        WebPreset::CpPhoton => Shape::CpPhoton,
        WebPreset::Trefoil => Shape::Trefoil,
        WebPreset::PhasedArray => Shape::PhasedArray,
    }
}

/// The panel text of each preset.
pub open spec fn web_preset_label(p: WebPreset) -> Seq<char> {
    match p {
        WebPreset::Hopfion => "Hopfion · linked null ring (index 1)"@,
        WebPreset::PhotonHopfion => "Photon hopfion · tight core"@,
        WebPreset::FlyingDonut => "Flying donut · Hellwarth–Nouchi"@,
        WebPreset::RadialDonut => "Radial donut · TM (E outward)"@,
        WebPreset::PlanePhoton => "Plane photon · linear pol"@,
        WebPreset::CpPhoton => "CP photon · circular pol"@,
        WebPreset::Trefoil => "Trefoil · m=2 twist (index 2)"@,
        WebPreset::PhasedArray => "Phased array · steered beam"@,
    }
}

impl WebPreset {
    /// Every browser preset, in selector order.
    pub fn all() -> (v: Vec<WebPreset>)
        ensures
            v@ == web_preset_order(),
    {
        let v = vec![
            WebPreset::Hopfion,
            WebPreset::PhotonHopfion,
            WebPreset::FlyingDonut,
            WebPreset::RadialDonut,
            WebPreset::PlanePhoton,
            WebPreset::CpPhoton,
            WebPreset::Trefoil,
            WebPreset::PhasedArray,
        ];
        assert(v@ =~= web_preset_order());
        v
    }

    /// Panel text naming the preset.
    pub fn label(self) -> (r: &'static str)
        ensures
            r@ == web_preset_label(self),
    {
        match self {
            WebPreset::Hopfion => "Hopfion · linked null ring (index 1)",
            WebPreset::PhotonHopfion => "Photon hopfion · tight core",
            WebPreset::FlyingDonut => "Flying donut · Hellwarth–Nouchi",
            WebPreset::RadialDonut => "Radial donut · TM (E outward)",
            WebPreset::PlanePhoton => "Plane photon · linear pol",
            WebPreset::CpPhoton => "CP photon · circular pol",
            WebPreset::Trefoil => "Trefoil · m=2 twist (index 2)",
            WebPreset::PhasedArray => "Phased array · steered beam",
        }
    }

    /// The null-field pattern this preset launches.
    pub fn shape(self) -> (s: Shape)
        ensures
            s == shape_of(self),
    {
        match self {
            WebPreset::Hopfion => Shape::Hopfion,
            WebPreset::PhotonHopfion => Shape::PhotonHopfion,
            WebPreset::FlyingDonut => Shape::FlyingDonut,
            WebPreset::RadialDonut => Shape::RadialDonut,
            WebPreset::PlanePhoton => Shape::PlanePhoton,
            WebPreset::CpPhoton => Shape::CpPhoton,
            WebPreset::Trefoil => Shape::Trefoil,
            WebPreset::PhasedArray => Shape::PhasedArray,
        }
    }

    /// The next preset in selector order, wrapping after the last
    /// (the "Next demo" button).
    pub fn next(self) -> (n: WebPreset)
        ensures
            n == web_preset_successor(self),
    {
        let all = WebPreset::all();
        let mut i: usize = 0;
        while i < all.len() && all[i] != self
            invariant
                all@ == web_preset_order(),
                0 <= i <= 8,
                forall|q: int| 0 <= q < i ==> all@[q] != self,
            decreases 8 - i,
        {
            i = i + 1;
        }
        if i == all.len() {
            i = 0;
        }
        assert(all@[i as int] == self) by {
            assert(all@[web_preset_position(self)] == self);
        }
        all[(i + 1) % all.len()]
    }
}

impl WebField {
    /// Which field-line families this view traces: `(electric, magnetic)`.
    pub fn traced_lines(self) -> (r: (bool, bool))
        ensures
            r == match self {
                WebField::Poynting => (false, false),
                WebField::E => (true, false),
                WebField::B => (false, true),
                WebField::Both => (true, true),
            },
    {
        match self {
            WebField::Poynting => (false, false),
            WebField::E => (true, false),
            WebField::B => (false, true),
            WebField::Both => (true, true),
        }
    }
}

/// `p` after `n` presses of "Next demo".
pub open spec fn web_after(p: WebPreset, n: nat) -> WebPreset
    decreases n,
{
    if n == 0 {
        p
    } else {
        web_preset_successor(web_after(p, (n - 1) as nat))
    }
}

/// Number of "Next demo" presses from `p` to `q`.
pub open spec fn web_distance(p: WebPreset, q: WebPreset) -> nat {
    ((web_preset_position(q) - web_preset_position(p) + 8) % 8) as nat
}

/// "Next demo" walks the selector list in order, wrapping from the last
/// entry to the first, so eight presses return to the starting preset and
/// every preset is reached on the way.
pub proof fn lemma_web_cycle(p: WebPreset)
    ensures
        forall|i: int| 0 <= i < 8 ==> #[trigger] web_preset_successor(web_preset_order()[i])
            == web_preset_order()[(i + 1) % 8],
        web_after(p, 8) == p,
        forall|q: WebPreset| web_distance(p, q) < 8 && #[trigger] web_after(p, web_distance(p, q)) == q,
{
    lemma_web_after_position(p, 8);
    lemma_web_position_injective(web_after(p, 8), p);
    assert forall|q: WebPreset| web_distance(p, q) < 8 && #[trigger] web_after(p, web_distance(p, q)) == q by {
        lemma_web_after_position(p, web_distance(p, q));
        lemma_mod_shift(web_preset_position(p), web_preset_position(q), 8);
        lemma_web_position_injective(web_after(p, web_distance(p, q)), q);
    }
}

proof fn lemma_web_position_injective(a: WebPreset, b: WebPreset)
    ensures
        web_preset_position(a) == web_preset_position(b) ==> a == b,
        0 <= web_preset_position(a) < 8,
{
}

proof fn lemma_web_after_position(p: WebPreset, n: nat)
    ensures
        web_preset_position(web_after(p, n)) == (web_preset_position(p) + n) % 8,
    decreases n,
{
    if n > 0 {
        lemma_web_after_position(p, (n - 1) as nat);
    }
}


/// Each browser preset launches the source pattern of the same name (the
/// flying donut launches the Hellwarth–Nouchi flying donut, not the radial
/// donut), so no two presets launch the same pattern and every pattern is
/// launched by some preset.
pub proof fn lemma_shapes(p: WebPreset, q: WebPreset, s: Shape)
    ensures
        shape_of(WebPreset::Hopfion) == Shape::Hopfion,
        shape_of(WebPreset::PhotonHopfion) == Shape::PhotonHopfion,
        shape_of(WebPreset::FlyingDonut) == Shape::FlyingDonut,
        shape_of(WebPreset::RadialDonut) == Shape::RadialDonut,
        shape_of(WebPreset::PlanePhoton) == Shape::PlanePhoton,
        shape_of(WebPreset::CpPhoton) == Shape::CpPhoton,
        shape_of(WebPreset::Trefoil) == Shape::Trefoil,
        shape_of(WebPreset::PhasedArray) == Shape::PhasedArray,
        shape_of(p) == shape_of(q) ==> p == q,
        exists|r: WebPreset| shape_of(r) == s,
{
    match s {
        Shape::Hopfion => assert(shape_of(WebPreset::Hopfion) == s),
        Shape::PhotonHopfion => assert(shape_of(WebPreset::PhotonHopfion) == s),
        Shape::FlyingDonut => assert(shape_of(WebPreset::FlyingDonut) == s),
        Shape::RadialDonut => assert(shape_of(WebPreset::RadialDonut) == s),
        Shape::PlanePhoton => assert(shape_of(WebPreset::PlanePhoton) == s),
        Shape::CpPhoton => assert(shape_of(WebPreset::CpPhoton) == s),
        Shape::Trefoil => assert(shape_of(WebPreset::Trefoil) == s),
        Shape::PhasedArray => assert(shape_of(WebPreset::PhasedArray) == s),
    }
}

/// The panel text of each browser preset.
pub proof fn lemma_web_labels()
    ensures
        web_preset_label(WebPreset::Hopfion) == "Hopfion · linked null ring (index 1)"@,
        web_preset_label(WebPreset::PhotonHopfion) == "Photon hopfion · tight core"@,
        web_preset_label(WebPreset::FlyingDonut) == "Flying donut · Hellwarth–Nouchi"@,
        web_preset_label(WebPreset::RadialDonut) == "Radial donut · TM (E outward)"@,
        web_preset_label(WebPreset::PlanePhoton) == "Plane photon · linear pol"@,
        web_preset_label(WebPreset::CpPhoton) == "CP photon · circular pol"@,
        web_preset_label(WebPreset::Trefoil) == "Trefoil · m=2 twist (index 2)"@,
        web_preset_label(WebPreset::PhasedArray) == "Phased array · steered beam"@,
{
}

/// The selector lists the browser presets in declaration order, and "Next
/// demo" goes from each to the one declared after it, from the phased array
/// back to the hopfion.
pub proof fn lemma_web_order()
    ensures
        web_preset_order().len() == 8,
        web_preset_order()[0] == WebPreset::Hopfion,
        web_preset_order()[1] == WebPreset::PhotonHopfion,
        web_preset_order()[2] == WebPreset::FlyingDonut,
        web_preset_order()[3] == WebPreset::RadialDonut,
        web_preset_order()[4] == WebPreset::PlanePhoton,
        web_preset_order()[5] == WebPreset::CpPhoton,
        web_preset_order()[6] == WebPreset::Trefoil,
        web_preset_order()[7] == WebPreset::PhasedArray,
        web_preset_successor(WebPreset::Hopfion) == WebPreset::PhotonHopfion,
        web_preset_successor(WebPreset::PhotonHopfion) == WebPreset::FlyingDonut,
        web_preset_successor(WebPreset::FlyingDonut) == WebPreset::RadialDonut,
        web_preset_successor(WebPreset::RadialDonut) == WebPreset::PlanePhoton,
        web_preset_successor(WebPreset::PlanePhoton) == WebPreset::CpPhoton,
        web_preset_successor(WebPreset::CpPhoton) == WebPreset::Trefoil,
        web_preset_successor(WebPreset::Trefoil) == WebPreset::PhasedArray,
        web_preset_successor(WebPreset::PhasedArray) == WebPreset::Hopfion,
{
}

} // verus!
