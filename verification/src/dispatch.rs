use vstd::prelude::*;

verus! {

/// Number of workgroups of `size` invocations needed to cover `items`.
pub open spec fn groups_for(items: int, size: int) -> int {
    (items + (size - 1)) / size
}

/// Workgroups to dispatch so that `size`-wide groups cover `items` invocations.
pub fn workgroup_count(items: u32, size: u32) -> (g: u32)
    requires
        size > 0,
        items as int + size as int - 1 <= u32::MAX,
    ensures
        g as int == groups_for(items as int, size as int),
{
    (items + (size - 1)) / size
}

/// Workgroup grid `(x, y, z)` for one FDTD update pass over an `n`-cell-wide
/// cube with 8 x 8 x 4 invocations per group.
pub fn fdtd_workgroups(n: u32) -> (g: (u32, u32, u32))
    requires
        n as int + 7 <= u32::MAX,
    ensures
        g.0 as int == groups_for(n as int, 8),
        g.1 as int == groups_for(n as int, 8),
        g.2 as int == groups_for(n as int, 4),
{
    (workgroup_count(n, 8), workgroup_count(n, 8), workgroup_count(n, 4))
}

/// The leapfrog step counter after `substeps` more steps (it wraps at 2^32).
pub open spec fn advanced(time_step: u32, substeps: int) -> int {
    (time_step + substeps) % 0x1_0000_0000
}

/// The FDTD step counter after `substeps` leapfrog steps, each adding one
/// with wrap-around.
pub fn advance_time_step(time_step: u32, substeps: u32) -> (t: u32)
    ensures
        t as int == advanced(time_step, substeps as int),
{
    let mut t = time_step;
    for i in 0..substeps
        invariant
            t as int == advanced(time_step, i as int),
    {
        t = t.wrapping_add(1);
    }
    t
}

/// Next state of the linear congruential generator used for seeding.
pub open spec fn lcg_next(s: u32) -> u32 {
    ((s as nat * 1664525 + 1013904223) % 0x1_0000_0000) as u32
}

/// One step of the seeding generator: `s * 1664525 + 1013904223` mod 2^32.
pub fn lcg_step(s: u32) -> (n: u32)
    ensures
        n == lcg_next(s),
{
    s.wrapping_mul(1664525).wrapping_add(1013904223)
}

/// The 24 high-order bits of a generator state: the numerator of the
/// uniform sample `bits / 2^24` in [0, 1).
pub fn lcg_unit_bits(s: u32) -> (b: u32)
    ensures
        b as int == s as int / 256,
        b < 0x100_0000,
{
    let b = (s >> 8) & 0x00FF_FFFF;
    assert(b == s / 256 && b < 0x100_0000) by (bit_vector)
        requires
            b == (s >> 8) & 0x00FF_FFFF,
    ;
    b
}

/// The dispatched groups cover every item, and one group fewer would not:
/// no invocation is missing and at most one group is partly idle.
pub proof fn lemma_groups_cover(items: int, size: int)
    requires
        items >= 0,
        size > 0,
    ensures
        groups_for(items, size) * size >= items,
        (groups_for(items, size) - 1) * size < items || groups_for(items, size) == 0,
        groups_for(items, size) >= 0,
{
    let g = groups_for(items, size);
    let r = (items + size - 1) % size;
    vstd::arithmetic::div_mod::lemma_fundamental_div_mod(items + size - 1, size);
    assert(items + size - 1 == size * g + r);
    assert(0 <= r < size);
    assert(g * size == size * g) by (nonlinear_arith);
    assert((g - 1) * size == g * size - size) by (nonlinear_arith);
    assert(g >= 0) by (nonlinear_arith)
        requires
            items + size - 1 == size * g + r,
            0 <= r < size,
            items >= 0,
    ;
}

/// Stepping the counter by `a` and then by `b` is the same as stepping it by
/// `a + b` at once.
pub proof fn lemma_advance_compose(time_step: u32, a: nat, b: nat)
    ensures
        advanced(advanced(time_step, a as int) as u32, b as int) == advanced(time_step, (a + b) as int),
{
    let m = 0x1_0000_0000int;
    let t = time_step as int;
    let x = advanced(time_step, a as int);
    vstd::arithmetic::div_mod::lemma_add_mod_noop(t + a, b as int, m);
    vstd::arithmetic::div_mod::lemma_mod_twice(b as int, m);
    vstd::arithmetic::div_mod::lemma_mod_bound(t + a, m);
    vstd::arithmetic::div_mod::lemma_add_mod_noop(x, b as int, m);
}


/// The seeding generator's constants: from state 0 it moves to 1013904223,
/// and the states after two consecutive states differ by the multiplier
/// 1664525 (modulo 2^32).
pub proof fn lemma_lcg_constants(s: u32)
    requires
        s < u32::MAX,
    ensures
        lcg_next(0) == 1013904223,
        (lcg_next((s + 1) as u32) + 0x1_0000_0000 - lcg_next(s)) % 0x1_0000_0000 == 1664525,
{
    let m = 0x1_0000_0000int;
    let mul = 1664525int;
    let a = s as int * mul + 1013904223;
    assert(((s + 1) as u32) as int * mul + 1013904223 == a + mul);
    vstd::arithmetic::div_mod::lemma_small_mod(1013904223nat, m as nat);
    vstd::arithmetic::div_mod::lemma_small_mod(mul as nat, m as nat);
    vstd::arithmetic::div_mod::lemma_add_mod_noop(a, mul, m);
    vstd::arithmetic::div_mod::lemma_mod_bound(a, m);
    let y = a % m;
    assert(lcg_next(s) as int == y);
    assert(lcg_next((s + 1) as u32) as int == (y + mul) % m);
    if y + mul < m {
        vstd::arithmetic::div_mod::lemma_small_mod((y + mul) as nat, m as nat);
        vstd::arithmetic::div_mod::lemma_fundamental_div_mod_converse(y + mul + m - y, m, 1, mul);
    } else {
        vstd::arithmetic::div_mod::lemma_fundamental_div_mod_converse(y + mul, m, 1, y + mul - m);
        vstd::arithmetic::div_mod::lemma_small_mod(mul as nat, m as nat);
        assert(y + mul - m + m - y == mul);
    }
}

} // verus!
