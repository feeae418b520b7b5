use vstd::prelude::*;
use vstd::arithmetic::div_mod::lemma_fundamental_div_mod_converse;

verus! {

/// Segments per streamline of `steps` vertices (`steps - 1`, none for an empty line).
pub open spec fn segments_per_line(steps: int) -> int {
    if steps > 0 {
        steps - 1
    } else {
        0
    }
}

/// The vertex referenced at position `p` of the line-list index buffer:
/// pair `p / 2` is segment `(p / 2) % segs` of line `(p / 2) / segs`, and
/// its two ends are that segment's first vertex and the next one.
pub open spec fn line_list_vertex(p: int, steps: int) -> int {
    let segs = segments_per_line(steps);
    let m = p / 2;
    (m / segs) * steps + m % segs + p % 2
}

proof fn lemma_line_list_position(l: int, s: int, segs: int, steps: int, bit: int)
    requires
        segs == segments_per_line(steps),
        0 <= l,
        0 <= s < segs,
        0 <= bit < 2,
    ensures
        line_list_vertex(2 * (l * segs + s) + bit, steps) == l * steps + s + bit,
{
    let p = 2 * (l * segs + s) + bit;
    lemma_fundamental_div_mod_converse(p, 2, l * segs + s, bit);
    lemma_fundamental_div_mod_converse(l * segs + s, segs, l, s);
}

/// Index list that draws `seed_count` streamlines of `steps_per_line`
/// vertices each as a line list: every pair joins vertex `s` of a line to
/// vertex `s + 1` of the same line.
pub fn build_line_indices(seed_count: u32, steps_per_line: u32) -> (out: Vec<u32>)
    requires
        seed_count as int * steps_per_line as int <= 0x1_0000_0000,
    ensures
        out@.len() == seed_count as int * segments_per_line(steps_per_line as int) * 2,
        forall|p: int|
            0 <= p < out@.len() ==> #[trigger] out@[p] as int == line_list_vertex(p, steps_per_line as int),
{
    let segs = steps_per_line.saturating_sub(1);
    let ghost segs_i = segments_per_line(steps_per_line as int);
    assert(segs as int == segs_i);
    let mut out: Vec<u32> = Vec::new();
    assert(0 * segs_i * 2 == 0);
    for line in 0..seed_count
        invariant
            segs as int == segs_i,
            segs_i == segments_per_line(steps_per_line as int),
            seed_count as int * steps_per_line as int <= 0x1_0000_0000,
            out@.len() == line as int * segs_i * 2,
            forall|p: int|
                0 <= p < out@.len() ==> #[trigger] out@[p] as int == line_list_vertex(p, steps_per_line as int),
    {
        assert(line as int * steps_per_line as int <= (seed_count as int - 1) * steps_per_line as int
            && (seed_count as int - 1) * steps_per_line as int == seed_count as int * steps_per_line as int - steps_per_line as int)
            by (nonlinear_arith)
            requires
                line < seed_count,
        ;
        let base = line * steps_per_line;
        for s in 0..segs
            invariant
                segs as int == segs_i,
                segs_i == segments_per_line(steps_per_line as int),
                line < seed_count,
                seed_count as int * steps_per_line as int <= 0x1_0000_0000,
                base as int == line as int * steps_per_line as int,
                base as int + steps_per_line as int <= 0x1_0000_0000,
                out@.len() == (line as int * segs_i + s) * 2,
                forall|p: int|
                    0 <= p < out@.len() ==> #[trigger] out@[p] as int == line_list_vertex(p, steps_per_line as int),
        {
            proof {
                lemma_line_list_position(line as int, s as int, segs_i, steps_per_line as int, 0);
                lemma_line_list_position(line as int, s as int, segs_i, steps_per_line as int, 1);
            }
            out.push(base + s);
            out.push(base + s + 1);
        }
        assert((line as int + 1) * segs_i == line as int * segs_i + segs_i) by (nonlinear_arith);
    }
    out
}

/// The 24 indices (12 edges) of the wireframe box over the corners
/// `0..4` (back face, counter-clockwise) and `4..8` (front face).
pub open spec fn box_edge_list() -> Seq<u32> {
    seq![0, 1, 1, 2, 2, 3, 3, 0, 4, 5, 5, 6, 6, 7, 7, 4, 0, 4, 1, 5, 2, 6, 3, 7]
}

/// Line-list indices of the 12 edges of a box whose 8 corners are laid out
/// as (lo,lo,lo) (hi,lo,lo) (hi,hi,lo) (lo,hi,lo), then the same at hi z.
pub fn box_edge_indices() -> (idx: Vec<u32>)
    ensures
        idx@ == box_edge_list(),
{
    let idx: Vec<u32> = vec![0, 1, 1, 2, 2, 3, 3, 0, 4, 5, 5, 6, 6, 7, 7, 4, 0, 4, 1, 5, 2, 6, 3, 7];
    assert(idx@ =~= box_edge_list());
    idx
}

/// The word stored at byte offset `4 * i`, read least significant byte first.
pub open spec fn le_word(b: Seq<u8>, i: int) -> int {
    b[4 * i] + 256 * b[4 * i + 1] + 65536 * b[4 * i + 2] + 16777216 * b[4 * i + 3]
}

/// The word stored at byte offset `4 * i`, read most significant byte first.
pub open spec fn be_word(b: Seq<u8>, i: int) -> int {
    16777216 * b[4 * i] + 65536 * b[4 * i + 1] + 256 * b[4 * i + 2] + b[4 * i + 3]
}

/// `b` holds the words `w` in the machine's byte order, whichever it is.
pub open spec fn holds_words(b: Seq<u8>, w: Seq<u32>) -> bool {
    &&& b.len() == 4 * w.len()
    &&& {
        ||| forall|i: int| 0 <= i < w.len() ==> le_word(b, i) == #[trigger] w[i]
        ||| forall|i: int| 0 <= i < w.len() ==> be_word(b, i) == #[trigger] w[i]
    }
}

/// `bytemuck::cast_slice::<u32, u8>`: the same memory read as bytes, so four
/// bytes per word in the machine's byte order (little- or big-endian, the
/// same for every word). u8 has alignment 1, so the cast never fails.
#[verifier::external_body]
fn cast_words_to_bytes(w: &[u32]) -> (b: &[u8])
    ensures
        holds_words(b@, w@),
{
    bytemuck::cast_slice(w)
}

/// The bytes of an index list as a GPU index buffer receives them.
pub fn index_bytes(indices: &[u32]) -> (b: &[u8])
    ensures
        holds_words(b@, indices@),
{
    cast_words_to_bytes(indices)
}

/// Every line-list pair joins two consecutive vertices of one streamline,
/// and every index addresses one of the `seed_count * steps` vertices the
/// streamline pass writes.
pub proof fn lemma_line_list_shape(seed_count: int, steps: int, m: int)
    requires
        seed_count >= 0,
        steps >= 0,
        0 <= m < seed_count * segments_per_line(steps),
    ensures
        0 <= line_list_vertex(2 * m, steps),
        line_list_vertex(2 * m + 1, steps) == line_list_vertex(2 * m, steps) + 1,
        line_list_vertex(2 * m, steps) / steps == line_list_vertex(2 * m + 1, steps) / steps,
        line_list_vertex(2 * m + 1, steps) < seed_count * steps,
{
    let segs = segments_per_line(steps);
    assert(segs > 0) by {
        if segs <= 0 {
            assert(seed_count * segs <= 0) by (nonlinear_arith)
                requires
                    seed_count >= 0,
                    segs <= 0,
            ;
        }
    }
    let l = m / segs;
    let s = m % segs;
    vstd::arithmetic::div_mod::lemma_fundamental_div_mod(m, segs);
    assert(0 <= s < segs);
    assert(0 <= l < seed_count) by (nonlinear_arith)
        requires
            m == segs * l + s,
            0 <= s < segs,
            0 <= m < seed_count * segs,
            segs > 0,
    ;
    lemma_line_list_position(l, s, segs, steps, 0);
    lemma_line_list_position(l, s, segs, steps, 1);
    assert(m == l * segs + s) by (nonlinear_arith)
        requires
            m == segs * l + s,
    ;
    assert(0 <= l * steps) by (nonlinear_arith)
        requires
            0 <= l,
            0 <= steps,
    ;
    vstd::arithmetic::div_mod::lemma_fundamental_div_mod_converse(l * steps + s, steps, l, s);
    vstd::arithmetic::div_mod::lemma_fundamental_div_mod_converse(l * steps + s + 1, steps, l, s + 1);
    assert((l + 1) * steps <= seed_count * steps && (l + 1) * steps == l * steps + steps) by (nonlinear_arith)
        requires
            0 <= l < seed_count,
            0 <= steps,
    ;
}

/// Corner `v` of the wireframe box as (x high, y high, z high).
pub open spec fn box_corner(v: u32) -> (bool, bool, bool) {
    (v == 1 || v == 2 || v == 5 || v == 6, v == 2 || v == 3 || v == 6 || v == 7, v >= 4)
}

/// Corners `a` and `b` differ in exactly one coordinate.
pub open spec fn one_axis_apart(a: u32, b: u32) -> bool {
    let (ax, ay, az) = box_corner(a);
    let (bx, by, bz) = box_corner(b);
    (if ax != bx { 1int } else { 0 }) + (if ay != by { 1int } else { 0 }) + (if az != bz { 1int } else { 0 }) == 1
}

/// Edge `e` of the box index list, as its two corner indices.
pub open spec fn box_edge(e: int) -> (u32, u32) {
    (box_edge_list()[2 * e], box_edge_list()[2 * e + 1])
}

/// Edges `e` and `f` join the same two corners.
pub open spec fn same_edge(e: int, f: int) -> bool {
    (box_edge(e).0 == box_edge(f).0 && box_edge(e).1 == box_edge(f).1) || (box_edge(e).0
        == box_edge(f).1 && box_edge(e).1 == box_edge(f).0)
}

/// The box index list is exactly the 12 edges of the box: every pair joins
/// two of the 8 corners that differ along a single axis, and no edge is
/// listed twice (in either direction).
pub proof fn lemma_box_edges()
    ensures
        box_edge_list().len() == 24,
        forall|e: int| 0 <= e < 12 ==> (#[trigger] box_edge(e)).0 < 8 && box_edge(e).1 < 8
            && one_axis_apart(box_edge(e).0, box_edge(e).1),
        forall|e: int, f: int| 0 <= e < f < 12 ==> !#[trigger] same_edge(e, f),
{
    assert forall|e: int| 0 <= e < 12 implies (#[trigger] box_edge(e)).0 < 8 && box_edge(e).1 < 8
        && one_axis_apart(box_edge(e).0, box_edge(e).1) by {
        assert(0 <= e < 12);
    }
    assert forall|e: int, f: int| 0 <= e < f < 12 implies !#[trigger] same_edge(e, f) by {
        assert(0 <= e < 12);
    }
}

} // verus!
