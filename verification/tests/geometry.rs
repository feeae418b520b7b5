use hopf_sta_viz::dispatch::{advance_time_step, fdtd_workgroups, lcg_step, lcg_unit_bits, workgroup_count};
use hopf_sta_viz::geometry::{box_edge_indices, build_line_indices, index_bytes};
use hopf_sta_viz::shader::concat_wgsl;

#[test]
fn line_indices_small() {
    assert_eq!(build_line_indices(2, 3), vec![0, 1, 1, 2, 3, 4, 4, 5]);
    assert_eq!(build_line_indices(1, 2), vec![0, 1]);
}

#[test]
fn line_indices_degenerate_lines() {
    assert!(build_line_indices(5, 1).is_empty());
    assert!(build_line_indices(5, 0).is_empty());
    assert!(build_line_indices(0, 7).is_empty());
}

#[test]
fn line_indices_stay_on_their_line() {
    let steps = 7u32;
    let seeds = 9u32;
    let idx = build_line_indices(seeds, steps);
    assert_eq!(idx.len(), (seeds * (steps - 1) * 2) as usize);
    for pair in idx.chunks(2) {
        assert_eq!(pair[1], pair[0] + 1);
        assert_eq!(pair[0] / steps, pair[1] / steps);
        assert!(pair[1] < seeds * steps);
    }
}

#[test]
fn box_edges_are_the_cube_edges() {
    let idx = box_edge_indices();
    assert_eq!(
        idx,
        vec![0, 1, 1, 2, 2, 3, 3, 0, 4, 5, 5, 6, 6, 7, 7, 4, 0, 4, 1, 5, 2, 6, 3, 7]
    );
    let corner = |v: u32| (v == 1 || v == 2 || v == 5 || v == 6, v == 2 || v == 3 || v == 6 || v == 7, v >= 4);
    let mut edges = Vec::new();
    for e in idx.chunks(2) {
        let (a, b) = (corner(e[0]), corner(e[1]));
        let diff = (a.0 != b.0) as u32 + (a.1 != b.1) as u32 + (a.2 != b.2) as u32;
        assert_eq!(diff, 1);
        edges.push((e[0].min(e[1]), e[0].max(e[1])));
    }
    edges.sort();
    edges.dedup();
    assert_eq!(edges.len(), 12);
}

#[test]
fn index_bytes_hold_each_word() {
    let words = [1u32, 0x0102_0304, 0xFFFF_FFFF];
    let bytes = index_bytes(&words);
    assert_eq!(bytes.len(), 12);
    for (i, w) in words.iter().enumerate() {
        let b = [bytes[4 * i], bytes[4 * i + 1], bytes[4 * i + 2], bytes[4 * i + 3]];
        assert_eq!(u32::from_ne_bytes(b), *w);
    }
    assert_ne!(&bytes[4..8], &[0u8, 0, 0, 0]);
}

#[test]
fn workgroups_cover_exactly() {
    assert_eq!(workgroup_count(0, 64), 0);
    assert_eq!(workgroup_count(1, 64), 1);
    assert_eq!(workgroup_count(64, 64), 1);
    assert_eq!(workgroup_count(65, 64), 2);
    assert_eq!(workgroup_count(900_000, 64), 14_063);
    for n in 0..300u32 {
        let g = workgroup_count(n, 8);
        assert!(g * 8 >= n);
        assert!(g == 0 || (g - 1) * 8 < n);
    }
}

#[test]
fn fdtd_grid_workgroups() {
    assert_eq!(fdtd_workgroups(160), (20, 20, 40));
    assert_eq!(fdtd_workgroups(64), (8, 8, 16));
    assert_eq!(fdtd_workgroups(33), (5, 5, 9));
}

#[test]
fn time_step_wraps_and_composes() {
    assert_eq!(advance_time_step(0, 8), 8);
    assert_eq!(advance_time_step(u32::MAX, 1), 0);
    assert_eq!(advance_time_step(u32::MAX - 2, 5), 2);
    let a = advance_time_step(advance_time_step(4_000_000_000, 300_000), 1_000_000);
    assert_eq!(a, advance_time_step(4_000_000_000, 1_300_000));
}

#[test]
fn lcg_sequence() {
    let s1 = lcg_step(0xC0DE_C0DE);
    assert_eq!(s1, 0xC0DE_C0DEu32.wrapping_mul(1664525).wrapping_add(1013904223));
    assert_eq!(lcg_step(0), 1013904223);
    assert_eq!(lcg_unit_bits(0xFFFF_FFFF), 0x00FF_FFFF);
    assert_eq!(lcg_unit_bits(0x1234_5678), 0x0012_3456);
    let mut s = 0xBADD1Eu32;
    for _ in 0..1000 {
        s = lcg_step(s);
        assert!(lcg_unit_bits(s) < (1 << 24));
    }
}

#[test]
fn wgsl_concatenation() {
    assert_eq!(concat_wgsl("fn a() {}", "fn b() {}"), "fn a() {}\nfn b() {}");
    assert_eq!(concat_wgsl("", ""), "\n");
    let s = concat_wgsl("common", "main");
    assert_eq!(s.len(), "common".len() + "main".len() + 1);
}
