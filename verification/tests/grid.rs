use hopf_sta_viz::grid::{CellMask, Grid};
use hopf_sta_viz::touch::TouchList;

#[test]
fn grid_minimum_sizes() {
    let g = Grid::new(4, 3);
    assert_eq!((g.nx, g.ny, g.nz), (16, 8, 8));
    let g = Grid::new(34, 102);
    assert_eq!((g.nx, g.ny, g.nz), (102, 34, 34));
    assert_eq!(g.cells(), 102 * 34 * 34);
}

#[test]
fn grid_linear_layout_is_one_to_one() {
    let g = Grid::new(8, 16);
    assert_eq!(g.lin(0, 0, 0), 0);
    assert_eq!(g.lin(1, 0, 0), 1);
    assert_eq!(g.lin(0, 1, 0), 16);
    assert_eq!(g.lin(0, 0, 1), 16 * 8);
    assert_eq!(g.lin(15, 7, 7), g.cells() - 1);
    let mut seen = vec![false; g.cells()];
    for k in 0..g.nz {
        for j in 0..g.ny {
            for i in 0..g.nx {
                let p = g.lin(i, j, k);
                assert!(!seen[p]);
                seen[p] = true;
            }
        }
    }
    assert!(seen.iter().all(|b| *b));
}

#[test]
fn grid_clamped_neighbours() {
    let g = Grid::new(8, 16);
    assert_eq!(g.idx_clamp(-1, 3, 2), g.lin(0, 3, 2));
    assert_eq!(g.idx_clamp(16, 8, 8), g.lin(15, 7, 7));
    assert_eq!(g.idx_clamp(5, -7, 9), g.lin(5, 0, 7));
    assert_eq!(g.idx_clamp(5, 4, 3), g.lin(5, 4, 3));
}

#[test]
fn grid_boundary_depth() {
    let g = Grid::new(10, 20);
    assert_eq!(g.boundary_depth(0, 5, 5), 0);
    assert_eq!(g.boundary_depth(19, 5, 5), 4);
    assert_eq!(g.boundary_depth(19, 9, 5), 0);
    assert_eq!(g.boundary_depth(3, 4, 6), 3);
    assert_eq!(g.boundary_depth(8, 2, 6), 2);
}

#[test]
fn mask_mark_read_clear() {
    let g = Grid::new(8, 16);
    let mut m = CellMask::new(g);
    assert!(!m.contains(3, 3, 3));
    m.mark(3, 3, 3);
    m.mark(15, 0, 7);
    assert!(m.contains(3, 3, 3));
    assert!(m.contains(15, 0, 7));
    assert!(!m.contains(3, 3, 4));
    assert!(m.contains_at(g.lin(15, 0, 7)));
    let marked = (0..g.cells()).filter(|p| m.contains_at(*p)).count();
    assert_eq!(marked, 2);
    m.clear();
    assert!(!m.contains(3, 3, 3));
    assert_eq!(m.grid().nx, 16);
}

#[test]
fn touch_press_move_release() {
    let mut t: TouchList<(i32, i32)> = TouchList::new();
    t.press(7, (1, 1));
    t.press(9, (5, 5));
    t.press(7, (2, 2)); // already down: ignored
    assert_eq!(t.len(), 2);
    assert_eq!(t.first_two(), Some(((1, 1), (5, 5))));
    assert_eq!(t.move_to(9, (6, 4)), Some((5, 5)));
    assert_eq!(t.move_to(3, (0, 0)), None);
    assert_eq!(t.first_two(), Some(((1, 1), (6, 4))));
    t.release(7);
    assert_eq!(t.len(), 1);
    assert_eq!(t.first_two(), None);
    t.release(42);
    assert_eq!(t.len(), 1);
    t.press(11, (0, 0));
    t.release(11);
    assert_eq!(t.len(), 1);
    assert_eq!(t.move_to(9, (1, 2)), Some((6, 4)));
}
