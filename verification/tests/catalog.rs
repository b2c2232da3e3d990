use koala_kombo::shapes::CATALOG_LEN;
use koala_kombo::shapes::ShapeId;
use koala_kombo::shapes::coords;
use koala_kombo::shapes::shape_of_draw;
use koala_kombo::shapes::shape_of_index;

#[test]
fn single_cell_piece() {
    let v = coords(ShapeId::Single);
    assert_eq!(v, vec![(0, 0)]);
}

#[test]
fn straight_bars_in_both_orientations() {
    assert_eq!(coords(ShapeId::BarH2), vec![(0, 0), (1, 0)]);
    assert_eq!(coords(ShapeId::BarV2), vec![(0, 0), (0, 1)]);
    assert_eq!(coords(ShapeId::BarH3).len(), 3);
    assert_eq!(coords(ShapeId::BarV3).len(), 3);
    assert_eq!(coords(ShapeId::BarH4).len(), 4);
    assert_eq!(coords(ShapeId::BarV4).len(), 4);
    assert_eq!(coords(ShapeId::BarH5), vec![(0, 0), (1, 0), (2, 0), (3, 0), (4, 0)]);
    assert_eq!(coords(ShapeId::BarV5), vec![(0, 0), (0, 1), (0, 2), (0, 3), (0, 4)]);
}

#[test]
fn square_blocks_of_two_sizes() {
    assert_eq!(coords(ShapeId::Square2).len(), 4);
    let big = coords(ShapeId::Square3);
    assert_eq!(big.len(), 9);
    for r in 0..3 {
        for c in 0..3 {
            assert!(big.contains(&(c, r)));
        }
    }
}

#[test]
fn bent_shapes_and_rotations_coexist() {
    // four cells each, distinct geometry
    let l0 = coords(ShapeId::L0);
    let l90 = coords(ShapeId::L90);
    let t0 = coords(ShapeId::T0);
    let s0 = coords(ShapeId::S0);
    let z0 = coords(ShapeId::Z0);
    for v in [&l0, &l90, &t0, &s0, &z0] {
        assert_eq!(v.len(), 4);
    }
    assert_ne!(l0, l90);
    assert_ne!(t0, s0);
    assert_ne!(s0, z0);
    // same cell count, different geometry, both present
    assert_eq!(coords(ShapeId::BarH5).len(), coords(ShapeId::BigL).len());
    assert_ne!(coords(ShapeId::BarH5), coords(ShapeId::BigL));
}

#[test]
fn every_shape_is_normalized_and_bounded() {
    for i in 0..CATALOG_LEN {
        let s = shape_of_index(i);
        let v = coords(s);
        assert!(!v.is_empty());
        let min_col = v.iter().map(|p| p.0).min().unwrap();
        let min_row = v.iter().map(|p| p.1).min().unwrap();
        let max_col = v.iter().map(|p| p.0).max().unwrap();
        let max_row = v.iter().map(|p| p.1).max().unwrap();
        assert_eq!(min_col, 0);
        assert_eq!(min_row, 0);
        assert!(max_col <= 4);
        assert!(max_row <= 4);
    }
}

#[test]
fn shapes_have_unique_offsets() {
    for i in 0..CATALOG_LEN {
        let v = coords(shape_of_index(i));
        for a in 0..v.len() {
            for b in (a + 1)..v.len() {
                assert_ne!(v[a], v[b]);
            }
        }
    }
}

#[test]
fn raw_draws_wrap_around_the_catalog() {
    assert_eq!(shape_of_draw(0), ShapeId::Single);
    assert_eq!(shape_of_draw(24), ShapeId::BigL);
    assert_eq!(shape_of_draw(25), ShapeId::Single);
    assert_eq!(shape_of_draw(26), ShapeId::BarH2);
    assert_eq!(shape_of_draw(u64::MAX), shape_of_index((u64::MAX % 25) as usize));
}

#[test]
fn catalog_lookup_is_total_and_injective() {
    for i in 0..CATALOG_LEN {
        for j in (i + 1)..CATALOG_LEN {
            assert_ne!(shape_of_index(i), shape_of_index(j));
        }
    }
    assert_eq!(shape_of_index(0), ShapeId::Single);
    assert_eq!(shape_of_index(CATALOG_LEN - 1), ShapeId::BigL);
}
