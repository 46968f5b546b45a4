use raytracker::bvh::BvhLayout;

fn positions(layout: &BvhLayout, out: &mut Vec<usize>) {
    match layout {
        BvhLayout::Single(i) => out.push(*i),
        BvhLayout::Pair(a, b) => {
            out.push(*a);
            out.push(*b);
        }
        BvhLayout::Split { left, right, .. } => {
            positions(left, out);
            positions(right, out);
        }
    }
}

fn height(layout: &BvhLayout) -> u32 {
    match layout {
        BvhLayout::Single(_) | BvhLayout::Pair(_, _) => 1,
        BvhLayout::Split { left, right, .. } => 1 + height(left).max(height(right)),
    }
}

#[test]
fn one_object_makes_a_single_node() {
    assert!(matches!(BvhLayout::build(4, 5), BvhLayout::Single(4)));
}

#[test]
fn two_objects_make_a_pair() {
    assert!(matches!(BvhLayout::build(4, 6), BvhLayout::Pair(4, 5)));
}

#[test]
fn more_objects_split_at_the_middle() {
    match BvhLayout::build(0, 5) {
        BvhLayout::Split { start, mid, end, left, right } => {
            assert_eq!((start, mid, end), (0, 2, 5));
            assert!(matches!(*left, BvhLayout::Pair(0, 1)));
            match *right {
                BvhLayout::Split { start, mid, end, left, right } => {
                    assert_eq!((start, mid, end), (2, 3, 5));
                    assert!(matches!(*left, BvhLayout::Single(2)));
                    assert!(matches!(*right, BvhLayout::Pair(3, 4)));
                }
                _ => panic!("three positions must split"),
            }
        }
        _ => panic!("five positions must split"),
    }
}

#[test]
fn every_position_appears_once_in_order() {
    for n in 1..200usize {
        let mut out = Vec::new();
        positions(&BvhLayout::build(0, n), &mut out);
        assert_eq!(out, (0..n).collect::<Vec<_>>());
    }
}

#[test]
fn the_hierarchy_for_the_final_scene_is_shallow() {
    // 485 objects: 2^8 < 485 <= 2^9, so nine levels.
    assert_eq!(height(&BvhLayout::build(0, 485)), 9);
    for n in 2..1000usize {
        let h = height(&BvhLayout::build(0, n));
        assert!(1usize << (h - 1) < n, "n = {n}, height = {h}");
    }
    assert_eq!(height(&BvhLayout::build(0, 1)), 1);
}
