use whack_a_mole::game::{init_holes, init_moles};
use whack_a_mole::hole::Hole;
use whack_a_mole::layout::holes_wide;
use whack_a_mole::mole::Mole;

fn positions(holes: &[Hole]) -> Vec<(i64, i64)> {
    holes.iter().map(|h| (h.pos_x, h.pos_y)).collect()
}

#[test]
fn hole_new_is_free() {
    let h = Hole::new(3, -2);
    assert_eq!(h.pos_x, 3);
    assert_eq!(h.pos_y, -2);
    assert!(!h.occupied);
}

#[test]
fn mole_new_has_defaults() {
    let m = Mole::new();
    assert_eq!(m.name(), "Ed");
    assert_eq!(m.hp(), 100);
    assert_eq!(m.min_dwell_time(), 500);
    assert_eq!(m.max_dwell_time(), 1500);
    assert!(!m.is_up);
    assert_eq!(m.pos_x, 0);
    assert_eq!(m.pos_y, 0);
    assert_eq!(m.hole_index(), None);
}

#[test]
fn mole_setters_change_one_field() {
    let mut m = Mole::default();
    m.set_name(String::from("Mo"));
    m.set_hole_index(4);
    assert_eq!(m.name(), "Mo");
    assert_eq!(m.hole_index(), Some(4));
    assert_eq!(m.hp(), 100);
}

#[test]
fn rounded_up_square_roots() {
    assert_eq!(holes_wide(0), 0);
    assert_eq!(holes_wide(1), 1);
    assert_eq!(holes_wide(2), 2);
    assert_eq!(holes_wide(4), 2);
    assert_eq!(holes_wide(5), 3);
    assert_eq!(holes_wide(8), 3);
    assert_eq!(holes_wide(9), 3);
    assert_eq!(holes_wide(10), 4);
    assert_eq!(holes_wide(128), 12);
    assert_eq!(holes_wide(u64::MAX), 0x1_0000_0000);
}

#[test]
fn eight_holes_like_the_classic() {
    let holes = init_holes(8);
    assert_eq!(
        positions(&holes),
        vec![(0, 0), (1, 0), (2, 0), (0, 1), (1, 1), (0, 2), (1, 2), (2, 2)]
    );
    assert!(holes.iter().all(|h| !h.occupied));
}

#[test]
fn small_boards() {
    assert!(init_holes(0).is_empty());
    assert_eq!(positions(&init_holes(1)), vec![(0, 0)]);
    assert_eq!(positions(&init_holes(2)), vec![(0, 0), (1, 0)]);
    assert_eq!(positions(&init_holes(3)), vec![(0, 0), (1, 0), (0, 1)]);
    assert_eq!(positions(&init_holes(5)), vec![(0, 0), (1, 0), (2, 0), (0, 1), (1, 1)]);
}

#[test]
fn sixteen_holes_alternate_four_and_three() {
    let holes = init_holes(16);
    let p = positions(&holes);
    assert_eq!(&p[0..4], &[(0, 0), (1, 0), (2, 0), (3, 0)]);
    assert_eq!(&p[4..7], &[(0, 1), (1, 1), (2, 1)]);
    assert_eq!(&p[7..11], &[(0, 2), (1, 2), (2, 2), (3, 2)]);
    assert_eq!(&p[11..14], &[(0, 3), (1, 3), (2, 3)]);
    assert_eq!(&p[14..16], &[(0, 4), (1, 4)]);
}

#[test]
fn hole_positions_are_distinct() {
    for n in [5u64, 8, 13, 50, 128] {
        let p = positions(&init_holes(n));
        assert_eq!(p.len() as u64, n);
        for i in 0..p.len() {
            for j in 0..i {
                assert_ne!(p[i], p[j], "board of {n}: holes {j} and {i}");
            }
        }
    }
}

#[test]
fn init_moles_are_default() {
    let moles = init_moles(6);
    assert_eq!(moles.len(), 6);
    assert!(moles.iter().all(|m| m.name() == "Ed" && m.hole_index().is_none()));
    assert!(init_moles(0).is_empty());
}
