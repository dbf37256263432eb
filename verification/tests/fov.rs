use holyland::fov::compute_visible;

#[test]
fn open_field_sees_full_radius() {
    let visible = compute_visible((0, 0), 5, |_, _| false);
    assert!(visible.contains(&(0, 0)));
    for (x, y) in [(5, 0), (-5, 0), (0, 5), (0, -5), (3, 3), (-3, 4)] {
        assert!(
            visible.contains(&(x, y)),
            "expected ({}, {}) visible in open field of radius 5",
            x,
            y
        );
    }
    assert!(!visible.contains(&(10, 0)));
}

#[test]
fn wall_casts_shadow_behind() {
    let blockers = std::collections::HashSet::from([(2, 0)]);
    let visible = compute_visible((0, 0), 5, |x, y| blockers.contains(&(x, y)));
    assert!(visible.contains(&(2, 0)));
    assert!(!visible.contains(&(3, 0)));
    assert!(!visible.contains(&(4, 0)));
    assert!(!visible.contains(&(5, 0)));
    assert!(visible.contains(&(3, 1)));
    assert!(visible.contains(&(3, -1)));
}

#[test]
fn corner_peeks_around_wall() {
    let blockers = std::collections::HashSet::from([(2, 0)]);
    let visible = compute_visible((0, 0), 5, |x, y| blockers.contains(&(x, y)));
    assert!(visible.contains(&(3, 1)));
}

#[test]
fn radius_zero_only_origin() {
    let visible = compute_visible((4, 7), 0, |_, _| false);
    assert_eq!(visible, vec![(4, 7)]);
}

#[test]
fn open_field_is_exactly_the_disc_sorted() {
    let r = 6;
    let visible = compute_visible((10, -3), r, |_, _| false);
    let mut expected = Vec::new();
    for x in (10 - r)..=(10 + r) {
        for y in (-3 - r)..=(-3 + r) {
            let dx = x - 10;
            let dy = y + 3;
            if dx * dx + dy * dy <= r * r {
                expected.push((x, y));
            }
        }
    }
    assert_eq!(visible, expected);
}

#[test]
fn enclosed_origin_sees_only_its_walls() {
    let visible = compute_visible((0, 0), 8, |x, y| x.abs().max(y.abs()) == 1);
    for &(x, y) in &visible {
        assert!(x.abs() <= 1 && y.abs() <= 1, "({}, {}) seen through a closed ring", x, y);
    }
    assert_eq!(visible.len(), 9);
}

#[test]
fn result_is_sorted_without_repeats() {
    let blockers = std::collections::HashSet::from([(1, 1), (-2, 0), (0, 3)]);
    let visible = compute_visible((0, 0), 7, |x, y| blockers.contains(&(x, y)));
    for w in visible.windows(2) {
        assert!(w[0] < w[1]);
    }
}
