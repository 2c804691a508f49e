use hintsx::hints::Child;

fn rect(x: i32, y: i32, width: i32, height: i32) -> Child {
    Child { absolute_x: x, absolute_y: y, width, height }
}

#[test]
fn inside_when_strictly_within() {
    assert!(rect(10, 10, 5, 5).inside((0, 0, 100, 100)));
}

#[test]
fn inside_when_edges_coincide() {
    assert!(rect(0, 0, 60, 60).inside((0, 0, 60, 60)));
    assert!(rect(0, 10, 10, 10).inside((0, 0, 60, 60)));
    assert!(rect(50, 50, 10, 10).inside((0, 0, 60, 60)));
    assert!(rect(10, 0, 10, 10).inside((0, 0, 60, 60)));
}

#[test]
fn outside_when_any_edge_crosses() {
    let region = (10, 10, 50, 50);
    assert!(!rect(9, 10, 10, 10).inside(region));
    assert!(!rect(10, 9, 10, 10).inside(region));
    assert!(!rect(51, 10, 10, 10).inside(region));
    assert!(!rect(10, 51, 10, 10).inside(region));
    assert!(!rect(100, 100, 10, 10).inside((0, 0, 60, 60)));
}

#[test]
fn inside_sweep_agrees_with_edge_inequalities() {
    let region = (-3, 2, 7, 5);
    for x in -6..8 {
        for y in -2..10 {
            for width in 1..5 {
                for height in 1..5 {
                    let expected = x >= -3 && y >= 2 && x + width <= 4 && y + height <= 7;
                    assert_eq!(rect(x, y, width, height).inside(region), expected);
                }
            }
        }
    }
}

#[test]
fn inside_does_not_wrap_at_the_ends_of_the_range() {
    assert!(!rect(i32::MAX, 0, i32::MAX, 1).inside((0, 0, 10, 10)));
    assert!(rect(i32::MAX - 1, 0, 1, 1).inside((0, 0, i32::MAX, 1)));
    assert!(!rect(0, 0, 1, 1).inside((i32::MAX, i32::MAX, i32::MAX, i32::MAX)));
    assert!(rect(i32::MIN, i32::MIN, 1, 1).inside((i32::MIN, i32::MIN, 1, 1)));
}

#[test]
fn no_region_admits_everything() {
    assert!(rect(-100, -100, 1, 1).inside_focus(None));
    assert!(rect(5, 5, 1, 1).inside_focus(Some((0, 0, 10, 10))));
    assert!(!rect(15, 5, 1, 1).inside_focus(Some((0, 0, 10, 10))));
}

#[test]
fn area_needs_both_sides_positive() {
    assert!(rect(0, 0, 1, 1).has_area());
    assert!(!rect(0, 0, 0, 1).has_area());
    assert!(!rect(0, 0, 1, 0).has_area());
    assert!(!rect(0, 0, -1, 5).has_area());
    assert!(!rect(0, 0, 5, -1).has_area());
}
