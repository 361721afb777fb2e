use game_logic::overlap::{circles_overlap, rects_overlap, Sides};
use game_logic::vector::Vec2;

fn v(x: i64, y: i64) -> Vec2 {
    Vec2 { x, y }
}

#[test]
fn sides_around_center() {
    let s = Sides::around(v(10, -5), 16, 8);
    assert_eq!(s, Sides { top: 3, bottom: -13, left: -6, right: 26 });
}

#[test]
fn touching_rectangles_overlap() {
    let a = Sides::around(v(0, 0), 16, 16);
    let b = Sides::around(v(32, 0), 16, 16);
    assert!(rects_overlap(&a, &b));
    let c = Sides::around(v(0, -32), 16, 16);
    assert!(rects_overlap(&a, &c));
}

#[test]
fn separated_rectangles_do_not_overlap() {
    let a = Sides::around(v(0, 0), 16, 16);
    assert!(!rects_overlap(&a, &Sides::around(v(33, 0), 16, 16)));
    assert!(!rects_overlap(&a, &Sides::around(v(-33, 0), 16, 16)));
    assert!(!rects_overlap(&a, &Sides::around(v(0, 33), 16, 16)));
    assert!(!rects_overlap(&a, &Sides::around(v(0, -33), 16, 16)));
    assert!(!rects_overlap(&a, &Sides::around(v(33, 33), 16, 16)));
}

#[test]
fn rectangle_overlap_is_symmetric_on_samples() {
    let shapes = [
        Sides::around(v(0, 0), 16, 16),
        Sides::around(v(20, 5), 4, 30),
        Sides::around(v(-40, 0), 8, 8),
        Sides::around(v(32, 0), 16, 16),
        Sides { top: 10, bottom: -10, left: 100, right: 90 },
    ];
    for a in &shapes {
        for b in &shapes {
            assert_eq!(rects_overlap(a, b), rects_overlap(b, a));
        }
    }
}

#[test]
fn circles_forty_apart_do_not_overlap() {
    assert!(!circles_overlap(v(0, 0), 16, v(40, 0), 16));
}

#[test]
fn circles_twenty_apart_overlap() {
    assert!(circles_overlap(v(0, 0), 16, v(20, 0), 16));
}

#[test]
fn tangent_circles_do_not_overlap() {
    assert!(!circles_overlap(v(0, 0), 16, v(32, 0), 16));
    assert!(!circles_overlap(v(0, 0), 3, v(3, 4), 2));
    assert!(circles_overlap(v(0, 0), 3, v(3, 4), 3));
}

#[test]
fn circle_overlap_symmetric_and_monotone_in_radius() {
    let pts = [v(0, 0), v(40, 0), v(20, 15), v(-7, 24)];
    for &a in &pts {
        for &b in &pts {
            for ra in [0i64, 5, 16, 30] {
                for rb in [0i64, 5, 16, 30] {
                    let hit = circles_overlap(a, ra, b, rb);
                    assert_eq!(hit, circles_overlap(b, rb, a, ra));
                    if hit {
                        assert!(circles_overlap(a, ra + 1, b, rb));
                        assert!(circles_overlap(a, ra, b, rb + 7));
                    }
                }
            }
        }
    }
    assert!(!circles_overlap(v(0, 0), 16, v(40, 0), 16));
    assert!(circles_overlap(v(0, 0), 30, v(40, 0), 16));
}
