use fpsoccer::collision::{aabb_collision, line_intersects_rect, line_intersects_segment, point_in_rect};
use fpsoccer::fixed::{isqrt_ceil, scale_to};

#[test]
fn aabb_overlap_and_touch() {
    assert!(aabb_collision(0, 0, 10, 10, 5, 5, 10, 10));
    assert!(!aabb_collision(0, 0, 10, 10, 10, 0, 10, 10));
    assert!(!aabb_collision(0, 0, 10, 10, 20, 20, 5, 5));
}

#[test]
fn segments_cross_in_the_middle() {
    assert!(line_intersects_segment(0, 0, 10, 10, 0, 10, 10, 0));
    assert!(!line_intersects_segment(0, 0, 10, 0, 0, 5, 10, 5));
    assert!(!line_intersects_segment(0, 0, 4, 4, 10, 0, 0, 10));
}

#[test]
fn segment_through_rect() {
    assert!(line_intersects_rect(0, 50, 200, 50, 90, 0, 20, 100));
    assert!(!line_intersects_rect(0, 150, 200, 150, 90, 0, 20, 100));
    assert!(line_intersects_rect(95, 10, 96, 11, 90, 0, 20, 100));
}

#[test]
fn point_in_rect_includes_edges() {
    assert!(point_in_rect(0, 0, 0, 0, 10, 10));
    assert!(point_in_rect(10, 10, 0, 0, 10, 10));
    assert!(!point_in_rect(11, 10, 0, 0, 10, 10));
}

#[test]
fn ceil_sqrt_values() {
    assert_eq!(isqrt_ceil(0), 0);
    assert_eq!(isqrt_ceil(1), 1);
    assert_eq!(isqrt_ceil(2), 2);
    assert_eq!(isqrt_ceil(25), 5);
    assert_eq!(isqrt_ceil(26), 6);
    assert_eq!(isqrt_ceil(u64::MAX), 0x1_0000_0000);
}

#[test]
fn scale_to_keeps_direction() {
    assert_eq!(scale_to(3000, 4000, 1000), (600, 800));
    assert_eq!(scale_to(-3000, 4000, 1000), (-600, 800));
    assert_eq!(scale_to(0, 0, 1000), (0, 0));
    assert_eq!(scale_to(1, 1, 1000), (500, 500));
}
