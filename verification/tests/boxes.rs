use aabb_physics::aabb::AABB;
use aabb_physics::ray::Ray;
use aabb_physics::transform::Transform;
use aabb_physics::vector::{SmallVec3, Vec3, WideVec3};

fn at(x: i32, y: i32, z: i32) -> Transform {
    Transform::new(Vec3::new(x, y, z), Vec3::zeros(), SmallVec3::new(1, 1, 1))
}

fn unit_box(x: i32, y: i32, z: i32, trigger: bool) -> AABB {
    AABB::new(SmallVec3::new(-1, -1, -1), SmallVec3::new(1, 1, 1), at(x, y, z), trigger)
}

fn wide(x: i64, y: i64, z: i64) -> WideVec3 {
    WideVec3 { x, y, z }
}

#[test]
fn new_places_corners_by_translation_and_scale() {
    let t = Transform::new(Vec3::new(10, -20, 30), Vec3::new(7, 8, 9), SmallVec3::new(2, 3, 4));
    let b = AABB::new(SmallVec3::new(-1, -2, -3), SmallVec3::new(4, 5, 6), t, false);
    let (max, min) = b.get_max_and_min_points();
    assert_eq!(max, wide(10 + 4 * 2, -20 + 5 * 3, 30 + 6 * 4));
    assert_eq!(min, wide(10 - 1 * 2, -20 - 2 * 3, 30 - 3 * 4));
}

#[test]
fn update_with_the_same_transform_changes_nothing() {
    let t = Transform::new(Vec3::new(5, 6, 7), Vec3::zeros(), SmallVec3::new(3, 1, 2));
    let mut b = AABB::new(SmallVec3::new(-2, -2, -2), SmallVec3::new(3, 3, 3), t, true);
    let before = (b.get_max_and_min_points(), b.get_center(), b.get_extents(), b.is_trigger_collider());
    b.update(t);
    let after = (b.get_max_and_min_points(), b.get_center(), b.get_extents(), b.is_trigger_collider());
    assert_eq!(before, after);
}

#[test]
fn update_follows_the_new_transform() {
    let mut b = unit_box(0, 0, 0, false);
    b.update(Transform::new(Vec3::new(100, 0, -100), Vec3::zeros(), SmallVec3::new(5, 6, 7)));
    let (max, min) = b.get_max_and_min_points();
    assert_eq!(max, wide(105, 6, -93));
    assert_eq!(min, wide(95, -6, -107));
    assert_eq!(b.get_center(), wide(100, 0, -100));
    assert_eq!(b.get_extents(), wide(5, 6, 7));
}

#[test]
fn rotation_leaves_the_box_alone() {
    let plain = Transform::new(Vec3::new(1, 2, 3), Vec3::zeros(), SmallVec3::new(2, 2, 2));
    let turned = Transform::new(Vec3::new(1, 2, 3), Vec3::new(90, 45, 30), SmallVec3::new(2, 2, 2));
    let a = AABB::new(SmallVec3::new(-1, -2, -3), SmallVec3::new(1, 2, 3), plain, false);
    let b = AABB::new(SmallVec3::new(-1, -2, -3), SmallVec3::new(1, 2, 3), turned, false);
    assert_eq!(a.get_max_and_min_points(), b.get_max_and_min_points());
    assert_eq!(a.get_center(), b.get_center());
    assert_eq!(a.get_extents(), b.get_extents());
}

#[test]
fn extents_and_center_round_toward_the_minimum_corner() {
    let b = AABB::new(SmallVec3::new(-1, 0, 0), SmallVec3::new(2, 5, 1), at(0, 0, 0), false);
    assert_eq!(b.get_extents(), wide(1, 2, 0));
    assert_eq!(b.get_center(), wide(0, 2, 0));
}

#[test]
fn negative_scale_swaps_the_world_corners() {
    let t = Transform::new(Vec3::new(0, 0, 0), Vec3::zeros(), SmallVec3::new(-1, 1, 1));
    let b = AABB::new(SmallVec3::new(-1, -1, -1), SmallVec3::new(2, 1, 1), t, false);
    let (max, min) = b.get_max_and_min_points();
    assert_eq!(max, wide(-2, 1, 1));
    assert_eq!(min, wide(1, -1, -1));
    assert_eq!(b.get_extents(), wide(-1, 1, 1));
    assert_eq!(b.get_center(), wide(0, 0, 0));
}

#[test]
fn extreme_inputs_stay_in_range() {
    let t = Transform::new(
        Vec3::new(i32::MAX, i32::MIN, 0),
        Vec3::zeros(),
        SmallVec3::new(i16::MIN, i16::MIN, i16::MAX),
    );
    let b = AABB::new(
        SmallVec3::new(i16::MIN, i16::MIN, i16::MIN),
        SmallVec3::new(i16::MAX, i16::MAX, i16::MAX),
        t,
        false,
    );
    let (max, min) = b.get_max_and_min_points();
    assert_eq!(min.x, i32::MAX as i64 + 32768 * 32768);
    assert_eq!(max.x, i32::MAX as i64 - 32767 * 32768);
    assert_eq!(max.y, i32::MIN as i64 - 32767 * 32768);
    assert_eq!(max.z, 32767 * 32767);
}

#[test]
fn overlap_is_symmetric() {
    let boxes = [
        unit_box(0, 0, 0, false),
        unit_box(1, 1, 1, false),
        unit_box(2, 0, 0, false),
        unit_box(5, 5, 5, true),
        unit_box(0, 1, 0, true),
        unit_box(-1, 0, 1, true),
    ];
    for a in boxes.iter() {
        for b in boxes.iter() {
            assert_eq!(a.overlaps(*b), b.overlaps(*a));
        }
    }
}

#[test]
fn overlapping_boxes_overlap() {
    assert!(unit_box(0, 0, 0, false).overlaps(unit_box(1, 1, 1, false)));
    assert!(unit_box(0, 0, 0, false).overlaps(unit_box(0, 0, 0, false)));
}

#[test]
fn touching_boxes_do_not_overlap() {
    assert!(!unit_box(0, 0, 0, false).overlaps(unit_box(2, 0, 0, false)));
    assert!(!unit_box(0, 0, 0, false).overlaps(unit_box(0, -2, 0, false)));
}

#[test]
fn boxes_apart_on_one_axis_do_not_overlap() {
    assert!(!unit_box(0, 0, 0, false).overlaps(unit_box(0, 0, 3, false)));
    assert!(!unit_box(0, 0, 0, false).overlaps(unit_box(1, 3, 1, false)));
}

#[test]
fn two_triggers_never_overlap() {
    assert!(!unit_box(0, 0, 0, true).overlaps(unit_box(0, 0, 0, true)));
    assert!(!unit_box(0, 0, 0, true).overlaps(unit_box(1, 0, 0, true)));
}

#[test]
fn a_trigger_overlaps_a_solid() {
    assert!(unit_box(0, 0, 0, true).overlaps(unit_box(1, 0, 0, false)));
    assert!(unit_box(0, 0, 0, false).overlaps(unit_box(1, 0, 0, true)));
    assert!(!unit_box(0, 0, 0, true).overlaps(unit_box(4, 0, 0, false)));
}

#[test]
fn ray_along_z_hits_the_box_at_the_origin() {
    let ray = Ray::new(Vec3::new(0, 0, -10), SmallVec3::new(0, 0, 1));
    let b = unit_box(0, 0, 0, false);
    assert_eq!(b.get_max_and_min_points(), (wide(1, 1, 1), wide(-1, -1, -1)));
    assert!(b.intersects_with_ray(ray));
}

#[test]
fn ray_along_z_misses_the_far_box() {
    let ray = Ray::new(Vec3::new(0, 0, -10), SmallVec3::new(0, 0, 1));
    assert!(!unit_box(100, 100, 100, false).intersects_with_ray(ray));
}

#[test]
fn ray_parallel_to_a_face_counts_the_face_itself() {
    let on_face = Ray::new(Vec3::new(1, 0, -10), SmallVec3::new(0, 0, 1));
    let off_face = Ray::new(Vec3::new(2, 0, -10), SmallVec3::new(0, 0, 1));
    let b = unit_box(0, 0, 0, false);
    assert!(b.intersects_with_ray(on_face));
    assert!(!b.intersects_with_ray(off_face));
}

#[test]
fn diagonal_ray_through_a_corner_hits() {
    let b = unit_box(0, 0, 0, false);
    assert!(b.intersects_with_ray(Ray::new(Vec3::new(-5, -5, -5), SmallVec3::new(1, 1, 1))));
    assert!(b.intersects_with_ray(Ray::new(Vec3::new(-3, -1, -1), SmallVec3::new(1, 1, 1))));
    assert!(!b.intersects_with_ray(Ray::new(Vec3::new(-4, -1, -1), SmallVec3::new(1, 1, 1))));
}

#[test]
fn slanted_ray_is_judged_exactly() {
    let b = unit_box(10, 3, 0, false);
    assert!(b.intersects_with_ray(Ray::new(Vec3::new(0, 0, 0), SmallVec3::new(3, 1, 0))));
    assert!(b.intersects_with_ray(Ray::new(Vec3::new(0, 0, 0), SmallVec3::new(9, 4, 0))));
    assert!(!b.intersects_with_ray(Ray::new(Vec3::new(0, 0, 0), SmallVec3::new(9, 5, 0))));
    assert!(!b.intersects_with_ray(Ray::new(Vec3::new(0, 0, 0), SmallVec3::new(3, 1, 1))));
}

#[test]
fn the_length_of_the_direction_does_not_matter() {
    let b = unit_box(10, 3, 0, false);
    let o = Vec3::new(0, 0, 0);
    assert_eq!(
        b.intersects_with_ray(Ray::new(o, SmallVec3::new(3, 1, 0))),
        b.intersects_with_ray(Ray::new(o, SmallVec3::new(300, 100, 0)))
    );
    assert_eq!(
        b.intersects_with_ray(Ray::new(o, SmallVec3::new(9, 5, 0))),
        b.intersects_with_ray(Ray::new(o, SmallVec3::new(1800, 1000, 0)))
    );
}

#[test]
fn the_whole_line_counts() {
    let b = unit_box(0, 0, 0, false);
    assert!(b.intersects_with_ray(Ray::new(Vec3::new(0, 0, -10), SmallVec3::new(0, 0, -1))));
}

#[test]
fn zero_direction_is_the_origin_alone() {
    let b = unit_box(0, 0, 0, false);
    assert!(b.intersects_with_ray(Ray::new(Vec3::new(1, -1, 0), SmallVec3::new(0, 0, 0))));
    assert!(!b.intersects_with_ray(Ray::new(Vec3::new(0, 0, 2), SmallVec3::new(0, 0, 0))));
}

#[test]
fn ray_against_a_box_with_swapped_corners() {
    let t = Transform::new(Vec3::new(0, 0, 0), Vec3::zeros(), SmallVec3::new(-1, -1, -1));
    let b = AABB::new(SmallVec3::new(-1, -1, -1), SmallVec3::new(1, 1, 1), t, false);
    assert!(b.intersects_with_ray(Ray::new(Vec3::new(-7, 0, 0), SmallVec3::new(1, 0, 0))));
    assert!(!b.intersects_with_ray(Ray::new(Vec3::new(-7, 2, 0), SmallVec3::new(1, 0, 0))));
}

#[test]
fn ray_keeps_what_it_was_given() {
    let ray = Ray::new(Vec3::new(1, 2, 3), SmallVec3::new(0, 0, 7));
    assert_eq!(ray.get_origin(), Vec3::new(1, 2, 3));
    assert_eq!(ray.get_direction(), SmallVec3::new(0, 0, 7));
}

#[test]
fn trigger_flag_is_kept() {
    assert!(unit_box(0, 0, 0, true).is_trigger_collider());
    assert!(!unit_box(0, 0, 0, false).is_trigger_collider());
}
