use aabb_physics::game::{GameState, TimerState};
use aabb_physics::textbox::TextBox;
use aabb_physics::transform::Transform;
use aabb_physics::vector::{SmallVec3, Vec2, Vec3};

#[test]
fn new_transform_keeps_its_parts() {
    let t = Transform::new(Vec3::new(1, 2, 3), Vec3::new(4, 5, 6), SmallVec3::new(7, 8, 9));
    assert_eq!(t.translation, Vec3::new(1, 2, 3));
    assert_eq!(t.rotation, Vec3::new(4, 5, 6));
    assert_eq!(t.scale, SmallVec3::new(7, 8, 9));
}

#[test]
fn setters_replace_one_part() {
    let mut t = Transform::new(Vec3::new(1, 2, 3), Vec3::new(4, 5, 6), SmallVec3::new(7, 8, 9));
    t.update_translation(Vec3::new(-1, -2, -3));
    assert_eq!(t.translation, Vec3::new(-1, -2, -3));
    assert_eq!(t.rotation, Vec3::new(4, 5, 6));
    assert_eq!(t.scale, SmallVec3::new(7, 8, 9));
    t.update_rotation(Vec3::new(10, 20, 30));
    assert_eq!(t.translation, Vec3::new(-1, -2, -3));
    assert_eq!(t.rotation, Vec3::new(10, 20, 30));
    t.update_scale(SmallVec3::new(2, 2, 2));
    assert_eq!(t.scale, SmallVec3::new(2, 2, 2));
    assert_eq!(t.rotation, Vec3::new(10, 20, 30));
    t.reset_rotation();
    assert_eq!(t.rotation, Vec3::zeros());
    assert_eq!(t.translation, Vec3::new(-1, -2, -3));
    assert_eq!(t.scale, SmallVec3::new(2, 2, 2));
}

#[test]
fn translate_and_rotate_add() {
    let mut t = Transform::new(Vec3::new(1, 2, 3), Vec3::new(4, 5, 6), SmallVec3::new(1, 1, 1));
    t.translate(Vec3::new(10, -20, 30));
    assert_eq!(t.translation, Vec3::new(11, -18, 33));
    t.rotate(Vec3::new(-4, 5, 0));
    assert_eq!(t.rotation, Vec3::new(0, 10, 6));
    assert_eq!(t.translation, Vec3::new(11, -18, 33));
}

#[test]
fn checked_plus_tells_when_the_sum_fits() {
    assert_eq!(Vec3::new(1, 2, 3).checked_plus(Vec3::new(4, 5, 6)), Some(Vec3::new(5, 7, 9)));
    assert_eq!(
        Vec3::new(i32::MAX, 0, 0).checked_plus(Vec3::new(0, i32::MIN, 0)),
        Some(Vec3::new(i32::MAX, i32::MIN, 0))
    );
    assert_eq!(Vec3::new(i32::MAX, 0, 0).checked_plus(Vec3::new(1, 0, 0)), None);
    assert_eq!(Vec3::new(0, i32::MIN, 0).checked_plus(Vec3::new(0, -1, 0)), None);
    assert_eq!(Vec3::new(0, 0, i32::MAX).checked_plus(Vec3::new(0, 0, i32::MAX)), None);
}

#[test]
fn new_text_box_is_visible_and_white() {
    let b = TextBox::new(Vec2::new(10, 20), "Score");
    assert_eq!(b.text, "Score");
    assert_eq!(b.get_position(), Vec2::new(10, 20));
    assert!(b.is_visible());
    assert_eq!(b.get_color(), Vec3::new(255, 255, 255));
}

#[test]
fn text_box_setters_change_one_thing() {
    let mut b = TextBox::new(Vec2::new(10, 20), "Score");
    b.set_color(Vec3::new(255, 0, 0));
    assert_eq!(b.get_color(), Vec3::new(255, 0, 0));
    assert!(b.is_visible());
    b.set_visibility(false);
    assert!(!b.is_visible());
    assert_eq!(b.get_color(), Vec3::new(255, 0, 0));
    b.set_position(Vec2::new(-1, 5));
    assert_eq!(b.get_position(), Vec2::new(-1, 5));
    assert_eq!(b.text, "Score");
    assert!(!b.is_visible());
}

#[test]
fn states_are_distinct() {
    assert_eq!(GameState::ACTIVE, GameState::ACTIVE);
    assert_ne!(GameState::ACTIVE, GameState::MENU);
    assert_ne!(GameState::WIN, GameState::LOSE);
    assert_ne!(GameState::TRANSITION, GameState::MENU);
    assert_eq!(TimerState::READY, TimerState::READY);
    assert_ne!(TimerState::UNSTARTED, TimerState::RUNNING);
    assert_ne!(TimerState::PAUSED, TimerState::STOPPED);
    assert_ne!(TimerState::COMPLETED, TimerState::READY);
}
