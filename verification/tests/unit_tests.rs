use shellaga::collider::Collider;
use shellaga::enemy::Enemy;
use shellaga::frame::{level_progress_percent, should_log_level_progress, update_log_level_timer};
use shellaga::math::{clamp, halve, round_milli, sat_add, sat_sub, scale_velocity, Vec2, Vec3};
use shellaga::player::{direction, MOVING_DOWN, MOVING_LEFT, MOVING_RIGHT, MOVING_UP};
use shellaga::timer::{Timer, TimerMode};
use shellaga::weapon::Weapon;

#[test]
fn direction_normalization() {
    // Opposing keys cancel.
    assert_eq!(direction(0), Vec3::new(0, 0, 0));
    assert_eq!(direction(MOVING_LEFT | MOVING_RIGHT), Vec3::new(0, 0, 0));
    assert_eq!(direction(MOVING_UP | MOVING_DOWN), Vec3::new(0, 0, 0));

    // A single direction moves at the full unit along its axis.
    assert_eq!(direction(MOVING_RIGHT), Vec3::new(1000, 0, 0));
    assert_eq!(direction(MOVING_LEFT), Vec3::new(-1000, 0, 0));
    assert_eq!(direction(MOVING_DOWN), Vec3::new(0, 1000, 0));
    assert_eq!(direction(MOVING_UP), Vec3::new(0, -1000, 0));

    // Diagonals split the unit, keeping the magnitude of axial movement.
    assert_eq!(direction(MOVING_UP | MOVING_RIGHT), Vec3::new(707, -707, 0));
    let d = direction(MOVING_DOWN | MOVING_LEFT);
    assert_eq!(d, Vec3::new(-707, 707, 0));
    let mag2 = d.x * d.x + d.y * d.y;
    assert!(mag2 <= 1_000_000);
    assert!(mag2 >= 998_001);
}

#[test]
fn rounding_to_cells() {
    assert_eq!(round_milli(0), 0);
    assert_eq!(round_milli(499), 0);
    assert_eq!(round_milli(500), 1);
    assert_eq!(round_milli(1499), 1);
    assert_eq!(round_milli(1500), 2);
    assert_eq!(round_milli(-499), 0);
    assert_eq!(round_milli(-500), -1);
    assert_eq!(round_milli(-1500), -2);
}

#[test]
fn velocity_scaling() {
    // 20 cells/s for 16 ms of a full unit: 0.32 cells.
    assert_eq!(scale_velocity(20_000, 1000, 16), 320);
    assert_eq!(scale_velocity(20_000, 707, 16), 226);
    assert_eq!(scale_velocity(-20_000, 1000, 16), -320);
    assert_eq!(scale_velocity(20_000, -1000, 16), -320);
    assert_eq!(scale_velocity(20_000, 0, 16), 0);
    assert_eq!(scale_velocity(40_000, 1000, 100), 4000);
}

#[test]
fn saturating_arithmetic() {
    assert_eq!(sat_add(1, 2), 3);
    assert_eq!(sat_add(i64::MAX, 1), i64::MAX);
    assert_eq!(sat_sub(i64::MIN, 1), i64::MIN);
    assert_eq!(sat_sub(5, 7), -2);
    assert_eq!(clamp(5, 0, 3), 3);
    assert_eq!(clamp(-5, 0, 3), 0);
    assert_eq!(clamp(2, 0, 3), 2);
    assert_eq!(halve(7), 3);
    assert_eq!(halve(-7), -3);
    assert_eq!(halve(32_000), 16_000);
}

#[test]
fn one_shot_timer() {
    let mut t = Timer::new(300, TimerMode::Once);
    assert!(!t.finished());
    t.tick(299);
    assert!(!t.finished());
    assert_eq!(t.elapsed_ms, 299);
    t.tick(1);
    assert!(t.finished());
    assert!(t.just_finished());
    t.tick(50);
    assert!(t.finished());
    assert!(!t.just_finished());
    assert_eq!(t.elapsed_ms, 300);
    t.reset();
    assert!(!t.finished());
    assert_eq!(t.elapsed_ms, 0);
}

#[test]
fn repeating_timer() {
    let mut t = Timer::new(100, TimerMode::Repeating);
    t.tick(250);
    assert!(t.just_finished());
    assert_eq!(t.elapsed_ms, 50);
    t.tick(30);
    assert!(!t.just_finished());
    assert_eq!(t.elapsed_ms, 80);
    update_log_level_timer(&mut t, 20);
    assert!(should_log_level_progress(&t));
    assert_eq!(t.elapsed_ms, 0);
}

#[test]
fn weapon_starts_reloading() {
    let mut w = Weapon::new(300);
    assert!(!w.ready());
    w.trigger(true);
    assert!(w.trigger);
    w.reload_timer.tick(300);
    assert!(w.ready());
}

#[test]
fn level_progress_formula() {
    // The frame's far edge halfway between frame width and level length.
    assert_eq!(level_progress_percent(564_000, 128_000, 1_000_000), Some(50));
    assert_eq!(level_progress_percent(128_000, 128_000, 1_000_000), Some(0));
    assert_eq!(level_progress_percent(1_000_000, 128_000, 1_000_000), Some(100));
    // A level no longer than the frame: the computation is skipped.
    assert_eq!(level_progress_percent(500_000, 128_000, 128_000), None);
    assert_eq!(level_progress_percent(500_000, 128_000, 100_000), None);
}

#[test]
fn enemy_bundle_shape() {
    let (_enemy, sprite, collider) = Enemy::bundle();
    assert_eq!(collider, Collider(Vec2 { x: 2000, y: 5000 }));
    assert_eq!(sprite.buffer.nrows(), 5);
    assert_eq!(sprite.buffer.ncols(), 2);
    assert_eq!(sprite.buffer.get(0, 0).character, Some('/'));
    assert_eq!(sprite.buffer.get(0, 1).character, Some('/'));
    assert_eq!(sprite.buffer.get(2, 0).character, None);
    assert_eq!(sprite.buffer.get(2, 1).character, Some('o'));
    assert_eq!(sprite.buffer.get(4, 0).character, Some('\\'));
}
