use shellaga::app::tick;
use shellaga::buffer::{Buffer, Cell};
use shellaga::collider::Collider;
use shellaga::enemy::Enemy;
use shellaga::entity::{Entity, World};
use shellaga::event::{KeyCode, KeyEvent, KeyEventKind, TerminalEvent};
use shellaga::frame::{HEIGHT, WIDTH};
use shellaga::level::{LevelEvent, LEVEL_LENGTH};
use shellaga::math::{Transform, Vec3};
use shellaga::weapon::{LazerShot, Shot};

fn game_buffer() -> Buffer {
    Buffer::from_elem(HEIGHT, WIDTH, Cell::default())
}

fn no_events() -> Vec<TerminalEvent> {
    Vec::new()
}

fn key(code: KeyCode, kind: KeyEventKind) -> TerminalEvent {
    TerminalEvent::Key(KeyEvent { code, kind })
}

fn count_levels(w: &World) -> usize {
    w.entities.iter().filter(|e| e.alive && e.level.is_some()).count()
}

fn count_frames(w: &World) -> usize {
    w.entities.iter().filter(|e| e.alive && e.frame.is_some()).count()
}

fn count_players(w: &World) -> usize {
    w.entities
        .iter()
        .filter(|e| e.alive && e.player_state.is_some())
        .count()
}

fn count_shots(w: &World) -> usize {
    w.entities.iter().filter(|e| e.alive && e.shot.is_some()).count()
}

fn find_frame(w: &World) -> usize {
    w.entities
        .iter()
        .position(|e| e.alive && e.frame.is_some())
        .expect("no frame")
}

fn find_player(w: &World) -> usize {
    w.entities
        .iter()
        .position(|e| e.alive && e.player_state.is_some())
        .expect("no player")
}

/// A world two ticks after the start signal: level, frame, player, weapon
/// all live.
fn started_world() -> (World, Buffer) {
    let mut w = World::new();
    let mut buffer = game_buffer();
    w.send_level_event(LevelEvent::LevelStart);
    tick(&mut w, &mut buffer, 16, &no_events());
    tick(&mut w, &mut buffer, 16, &no_events());
    (w, buffer)
}

#[test]
fn end_to_end_level_lifecycle() {
    let mut w = World::new();
    let mut buffer = game_buffer();
    w.send_level_event(LevelEvent::LevelStart);

    tick(&mut w, &mut buffer, 16, &no_events());
    assert_eq!(count_levels(&w), 1);
    assert_eq!(count_frames(&w), 1);

    tick(&mut w, &mut buffer, 16, &no_events());
    assert_eq!(count_players(&w), 1);
    assert!(!w.exit);

    // Drive the frame's far edge past the level's length.
    let fi = find_frame(&w);
    w.entities[fi].transform = Some(Transform::from_translation(Vec3::new(
        LEVEL_LENGTH + 1000,
        0,
        0,
    )));
    tick(&mut w, &mut buffer, 16, &no_events());

    assert!(w.exit);
    assert_eq!(count_levels(&w), 0);
    assert_eq!(count_frames(&w), 0);
    assert_eq!(count_players(&w), 0);
    // The level owned everything: the whole subtree is torn down.
    assert!(w.entities.iter().all(|e| !e.alive));

    // The termination signal is idempotent: another tick leaves it set.
    tick(&mut w, &mut buffer, 16, &no_events());
    assert!(w.exit);
}

#[test]
fn player_enemy_collision_terminates() {
    let (mut w, mut buffer) = started_world();
    let fi = find_frame(&w);
    let pi = find_player(&w);
    let ppos = w.entities[pi].transform.unwrap().translation;

    let (enemy, sprite, collider) = Enemy::bundle();
    w.spawn(Entity {
        parent: Some(fi),
        transform: Some(Transform::from_translation(Vec3::new(
            ppos.x + 1500,
            ppos.y + 500,
            0,
        ))),
        sprite: Some(sprite),
        collider: Some(collider),
        enemy: Some(enemy),
        ..Entity::empty()
    });

    tick(&mut w, &mut buffer, 16, &no_events());

    // The loss condition fires, independent of level progress.
    assert!(w.exit);
    assert_eq!(count_levels(&w), 1);
}

#[test]
fn shot_leaving_frame_is_despawned() {
    let (mut w, mut buffer) = started_world();
    let fi = find_frame(&w);

    let si = w.spawn(Entity {
        parent: Some(fi),
        transform: Some(Transform::from_translation(Vec3::new(127_000, 16_000, 0))),
        collider: Some(Collider::new(1000, 1000)),
        shot: Some(Shot { speed: 40_000 }),
        lazer_shot: Some(LazerShot),
        ..Entity::empty()
    });
    assert!(w.entities[si].alive);

    // One 100 ms tick moves the shot 4 cells right, past the frame's right
    // boundary: despawned the tick its leading edge leaves.
    tick(&mut w, &mut buffer, 100, &no_events());
    assert!(!w.entities[si].alive);
    assert!(!w.exit);
}

#[test]
fn shot_and_enemy_destroy_each_other() {
    let (mut w, mut buffer) = started_world();
    let fi = find_frame(&w);

    let (enemy, sprite, collider) = Enemy::bundle();
    let ei = w.spawn(Entity {
        parent: Some(fi),
        transform: Some(Transform::from_translation(Vec3::new(10_000, 16_000, 0))),
        sprite: Some(sprite),
        collider: Some(collider),
        enemy: Some(enemy),
        ..Entity::empty()
    });
    let si = w.spawn(Entity {
        parent: Some(fi),
        transform: Some(Transform::from_translation(Vec3::new(9_500, 17_000, 0))),
        collider: Some(Collider::new(1000, 1000)),
        shot: Some(Shot { speed: 40_000 }),
        lazer_shot: Some(LazerShot),
        ..Entity::empty()
    });

    tick(&mut w, &mut buffer, 16, &no_events());

    assert!(!w.entities[ei].alive, "enemy killed");
    assert!(!w.entities[si].alive, "shot consumed");
    assert!(!w.exit);
    assert_eq!(count_levels(&w), 1);
}

#[test]
fn weapon_fires_only_when_ready_and_triggered() {
    let (mut w, mut buffer) = started_world();

    // Ready but trigger released: no shot.
    tick(&mut w, &mut buffer, 300, &no_events());
    assert_eq!(count_shots(&w), 0);

    // Trigger held while ready: exactly one shot, and the reload restarts.
    let press_space = vec![key(KeyCode::Char(' '), KeyEventKind::Press)];
    tick(&mut w, &mut buffer, 100, &press_space);
    assert_eq!(count_shots(&w), 1);

    // Holding the trigger through ready ticks fires at most one shot per
    // reload interval (300 ms).
    tick(&mut w, &mut buffer, 100, &no_events());
    assert_eq!(count_shots(&w), 1);
    tick(&mut w, &mut buffer, 100, &no_events());
    assert_eq!(count_shots(&w), 1);
    tick(&mut w, &mut buffer, 100, &no_events());
    assert_eq!(count_shots(&w), 2);
}

#[test]
fn duplicate_start_events_spawn_once() {
    let mut w = World::new();
    let mut buffer = game_buffer();
    w.send_level_event(LevelEvent::LevelStart);
    w.send_level_event(LevelEvent::LevelStart);

    tick(&mut w, &mut buffer, 16, &no_events());

    assert_eq!(count_levels(&w), 1);
    assert_eq!(count_frames(&w), 1);
    assert_eq!(count_players(&w), 1);

    // Even running the guarded spawners again changes nothing.
    shellaga::frame::spawn(&mut w);
    shellaga::player::spawn(&mut w);
    assert_eq!(count_frames(&w), 1);
    assert_eq!(count_players(&w), 1);
}

#[test]
fn player_position_is_clamped_to_frame() {
    let (mut w, mut buffer) = started_world();
    let pi = find_player(&w);

    // Hold left: the player never leaves the frame's left edge.
    let press_a = vec![key(KeyCode::Char('a'), KeyEventKind::Press)];
    tick(&mut w, &mut buffer, 100, &press_a);
    for _ in 0..50 {
        tick(&mut w, &mut buffer, 100, &no_events());
    }
    let t = w.entities[pi].transform.unwrap().translation;
    assert_eq!(t.x, 0);
    assert!(t.y >= 0 && t.y <= (HEIGHT as i64) * 1000 - 1000);

    // Hold right: the player's own box never exits the right edge.
    let swap = vec![
        key(KeyCode::Char('a'), KeyEventKind::Release),
        key(KeyCode::Char('d'), KeyEventKind::Press),
    ];
    tick(&mut w, &mut buffer, 100, &swap);
    for _ in 0..100 {
        tick(&mut w, &mut buffer, 100, &no_events());
    }
    let t = w.entities[pi].transform.unwrap().translation;
    assert_eq!(t.x, (WIDTH as i64) * 1000 - 3000);
    assert!(t.y >= 0 && t.y <= (HEIGHT as i64) * 1000 - 1000);
}

#[test]
fn escape_requests_termination() {
    let (mut w, mut buffer) = started_world();
    assert!(!w.exit);
    let esc = vec![key(KeyCode::Esc, KeyEventKind::Press)];
    tick(&mut w, &mut buffer, 16, &esc);
    assert!(w.exit);
}

#[test]
fn frame_scrolls_at_constant_rate() {
    let (mut w, mut buffer) = started_world();
    let fi = find_frame(&w);
    let x0 = w.entities[fi].transform.unwrap().translation.x;
    tick(&mut w, &mut buffer, 16, &no_events());
    let x1 = w.entities[fi].transform.unwrap().translation.x;
    assert_eq!(x1 - x0, 100);
}
