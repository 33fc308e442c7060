//! The player ship: input dispatch onto a movement bitmask and the weapon
//! trigger, normalized movement, and clamping to the frame's box.

use vstd::prelude::*;

use crate::buffer::{Buffer, Cell};
use crate::collider::Collider;
use crate::entity::{
    lemma_the_query_index, lemma_wf_push, matches_query, query_count, the_query_index, wf,
    wf_entity, Entity, Kind, Query, World,
};
use crate::event::{KeyCode, KeyEventKind, TerminalEvent};
use crate::math::{
    clamp_spec, sadd, scale_velocity_spec, ssub, tdiv, Transform, Vec2, Vec3, DIAGONAL, SCALE,
};
use crate::sprite::Sprite;
use crate::timer::{Timer, TimerMode};
use crate::weapon::Weapon;

verus! {

/// Marker component of the player's entities.
#[derive(Clone, Copy, PartialEq, Eq, Structural, Debug)]
pub struct Player;

/// The player's movement speed (milli-cells per second) and the bitmask of
/// movement directions currently held.
#[derive(Clone, Copy, PartialEq, Eq, Structural, Debug)]
pub struct PlayerState {
    pub speed: i64,
    pub state: u8,
}

pub const MOVING_LEFT: u8 = 0b0000_0001;

pub const MOVING_RIGHT: u8 = 0b0000_0010;

pub const MOVING_UP: u8 = 0b0000_0100;

pub const MOVING_DOWN: u8 = 0b0000_1000;

/// The player's speed, in milli-cells per second.
pub const PLAYER_SPEED: i64 = 20_000;

/// The weapon's reload duration, in milliseconds.
pub const RELOAD_MS: u32 = 300;

/// The signed unit along one axis the held keys ask for: the positive flag
/// minus the negative one.
pub open spec fn axis_component(state: u8, pos: u8, neg: u8) -> int {
    (if state & pos > 0 {
        1int
    } else {
        0int
    }) - (if state & neg > 0 {
        1int
    } else {
        0int
    })
}

/// The normalized movement direction a key mask yields, in milli-units:
/// opposing keys cancel, a single direction gives a full unit along its
/// axis, a diagonal gives [`DIAGONAL`] along each axis so the magnitude
/// stays that of axial movement.
pub open spec fn direction_spec(state: u8) -> Vec3 {
    let dx = axis_component(state, MOVING_RIGHT, MOVING_LEFT);
    let dy = axis_component(state, MOVING_DOWN, MOVING_UP);
    let mag: int = if dx != 0 && dy != 0 {
        DIAGONAL as int
    } else {
        SCALE as int
    };
    Vec3 { x: (dx * mag) as i64, y: (dy * mag) as i64, z: 0 }
}

/// Turn the held-direction mask into a movement vector in milli-units.
pub fn direction(state: u8) -> (r: Vec3)
    ensures
        r == direction_spec(state),
{
    let dx: i64 = (if state & MOVING_RIGHT > 0 {
        1i64
    } else {
        0i64
    }) - (if state & MOVING_LEFT > 0 {
        1i64
    } else {
        0i64
    });
    let dy: i64 = (if state & MOVING_DOWN > 0 {
        1i64
    } else {
        0i64
    }) - (if state & MOVING_UP > 0 {
        1i64
    } else {
        0i64
    });
    let mag: i64 = if dx != 0 && dy != 0 {
        DIAGONAL
    } else {
        SCALE
    };
    Vec3 { x: dx * mag, y: dy * mag, z: 0 }
}

/// The square of an integer.
pub open spec fn sq(a: int) -> int {
    a * a
}

/// Direction normalization: opposing keys cancel to zero along their axis;
/// a single held direction moves at the full unit [`SCALE`]; any nonzero
/// direction (axial or diagonal) has squared magnitude within a tenth of a
/// percent of the axial unit's, never more.
pub proof fn lemma_direction_normalization(state: u8)
    ensures
        state & MOVING_LEFT > 0 && state & MOVING_RIGHT > 0 ==> direction_spec(state).x == 0,
        state & MOVING_UP > 0 && state & MOVING_DOWN > 0 ==> direction_spec(state).y == 0,
        state & MOVING_RIGHT > 0 && state & MOVING_LEFT == 0 && state & MOVING_UP == 0 && state
            & MOVING_DOWN == 0 ==> direction_spec(state) == (Vec3 { x: SCALE, y: 0, z: 0 }),
        direction_spec(state) != (Vec3 { x: 0, y: 0, z: 0 }) ==> 998_001 <= sq(
            direction_spec(state).x as int,
        ) + sq(direction_spec(state).y as int) <= 1_000_000,
{
    let dx = axis_component(state, MOVING_RIGHT, MOVING_LEFT);
    let dy = axis_component(state, MOVING_DOWN, MOVING_UP);
    let mag: int = if dx != 0 && dy != 0 {
        DIAGONAL as int
    } else {
        SCALE as int
    };
    assert(-1 <= dx <= 1);
    assert(-1 <= dy <= 1);
    assert(dx * mag == if dx == 1 {
        mag
    } else if dx == -1 {
        -mag
    } else {
        0
    }) by (nonlinear_arith)
        requires
            -1 <= dx <= 1,
    ;
    assert(dy * mag == if dy == 1 {
        mag
    } else if dy == -1 {
        -mag
    } else {
        0
    }) by (nonlinear_arith)
        requires
            -1 <= dy <= 1,
    ;
    let vx = direction_spec(state).x as int;
    let vy = direction_spec(state).y as int;
    assert(sq(vx) == if vx == 707 || vx == -707 {
        499_849int
    } else if vx == 1000 || vx == -1000 {
        1_000_000int
    } else if vx == 0 {
        0int
    } else {
        sq(vx)
    }) by (nonlinear_arith);
    assert(sq(vy) == if vy == 707 || vy == -707 {
        499_849int
    } else if vy == 1000 || vy == -1000 {
        1_000_000int
    } else if vy == 0 {
        0int
    } else {
        sq(vy)
    }) by (nonlinear_arith);
}

/// A direction vector's components never exceed one movement unit.
pub proof fn lemma_direction_bounded(state: u8)
    ensures
        -SCALE <= direction_spec(state).x <= SCALE,
        -SCALE <= direction_spec(state).y <= SCALE,
        direction_spec(state).z == 0,
{
    let dx = axis_component(state, MOVING_RIGHT, MOVING_LEFT);
    let dy = axis_component(state, MOVING_DOWN, MOVING_UP);
    let mag: int = if dx != 0 && dy != 0 {
        DIAGONAL as int
    } else {
        SCALE as int
    };
    assert(-1000 <= dx * mag <= 1000) by (nonlinear_arith)
        requires
            -1 <= dx <= 1,
            0 <= mag <= 1000,
    ;
    assert(-1000 <= dy * mag <= 1000) by (nonlinear_arith)
        requires
            -1 <= dy <= 1,
            0 <= mag <= 1000,
    ;
}

/// The flag a movement key toggles; 0 for keys that do not move the player.
pub open spec fn key_flag(code: KeyCode) -> u8 {
    match code {
        KeyCode::Char(c) => {
            if c == 'w' {
                MOVING_UP
            } else if c == 'a' {
                MOVING_LEFT
            } else if c == 's' {
                MOVING_DOWN
            } else if c == 'd' {
                MOVING_RIGHT
            } else {
                0
            }
        },
        _ => 0,
    }
}

/// The held-direction mask after one input event: press sets the key's
/// flag, release clears it, anything else leaves the mask alone.
pub open spec fn mask_after_event(mask: u8, ev: TerminalEvent) -> u8 {
    match ev {
        TerminalEvent::Key(k) => {
            let flag = key_flag(k.code);
            if flag == 0 {
                mask
            } else {
                match k.kind {
                    KeyEventKind::Press => mask | flag,
                    KeyEventKind::Release => mask & !flag,
                    KeyEventKind::Repeat => mask,
                }
            }
        },
        _ => mask,
    }
}

/// The weapon trigger after one input event: space press holds it, space
/// release lets go, anything else leaves it.
pub open spec fn trigger_after_event(trigger: bool, ev: TerminalEvent) -> bool {
    match ev {
        TerminalEvent::Key(k) => {
            if k.code == (KeyCode::Char(' ')) {
                match k.kind {
                    KeyEventKind::Press => true,
                    KeyEventKind::Release => false,
                    KeyEventKind::Repeat => trigger,
                }
            } else {
                trigger
            }
        },
        _ => trigger,
    }
}

/// The mask after a whole tick's worth of input events, oldest first.
pub open spec fn mask_after_events(mask: u8, evs: Seq<TerminalEvent>) -> u8
    decreases evs.len(),
{
    if evs.len() == 0 {
        mask
    } else {
        mask_after_events(mask_after_event(mask, evs[0]), evs.drop_first())
    }
}

/// The trigger after a whole tick's worth of input events, oldest first.
pub open spec fn trigger_after_events(trigger: bool, evs: Seq<TerminalEvent>) -> bool
    decreases evs.len(),
{
    if evs.len() == 0 {
        trigger
    } else {
        trigger_after_events(trigger_after_event(trigger, evs[0]), evs.drop_first())
    }
}

/// A translation after one tick of movement: the speed scaled by the mask's
/// direction and the elapsed time, added (saturating) to each planar
/// component; depth is untouched.
pub open spec fn step_translation(t: Vec3, speed: int, mask: u8, dt: int) -> Vec3 {
    let dir = direction_spec(mask);
    Vec3 {
        x: sadd(t.x as int, scale_velocity_spec(speed, dir.x as int, dt)) as i64,
        y: sadd(t.y as int, scale_velocity_spec(speed, dir.y as int, dt)) as i64,
        z: t.z,
    }
}

/// A translation clamped so the player's own box stays inside the frame's:
/// each planar component is confined to `[0, frame - player]` along its
/// axis, where that interval exists.
pub open spec fn clamp_translation(t: Vec3, fc: Vec2, pc: Vec2) -> Vec3 {
    let hx = ssub(fc.x as int, pc.x as int);
    let hy = ssub(fc.y as int, pc.y as int);
    Vec3 {
        x: if hx >= 0 {
            clamp_spec(t.x as int, 0, hx) as i64
        } else {
            t.x
        },
        y: if hy >= 0 {
            clamp_spec(t.y as int, 0, hy) as i64
        } else {
            t.y
        },
        z: t.z,
    }
}

/// Movement clamping: whatever movement was applied, the clamped position
/// lies within `[0, frame.width - player.width] x [0, frame.height -
/// player.height]` whenever the player fits in the frame.
pub proof fn lemma_movement_clamped(t: Vec3, fc: Vec2, pc: Vec2)
    requires
        ssub(fc.x as int, pc.x as int) >= 0,
        ssub(fc.y as int, pc.y as int) >= 0,
    ensures
        0 <= clamp_translation(t, fc, pc).x as int <= ssub(fc.x as int, pc.x as int),
        0 <= clamp_translation(t, fc, pc).y as int <= ssub(fc.y as int, pc.y as int),
{
}

/// The cells of the player's ship sprite.
pub open spec fn player_sprite_cells() -> Seq<Seq<Cell>> {
    seq![seq![Cell::glyph_spec(']'), Cell::glyph_spec('o'), Cell::glyph_spec('>')]]
}

/// The weapon entity spawned along with the player: a child of the player
/// carrying the weapon and a muzzle-offset transform.
pub open spec fn weapon_entity_spec(player_id: int) -> Entity {
    Entity {
        parent: Some(player_id as usize),
        transform: Some(
            Transform { translation: Vec3 { x: (3 * SCALE) as i64, y: 0, z: 0 } },
        ),
        player: Some(Player),
        weapon: Some(
            Weapon {
                reload_timer: Timer {
                    duration_ms: RELOAD_MS,
                    elapsed_ms: 0,
                    mode: TimerMode::Once,
                    just_finished: false,
                },
                trigger: false,
            },
        ),
        ..Entity::empty_spec()
    }
}

/// Everything the spawned player record must hold (its sprite can only be
/// described through its view, so this is field-wise).
pub open spec fn is_player_record(e: Entity, frame_id: int, fc: Collider) -> bool {
    &&& e.alive
    &&& e.parent == Some(frame_id as usize)
    &&& e.transform == Some(
        Transform { translation: Vec3 { x: 0, y: tdiv(fc.0.y as int, 2) as i64, z: 0 } },
    )
    &&& e.collider == Some(Collider(Vec2 { x: (3 * SCALE) as i64, y: SCALE }))
    &&& e.player == Some(Player)
    &&& e.player_state == Some(PlayerState { speed: PLAYER_SPEED, state: 0 })
    &&& e.sprite matches Some(sp) && sp.buffer@ =~= player_sprite_cells()
    &&& e.weapon is None
    &&& e.level is None
    &&& e.frame is None
    &&& e.enemy is None
    &&& e.shot is None
    &&& e.lazer_shot is None
}

/// The query the player spawner runs on frames: a frame with a collider to
/// center against.
pub open spec fn frame_spawn_query() -> Query {
    Query { kind: Kind::Frame, collider: true, transform: false }
}

/// Spawn the player ship (and its weapon, parented to it) as a child of the
/// unique frame, vertically centered against the frame's collider. Runs
/// only when no player state exists yet and exactly one frame with a
/// collider does; otherwise the world is unchanged.
pub fn spawn(w: &mut World)
    requires
        wf(*old(w)),
    ensures
        wf(*final (w)),
        final (w).exit == old(w).exit,
        final (w).level_events@ == old(w).level_events@,
        (query_count(old(w).entities@, Query::of_spec(Kind::PlayerState)) > 0 || query_count(
            old(w).entities@,
            frame_spawn_query(),
        ) != 1) ==> final (w).entities@ == old(w).entities@,
        (query_count(old(w).entities@, Query::of_spec(Kind::PlayerState)) == 0 && query_count(
            old(w).entities@,
            frame_spawn_query(),
        ) == 1) ==> {
            let fi = the_query_index(old(w).entities@, frame_spawn_query());
            let fc = old(w).entities@[fi].collider->0;
            &&& final (w).entities@.len() == old(w).entities@.len() + 2
            &&& forall|j: int|
                0 <= j < old(w).entities@.len() ==> final (w).entities@[j] == old(w).entities@[j]
            &&& is_player_record(
                final (w).entities@[old(w).entities@.len() as int],
                fi,
                old(w).entities@[fi].collider->0,
            )
            &&& final (w).entities@[old(w).entities@.len() as int + 1] == weapon_entity_spec(
                old(w).entities@.len() as int,
            )
        },
        query_count(final (w).entities@, Query::of_spec(Kind::PlayerState)) == (if query_count(
            old(w).entities@,
            Query::of_spec(Kind::PlayerState),
        ) == 0 && query_count(old(w).entities@, frame_spawn_query()) == 1 {
            1int
        } else {
            query_count(old(w).entities@, Query::of_spec(Kind::PlayerState))
        }),
{
    if w.any_matching(Query::of(Kind::PlayerState)) {
        return ;
    }
    let fq = Query { kind: Kind::Frame, collider: true, transform: false };
    let fi: usize = match w.find_single(fq) {
        Some(i) => i,
        None => { return ; },
    };
    let fc: Collider = match w.entities[fi].collider {
        Some(c) => c,
        None => { return ; },
    };

    let mut buf: Buffer = Buffer::from_elem(1, 3, Cell::glyph(']'));
    buf.set(0, 1, Cell::glyph('o'));
    buf.set(0, 2, Cell::glyph('>'));
    proof {
        assert(buf@ =~~= player_sprite_cells());
    }

    let half_y: i64 = crate::math::halve(fc.0.y);
    let ghost s0 = w.entities@;
    let player_entity = Entity {
        parent: Some(fi),
        transform: Some(Transform::from_translation(Vec3::new(0, half_y, 0))),
        sprite: Some(Sprite { buffer: buf }),
        collider: Some(Collider::new(3 * SCALE, 1 * SCALE)),
        player: Some(Player),
        player_state: Some(PlayerState { speed: PLAYER_SPEED, state: 0 }),
        ..Entity::empty()
    };
    proof {
        lemma_wf_push(s0, player_entity);
    }
    let pid = w.spawn(player_entity);
    let weapon_entity = Entity {
        parent: Some(pid),
        transform: Some(Transform::from_translation(Vec3::new(3 * SCALE, 0, 0))),
        player: Some(Player),
        weapon: Some(Weapon::new(RELOAD_MS)),
        ..Entity::empty()
    };
    proof {
        lemma_wf_push(w.entities@, weapon_entity);
        crate::entity::lemma_count_to_nonneg(
            s0,
            Query::of_spec(Kind::PlayerState),
            s0.len() as int,
        );
        crate::entity::lemma_count_to_push(s0, Query::of_spec(Kind::PlayerState), player_entity);
    }
    let ghost s1 = w.entities@;
    let _wid = w.spawn(weapon_entity);
    proof {
        crate::entity::lemma_count_to_push(s1, Query::of_spec(Kind::PlayerState), weapon_entity);
    }
}

/// The query the update system runs on the player: state, transform and
/// collider all present.
pub open spec fn player_update_query() -> Query {
    Query { kind: Kind::PlayerState, collider: true, transform: true }
}

/// The query the update system runs on frames when clamping: a frame with a
/// collider.
pub open spec fn frame_clamp_query() -> Query {
    Query { kind: Kind::Frame, collider: true, transform: false }
}

/// The player record after one update tick: new mask, new translation.
pub open spec fn updated_player_entity(e: Entity, mask: u8, t: Vec3) -> Entity {
    Entity {
        player_state: Some(PlayerState { speed: e.player_state->0.speed, state: mask }),
        transform: Some(Transform { translation: t }),
        ..e
    }
}

/// One tick of the player: dispatch the tick's input events into the
/// held-direction mask and the weapon trigger, move the player by the
/// resulting direction scaled by its speed and the elapsed time, and clamp
/// the position so the player's box stays inside the unique frame's box
/// (no clamping happens when no unique frame with a collider exists).
/// Without exactly one player (state + transform + collider) and exactly
/// one weapon, the world is unchanged.
pub fn update(w: &mut World, dt_ms: u32, events: &Vec<TerminalEvent>)
    requires
        wf(*old(w)),
    ensures
        wf(*final (w)),
        final (w).exit == old(w).exit,
        final (w).level_events@ == old(w).level_events@,
        final (w).entities@.len() == old(w).entities@.len(),
        forall|i: int|
            0 <= i < old(w).entities@.len() ==> crate::entity::same_visible(
                old(w).entities@[i],
                #[trigger] final (w).entities@[i],
            ),
        (query_count(old(w).entities@, player_update_query()) != 1 || query_count(
            old(w).entities@,
            Query::of_spec(Kind::Weapon),
        ) != 1) ==> final (w).entities@ == old(w).entities@,
        (query_count(old(w).entities@, player_update_query()) == 1 && query_count(
            old(w).entities@,
            Query::of_spec(Kind::Weapon),
        ) == 1) ==> {
            let s = old(w).entities@;
            let pi = the_query_index(s, player_update_query());
            let wi = the_query_index(s, Query::of_spec(Kind::Weapon));
            let w0 = s[wi].weapon->0;
            let ps0 = s[pi].player_state->0;
            let t0 = s[pi].transform->0.translation;
            let mask1 = mask_after_events(ps0.state, events@);
            let trig1 = trigger_after_events(w0.trigger, events@);
            let stepped = step_translation(t0, ps0.speed as int, mask1, dt_ms as int);
            let t1 = if query_count(s, frame_clamp_query()) == 1 {
                clamp_translation(
                    stepped,
                    (s[the_query_index(s, frame_clamp_query())].collider->0).0,
                    (s[pi].collider->0).0,
                )
            } else {
                stepped
            };
            let mid = s.update(wi, Entity { weapon: Some(Weapon { trigger: trig1, ..w0 }), ..s[wi] });
            final (w).entities@ =~= mid.update(pi as int, updated_player_entity(mid[pi], mask1, t1))
        },
{
    let ghost s = w.entities@;
    let pq = Query { kind: Kind::PlayerState, collider: true, transform: true };
    let pi: usize = match w.find_single(pq) {
        Some(i) => i,
        None => { return ; },
    };
    let wq = Query::of(Kind::Weapon);
    let wi: usize = match w.find_single(wq) {
        Some(i) => i,
        None => { return ; },
    };

    let ps0: PlayerState = w.entities[pi].player_state.unwrap();
    let w0: Weapon = w.entities[wi].weapon.unwrap();
    let mut mask: u8 = ps0.state;
    let mut trig: bool = w0.trigger;

    let n: usize = events.len();
    let mut i: usize = 0;
    proof {
        assert(events@.skip(0) =~= events@);
    }
    while i < n
        invariant
            n == events@.len(),
            i <= n,
            mask_after_events(ps0.state, events@) == mask_after_events(
                mask,
                events@.skip(i as int),
            ),
            trigger_after_events(w0.trigger, events@) == trigger_after_events(
                trig,
                events@.skip(i as int),
            ),
        decreases n - i,
    {
        proof {
            assert(events@.skip(i as int)[0] == events@[i as int]);
            assert(events@.skip(i as int).drop_first() =~= events@.skip(i as int + 1));
        }
        let ev: TerminalEvent = events[i];
        match ev {
            TerminalEvent::Key(k) => {
                let flag: u8 = match k.code {
                    KeyCode::Char(c) => {
                        if c == 'w' {
                            MOVING_UP
                        } else if c == 'a' {
                            MOVING_LEFT
                        } else if c == 's' {
                            MOVING_DOWN
                        } else if c == 'd' {
                            MOVING_RIGHT
                        } else {
                            0
                        }
                    },
                    _ => 0,
                };
                if flag != 0 {
                    match k.kind {
                        KeyEventKind::Press => {
                            mask = mask | flag;
                        },
                        KeyEventKind::Release => {
                            mask = mask & !flag;
                        },
                        KeyEventKind::Repeat => {},
                    }
                }
                if k.code == (KeyCode::Char(' ')) {
                    match k.kind {
                        KeyEventKind::Press => {
                            trig = true;
                        },
                        KeyEventKind::Release => {
                            trig = false;
                        },
                        KeyEventKind::Repeat => {},
                    }
                }
            },
            _ => {},
        }
        i += 1;
    }
    proof {
        assert(events@.skip(n as int) =~= Seq::<TerminalEvent>::empty());
    }

    w.entities[wi].weapon = Some(Weapon { trigger: trig, ..w0 });
    let ghost mid = w.entities@;

    proof {
        assert(wf_entity(s[pi as int], pi as int));
    }
    let dir: Vec3 = direction(mask);
    proof {
        lemma_direction_bounded(mask);
    }
    let dx: i64 = crate::math::scale_velocity(ps0.speed, dir.x, dt_ms);
    let dy: i64 = crate::math::scale_velocity(ps0.speed, dir.y, dt_ms);
    let t0: Vec3 = w.entities[pi].transform.unwrap().translation;
    let mut nx: i64 = crate::math::sat_add(t0.x, dx);
    let mut ny: i64 = crate::math::sat_add(t0.y, dy);

    let fq = Query { kind: Kind::Frame, collider: true, transform: false };
    let frame = w.find_single(fq);
    proof {
        crate::entity::lemma_count_to_update(
            s,
            fq,
            s.len() as int,
            wi as int,
            mid[wi as int],
        );
        if let Some(fi) = frame {
            assert(matches_query(s[fi as int], fq));
            lemma_the_query_index(s, fq, fi as int);
        }
    }
    match frame {
        Some(fi) => {
            let fc: Collider = w.entities[fi].collider.unwrap();
            let pc: Collider = w.entities[pi].collider.unwrap();
            let hx: i64 = crate::math::sat_sub(fc.0.x, pc.0.x);
            let hy: i64 = crate::math::sat_sub(fc.0.y, pc.0.y);
            if hx >= 0 {
                nx = crate::math::clamp(nx, 0, hx);
            }
            if hy >= 0 {
                ny = crate::math::clamp(ny, 0, hy);
            }
        },
        None => {},
    }

    w.entities[pi].player_state = Some(PlayerState { speed: ps0.speed, state: mask });
    w.entities[pi].transform = Some(Transform { translation: Vec3 { x: nx, y: ny, z: t0.z } });

    proof {
        let mask1 = mask_after_events(ps0.state, events@);
        let stepped = step_translation(t0, ps0.speed as int, mask1, dt_ms as int);
        let t1 = if query_count(s, frame_clamp_query()) == 1 {
            clamp_translation(
                stepped,
                (s[the_query_index(s, frame_clamp_query())].collider->0).0,
                (s[pi as int].collider->0).0,
            )
        } else {
            stepped
        };
        assert(Vec3 { x: nx, y: ny, z: t0.z } == t1);
        assert(final (w).entities@ =~= mid.update(
            pi as int,
            updated_player_entity(mid[pi as int], mask1, t1),
        ));
        assert forall|j: int| 0 <= j < final (w).entities@.len() implies wf_entity(
            #[trigger] final (w).entities@[j],
            j,
        ) by {
            assert(wf_entity(s[j], j));
        }
    }
}

} // verus!
