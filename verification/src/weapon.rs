//! The player's weapon and its shots: the reload timer, firing, shot
//! movement, and despawning shots that leave the frame.

use vstd::prelude::*;

use crate::buffer::{Buffer, Cell, Color};
use crate::collider::Collider;
use crate::entity::{
    despawned, entities_wf, eff_translation_spec, lemma_wf_push, matches_query, query_count,
    the_query_index, wf, wf_entity, Entity, Kind, Query, World,
};
use crate::math::{sadd, scale_velocity_spec, ssub, Transform, Vec2, Vec3, SCALE};
use crate::sprite::Sprite;
use crate::timer::{finished_spec, tick_spec, Timer, TimerMode};

verus! {

/// A shot's speed, in milli-cells per second.
pub const SHOT_SPEED: i64 = 40_000;

/// The player's weapon: a one-shot reload timer and the trigger-held flag.
#[derive(Clone, Copy, PartialEq, Eq, Structural, Debug)]
pub struct Weapon {
    pub reload_timer: Timer,
    pub trigger: bool,
}

impl Weapon {
    /// Whether the reload timer has run out, so the weapon may fire.
    pub fn ready(&self) -> (r: bool)
        ensures
            r == finished_spec(self.reload_timer),
    {
        self.reload_timer.finished()
    }

    /// Set or release the trigger.
    pub fn trigger(&mut self, pull: bool)
        ensures
            *final (self) == (Weapon { trigger: pull, ..*old(self) }),
    {
        self.trigger = pull;
    }

    /// A weapon that must first reload for `reload_duration_ms` before it
    /// can fire, trigger released.
    pub fn new(reload_duration_ms: u32) -> (r: Weapon)
        ensures
            r == (Weapon {
                reload_timer: Timer {
                    duration_ms: reload_duration_ms,
                    elapsed_ms: 0,
                    mode: TimerMode::Once,
                    just_finished: false,
                },
                trigger: false,
            }),
    {
        Weapon { reload_timer: Timer::new(reload_duration_ms, TimerMode::Once), trigger: false }
    }
}

/// Marker component of the laser shots the weapon fires.
#[derive(Clone, Copy, PartialEq, Eq, Structural, Debug)]
pub struct LazerShot;

/// A projectile moving at `speed` milli-cells per second along positive x,
/// in frame-local space.
#[derive(Clone, Copy, PartialEq, Eq, Structural, Debug)]
pub struct Shot {
    pub speed: i64,
}

/// Does the weapon fire this tick: its timer, advanced by the tick's
/// elapsed time, stands finished while the trigger is held.
pub open spec fn weapon_fires(wp: Weapon, dt: int) -> bool {
    finished_spec(tick_spec(wp.reload_timer, dt)) && wp.trigger
}

/// One weapon after a tick: the timer advanced, and restarted from zero if
/// the weapon fired.
pub open spec fn stepped_weapon(wp: Weapon, dt: int) -> Weapon {
    let t = tick_spec(wp.reload_timer, dt);
    if finished_spec(t) && wp.trigger {
        Weapon {
            reload_timer: Timer { elapsed_ms: 0, just_finished: false, ..t },
            trigger: wp.trigger,
        }
    } else {
        Weapon { reload_timer: t, trigger: wp.trigger }
    }
}

/// The sum of a sequence of tick durations.
pub open spec fn sum_ints(s: Seq<int>) -> int
    decreases s.len(),
{
    if s.len() == 0 {
        0
    } else {
        s[0] + sum_ints(s.drop_first())
    }
}

/// The weapon after a run of ticks with the given elapsed times.
pub open spec fn weapon_after(wp: Weapon, dts: Seq<int>) -> Weapon
    decreases dts.len(),
{
    if dts.len() == 0 {
        wp
    } else {
        weapon_after(stepped_weapon(wp, dts[0]), dts.drop_first())
    }
}

pub proof fn lemma_sum_nonneg(s: Seq<int>)
    requires
        forall|i: int| 0 <= i < s.len() ==> s[i] >= 0,
    ensures
        sum_ints(s) >= 0,
    decreases s.len(),
{
    if s.len() > 0 {
        lemma_sum_nonneg(s.drop_first());
    }
}

/// Weapon reload: once the reload timer starts from zero, no tick of a run
/// whose elapsed times sum to less than the reload duration fires a shot —
/// so holding the trigger yields at most one shot per reload-duration
/// interval.
pub proof fn lemma_reload_interval(wp: Weapon, dts: Seq<int>)
    requires
        wp.reload_timer.mode == TimerMode::Once,
        forall|i: int| 0 <= i < dts.len() ==> dts[i] >= 0,
        wp.reload_timer.elapsed_ms + sum_ints(dts) < wp.reload_timer.duration_ms,
    ensures
        forall|k: int|
            0 <= k < dts.len() ==> !weapon_fires(weapon_after(wp, dts.take(k)), dts[k]),
    decreases dts.len(),
{
    if dts.len() > 0 {
        lemma_sum_nonneg(dts.drop_first());
        assert(dts.take(0) =~= Seq::<int>::empty());
        assert(!weapon_fires(wp, dts[0]));
        let wp1 = stepped_weapon(wp, dts[0]);
        assert(wp1.reload_timer.elapsed_ms == wp.reload_timer.elapsed_ms + dts[0]);
        lemma_reload_interval(wp1, dts.drop_first());
        assert forall|k: int|
            1 <= k < dts.len() implies !weapon_fires(weapon_after(wp, dts.take(k)), dts[k]) by {
            assert(dts.take(k).drop_first() =~= dts.drop_first().take(k - 1));
            assert(dts.take(k)[0] == dts[0]);
            assert(weapon_after(wp, dts.take(k)) == weapon_after(wp1, dts.drop_first().take(k - 1)));
            assert(dts.drop_first()[k - 1] == dts[k]);
        }
    }
}

/// The query every shot system needs first: the unique frame's position.
pub open spec fn frame_position_query() -> Query {
    Query { kind: Kind::Frame, collider: false, transform: true }
}

/// One entity record after the reload tick: only live, positioned weapons
/// change, by [`stepped_weapon`].
pub open spec fn weapon_ticked(e: Entity, dt: int) -> Entity {
    if e.alive && e.weapon is Some && e.transform is Some {
        Entity { weapon: Some(stepped_weapon(e.weapon->0, dt)), ..e }
    } else {
        e
    }
}

/// Does this record hold a weapon that fires this tick?
pub open spec fn entity_fires(e: Entity, dt: int) -> bool {
    e.alive && e.weapon is Some && e.transform is Some && weapon_fires(e.weapon->0, dt)
}

/// How many of the first `n` records fire this tick.
pub open spec fn fired_count_to(s: Seq<Entity>, dt: int, n: int) -> int
    decreases n,
{
    if n <= 0 {
        0
    } else {
        fired_count_to(s, dt, n - 1) + if 0 <= n - 1 < s.len() && entity_fires(s[n - 1], dt) {
            1int
        } else {
            0int
        }
    }
}

pub proof fn lemma_fired_count_nonneg(s: Seq<Entity>, dt: int, n: int)
    ensures
        fired_count_to(s, dt, n) >= 0,
    decreases n,
{
    if n > 0 {
        lemma_fired_count_nonneg(s, dt, n - 1);
    }
}

pub proof fn lemma_fired_count_mono(s: Seq<Entity>, dt: int, m: int, n: int)
    requires
        m <= n,
    ensures
        fired_count_to(s, dt, m) <= fired_count_to(s, dt, n),
    decreases n - m,
{
    if m < n {
        lemma_fired_count_mono(s, dt, m, n - 1);
    }
}

/// The index of the record whose firing is the `j`-th this tick (counting
/// from zero, in index order).
pub open spec fn nth_fired(s: Seq<Entity>, dt: int, j: int) -> int {
    choose|i: int|
        0 <= i < s.len() && entity_fires(#[trigger] s[i], dt) && fired_count_to(s, dt, i) == j
}

/// A firing record at index `i` is the `fired_count_to(i)`-th firing.
pub proof fn lemma_nth_fired(s: Seq<Entity>, dt: int, i: int)
    requires
        0 <= i < s.len(),
        entity_fires(s[i], dt),
    ensures
        nth_fired(s, dt, fired_count_to(s, dt, i)) == i,
{
    let j = fired_count_to(s, dt, i);
    assert(0 <= i < s.len() && entity_fires(s[i], dt) && fired_count_to(s, dt, i) == j);
    let i2 = nth_fired(s, dt, j);
    if i2 != i {
        if i2 < i {
            lemma_fired_count_mono(s, dt, i2 + 1, i);
        } else {
            lemma_fired_count_mono(s, dt, i + 1, i2);
        }
    }
}

/// The cells of a shot's sprite: a single dash, one layer behind the
/// player.
pub open spec fn shot_sprite_cells() -> Seq<Seq<Cell>> {
    seq![seq![Cell { fg: Color::Black, bg: Color::Black, depth: SCALE, character: Some('-') }]]
}

/// Everything a freshly spawned shot record holds, given its frame-local
/// transform: a child of the frame moving at [`SHOT_SPEED`] with a one-dash
/// sprite one layer behind the player.
pub open spec fn is_shot_record_at(e: Entity, t: Transform, fi: int) -> bool {
    &&& e.alive
    &&& e.parent == Some(fi as usize)
    &&& e.transform == Some(t)
    &&& e.collider == Some(Collider(Vec2 { x: SCALE, y: SCALE }))
    &&& e.shot == Some(Shot { speed: SHOT_SPEED })
    &&& e.lazer_shot == Some(LazerShot)
    &&& e.sprite matches Some(sp) && sp.buffer@ =~~= shot_sprite_cells()
    &&& e.level is None
    &&& e.frame is None
    &&& e.player is None
    &&& e.player_state is None
    &&& e.weapon is None
    &&& e.enemy is None
}

/// Everything a freshly fired shot record holds: a child of the frame,
/// placed at the firing weapon's effective position mapped into frame-local
/// space, moving at [`SHOT_SPEED`].
pub open spec fn is_shot_record(e: Entity, s: Seq<Entity>, wi: int, fi: int) -> bool {
    is_shot_record_at(
        e,
        Transform {
            translation: Vec3 {
                x: ssub(
                    eff_translation_spec(s, wi).x as int,
                    eff_translation_spec(s, fi).x as int,
                ) as i64,
                y: ssub(
                    eff_translation_spec(s, wi).y as int,
                    eff_translation_spec(s, fi).y as int,
                ) as i64,
                z: ssub(
                    eff_translation_spec(s, wi).z as int,
                    eff_translation_spec(s, fi).z as int,
                ) as i64,
            },
        },
        fi,
    )
}

/// Spawn one laser shot as a child of the frame at the given frame-local
/// transform.
fn shoot_lazer(w: &mut World, frame: usize, transform: Transform) -> (id: usize)
    requires
        wf(*old(w)),
        frame < old(w).entities@.len(),
    ensures
        wf(*final (w)),
        final (w).exit == old(w).exit,
        final (w).level_events@ == old(w).level_events@,
        final (w).entities@.len() == old(w).entities@.len() + 1,
        forall|j: int|
            0 <= j < old(w).entities@.len() ==> final (w).entities@[j] == old(w).entities@[j],
        is_shot_record_at(final (w).entities@[old(w).entities@.len() as int], transform, frame as int),
        id == old(w).entities@.len(),
{
    let buf: Buffer = Buffer::from_elem(
        1,
        1,
        Cell { fg: Color::Black, bg: Color::Black, depth: SCALE, character: Some('-') },
    );
    let shot = Entity {
        parent: Some(frame),
        transform: Some(transform),
        collider: Some(Collider::new(SCALE, SCALE)),
        shot: Some(Shot { speed: SHOT_SPEED }),
        lazer_shot: Some(LazerShot),
        sprite: Some(Sprite { buffer: buf }),
        ..Entity::empty()
    };
    proof {
        lemma_wf_push(w.entities@, shot);
        assert(shot.sprite->0.buffer@ =~~= shot_sprite_cells());
    }
    w.spawn(shot)
}

/// One reload tick: every live, positioned weapon's timer advances by the
/// elapsed time; each weapon that then stands ready with its trigger held
/// fires — a shot is spawned parented to the frame at the weapon's position
/// in frame-local space, and that weapon's timer restarts. Without exactly
/// one positioned frame, nothing happens (no timer even advances).
pub fn reload_weapons_system(w: &mut World, dt_ms: u32)
    requires
        wf(*old(w)),
    ensures
        wf(*final (w)),
        final (w).exit == old(w).exit,
        final (w).level_events@ == old(w).level_events@,
        final (w).entities@.len() >= old(w).entities@.len(),
        forall|i: int|
            0 <= i < old(w).entities@.len() ==> crate::entity::same_visible(
                old(w).entities@[i],
                #[trigger] final (w).entities@[i],
            ),
        forall|j: int|
            #![trigger final (w).entities@[j]]
            old(w).entities@.len() <= j < final (w).entities@.len()
                ==> final (w).entities@[j].level is None
                && final (w).entities@[j].frame is None
                && final (w).entities@[j].player_state is None,
        query_count(old(w).entities@, frame_position_query()) != 1 ==> final (w).entities@ == old(
            w,
        ).entities@,
        query_count(old(w).entities@, frame_position_query()) == 1 ==> {
            let s = old(w).entities@;
            let fi = the_query_index(s, frame_position_query());
            &&& final (w).entities@.len() == s.len() + fired_count_to(s, dt_ms as int, s.len() as int)
            &&& forall|j: int|
                0 <= j < s.len() ==> final (w).entities@[j] == weapon_ticked(
                    #[trigger] s[j],
                    dt_ms as int,
                )
            &&& forall|j: int|
                0 <= j < fired_count_to(s, dt_ms as int, s.len() as int) ==> is_shot_record(
                    #[trigger] final (w).entities@[s.len() + j],
                    s,
                    nth_fired(s, dt_ms as int, j),
                    fi,
                )
        },
{
    let ghost s = w.entities@;
    let ghost dt = dt_ms as int;
    let fi: usize = match w.find_single(
        Query { kind: Kind::Frame, collider: false, transform: true },
    ) {
        Some(i) => i,
        None => {
            proof {
                assert forall|j: int| 0 <= j < s.len() implies crate::entity::same_visible(
                    s[j],
                    #[trigger] w.entities@[j],
                ) by {}
            }
            return ;
        },
    };
    let effs: Vec<Vec3> = w.all_eff_translations();
    let frame_eff: Vec3 = effs[fi];
    let n: usize = w.entities.len();
    let mut i: usize = 0;
    while i < n
        invariant
            dt == dt_ms as int,
            n == s.len(),
            s == old(w).entities@,
            entities_wf(s),
            i <= n,
            fi < n,
            w.exit == old(w).exit,
            w.level_events@ == old(w).level_events@,
            effs@.len() == n,
            forall|j: int| 0 <= j < n ==> #[trigger] effs@[j] == eff_translation_spec(s, j),
            frame_eff == eff_translation_spec(s, fi as int),
            entities_wf(w.entities@),
            w.entities@.len() == n + fired_count_to(s, dt, i as int),
            forall|j: int| 0 <= j < i ==> w.entities@[j] == weapon_ticked(#[trigger] s[j], dt),
            forall|j: int| i <= j < n ==> #[trigger] w.entities@[j] == s[j],
            forall|j: int|
                0 <= j < fired_count_to(s, dt, i as int) ==> is_shot_record(
                    #[trigger] w.entities@[n + j],
                    s,
                    nth_fired(s, dt, j),
                    fi as int,
                ),
        decreases n - i,
    {
        proof {
            lemma_fired_count_nonneg(s, dt, i as int);
            assert(w.entities@[i as int] == s[i as int]);
        }
        let alive: bool = w.entities[i].alive;
        let has_t: bool = w.entities[i].transform.is_some();
        let wp_opt: Option<Weapon> = w.entities[i].weapon;
        if alive && has_t {
            match wp_opt {
                Some(wp) => {
                    proof {
                        assert(wp == s[i as int].weapon->0);
                    }
                    let mut timer: Timer = wp.reload_timer;
                    timer.tick(dt_ms);
                    let fires: bool = timer.finished() && wp.trigger;
                    if fires {
                        let ghost c = fired_count_to(s, dt, i as int);
                        proof {
                            assert(entity_fires(s[i as int], dt));
                            lemma_nth_fired(s, dt, i as int);
                        }
                        timer.reset();
                        w.entities[i].weapon = Some(Weapon { reload_timer: timer, trigger: wp.trigger });
                        proof {
                            assert(Weapon { reload_timer: timer, trigger: wp.trigger }
                                == stepped_weapon(wp, dt));
                            assert(w.entities@[i as int] == weapon_ticked(s[i as int], dt));
                        }
                        let weff: Vec3 = effs[i];
                        // Shots are parented to the frame but begin at the
                        // weapon's position, so its effective transform is
                        // mapped into frame-local space.
                        let shot_transform = Transform::from_translation(
                            Vec3::new(
                                crate::math::sat_sub(weff.x, frame_eff.x),
                                crate::math::sat_sub(weff.y, frame_eff.y),
                                crate::math::sat_sub(weff.z, frame_eff.z),
                            ),
                        );
                        proof {
                            assert forall|j: int| 0 <= j < w.entities@.len() implies wf_entity(
                                #[trigger] w.entities@[j],
                                j,
                            ) by {
                                if j < n {
                                    assert(wf_entity(s[j], j));
                                }
                            }
                        }
                        let _sid = shoot_lazer(w, fi, shot_transform);
                        proof {
                            assert(is_shot_record(w.entities@[(n + c) as int], s, i as int, fi as int));
                            assert(fired_count_to(s, dt, i as int + 1) == c + 1);
                            assert forall|j: int|
                                0 <= j < fired_count_to(s, dt, i as int + 1) implies is_shot_record(
                                #[trigger] w.entities@[n + j],
                                s,
                                nth_fired(s, dt, j),
                                fi as int,
                            ) by {
                            }
                        }
                    } else {
                        w.entities[i].weapon = Some(Weapon { reload_timer: timer, trigger: wp.trigger });
                        proof {
                            assert(Weapon { reload_timer: timer, trigger: wp.trigger }
                                == stepped_weapon(wp, dt));
                            assert(w.entities@[i as int] == weapon_ticked(s[i as int], dt));
                            assert forall|j: int| 0 <= j < w.entities@.len() implies wf_entity(
                                #[trigger] w.entities@[j],
                                j,
                            ) by {
                                if j < n {
                                    assert(wf_entity(s[j], j));
                                }
                            }
                        }
                    }
                },
                None => {},
            }
        }
        i += 1;
    }
    proof {
        lemma_fired_count_nonneg(s, dt, s.len() as int);
        assert forall|j: int| 0 <= j < s.len() implies crate::entity::same_visible(
            s[j],
            #[trigger] w.entities@[j],
        ) by {
            assert(w.entities@[j] == weapon_ticked(s[j], dt));
        }
        assert forall|j: int|
            #![trigger w.entities@[j]]
            s.len() <= j < w.entities@.len() implies w.entities@[j].level is None
            && w.entities@[j].frame is None && w.entities@[j].player_state is None by {
            let jj = j - s.len();
            assert(is_shot_record(
                w.entities@[s.len() as int + jj],
                s,
                nth_fired(s, dt, jj),
                fi as int,
            ));
        }
    }
}

/// Every live shot with a transform after one movement tick: advanced along
/// positive x by its speed scaled with the elapsed time.
pub open spec fn shots_moved(s: Seq<Entity>, dt: int) -> Seq<Entity> {
    Seq::new(
        s.len(),
        |i: int|
            {
                let e = s[i];
                if e.alive && e.shot is Some && e.transform is Some {
                    let t = (e.transform->0).translation;
                    Entity {
                        transform: Some(
                            Transform {
                                translation: Vec3 {
                                    x: sadd(
                                        t.x as int,
                                        scale_velocity_spec(
                                            (e.shot->0.speed) as int,
                                            SCALE as int,
                                            dt,
                                        ),
                                    ) as i64,
                                    y: t.y,
                                    z: t.z,
                                },
                            },
                        ),
                        ..e
                    }
                } else {
                    e
                }
            },
    )
}

/// Move every live shot one tick rightward (frame-local, so frame scroll is
/// transparent to shots).
pub fn update_shots(w: &mut World, dt_ms: u32)
    requires
        wf(*old(w)),
    ensures
        wf(*final (w)),
        final (w).exit == old(w).exit,
        final (w).level_events@ == old(w).level_events@,
        final (w).entities@.len() == old(w).entities@.len(),
        forall|i: int|
            0 <= i < old(w).entities@.len() ==> crate::entity::same_visible(
                old(w).entities@[i],
                #[trigger] final (w).entities@[i],
            ),
        final (w).entities@ =~= shots_moved(old(w).entities@, dt_ms as int),
{
    let ghost s = w.entities@;
    let n: usize = w.entities.len();
    let mut i: usize = 0;
    while i < n
        invariant
            n == s.len(),
            s == old(w).entities@,
            entities_wf(s),
            i <= n,
            w.exit == old(w).exit,
            w.level_events@ == old(w).level_events@,
            w.entities@.len() == n,
            entities_wf(w.entities@),
            forall|j: int|
                0 <= j < i ==> #[trigger] w.entities@[j] == shots_moved(s, dt_ms as int)[j],
            forall|j: int| i <= j < n ==> #[trigger] w.entities@[j] == s[j],
        decreases n - i,
    {
        let alive: bool = w.entities[i].alive;
        let shot_opt: Option<Shot> = w.entities[i].shot;
        let t_opt: Option<Transform> = w.entities[i].transform;
        if alive {
            match (shot_opt, t_opt) {
                (Some(shot), Some(t)) => {
                    proof {
                        assert(wf_entity(s[i as int], i as int));
                    }
                    let dx: i64 = crate::math::scale_velocity(shot.speed, SCALE, dt_ms);
                    let nx: i64 = crate::math::sat_add(t.translation.x, dx);
                    w.entities[i].transform = Some(
                        Transform {
                            translation: Vec3 { x: nx, y: t.translation.y, z: t.translation.z },
                        },
                    );
                    proof {
                        assert forall|j: int| 0 <= j < n implies wf_entity(
                            #[trigger] w.entities@[j],
                            j,
                        ) by {
                            assert(wf_entity(s[j], j));
                        }
                    }
                },
                _ => {},
            }
        }
        i += 1;
    }
}

/// The query the bounds check iterates: shots with collider and position.
pub open spec fn shot_bounds_query() -> Query {
    Query { kind: Kind::Shot, collider: true, transform: true }
}

/// The query the bounds check needs of the frame: its position and its
/// collider.
pub open spec fn frame_bounds_query() -> Query {
    Query { kind: Kind::Frame, collider: true, transform: true }
}

/// Is the shot's whole box outside the frame's box on some side? Each side
/// is tested with the full boxes: out to the right (shot's leading/left
/// edge past the frame's right edge), out to the left, above, or below.
pub open spec fn shot_out_of_frame(s: Seq<Entity>, i: int, fi: int) -> bool {
    let ftl = eff_translation_spec(s, fi);
    let fc = (s[fi].collider->0).0;
    let fbr_x = sadd(ftl.x as int, fc.x as int);
    let fbr_y = sadd(ftl.y as int, fc.y as int);
    let stl = eff_translation_spec(s, i);
    let sc = (s[i].collider->0).0;
    let sbr_x = sadd(stl.x as int, sc.x as int);
    let sbr_y = sadd(stl.y as int, sc.y as int);
    ||| stl.x as int > fbr_x
    ||| sbr_x < ftl.x as int
    ||| sbr_y < ftl.y as int
    ||| stl.y as int > fbr_y
}

/// Despawn every shot whose box has fully left the frame's box on any
/// side. Without exactly one frame with collider and position, nothing
/// happens.
pub fn despawn_shots(w: &mut World)
    requires
        wf(*old(w)),
    ensures
        wf(*final (w)),
        final (w).exit == old(w).exit,
        final (w).level_events@ == old(w).level_events@,
        final (w).entities@.len() == old(w).entities@.len(),
        forall|i: int|
            0 <= i < old(w).entities@.len() ==> #[trigger] final (w).entities@[i] == old(
                w,
            ).entities@[i] || final (w).entities@[i] == despawned(old(w).entities@[i]),
        query_count(old(w).entities@, frame_bounds_query()) != 1 ==> final (w).entities@ == old(
            w,
        ).entities@,
        query_count(old(w).entities@, frame_bounds_query()) == 1 ==> {
            let s = old(w).entities@;
            let fi = the_query_index(s, frame_bounds_query());
            final (w).entities@ =~= Seq::new(
                s.len(),
                |i: int|
                    if matches_query(s[i], shot_bounds_query()) && shot_out_of_frame(s, i, fi) {
                        despawned(s[i])
                    } else {
                        s[i]
                    },
            )
        },
{
    let ghost s = w.entities@;
    let fi: usize = match w.find_single(
        Query { kind: Kind::Frame, collider: true, transform: true },
    ) {
        Some(i) => i,
        None => { return ; },
    };
    let effs: Vec<Vec3> = w.all_eff_translations();
    let frame_eff: Vec3 = effs[fi];
    let fc: Collider = w.entities[fi].collider.unwrap();
    let fbr_x: i64 = crate::math::sat_add(frame_eff.x, fc.0.x);
    let fbr_y: i64 = crate::math::sat_add(frame_eff.y, fc.0.y);
    let n: usize = w.entities.len();
    let mut i: usize = 0;
    while i < n
        invariant
            n == s.len(),
            s == old(w).entities@,
            entities_wf(s),
            i <= n,
            fi < n,
            w.exit == old(w).exit,
            w.level_events@ == old(w).level_events@,
            effs@.len() == n,
            forall|j: int| 0 <= j < n ==> #[trigger] effs@[j] == eff_translation_spec(s, j),
            frame_eff == eff_translation_spec(s, fi as int),
            fc == s[fi as int].collider->0,
            fbr_x as int == sadd(frame_eff.x as int, fc.0.x as int),
            fbr_y as int == sadd(frame_eff.y as int, fc.0.y as int),
            w.entities@.len() == n,
            entities_wf(w.entities@),
            forall|j: int|
                #![trigger w.entities@[j]]
                0 <= j < n ==> w.entities@[j] == (if j < i && matches_query(
                    s[j],
                    shot_bounds_query(),
                ) && shot_out_of_frame(s, j, fi as int) {
                    despawned(s[j])
                } else {
                    s[j]
                }),
        decreases n - i,
    {
        let ghost prev = w.entities@;
        let alive: bool = w.entities[i].alive;
        let is_shot: bool = w.entities[i].shot.is_some();
        let sc_opt: Option<Collider> = w.entities[i].collider;
        let has_t: bool = w.entities[i].transform.is_some();
        if alive && is_shot && has_t {
            match sc_opt {
                Some(sc) => {
                    let stl: Vec3 = effs[i];
                    let sbr_x: i64 = crate::math::sat_add(stl.x, sc.0.x);
                    let sbr_y: i64 = crate::math::sat_add(stl.y, sc.0.y);
                    let out_right: bool = stl.x > fbr_x;
                    let out_left: bool = sbr_x < frame_eff.x;
                    let out_up: bool = sbr_y < frame_eff.y;
                    let out_down: bool = stl.y > fbr_y;
                    if out_right || out_left || out_up || out_down {
                        w.despawn(i);
                        proof {
                            assert forall|j: int| 0 <= j < n implies wf_entity(
                                #[trigger] w.entities@[j],
                                j,
                            ) by {
                                assert(wf_entity(prev[j], j));
                            }
                        }
                    }
                },
                None => {},
            }
        }
        i += 1;
    }
}

} // verus!
