//! The frame: the scrolling viewport entity. It spawns as the level's
//! child, advances a constant step to the right every tick, and signals the
//! level's end once its far edge passes the level's length.

use vstd::prelude::*;

use crate::collider::Collider;
use crate::entity::{
    lemma_wf_push, query_count, the_query_index, wf, wf_entity, eff_translation_spec, Entity,
    Kind, Query, World,
};
use crate::level::LevelEvent;
use crate::math::{sadd, ssub, tdiv, Transform, Vec2, Vec3};
use crate::timer::Timer;

verus! {

/// Width of the visible viewport, in character cells.
pub const WIDTH: usize = 128;

/// Height of the visible viewport, in character cells.
pub const HEIGHT: usize = 32;

/// Width of the visible viewport, in milli-cells.
pub const WIDTH_MILLI: i64 = 128_000;

/// Height of the visible viewport, in milli-cells.
pub const HEIGHT_MILLI: i64 = 32_000;

/// How far the frame scrolls rightward each tick, in milli-cells.
pub const FRAME_SCROLL: i64 = 100;

/// Marker component of the viewport entity.
#[derive(Clone, Copy, PartialEq, Eq, Structural, Debug)]
pub struct Frame;

/// The frame entity as spawned: a child of the level at the origin, with a
/// collider the size of the viewport.
pub open spec fn frame_entity_spec(level_id: int) -> Entity {
    Entity {
        parent: Some(level_id as usize),
        transform: Some(Transform { translation: Vec3 { x: 0, y: 0, z: 0 } }),
        collider: Some(Collider(Vec2 { x: WIDTH_MILLI, y: HEIGHT_MILLI })),
        frame: Some(Frame),
        ..Entity::empty_spec()
    }
}

/// Spawn the viewport as a child of the unique level. Runs only while no
/// frame exists and exactly one level does; otherwise the world is
/// unchanged.
pub fn spawn(w: &mut World)
    requires
        wf(*old(w)),
    ensures
        wf(*final (w)),
        final (w).exit == old(w).exit,
        final (w).level_events@ == old(w).level_events@,
        (query_count(old(w).entities@, Query::of_spec(Kind::Frame)) > 0 || query_count(
            old(w).entities@,
            Query::of_spec(Kind::Level),
        ) != 1) ==> final (w).entities@ == old(w).entities@,
        (query_count(old(w).entities@, Query::of_spec(Kind::Frame)) == 0 && query_count(
            old(w).entities@,
            Query::of_spec(Kind::Level),
        ) == 1) ==> final (w).entities@ =~= old(w).entities@.push(
            frame_entity_spec(the_query_index(old(w).entities@, Query::of_spec(Kind::Level))),
        ),
        query_count(final (w).entities@, Query::of_spec(Kind::Frame)) == (if query_count(
            old(w).entities@,
            Query::of_spec(Kind::Frame),
        ) == 0 && query_count(old(w).entities@, Query::of_spec(Kind::Level)) == 1 {
            1int
        } else {
            query_count(old(w).entities@, Query::of_spec(Kind::Frame))
        }),
{
    if w.any_matching(Query::of(Kind::Frame)) {
        return ;
    }
    let li: usize = match w.find_single(Query::of(Kind::Level)) {
        Some(i) => i,
        None => { return ; },
    };
    let e = Entity {
        parent: Some(li),
        transform: Some(Transform::identity()),
        collider: Some(Collider::new(WIDTH_MILLI, HEIGHT_MILLI)),
        frame: Some(Frame),
        ..Entity::empty()
    };
    proof {
        lemma_wf_push(w.entities@, e);
    }
    let ghost s0 = w.entities@;
    let _fid = w.spawn(e);
    proof {
        crate::entity::lemma_count_to_nonneg(s0, Query::of_spec(Kind::Frame), s0.len() as int);
        crate::entity::lemma_count_to_push(s0, Query::of_spec(Kind::Frame), e);
    }
}

/// The query the scroller runs: the frame's own transform.
pub open spec fn frame_move_query() -> Query {
    Query { kind: Kind::Frame, collider: false, transform: true }
}

/// Scroll the frame one constant step to the right. Without exactly one
/// frame with a transform, the world is unchanged.
pub fn move_frame(w: &mut World)
    requires
        wf(*old(w)),
    ensures
        wf(*final (w)),
        final (w).exit == old(w).exit,
        final (w).level_events@ == old(w).level_events@,
        final (w).entities@.len() == old(w).entities@.len(),
        forall|i: int|
            0 <= i < old(w).entities@.len() ==> crate::entity::same_visible(
                old(w).entities@[i],
                #[trigger] final (w).entities@[i],
            ),
        query_count(old(w).entities@, frame_move_query()) != 1 ==> final (w).entities@ == old(
            w,
        ).entities@,
        query_count(old(w).entities@, frame_move_query()) == 1 ==> {
            let fi = the_query_index(old(w).entities@, frame_move_query());
            let t = (old(w).entities@[fi].transform->0).translation;
            final (w).entities@ =~= old(w).entities@.update(
                fi,
                Entity {
                    transform: Some(
                        Transform {
                            translation: Vec3 {
                                x: sadd(t.x as int, FRAME_SCROLL as int) as i64,
                                y: t.y,
                                z: t.z,
                            },
                        },
                    ),
                    ..old(w).entities@[fi]
                },
            )
        },
{
    let ghost s = w.entities@;
    let fi: usize = match w.find_single(Query { kind: Kind::Frame, collider: false, transform: true }) {
        Some(i) => i,
        None => { return ; },
    };
    let t: Vec3 = w.entities[fi].transform.unwrap().translation;
    let nx: i64 = crate::math::sat_add(t.x, FRAME_SCROLL);
    w.entities[fi].transform = Some(Transform { translation: Vec3 { x: nx, y: t.y, z: t.z } });
    proof {
        assert forall|j: int| 0 <= j < final (w).entities@.len() implies wf_entity(
            #[trigger] final (w).entities@[j],
            j,
        ) by {
            assert(wf_entity(s[j], j));
        }
    }
}

/// The query the level-end check runs: the frame's effective position and
/// collider.
pub open spec fn frame_edge_query() -> Query {
    Query { kind: Kind::Frame, collider: true, transform: true }
}

/// The world-space x coordinate of the frame's far (right) edge.
pub open spec fn frame_far_edge_x(s: Seq<Entity>, fi: int) -> int {
    sadd(eff_translation_spec(s, fi).x as int, ((s[fi].collider->0).0.x) as int)
}

/// Emit `LevelEnd` once the frame's far edge has scrolled past the level's
/// length. Entities are never changed; without exactly one frame (with
/// collider and transform) and one level, no event is sent either.
pub fn end_level(w: &mut World)
    requires
        wf(*old(w)),
    ensures
        wf(*final (w)),
        final (w).entities@ == old(w).entities@,
        final (w).exit == old(w).exit,
        (query_count(old(w).entities@, frame_edge_query()) != 1 || query_count(
            old(w).entities@,
            Query::of_spec(Kind::Level),
        ) != 1) ==> final (w).level_events@ == old(w).level_events@,
        (query_count(old(w).entities@, frame_edge_query()) == 1 && query_count(
            old(w).entities@,
            Query::of_spec(Kind::Level),
        ) == 1) ==> {
            let fi = the_query_index(old(w).entities@, frame_edge_query());
            let li = the_query_index(old(w).entities@, Query::of_spec(Kind::Level));
            let past = frame_far_edge_x(old(w).entities@, fi) > (old(
                w,
            ).entities@[li].level->0.length) as int;
            final (w).level_events@ =~= if past {
                old(w).level_events@.push(LevelEvent::LevelEnd)
            } else {
                old(w).level_events@
            }
        },
{
    let fi: usize = match w.find_single(Query { kind: Kind::Frame, collider: true, transform: true }) {
        Some(i) => i,
        None => { return ; },
    };
    let li: usize = match w.find_single(Query::of(Kind::Level)) {
        Some(i) => i,
        None => { return ; },
    };
    let eff: Vec3 = w.eff_translation(fi);
    let fc: Collider = w.entities[fi].collider.unwrap();
    let x: i64 = crate::math::sat_add(eff.x, fc.0.x);
    let length: i64 = w.entities[li].level.unwrap().length;
    if x > length {
        w.send_level_event(LevelEvent::LevelEnd);
    }
}

/// Advance the progress-report timer by the tick's elapsed time.
pub fn update_log_level_timer(timer: &mut Timer, dt_ms: u32)
    ensures
        *final (timer) == crate::timer::tick_spec(*old(timer), dt_ms as int),
{
    timer.tick(dt_ms);
}

/// Whether a progress report is due this tick.
pub fn should_log_level_progress(timer: &Timer) -> (r: bool)
    ensures
        r == timer.just_finished,
{
    timer.just_finished()
}

/// Level progress in percent: how far the frame's far edge `x` has come
/// between the frame's width and the level's length. When the denominator
/// is not positive (a level no longer than the frame), the computation is
/// skipped rather than dividing by (near) zero.
pub fn level_progress_percent(x: i64, frame_width: i64, length: i64) -> (r: Option<i64>)
    requires
        -1_000_000_000_000 <= x <= 1_000_000_000_000,
        -1_000_000_000_000 <= frame_width <= 1_000_000_000_000,
        -1_000_000_000_000 <= length <= 1_000_000_000_000,
    ensures
        ssub(length as int, frame_width as int) <= 0 ==> r is None,
        ssub(length as int, frame_width as int) > 0 ==> r == Some(
            (tdiv(
                ssub(x as int, frame_width as int) * 100,
                ssub(length as int, frame_width as int),
            )) as i64,
        ),
{
    let den: i64 = crate::math::sat_sub(length, frame_width);
    if den <= 0 {
        return None;
    }
    let num: i64 = crate::math::sat_sub(x, frame_width);
    let neg: bool = num < 0;
    let mag: u128 = if num < 0 {
        (-(num as i128)) as u128
    } else {
        num as u128
    };
    let q: u128 = (mag * 100) / (den as u128);
    proof {
        let n = num as int * 100;
        assert(mag * 100 == if n >= 0 {
            n
        } else {
            -n
        });
    }
    if neg {
        Some((-(q as i128)) as i64)
    } else {
        Some(q as i64)
    }
}

} // verus!
