//! The level: root of the entity hierarchy. It spawns (with a random
//! starfield background) on the external start signal, and tears its whole
//! subtree down, firing the termination signal, when the level-end event
//! arrives.

use vstd::prelude::*;

use crate::buffer::{Buffer, Cell};
use crate::entity::{
    despawned, entities_wf, is_descendant, lemma_count_to_push, lemma_descendant_congruent,
    lemma_wf_push, matches_query, query_count, the_query_index, wf, wf_entity, Entity, Kind,
    Query, World,
};
use crate::math::{Transform, Vec3, SCALE};
use crate::sprite::Sprite;

verus! {

/// The root entity of a running game; `length` is the total scrollable
/// level length in milli-cells.
#[derive(Clone, Copy, PartialEq, Eq, Structural, Debug)]
pub struct Level {
    pub length: i64,
}

/// Level lifecycle signals: `LevelStart` comes from the outside collaborator,
/// `LevelEnd` is emitted when the frame scrolls past the level's length.
#[derive(Clone, Copy, PartialEq, Eq, Structural, Debug)]
pub enum LevelEvent {
    LevelStart,
    LevelEnd,
}

/// The length of the level, in milli-cells (a thousand cells).
pub const LEVEL_LENGTH: i64 = 1_000_000;

/// The depth layer of the background stars, well behind the gameplay.
pub const BACKGROUND_DEPTH: i64 = 10_000;

/// How much of the background stays empty: a star appears only where a
/// uniform 32-bit draw reaches this threshold, which is 0.97 of the range.
pub const BACKGROUND_DENSITY: u32 = 4_166_118_277;

/// Relies on `rand::random`: a value drawn from the thread-local generator;
/// nothing is assumed of it.
pub assume_specification<T>[ rand::random::<T> ]() -> (r: T)
    where
        rand::distributions::Standard: rand::distributions::Distribution<T>,
;

/// Whether an event of this value is pending.
pub open spec fn has_event(evs: Seq<LevelEvent>, e: LevelEvent) -> bool {
    exists|i: int| 0 <= i < evs.len() && evs[i] == e
}

/// Does the pending-event queue hold this event?
pub fn contains_event(evs: &Vec<LevelEvent>, e: LevelEvent) -> (r: bool)
    ensures
        r == has_event(evs@, e),
{
    let n: usize = evs.len();
    let mut i: usize = 0;
    while i < n
        invariant
            n == evs@.len(),
            i <= n,
            forall|j: int| 0 <= j < i ==> evs@[j] != e,
        decreases n - i,
    {
        if evs[i] == e {
            return true;
        }
        i += 1;
    }
    false
}

/// Is there no live level? (The spawn guard.)
pub fn level_not_spawned(w: &World) -> (r: bool)
    ensures
        r == (query_count(w.entities@, Query::of_spec(Kind::Level)) == 0),
{
    let any = w.any_matching(Query::of(Kind::Level));
    proof {
        crate::entity::lemma_count_to_nonneg(
            w.entities@,
            Query::of_spec(Kind::Level),
            w.entities@.len() as int,
        );
    }
    !any
}

/// Has the external start signal arrived this tick?
pub fn on_level_start_event(w: &World) -> (r: bool)
    ensures
        r == has_event(w.level_events@, LevelEvent::LevelStart),
{
    contains_event(&w.level_events, LevelEvent::LevelStart)
}

/// Has the level-end signal arrived this tick?
pub fn on_level_end_event(w: &World) -> (r: bool)
    ensures
        r == has_event(w.level_events@, LevelEvent::LevelEnd),
{
    contains_event(&w.level_events, LevelEvent::LevelEnd)
}

/// The level entity as spawned: a root at the origin with the configured
/// length.
pub open spec fn level_entity_spec() -> Entity {
    Entity {
        transform: Some(Transform { translation: Vec3 { x: 0, y: 0, z: 0 } }),
        level: Some(Level { length: LEVEL_LENGTH }),
        ..Entity::empty_spec()
    }
}

/// Everything a background-star record holds: a child of the level carrying
/// only a one-cell star sprite at the background depth.
pub open spec fn is_background_record(e: Entity, parent: int) -> bool {
    &&& e.alive
    &&& e.parent == Some(parent as usize)
    &&& e.transform matches Some(t) && t.translation.z == BACKGROUND_DEPTH
    &&& e.sprite matches Some(sp) && sp.buffer@ =~~= seq![seq![Cell::glyph_spec('*')]]
    &&& e.collider is None
    &&& e.level is None
    &&& e.frame is None
    &&& e.player is None
    &&& e.player_state is None
    &&& e.weapon is None
    &&& e.enemy is None
    &&& e.shot is None
    &&& e.lazer_shot is None
}

/// Sprinkle background stars over the level: one candidate position per
/// (cell column, cell row) of the whole level, each kept with the
/// probability the density leaves, as a child of `parent`. No star carries
/// any queryable component, so every query count is unchanged.
fn spawn_background(w: &mut World, parent: usize, length: i64)
    requires
        wf(*old(w)),
        parent < old(w).entities@.len(),
        0 <= length <= 1_000_000_000,
    ensures
        wf(*final (w)),
        final (w).exit == old(w).exit,
        final (w).level_events@ == old(w).level_events@,
        final (w).entities@.len() >= old(w).entities@.len(),
        forall|j: int|
            0 <= j < old(w).entities@.len() ==> final (w).entities@[j] == old(w).entities@[j],
        forall|j: int|
            old(w).entities@.len() <= j < final (w).entities@.len()
                ==> is_background_record(#[trigger] final (w).entities@[j], parent as int),
        forall|q: Query| #[trigger] query_count(final (w).entities@, q) == query_count(
            old(w).entities@,
            q,
        ),
{
    let rows: usize = ((length as u64) / 1000) as usize;
    let mut row: usize = 0;
    while row < rows
        invariant
            wf(*w),
            rows <= 1_000_000,
            parent < old(w).entities@.len(),
            w.exit == old(w).exit,
            w.level_events@ == old(w).level_events@,
            w.entities@.len() >= old(w).entities@.len(),
            forall|j: int|
                0 <= j < old(w).entities@.len() ==> w.entities@[j] == old(w).entities@[j],
            forall|j: int|
                old(w).entities@.len() <= j < w.entities@.len() ==> is_background_record(
                    #[trigger] w.entities@[j],
                    parent as int,
                ),
            forall|q: Query| #[trigger] query_count(w.entities@, q) == query_count(
                old(w).entities@,
                q,
            ),
        decreases rows - row,
    {
        let mut col: usize = 0;
        while col < crate::frame::HEIGHT
            invariant
                wf(*w),
                rows <= 1_000_000,
                row < rows,
                col <= crate::frame::HEIGHT,
                parent < old(w).entities@.len(),
                w.exit == old(w).exit,
                w.level_events@ == old(w).level_events@,
                w.entities@.len() >= old(w).entities@.len(),
                forall|j: int|
                    0 <= j < old(w).entities@.len() ==> w.entities@[j] == old(w).entities@[j],
                forall|j: int|
                    old(w).entities@.len() <= j < w.entities@.len() ==> is_background_record(
                        #[trigger] w.entities@[j],
                        parent as int,
                    ),
                forall|q: Query| #[trigger] query_count(w.entities@, q) == query_count(
                    old(w).entities@,
                    q,
                ),
            decreases crate::frame::HEIGHT - col,
        {
            let draw: u32 = rand::random::<u32>();
            if draw >= BACKGROUND_DENSITY {
                let buf: Buffer = Buffer::from_elem(1, 1, Cell::glyph('*'));
                let x: i64 = (row as i64) * SCALE;
                let y: i64 = (col as i64) * SCALE;
                let star = Entity {
                    parent: Some(parent),
                    transform: Some(
                        Transform::from_translation(Vec3::new(x, y, BACKGROUND_DEPTH)),
                    ),
                    sprite: Some(Sprite { buffer: buf }),
                    ..Entity::empty()
                };
                let ghost before = w.entities@;
                proof {
                    lemma_wf_push(before, star);
                }
                let _sid = w.spawn(star);
                proof {
                    assert forall|q: Query| #[trigger] query_count(w.entities@, q)
                        == query_count(old(w).entities@, q) by {
                        lemma_count_to_push(before, q, star);
                        assert(!matches_query(star, q));
                    }
                }
            }
            col += 1;
        }
        row += 1;
    }
}

/// Spawn the level (and its background) on the external start signal. Runs
/// only when a `LevelStart` event is pending and no level exists; otherwise
/// the world is unchanged. Afterwards exactly one level exists; every other
/// query sees exactly what it saw before.
pub fn spawn(w: &mut World)
    requires
        wf(*old(w)),
    ensures
        wf(*final (w)),
        final (w).exit == old(w).exit,
        final (w).level_events@ == old(w).level_events@,
        (!has_event(old(w).level_events@, LevelEvent::LevelStart) || query_count(
            old(w).entities@,
            Query::of_spec(Kind::Level),
        ) != 0) ==> final (w).entities@ == old(w).entities@,
        (has_event(old(w).level_events@, LevelEvent::LevelStart) && query_count(
            old(w).entities@,
            Query::of_spec(Kind::Level),
        ) == 0) ==> {
            &&& final (w).entities@.len() > old(w).entities@.len()
            &&& forall|j: int|
                0 <= j < old(w).entities@.len() ==> final (w).entities@[j] == old(w).entities@[j]
            &&& final (w).entities@[old(w).entities@.len() as int] == level_entity_spec()
            &&& forall|j: int|
                old(w).entities@.len() < j < final (w).entities@.len() ==> is_background_record(
                    #[trigger] final (w).entities@[j],
                    old(w).entities@.len() as int,
                )
            &&& forall|q: Query| #[trigger] query_count(final (w).entities@, q) == query_count(
                old(w).entities@,
                q,
            ) + if matches_query(level_entity_spec(), q) {
                1int
            } else {
                0int
            }
        },
{
    if !on_level_start_event(w) {
        return ;
    }
    if !level_not_spawned(w) {
        return ;
    }
    let ghost s0 = w.entities@;
    let level_entity = Entity {
        transform: Some(Transform::identity()),
        level: Some(Level { length: LEVEL_LENGTH }),
        ..Entity::empty()
    };
    proof {
        lemma_wf_push(s0, level_entity);
    }
    let lid = w.spawn(level_entity);
    proof {
        assert forall|q: Query| #[trigger] query_count(w.entities@, q) == query_count(s0, q)
            + if matches_query(level_entity_spec(), q) {
            1int
        } else {
            0int
        } by {
            lemma_count_to_push(s0, q, level_entity);
        }
    }
    spawn_background(w, lid, LEVEL_LENGTH);
}

/// Despawn an entity and, depth first, every entity below it in the parent
/// hierarchy; nothing outside the subtree is touched.
pub fn despawn_with_children(w: &mut World, entity: usize)
    requires
        wf(*old(w)),
        entity < old(w).entities@.len(),
    ensures
        wf(*final (w)),
        final (w).exit == old(w).exit,
        final (w).level_events@ == old(w).level_events@,
        final (w).entities@.len() == old(w).entities@.len(),
        forall|j: int|
            0 <= j < old(w).entities@.len() ==> #[trigger] final (w).entities@[j] == old(
                w,
            ).entities@[j] || final (w).entities@[j] == despawned(old(w).entities@[j]),
        forall|j: int|
            0 <= j < old(w).entities@.len() ==> final (w).entities@[j] == (if is_descendant(
                old(w).entities@,
                j,
                entity as int,
            ) {
                despawned(old(w).entities@[j])
            } else {
                old(w).entities@[j]
            }),
{
    let ghost s0 = w.entities@;
    let n: usize = w.entities.len();
    let mut i: usize = 0;
    while i < n
        invariant
            entities_wf(w.entities@),
            n == s0.len(),
            s0 == old(w).entities@,
            entities_wf(s0),
            entity < n,
            i <= n,
            w.exit == old(w).exit,
            w.level_events@ == old(w).level_events@,
            w.entities@.len() == n,
            forall|j: int|
                #![trigger w.entities@[j]]
                0 <= j < n ==> w.entities@[j] == (if j < i && is_descendant(
                    s0,
                    j,
                    entity as int,
                ) {
                    despawned(s0[j])
                } else {
                    s0[j]
                }),
        decreases n - i,
    {
        let ghost prev = w.entities@;
        proof {
            assert forall|j: int| 0 <= j < n implies #[trigger] prev[j].parent == s0[j].parent by {
                assert(prev[j] == (if j < i && is_descendant(s0, j, entity as int) {
                    despawned(s0[j])
                } else {
                    s0[j]
                }));
            }
            lemma_descendant_congruent(prev, s0, i as int, entity as int);
        }
        let hit = w.is_in_subtree(i, entity);
        if hit {
            w.despawn(i);
        }
        proof {
            assert forall|j: int| 0 <= j < n implies wf_entity(#[trigger] w.entities@[j], j) by {
                assert(wf_entity(prev[j], j));
            }
            assert forall|j: int|
                #![trigger w.entities@[j]]
                0 <= j < n implies w.entities@[j] == (if j < i + 1 && is_descendant(
                s0,
                j,
                entity as int,
            ) {
                despawned(s0[j])
            } else {
                s0[j]
            }) by {
                assert(prev[j] == (if j < i && is_descendant(s0, j, entity as int) {
                    despawned(s0[j])
                } else {
                    s0[j]
                }));
                if j == i && !hit {
                    assert(w.entities@[j] == prev[j]);
                }
            }
        }
        i += 1;
    }
}

/// Tear the level down on the level-end event: despawn the level's whole
/// subtree and fire the termination signal. Runs only when a `LevelEnd`
/// event is pending and exactly one level exists; otherwise the world is
/// unchanged.
pub fn teardown_level(w: &mut World)
    requires
        wf(*old(w)),
    ensures
        wf(*final (w)),
        final (w).level_events@ == old(w).level_events@,
        final (w).entities@.len() == old(w).entities@.len(),
        forall|j: int|
            0 <= j < old(w).entities@.len() ==> #[trigger] final (w).entities@[j] == old(
                w,
            ).entities@[j] || final (w).entities@[j] == despawned(old(w).entities@[j]),
        (!has_event(old(w).level_events@, LevelEvent::LevelEnd) || query_count(
            old(w).entities@,
            Query::of_spec(Kind::Level),
        ) != 1) ==> final (w).entities@ == old(w).entities@ && final (w).exit == old(w).exit,
        (has_event(old(w).level_events@, LevelEvent::LevelEnd) && query_count(
            old(w).entities@,
            Query::of_spec(Kind::Level),
        ) == 1) ==> {
            let li = the_query_index(old(w).entities@, Query::of_spec(Kind::Level));
            &&& final (w).entities@.len() == old(w).entities@.len()
            &&& forall|j: int|
                0 <= j < old(w).entities@.len() ==> final (w).entities@[j] == (if is_descendant(
                    old(w).entities@,
                    j,
                    li,
                ) {
                    despawned(old(w).entities@[j])
                } else {
                    old(w).entities@[j]
                })
            &&& final (w).exit == true
        },
{
    if !on_level_end_event(w) {
        return ;
    }
    let li: usize = match w.find_single(Query::of(Kind::Level)) {
        Some(i) => i,
        None => { return ; },
    };
    despawn_with_children(w, li);
    w.exit = true;
}

} // verus!
