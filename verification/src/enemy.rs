//! Enemies: they drift leftward while inside the frame's horizontal span,
//! end the game on contact with the player, and die to shots (which are
//! consumed).

use vstd::prelude::*;

use crate::buffer::{Buffer, Cell, Color};
use crate::collider::{collide, collide_spec, Collider};
use crate::entity::{
    despawned, entities_wf, eff_translation_spec, matches_query, query_count, the_query_index,
    wf, wf_entity, Entity, Kind, Query, World,
};
use crate::math::{sadd, scale_velocity_spec, Transform, Vec2, Vec3, SCALE};
use crate::sprite::Sprite;

verus! {

/// Marker component of enemy entities.
#[derive(Clone, Copy, PartialEq, Eq, Structural, Debug)]
pub struct Enemy;

/// What an enemy is made of: the marker, its sprite and its collision box.
pub type EnemyBundle = (Enemy, Sprite, Collider);

/// An enemy's drift speed, in milli-cells per second.
pub const ENEMY_SPEED: i64 = 30_000;

/// A transparent cell at the front depth layer (the hole in the enemy
/// sprite).
pub open spec fn blank_cell_spec() -> Cell {
    Cell { fg: Color::Black, bg: Color::Black, depth: 0, character: None }
}

/// The cells of the enemy sprite: a five-row, two-column ship.
pub open spec fn enemy_sprite_cells() -> Seq<Seq<Cell>> {
    seq![
        seq![Cell::glyph_spec('/'), Cell::glyph_spec('/')],
        seq![Cell::glyph_spec('/'), Cell::glyph_spec('/')],
        seq![blank_cell_spec(), Cell::glyph_spec('o')],
        seq![Cell::glyph_spec('\\'), Cell::glyph_spec('\\')],
        seq![Cell::glyph_spec('\\'), Cell::glyph_spec('\\')],
    ]
}

impl Enemy {
    /// The components a freshly spawned enemy carries.
    pub fn bundle() -> (r: EnemyBundle)
        ensures
            r.0 == Enemy,
            r.1.buffer@ =~~= enemy_sprite_cells(),
            r.2 == Collider(Vec2 { x: (2 * SCALE) as i64, y: (5 * SCALE) as i64 }),
    {
        let mut buf: Buffer = Buffer::from_elem(5, 2, Cell::glyph('/'));
        buf.set(2, 0, Cell { fg: Color::Black, bg: Color::Black, depth: 0, character: None });
        buf.set(2, 1, Cell::glyph('o'));
        buf.set(3, 0, Cell::glyph('\\'));
        buf.set(3, 1, Cell::glyph('\\'));
        buf.set(4, 0, Cell::glyph('\\'));
        buf.set(4, 1, Cell::glyph('\\'));
        proof {
            assert(buf@ =~~= enemy_sprite_cells());
        }
        (Enemy, Sprite { buffer: buf }, Collider::new(2 * SCALE, 5 * SCALE))
    }
}

/// The query the drift system iterates: enemies with a transform to move.
pub open spec fn enemy_move_query() -> Query {
    Query { kind: Kind::Enemy, collider: false, transform: true }
}

/// The query the systems need of the frame: position and collider.
pub open spec fn frame_span_query() -> Query {
    Query { kind: Kind::Frame, collider: true, transform: true }
}

/// Is the enemy's effective position strictly inside the frame's horizontal
/// span?
pub open spec fn enemy_in_frame(s: Seq<Entity>, i: int, fi: int) -> bool {
    let ex = eff_translation_spec(s, i).x as int;
    let fx = eff_translation_spec(s, fi).x as int;
    let fcx = ((s[fi].collider->0).0.x) as int;
    ex < sadd(fx, fcx) && ex > fx
}

/// All enemies after one drift tick: each live, positioned enemy inside the
/// frame's horizontal span moves leftward by its speed scaled with the
/// elapsed time; everything else stays.
pub open spec fn enemies_moved(s: Seq<Entity>, dt: int, fi: int) -> Seq<Entity> {
    Seq::new(
        s.len(),
        |i: int|
            if matches_query(s[i], enemy_move_query()) && enemy_in_frame(s, i, fi) {
                let t = (s[i].transform->0).translation;
                Entity {
                    transform: Some(
                        Transform {
                            translation: Vec3 {
                                x: sadd(
                                    t.x as int,
                                    -scale_velocity_spec(
                                        ENEMY_SPEED as int,
                                        SCALE as int,
                                        dt,
                                    ),
                                ) as i64,
                                y: t.y,
                                z: t.z,
                            },
                        },
                    ),
                    ..s[i]
                }
            } else {
                s[i]
            },
    )
}

/// Drift every enemy inside the frame's horizontal span leftward one tick.
/// Without exactly one frame with position and collider, nothing moves.
pub fn update(w: &mut World, dt_ms: u32)
    requires
        wf(*old(w)),
    ensures
        wf(*final (w)),
        final (w).exit == old(w).exit,
        final (w).level_events@ == old(w).level_events@,
        final (w).entities@.len() == old(w).entities@.len(),
        forall|i: int|
            0 <= i < old(w).entities@.len() ==> crate::entity::same_visible(
                old(w).entities@[i],
                #[trigger] final (w).entities@[i],
            ),
        query_count(old(w).entities@, frame_span_query()) != 1 ==> final (w).entities@ == old(
            w,
        ).entities@,
        query_count(old(w).entities@, frame_span_query()) == 1 ==> final (w).entities@
            =~= enemies_moved(
            old(w).entities@,
            dt_ms as int,
            the_query_index(old(w).entities@, frame_span_query()),
        ),
{
    let ghost s = w.entities@;
    let fi: usize = match w.find_single(
        Query { kind: Kind::Frame, collider: true, transform: true },
    ) {
        Some(i) => i,
        None => { return ; },
    };
    let effs: Vec<Vec3> = w.all_eff_translations();
    let frame_eff: Vec3 = effs[fi];
    let fc: Collider = w.entities[fi].collider.unwrap();
    let span_right: i64 = crate::math::sat_add(frame_eff.x, fc.0.x);
    let step: i64 = crate::math::scale_velocity(ENEMY_SPEED, SCALE, dt_ms);
    let n: usize = w.entities.len();
    let mut i: usize = 0;
    while i < n
        invariant
            n == s.len(),
            s == old(w).entities@,
            entities_wf(s),
            i <= n,
            fi < n,
            w.exit == old(w).exit,
            w.level_events@ == old(w).level_events@,
            effs@.len() == n,
            forall|j: int| 0 <= j < n ==> #[trigger] effs@[j] == eff_translation_spec(s, j),
            frame_eff == eff_translation_spec(s, fi as int),
            fc == s[fi as int].collider->0,
            span_right as int == sadd(frame_eff.x as int, fc.0.x as int),
            step as int == scale_velocity_spec(ENEMY_SPEED as int, SCALE as int, dt_ms as int),
            w.entities@.len() == n,
            entities_wf(w.entities@),
            forall|j: int|
                0 <= j < i ==> #[trigger] w.entities@[j] == enemies_moved(
                    s,
                    dt_ms as int,
                    fi as int,
                )[j],
            forall|j: int| i <= j < n ==> #[trigger] w.entities@[j] == s[j],
        decreases n - i,
    {
        let alive: bool = w.entities[i].alive;
        let is_enemy: bool = w.entities[i].enemy.is_some();
        let t_opt: Option<Transform> = w.entities[i].transform;
        if alive && is_enemy {
            match t_opt {
                Some(t) => {
                    let eff: Vec3 = effs[i];
                    let in_frame: bool = eff.x < span_right && eff.x > frame_eff.x;
                    if in_frame {
                        let nx: i64 = crate::math::sat_sub(t.translation.x, step);
                        w.entities[i].transform = Some(
                            Transform {
                                translation: Vec3 { x: nx, y: t.translation.y, z: t.translation.z },
                            },
                        );
                        proof {
                            assert(sadd(
                                t.translation.x as int,
                                -scale_velocity_spec(ENEMY_SPEED as int, SCALE as int, dt_ms as int),
                            ) == crate::math::ssub(t.translation.x as int, step as int));
                            assert forall|j: int| 0 <= j < n implies wf_entity(
                                #[trigger] w.entities@[j],
                                j,
                            ) by {
                                assert(wf_entity(s[j], j));
                            }
                        }
                    }
                },
                None => {},
            }
        }
        i += 1;
    }
}

/// The query both collision systems run on colliding entities.
pub open spec fn collidable(kind: Kind) -> Query {
    Query { kind, collider: true, transform: true }
}

/// Do the boxes of entities `a` and `b` (colliders at their effective
/// positions) overlap, testing `a`'s corners against `b`'s box?
pub open spec fn pair_hits(s: Seq<Entity>, a: int, b: int) -> bool {
    collide_spec(
        s[a].collider->0,
        eff_translation_spec(s, a),
        s[b].collider->0,
        eff_translation_spec(s, b),
    )
}

/// Does any live, collidable enemy overlap the player at `pi`?
pub open spec fn player_hit_by_enemy(s: Seq<Entity>, pi: int) -> bool {
    exists|i: int|
        0 <= i < s.len() && matches_query(#[trigger] s[i], collidable(Kind::Enemy))
            && pair_hits(s, pi, i)
}

/// End the game when the player's box overlaps any enemy's: the
/// termination signal fires (idempotently); nothing else changes. Without
/// exactly one collidable player, nothing happens.
pub fn handle_player_enemy_collisions(w: &mut World)
    requires
        wf(*old(w)),
    ensures
        wf(*final (w)),
        final (w).entities@ == old(w).entities@,
        final (w).level_events@ == old(w).level_events@,
        query_count(old(w).entities@, collidable(Kind::Player)) != 1 ==> final (w).exit == old(
            w,
        ).exit,
        query_count(old(w).entities@, collidable(Kind::Player)) == 1 ==> final (w).exit == (old(
            w,
        ).exit || player_hit_by_enemy(
            old(w).entities@,
            the_query_index(old(w).entities@, collidable(Kind::Player)),
        )),
{
    let ghost s = w.entities@;
    let pi: usize = match w.find_single(
        Query { kind: Kind::Player, collider: true, transform: true },
    ) {
        Some(i) => i,
        None => { return ; },
    };
    let effs: Vec<Vec3> = w.all_eff_translations();
    let pc: Collider = w.entities[pi].collider.unwrap();
    let p_transform: Transform = Transform::from_translation(effs[pi]);
    let n: usize = w.entities.len();
    let mut collision: bool = false;
    let mut i: usize = 0;
    while i < n
        invariant
            n == s.len(),
            s == w.entities@,
            entities_wf(s),
            i <= n,
            pi < n,
            effs@.len() == n,
            forall|j: int| 0 <= j < n ==> #[trigger] effs@[j] == eff_translation_spec(s, j),
            pc == s[pi as int].collider->0,
            p_transform.translation == eff_translation_spec(s, pi as int),
            collision ==> player_hit_by_enemy(s, pi as int),
            !collision ==> forall|j: int|
                0 <= j < i ==> !(matches_query(#[trigger] s[j], collidable(Kind::Enemy))
                    && pair_hits(s, pi as int, j)),
        decreases n - i,
    {
        let alive: bool = w.entities[i].alive;
        let is_enemy: bool = w.entities[i].enemy.is_some();
        let ec_opt: Option<Collider> = w.entities[i].collider;
        let has_t: bool = w.entities[i].transform.is_some();
        if alive && is_enemy && has_t {
            match ec_opt {
                Some(ec) => {
                    let e_transform: Transform = Transform::from_translation(effs[i]);
                    if collide((&pc, &p_transform), (&ec, &e_transform)) {
                        collision = true;
                    }
                },
                None => {},
            }
        }
        i += 1;
    }
    if collision {
        w.exit = true;
    }
}

/// Is the shot at `si` overlapping any live, collidable enemy?
pub open spec fn shot_hits_some_enemy(s: Seq<Entity>, si: int) -> bool {
    exists|i: int|
        0 <= i < s.len() && matches_query(#[trigger] s[i], collidable(Kind::Enemy))
            && pair_hits(s, si, i)
}

/// Is the enemy at `ei` overlapped by any live, collidable shot?
pub open spec fn enemy_hit_by_shot(s: Seq<Entity>, ei: int) -> bool {
    exists|i: int|
        0 <= i < s.len() && matches_query(#[trigger] s[i], collidable(Kind::Shot))
            && pair_hits(s, i, ei)
}

/// Is this entity killed by the shot-enemy collision pass?
pub open spec fn killed_by_shots(s: Seq<Entity>, i: int) -> bool {
    ||| (matches_query(s[i], collidable(Kind::Enemy)) && enemy_hit_by_shot(s, i))
    ||| (matches_query(s[i], collidable(Kind::Shot)) && shot_hits_some_enemy(s, i))
}

/// Does the shot at `si` overlap any enemy? (All boxes read from the state
/// the tick started with.)
fn shot_is_hitting(w: &World, effs: &Vec<Vec3>, si: usize) -> (r: bool)
    requires
        entities_wf(w.entities@),
        si < w.entities@.len(),
        effs@.len() == w.entities@.len(),
        forall|j: int|
            0 <= j < effs@.len() ==> #[trigger] effs@[j] == eff_translation_spec(w.entities@, j),
        matches_query(w.entities@[si as int], collidable(Kind::Shot)),
    ensures
        r == shot_hits_some_enemy(w.entities@, si as int),
{
    let ghost s = w.entities@;
    let sc: Collider = w.entities[si].collider.unwrap();
    let s_transform: Transform = Transform::from_translation(effs[si]);
    let n: usize = w.entities.len();
    let mut i: usize = 0;
    while i < n
        invariant
            n == s.len(),
            s == w.entities@,
            i <= n,
            si < n,
            effs@.len() == n,
            forall|j: int| 0 <= j < n ==> #[trigger] effs@[j] == eff_translation_spec(s, j),
            sc == s[si as int].collider->0,
            s_transform.translation == eff_translation_spec(s, si as int),
            forall|j: int|
                0 <= j < i ==> !(matches_query(#[trigger] s[j], collidable(Kind::Enemy))
                    && pair_hits(s, si as int, j)),
        decreases n - i,
    {
        let alive: bool = w.entities[i].alive;
        let is_enemy: bool = w.entities[i].enemy.is_some();
        let ec_opt: Option<Collider> = w.entities[i].collider;
        let has_t: bool = w.entities[i].transform.is_some();
        if alive && is_enemy && has_t {
            match ec_opt {
                Some(ec) => {
                    let e_transform: Transform = Transform::from_translation(effs[i]);
                    if collide((&sc, &s_transform), (&ec, &e_transform)) {
                        return true;
                    }
                },
                None => {},
            }
        }
        i += 1;
    }
    false
}

/// Is the enemy at `ei` overlapped by any shot?
fn enemy_is_hit(w: &World, effs: &Vec<Vec3>, ei: usize) -> (r: bool)
    requires
        entities_wf(w.entities@),
        ei < w.entities@.len(),
        effs@.len() == w.entities@.len(),
        forall|j: int|
            0 <= j < effs@.len() ==> #[trigger] effs@[j] == eff_translation_spec(w.entities@, j),
        matches_query(w.entities@[ei as int], collidable(Kind::Enemy)),
    ensures
        r == enemy_hit_by_shot(w.entities@, ei as int),
{
    let ghost s = w.entities@;
    let ec: Collider = w.entities[ei].collider.unwrap();
    let e_transform: Transform = Transform::from_translation(effs[ei]);
    let n: usize = w.entities.len();
    let mut i: usize = 0;
    while i < n
        invariant
            n == s.len(),
            s == w.entities@,
            i <= n,
            ei < n,
            effs@.len() == n,
            forall|j: int| 0 <= j < n ==> #[trigger] effs@[j] == eff_translation_spec(s, j),
            ec == s[ei as int].collider->0,
            e_transform.translation == eff_translation_spec(s, ei as int),
            forall|j: int|
                0 <= j < i ==> !(matches_query(#[trigger] s[j], collidable(Kind::Shot))
                    && pair_hits(s, j, ei as int)),
        decreases n - i,
    {
        let alive: bool = w.entities[i].alive;
        let is_shot: bool = w.entities[i].shot.is_some();
        let sc_opt: Option<Collider> = w.entities[i].collider;
        let has_t: bool = w.entities[i].transform.is_some();
        if alive && is_shot && has_t {
            match sc_opt {
                Some(sc) => {
                    let s_transform: Transform = Transform::from_translation(effs[i]);
                    if collide((&sc, &s_transform), (&ec, &e_transform)) {
                        return true;
                    }
                },
                None => {},
            }
        }
        i += 1;
    }
    false
}

/// Resolve shot-enemy collisions: every overlapping (shot, enemy) pair is
/// resolved by despawning both, all pairs judged against the state the
/// tick started with (despawns are deferred, as a command buffer, so one
/// shot can take several enemies down and vice versa).
pub fn handle_enemy_shot(w: &mut World)
    requires
        wf(*old(w)),
    ensures
        wf(*final (w)),
        final (w).exit == old(w).exit,
        final (w).level_events@ == old(w).level_events@,
        final (w).entities@.len() == old(w).entities@.len(),
        forall|i: int|
            0 <= i < old(w).entities@.len() ==> #[trigger] final (w).entities@[i] == old(
                w,
            ).entities@[i] || final (w).entities@[i] == despawned(old(w).entities@[i]),
        final (w).entities@ =~= Seq::new(
            old(w).entities@.len(),
            |i: int|
                if killed_by_shots(old(w).entities@, i) {
                    despawned(old(w).entities@[i])
                } else {
                    old(w).entities@[i]
                },
        ),
{
    let ghost s = w.entities@;
    let effs: Vec<Vec3> = w.all_eff_translations();
    let n: usize = w.entities.len();

    let mut kill: Vec<bool> = Vec::new();
    let mut i: usize = 0;
    while i < n
        invariant
            n == s.len(),
            s == w.entities@,
            entities_wf(s),
            i <= n,
            effs@.len() == n,
            forall|j: int| 0 <= j < n ==> #[trigger] effs@[j] == eff_translation_spec(s, j),
            kill@.len() == i,
            forall|j: int| 0 <= j < i ==> #[trigger] kill@[j] == killed_by_shots(s, j),
        decreases n - i,
    {
        let alive: bool = w.entities[i].alive;
        let is_enemy: bool = w.entities[i].enemy.is_some();
        let is_shot: bool = w.entities[i].shot.is_some();
        let has_c: bool = w.entities[i].collider.is_some();
        let has_t: bool = w.entities[i].transform.is_some();
        let mut k: bool = false;
        if alive && has_c && has_t {
            if is_enemy {
                if enemy_is_hit(w, &effs, i) {
                    k = true;
                }
            }
            if !k && is_shot {
                if shot_is_hitting(w, &effs, i) {
                    k = true;
                }
            }
        }
        kill.push(k);
        i += 1;
    }

    let mut j: usize = 0;
    while j < n
        invariant
            n == s.len(),
            s == old(w).entities@,
            entities_wf(s),
            j <= n,
            w.exit == old(w).exit,
            w.level_events@ == old(w).level_events@,
            kill@.len() == n,
            forall|x: int| 0 <= x < n ==> #[trigger] kill@[x] == killed_by_shots(s, x),
            w.entities@.len() == n,
            entities_wf(w.entities@),
            forall|x: int|
                #![trigger w.entities@[x]]
                0 <= x < n ==> w.entities@[x] == (if x < j && killed_by_shots(s, x) {
                    despawned(s[x])
                } else {
                    s[x]
                }),
        decreases n - j,
    {
        let ghost prev = w.entities@;
        if kill[j] {
            w.despawn(j);
            proof {
                assert forall|x: int| 0 <= x < n implies wf_entity(
                    #[trigger] w.entities@[x],
                    x,
                ) by {
                    assert(wf_entity(prev[x], x));
                }
            }
        }
        j += 1;
    }
}

} // verus!
