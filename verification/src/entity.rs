//! The entity registry: an arena of entity records keyed by stable indices,
//! each holding the optional components of the game's data model, plus the
//! parent back-references that form the Level → Frame → Player/Enemy/Shot
//! hierarchy.
//!
//! Despawning marks a record dead rather than removing it, so indices stay
//! stable for a whole game. An entity's parent always has a smaller index
//! than the entity itself (parents are spawned first), which bounds every
//! walk up the ancestor chain.

use vstd::prelude::*;

use crate::collider::Collider;
use crate::enemy::Enemy;
use crate::frame::Frame;
use crate::level::{Level, LevelEvent};
use crate::math::{Transform, Vec3, SPEED_LIMIT};
use crate::player::{Player, PlayerState};
use crate::sprite::Sprite;
use crate::weapon::{LazerShot, Shot, Weapon};

verus! {

/// One entity record: alive flag, optional parent, and one slot per
/// component category.
pub struct Entity {
    pub alive: bool,
    pub parent: Option<usize>,
    pub transform: Option<Transform>,
    pub sprite: Option<Sprite>,
    pub collider: Option<Collider>,
    pub level: Option<Level>,
    pub frame: Option<Frame>,
    pub player: Option<Player>,
    pub player_state: Option<PlayerState>,
    pub weapon: Option<Weapon>,
    pub enemy: Option<Enemy>,
    pub shot: Option<Shot>,
    pub lazer_shot: Option<LazerShot>,
}

impl Entity {
    /// A live entity with no components.
    pub open spec fn empty_spec() -> Entity {
        Entity {
            alive: true,
            parent: None,
            transform: None,
            sprite: None,
            collider: None,
            level: None,
            frame: None,
            player: None,
            player_state: None,
            weapon: None,
            enemy: None,
            shot: None,
            lazer_shot: None,
        }
    }

    /// A live entity with no components, to be extended by struct update.
    pub fn empty() -> (r: Entity)
        ensures
            r == Entity::empty_spec(),
    {
        Entity {
            alive: true,
            parent: None,
            transform: None,
            sprite: None,
            collider: None,
            level: None,
            frame: None,
            player: None,
            player_state: None,
            weapon: None,
            enemy: None,
            shot: None,
            lazer_shot: None,
        }
    }
}

/// `e` after a despawn: the same record, dead.
pub open spec fn despawned(e: Entity) -> Entity {
    Entity { alive: false, ..e }
}

/// Well-formedness of one entity record at index `i`: its parent (if any)
/// has a smaller index, and stored speeds are within [`SPEED_LIMIT`].
pub open spec fn wf_entity(e: Entity, i: int) -> bool {
    &&& match e.parent {
        Some(p) => (p as int) < i,
        None => true,
    }
    &&& match e.player_state {
        Some(ps) => -SPEED_LIMIT <= ps.speed <= SPEED_LIMIT,
        None => true,
    }
    &&& match e.shot {
        Some(s) => -SPEED_LIMIT <= s.speed <= SPEED_LIMIT,
        None => true,
    }
}

/// Well-formedness of a whole entity arena.
pub open spec fn entities_wf(s: Seq<Entity>) -> bool {
    forall|i: int| 0 <= i < s.len() ==> #[trigger] wf_entity(s[i], i)
}

/// The whole simulation state: the entity arena, the (idempotent)
/// termination signal, and the level events visible this tick.
pub struct World {
    pub entities: Vec<Entity>,
    pub exit: bool,
    pub level_events: Vec<LevelEvent>,
}

/// A world's data invariant.
pub open spec fn wf(w: World) -> bool {
    entities_wf(w.entities@)
}

/// The component categories systems query for.
#[derive(Clone, Copy, PartialEq, Eq, Structural, Debug)]
pub enum Kind {
    Level,
    Frame,
    Player,
    PlayerState,
    Weapon,
    Enemy,
    Shot,
}

/// Whether a live entity carries the component of category `k`.
pub open spec fn has_kind(e: Entity, k: Kind) -> bool {
    e.alive && match k {
        Kind::Level => e.level is Some,
        Kind::Frame => e.frame is Some,
        Kind::Player => e.player is Some,
        Kind::PlayerState => e.player_state is Some,
        Kind::Weapon => e.weapon is Some,
        Kind::Enemy => e.enemy is Some,
        Kind::Shot => e.shot is Some,
    }
}

/// What a system asks of the entities it iterates: a live entity of the
/// category, optionally also carrying a collider and/or a transform.
/// Systems that read those components skip entities lacking them.
#[derive(Clone, Copy, PartialEq, Eq, Structural, Debug)]
pub struct Query {
    pub kind: Kind,
    pub collider: bool,
    pub transform: bool,
}

impl Query {
    /// A query on the category alone.
    pub open spec fn of_spec(kind: Kind) -> Query {
        Query { kind, collider: false, transform: false }
    }

    /// A query on the category alone.
    pub fn of(kind: Kind) -> (r: Query)
        ensures
            r == Query::of_spec(kind),
    {
        Query { kind, collider: false, transform: false }
    }
}

/// Whether a live entity answers the query.
pub open spec fn matches_query(e: Entity, q: Query) -> bool {
    &&& has_kind(e, q.kind)
    &&& (q.collider ==> e.collider is Some)
    &&& (q.transform ==> e.transform is Some)
}

/// How many of the first `n` entities answer query `q`.
pub open spec fn query_count_to(s: Seq<Entity>, q: Query, n: int) -> int
    decreases n,
{
    if n <= 0 {
        0
    } else {
        query_count_to(s, q, n - 1) + if 0 <= n - 1 < s.len() && matches_query(s[n - 1], q) {
            1int
        } else {
            0int
        }
    }
}

/// How many live entities of the arena answer query `q`.
pub open spec fn query_count(s: Seq<Entity>, q: Query) -> int {
    query_count_to(s, q, s.len() as int)
}

/// The index of the single entity answering `q`; meaningful when the count
/// is exactly one.
pub open spec fn the_query_index(s: Seq<Entity>, q: Query) -> int {
    choose|i: int| 0 <= i < s.len() && matches_query(#[trigger] s[i], q)
}

/// With exactly one match, every matching index is that one.
pub proof fn lemma_the_query_index(s: Seq<Entity>, q: Query, i: int)
    requires
        query_count(s, q) == 1,
        0 <= i < s.len(),
        matches_query(s[i], q),
    ensures
        the_query_index(s, q) == i,
{
    let w = the_query_index(s, q);
    assert(0 <= w < s.len() && matches_query(s[w], q));
    if w != i {
        if w < i {
            lemma_count_to_two(s, q, s.len() as int, w, i);
        } else {
            lemma_count_to_two(s, q, s.len() as int, i, w);
        }
    }
}

pub proof fn lemma_count_to_nonneg(s: Seq<Entity>, k: Query, n: int)
    ensures
        query_count_to(s, k, n) >= 0,
    decreases n,
{
    if n > 0 {
        lemma_count_to_nonneg(s, k, n - 1);
    }
}

/// Counting further never loses matches.
pub proof fn lemma_count_to_mono(s: Seq<Entity>, k: Query, m: int, n: int)
    requires
        m <= n,
    ensures
        query_count_to(s, k, m) <= query_count_to(s, k, n),
    decreases n - m,
{
    if m < n {
        lemma_count_to_mono(s, k, m, n - 1);
    }
}

/// A match below `n` makes the count positive.
pub proof fn lemma_count_to_index(s: Seq<Entity>, k: Query, n: int, i: int)
    requires
        0 <= i < n,
        i < s.len(),
        matches_query(s[i], k),
    ensures
        query_count_to(s, k, n) >= 1,
{
    assert(query_count_to(s, k, i + 1) >= 1) by {
        lemma_count_to_nonneg(s, k, i);
    }
    lemma_count_to_mono(s, k, i + 1, n);
}

/// With no match below `n` the count is zero.
pub proof fn lemma_count_to_none(s: Seq<Entity>, k: Query, n: int)
    requires
        forall|i: int| 0 <= i < n && i < s.len() ==> !matches_query(#[trigger] s[i], k),
    ensures
        query_count_to(s, k, n) == 0,
    decreases n,
{
    if n > 0 {
        lemma_count_to_none(s, k, n - 1);
    }
}

/// Two matches at distinct indices make the count at least two.
pub proof fn lemma_count_to_two(s: Seq<Entity>, k: Query, n: int, i: int, j: int)
    requires
        0 <= i < j < n,
        j < s.len(),
        matches_query(s[i], k),
        matches_query(s[j], k),
    ensures
        query_count_to(s, k, n) >= 2,
{
    assert(query_count_to(s, k, j + 1) >= 2) by {
        lemma_count_to_index(s, k, j, i);
    }
    lemma_count_to_mono(s, k, j + 1, n);
}

/// The count only reads the first `n` records: equal prefixes, equal counts.
pub proof fn lemma_count_to_congruent(s1: Seq<Entity>, s2: Seq<Entity>, k: Query, n: int)
    requires
        n <= s1.len(),
        n <= s2.len(),
        forall|i: int| 0 <= i < n ==> s1[i] == s2[i],
    ensures
        query_count_to(s1, k, n) == query_count_to(s2, k, n),
    decreases n,
{
    if n > 0 {
        lemma_count_to_congruent(s1, s2, k, n - 1);
    }
}

/// How an update at index `i` changes the count.
pub proof fn lemma_count_to_update(s: Seq<Entity>, k: Query, n: int, i: int, e: Entity)
    requires
        0 <= i < s.len(),
        n <= s.len(),
    ensures
        i < n ==> query_count_to(s.update(i, e), k, n) == query_count_to(s, k, n) - (
        if matches_query(s[i], k) {
            1int
        } else {
            0int
        }) + (if matches_query(e, k) {
            1int
        } else {
            0int
        }),
        i >= n ==> query_count_to(s.update(i, e), k, n) == query_count_to(s, k, n),
    decreases n,
{
    if n > 0 {
        lemma_count_to_update(s, k, n - 1, i, e);
    }
}

/// Appending records does not change the count over the old prefix.
pub proof fn lemma_count_to_push(s: Seq<Entity>, k: Query, e: Entity)
    ensures
        query_count(s.push(e), k) == query_count(s, k) + if matches_query(e, k) {
            1int
        } else {
            0int
        },
{
    lemma_count_to_congruent(s.push(e), s, k, s.len() as int);
}

/// Records that stay or merely die never raise a count.
pub proof fn lemma_count_to_despawn_le(s1: Seq<Entity>, s2: Seq<Entity>, q: Query, n: int)
    requires
        forall|i: int|
            0 <= i < n ==> i < s1.len() && i < s2.len() && (#[trigger] s2[i] == s1[i] || s2[i]
                == despawned(s1[i])),
    ensures
        query_count_to(s2, q, n) <= query_count_to(s1, q, n),
    decreases n,
{
    if n > 0 {
        lemma_count_to_despawn_le(s1, s2, q, n - 1);
    }
}

/// Whether two records look the same to every query: alive alike, with the
/// same components present (their values may differ).
pub open spec fn same_visible(a: Entity, b: Entity) -> bool {
    &&& a.alive == b.alive
    &&& (a.level is Some) == (b.level is Some)
    &&& (a.frame is Some) == (b.frame is Some)
    &&& (a.player is Some) == (b.player is Some)
    &&& (a.player_state is Some) == (b.player_state is Some)
    &&& (a.weapon is Some) == (b.weapon is Some)
    &&& (a.enemy is Some) == (b.enemy is Some)
    &&& (a.shot is Some) == (b.shot is Some)
    &&& (a.collider is Some) == (b.collider is Some)
    &&& (a.transform is Some) == (b.transform is Some)
}

/// Updates that keep what queries see keep every count.
pub proof fn lemma_count_to_same_visible(s1: Seq<Entity>, s2: Seq<Entity>, q: Query, n: int)
    requires
        n <= s1.len(),
        n <= s2.len(),
        forall|i: int| 0 <= i < n ==> same_visible(#[trigger] s1[i], s2[i]),
    ensures
        query_count_to(s2, q, n) == query_count_to(s1, q, n),
    decreases n,
{
    if n > 0 {
        lemma_count_to_same_visible(s1, s2, q, n - 1);
    }
}

/// The game's cardinal invariant: at most one live level, one frame and
/// one player exist at any time.
pub open spec fn singletons_ok(s: Seq<Entity>) -> bool {
    &&& query_count(s, Query::of_spec(Kind::Level)) <= 1
    &&& query_count(s, Query::of_spec(Kind::Frame)) <= 1
    &&& query_count(s, Query::of_spec(Kind::PlayerState)) <= 1
}

/// A stretch of records none of which answer the query adds nothing.
pub proof fn lemma_count_to_extend_nonmatching(s: Seq<Entity>, q: Query, m: int, n: int)
    requires
        0 <= m <= n,
        forall|j: int| m <= j < n && j < s.len() ==> !matches_query(#[trigger] s[j], q),
    ensures
        query_count_to(s, q, n) == query_count_to(s, q, m),
    decreases n - m,
{
    if m < n {
        lemma_count_to_extend_nonmatching(s, q, m, n - 1);
    }
}

/// Whether index `i` is `root` itself or lies below it in the parent
/// hierarchy (walking parent links, which always decrease).
pub open spec fn is_descendant(s: Seq<Entity>, i: int, root: int) -> bool
    decreases (if i >= 0 { i } else { 0 }),
{
    if i == root {
        true
    } else if 0 <= i < s.len() {
        match s[i].parent {
            Some(p) => (p as int) < i && is_descendant(s, p as int, root),
            None => false,
        }
    } else {
        false
    }
}

/// Descent only reads parent links: if they agree pointwise, so does it.
pub proof fn lemma_descendant_congruent(s1: Seq<Entity>, s2: Seq<Entity>, i: int, root: int)
    requires
        s1.len() == s2.len(),
        forall|j: int| 0 <= j < s1.len() ==> #[trigger] s1[j].parent == s2[j].parent,
    ensures
        is_descendant(s1, i, root) == is_descendant(s2, i, root),
    decreases (if i >= 0 { i } else { 0 }),
{
    if i != root && 0 <= i < s1.len() {
        match s1[i].parent {
            Some(p) => {
                if (p as int) < i {
                    lemma_descendant_congruent(s1, s2, p as int, root);
                }
            },
            None => {},
        }
    }
}

impl World {
    /// A world with no entities, no pending events, and the termination
    /// signal unfired.
    pub fn new() -> (r: World)
        ensures
            r.entities@.len() == 0,
            r.exit == false,
            r.level_events@.len() == 0,
            wf(r),
    {
        World { entities: Vec::new(), exit: false, level_events: Vec::new() }
    }

    /// Append a fresh entity record; its index is returned and never reused.
    pub fn spawn(&mut self, e: Entity) -> (id: usize)
        ensures
            final (self).entities@ =~= old(self).entities@.push(e),
            id == old(self).entities@.len(),
            final (self).exit == old(self).exit,
            final (self).level_events@ == old(self).level_events@,
    {
        let id = self.entities.len();
        self.entities.push(e);
        id
    }

    /// Mark the entity dead; every component stays in place but no query
    /// sees it any more.
    pub fn despawn(&mut self, i: usize)
        requires
            i < old(self).entities@.len(),
        ensures
            final (self).entities@ =~= old(self).entities@.update(
                i as int,
                despawned(old(self).entities@[i as int]),
            ),
            final (self).exit == old(self).exit,
            final (self).level_events@ == old(self).level_events@,
    {
        let entity = &mut self.entities[i];
        entity.alive = false;
        proof {
            assert(final (self).entities@ =~= old(self).entities@.update(
                i as int,
                despawned(old(self).entities@[i as int]),
            ));
        }
    }

    /// Does any live entity answer query `k`?
    pub fn any_matching(&self, k: Query) -> (r: bool)
        ensures
            r == (query_count(self.entities@, k) > 0),
    {
        let ghost s = self.entities@;
        let n: usize = self.entities.len();
        let mut i: usize = 0;
        while i < n
            invariant
                n == s.len(),
                s == self.entities@,
                i <= n,
                query_count_to(s, k, i as int) == 0,
            decreases n - i,
        {
            if entity_matches(&self.entities[i], k) {
                proof {
                    lemma_count_to_index(s, k, n as int, i as int);
                }
                return true;
            }
            i += 1;
        }
        false
    }

    /// The index of the single live entity answering `k`: `Some` exactly
    /// when there is exactly one (the skip-and-report guard every system
    /// runs first).
    pub fn find_single(&self, k: Query) -> (r: Option<usize>)
        ensures
            match r {
                Some(i) => i < self.entities@.len() && matches_query(self.entities@[i as int], k)
                    && query_count(self.entities@, k) == 1
                    && i == the_query_index(self.entities@, k),
                None => query_count(self.entities@, k) != 1,
            },
    {
        let ghost s = self.entities@;
        let n: usize = self.entities.len();
        let mut i: usize = 0;
        let mut found: Option<usize> = None;
        while i < n
            invariant
                n == s.len(),
                s == self.entities@,
                i <= n,
                match found {
                    Some(f) => f < i && matches_query(s[f as int], k) && query_count_to(
                        s,
                        k,
                        i as int,
                    ) == 1,
                    None => query_count_to(s, k, i as int) == 0,
                },
            decreases n - i,
        {
            if entity_matches(&self.entities[i], k) {
                match found {
                    Some(f) => {
                        proof {
                            lemma_count_to_two(s, k, n as int, f as int, i as int);
                        }
                        return None;
                    },
                    None => {
                        found = Some(i);
                    },
                }
            }
            i += 1;
        }
        proof {
            if let Some(f) = found {
                lemma_the_query_index(s, k, f as int);
            }
        }
        found
    }

    /// The effective (world-space) translation of entity `i`: its local
    /// translation composed with all its ancestors'.
    pub fn eff_translation(&self, i: usize) -> (r: Vec3)
        requires
            entities_wf(self.entities@),
            i < self.entities@.len(),
        ensures
            r == eff_translation_spec(self.entities@, i as int),
        decreases i,
    {
        let local: Vec3 = match self.entities[i].transform {
            Some(t) => t.translation,
            None => Vec3 { x: 0, y: 0, z: 0 },
        };
        match self.entities[i].parent {
            Some(p) => {
                proof {
                    assert(wf_entity(self.entities@[i as int], i as int));
                }
                self.eff_translation(p).add(local)
            },
            None => local,
        }
    }

    /// Does entity `i` lie in the subtree rooted at `root` (inclusive)?
    pub fn is_in_subtree(&self, i: usize, root: usize) -> (r: bool)
        requires
            entities_wf(self.entities@),
            i < self.entities@.len(),
        ensures
            r == is_descendant(self.entities@, i as int, root as int),
        decreases i,
    {
        if i == root {
            return true;
        }
        match self.entities[i].parent {
            Some(p) => {
                proof {
                    assert(wf_entity(self.entities@[i as int], i as int));
                }
                self.is_in_subtree(p, root)
            },
            None => false,
        }
    }

    /// The effective translation of every entity at once, as the transform
    /// propagation computes them before the systems of a tick run.
    pub fn all_eff_translations(&self) -> (v: Vec<Vec3>)
        requires
            entities_wf(self.entities@),
        ensures
            v@.len() == self.entities@.len(),
            forall|i: int|
                0 <= i < v@.len() ==> #[trigger] v@[i] == eff_translation_spec(
                    self.entities@,
                    i,
                ),
    {
        let n: usize = self.entities.len();
        let mut v: Vec<Vec3> = Vec::new();
        let mut i: usize = 0;
        while i < n
            invariant
                entities_wf(self.entities@),
                n == self.entities@.len(),
                i <= n,
                v@.len() == i,
                forall|j: int|
                    0 <= j < i ==> #[trigger] v@[j] == eff_translation_spec(self.entities@, j),
            decreases n - i,
        {
            let t = self.eff_translation(i);
            v.push(t);
            i += 1;
        }
        v
    }

    /// Hand the world a level lifecycle event for the coming tick.
    pub fn send_level_event(&mut self, e: LevelEvent)
        ensures
            final (self).level_events@ =~= old(self).level_events@.push(e),
            final (self).entities@ == old(self).entities@,
            final (self).exit == old(self).exit,
    {
        self.level_events.push(e);
    }
}

/// The local translation an entity contributes to the hierarchy.
pub open spec fn local_translation(e: Entity) -> Vec3 {
    match e.transform {
        Some(t) => t.translation,
        None => Vec3 { x: 0, y: 0, z: 0 },
    }
}

/// The effective translation of entity `i`: the (saturating) sum of its
/// local translation and all its ancestors'.
pub open spec fn eff_translation_spec(s: Seq<Entity>, i: int) -> Vec3
    decreases (if i >= 0 { i } else { 0 }),
{
    if 0 <= i < s.len() {
        match s[i].parent {
            Some(p) => {
                if (p as int) < i {
                    Vec3::add_spec(eff_translation_spec(s, p as int), local_translation(s[i]))
                } else {
                    local_translation(s[i])
                }
            },
            None => local_translation(s[i]),
        }
    } else {
        Vec3 { x: 0, y: 0, z: 0 }
    }
}

/// Does this record carry category `k` and count for queries?
pub fn entity_has_kind(e: &Entity, k: Kind) -> (r: bool)
    ensures
        r == has_kind(*e, k),
{
    e.alive && match k {
        Kind::Level => e.level.is_some(),
        Kind::Frame => e.frame.is_some(),
        Kind::Player => e.player.is_some(),
        Kind::PlayerState => e.player_state.is_some(),
        Kind::Weapon => e.weapon.is_some(),
        Kind::Enemy => e.enemy.is_some(),
        Kind::Shot => e.shot.is_some(),
    }
}

/// Does this record answer the query?
pub fn entity_matches(e: &Entity, q: Query) -> (r: bool)
    ensures
        r == matches_query(*e, q),
{
    entity_has_kind(e, q.kind) && (!q.collider || e.collider.is_some()) && (!q.transform
        || e.transform.is_some())
}

/// Appending a record that is well-formed at the new index keeps the arena
/// well-formed.
pub proof fn lemma_wf_push(s: Seq<Entity>, e: Entity)
    requires
        entities_wf(s),
        wf_entity(e, s.len() as int),
    ensures
        entities_wf(s.push(e)),
{
    assert forall|i: int| 0 <= i < s.push(e).len() implies wf_entity(
        #[trigger] s.push(e)[i],
        i,
    ) by {
        if i < s.len() {
            assert(wf_entity(s[i], i));
        }
    }
}

/// Effective translations read only parent links and transforms: if those
/// agree pointwise, so does every effective translation.
pub proof fn lemma_eff_congruent(s1: Seq<Entity>, s2: Seq<Entity>, i: int)
    requires
        s1.len() == s2.len(),
        forall|j: int|
            0 <= j < s1.len() ==> #[trigger] s1[j].parent == s2[j].parent && s1[j].transform
                == s2[j].transform,
    ensures
        eff_translation_spec(s1, i) == eff_translation_spec(s2, i),
    decreases (if i >= 0 { i } else { 0 }),
{
    if 0 <= i < s1.len() {
        match s1[i].parent {
            Some(p) => {
                if (p as int) < i {
                    lemma_eff_congruent(s1, s2, p as int);
                }
            },
            None => {},
        }
    }
}

} // verus!
