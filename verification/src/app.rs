//! The application-level glue the core owns: the escape-key exit intent and
//! the composed per-tick step running every system in its fixed order.

use vstd::prelude::*;

use crate::buffer::Buffer;
use crate::entity::{
    lemma_count_to_congruent, lemma_count_to_despawn_le, lemma_count_to_extend_nonmatching,
    lemma_count_to_nonneg, lemma_count_to_push, lemma_count_to_same_visible, matches_query,
    query_count, singletons_ok, the_query_index, wf, Kind, Query, World,
};
use crate::event::{KeyCode, KeyEventKind, TerminalEvent};
use crate::level::{has_event, LevelEvent};

verus! {

/// Is this the event that requests termination (Escape pressed)?
pub open spec fn is_exit_event(e: TerminalEvent) -> bool {
    &&& e matches TerminalEvent::Key(k)
    &&& k.kind == KeyEventKind::Press
    &&& k.code == KeyCode::Esc
}

/// Does the tick's input hold a termination request?
pub open spec fn any_exit_event(evs: Seq<TerminalEvent>) -> bool {
    exists|i: int| 0 <= i < evs.len() && is_exit_event(evs[i])
}

/// Is this the event that requests termination (Escape pressed)?
pub fn should_exit(event: &TerminalEvent) -> (r: bool)
    ensures
        r == is_exit_event(*event),
{
    match event {
        TerminalEvent::Key(k) => match (k.kind, k.code) {
            (KeyEventKind::Press, KeyCode::Esc) => true,
            _ => false,
        },
        _ => false,
    }
}

/// Fire the termination signal if any of this tick's events requests it;
/// the signal is a latch, so firing twice changes nothing more.
pub fn handle_exit(w: &mut World, events: &Vec<TerminalEvent>)
    ensures
        final (w).entities@ == old(w).entities@,
        final (w).level_events@ == old(w).level_events@,
        final (w).exit == (old(w).exit || any_exit_event(events@)),
{
    let n: usize = events.len();
    let mut i: usize = 0;
    while i < n
        invariant
            n == events@.len(),
            i <= n,
            *w == *old(w),
            forall|j: int| 0 <= j < i ==> !is_exit_event(events@[j]),
        decreases n - i,
    {
        if should_exit(&events[i]) {
            w.exit = true;
            return ;
        }
        i += 1;
    }
}

/// One whole simulation tick, its sub-steps in their fixed order: clear the
/// buffer, ingest the exit intent, run the lifecycle spawns (level, frame,
/// player), the movement systems (frame scroll, player, enemies), the
/// weapon and shot systems, the collision systems, the level-end check and
/// teardown, and finally repaint the buffer for the renderer. The level
/// events visible this tick are consumed by it. A tick preserves the
/// game's cardinal invariant: at most one live level, frame and player.
#[verifier::rlimit(60)]
pub fn tick(w: &mut World, buffer: &mut Buffer, dt_ms: u32, events: &Vec<TerminalEvent>)
    requires
        wf(*old(w)),
    ensures
        wf(*final (w)),
        old(w).exit ==> final (w).exit,
        any_exit_event(events@) ==> final (w).exit,
        final (w).level_events@.len() == 0,
        final (buffer)@.len() == old(buffer)@.len(),
        final (buffer)@ == crate::sprite::rendered_buffer(
            crate::buffer::cleared(old(buffer)@),
            final (w).entities@,
            final (w).entities@.len() as int,
        ),
        singletons_ok(old(w).entities@) ==> singletons_ok(final (w).entities@),
{
    let ghost ql = Query::of_spec(Kind::Level);
    let ghost qf = Query::of_spec(Kind::Frame);
    let ghost qp = Query::of_spec(Kind::PlayerState);
    let ghost dt = dt_ms as int;

    crate::buffer::clear_buffer(buffer);
    handle_exit(w, events);
    let ghost s1 = w.entities@;
    let ghost ev1 = w.level_events@;

    crate::level::spawn(w);
    let ghost s2 = w.entities@;
    proof {
        assert(singletons_ok(s1) ==> singletons_ok(s2)) by {
            if singletons_ok(s1) {
                if has_event(ev1, LevelEvent::LevelStart) && query_count(s1, ql) == 0 {
                    assert(query_count(s2, ql) == query_count(s1, ql) + 1);
                    assert(query_count(s2, qf) == query_count(s1, qf));
                    assert(query_count(s2, qp) == query_count(s1, qp));
                } else {
                    assert(s2 == s1);
                }
            }
        }
    }

    crate::frame::spawn(w);
    let ghost s3 = w.entities@;
    proof {
        assert(singletons_ok(s2) ==> singletons_ok(s3)) by {
            if singletons_ok(s2) {
                lemma_count_to_nonneg(s2, qf, s2.len() as int);
                lemma_count_to_nonneg(s2, ql, s2.len() as int);
                if query_count(s2, qf) == 0 && query_count(s2, ql) == 1 {
                    let fe = crate::frame::frame_entity_spec(the_query_index(s2, ql));
                    assert(s3 == s2.push(fe));
                    lemma_count_to_push(s2, ql, fe);
                    lemma_count_to_push(s2, qp, fe);
                } else {
                    assert(s3 == s2);
                }
            }
        }
    }

    crate::player::spawn(w);
    let ghost s4 = w.entities@;
    proof {
        assert(singletons_ok(s3) ==> singletons_ok(s4)) by {
            if singletons_ok(s3) {
                lemma_count_to_nonneg(s3, qp, s3.len() as int);
                if query_count(s3, qp) == 0 && query_count(
                    s3,
                    crate::player::frame_spawn_query(),
                ) == 1 {
                    lemma_count_to_congruent(s4, s3, ql, s3.len() as int);
                    lemma_count_to_congruent(s4, s3, qf, s3.len() as int);
                    assert(!matches_query(s4[s3.len() as int], ql));
                    assert(!matches_query(s4[s3.len() as int + 1], ql));
                    assert(!matches_query(s4[s3.len() as int], qf));
                    assert(!matches_query(s4[s3.len() as int + 1], qf));
                    lemma_count_to_extend_nonmatching(s4, ql, s3.len() as int, s4.len() as int);
                    lemma_count_to_extend_nonmatching(s4, qf, s3.len() as int, s4.len() as int);
                } else {
                    assert(s4 == s3);
                }
            }
        }
    }

    crate::frame::move_frame(w);
    let ghost s5 = w.entities@;
    proof {
        assert(singletons_ok(s4) ==> singletons_ok(s5)) by {
            lemma_count_to_same_visible(s4, s5, ql, s4.len() as int);
            lemma_count_to_same_visible(s4, s5, qf, s4.len() as int);
            lemma_count_to_same_visible(s4, s5, qp, s4.len() as int);
        }
    }

    crate::player::update(w, dt_ms, events);
    let ghost s6 = w.entities@;
    proof {
        assert(singletons_ok(s5) ==> singletons_ok(s6)) by {
            lemma_count_to_same_visible(s5, s6, ql, s5.len() as int);
            lemma_count_to_same_visible(s5, s6, qf, s5.len() as int);
            lemma_count_to_same_visible(s5, s6, qp, s5.len() as int);
        }
    }

    crate::enemy::update(w, dt_ms);
    let ghost s7 = w.entities@;
    proof {
        assert(singletons_ok(s6) ==> singletons_ok(s7)) by {
            lemma_count_to_same_visible(s6, s7, ql, s6.len() as int);
            lemma_count_to_same_visible(s6, s7, qf, s6.len() as int);
            lemma_count_to_same_visible(s6, s7, qp, s6.len() as int);
        }
    }

    crate::weapon::reload_weapons_system(w, dt_ms);
    let ghost s8 = w.entities@;
    proof {
        assert(singletons_ok(s7) ==> singletons_ok(s8)) by {
            if singletons_ok(s7) {
                lemma_count_to_same_visible(s7, s8, ql, s7.len() as int);
                lemma_count_to_same_visible(s7, s8, qf, s7.len() as int);
                lemma_count_to_same_visible(s7, s8, qp, s7.len() as int);
                assert forall|j: int| s7.len() <= j < s8.len() implies !matches_query(
                    #[trigger] s8[j],
                    ql,
                ) && !matches_query(s8[j], qf) && !matches_query(s8[j], qp) by {}
                lemma_count_to_extend_nonmatching(s8, ql, s7.len() as int, s8.len() as int);
                lemma_count_to_extend_nonmatching(s8, qf, s7.len() as int, s8.len() as int);
                lemma_count_to_extend_nonmatching(s8, qp, s7.len() as int, s8.len() as int);
            }
        }
    }

    crate::weapon::update_shots(w, dt_ms);
    let ghost s9 = w.entities@;
    proof {
        assert(singletons_ok(s8) ==> singletons_ok(s9)) by {
            lemma_count_to_same_visible(s8, s9, ql, s8.len() as int);
            lemma_count_to_same_visible(s8, s9, qf, s8.len() as int);
            lemma_count_to_same_visible(s8, s9, qp, s8.len() as int);
        }
    }

    crate::weapon::despawn_shots(w);
    let ghost s10 = w.entities@;
    proof {
        assert(singletons_ok(s9) ==> singletons_ok(s10)) by {
            lemma_count_to_despawn_le(s9, s10, ql, s9.len() as int);
            lemma_count_to_despawn_le(s9, s10, qf, s9.len() as int);
            lemma_count_to_despawn_le(s9, s10, qp, s9.len() as int);
        }
    }

    crate::enemy::handle_player_enemy_collisions(w);
    let ghost s11 = w.entities@;

    crate::enemy::handle_enemy_shot(w);
    let ghost s12 = w.entities@;
    proof {
        assert(singletons_ok(s11) ==> singletons_ok(s12)) by {
            lemma_count_to_despawn_le(s11, s12, ql, s11.len() as int);
            lemma_count_to_despawn_le(s11, s12, qf, s11.len() as int);
            lemma_count_to_despawn_le(s11, s12, qp, s11.len() as int);
        }
    }

    crate::frame::end_level(w);

    crate::level::teardown_level(w);
    let ghost s14 = w.entities@;
    proof {
        assert(singletons_ok(s12) ==> singletons_ok(s14)) by {
            lemma_count_to_despawn_le(s12, s14, ql, s12.len() as int);
            lemma_count_to_despawn_le(s12, s14, qf, s12.len() as int);
            lemma_count_to_despawn_le(s12, s14, qp, s12.len() as int);
        }
    }

    let ghost before_render = buffer@;
    crate::sprite::render(w, buffer);
    proof {
        crate::sprite::lemma_rendered_dims(
            before_render,
            w.entities@,
            w.entities@.len() as int,
        );
    }
    w.level_events = Vec::new();
}

} // verus!
