use crate::controller::{sample_team, ControllerState, PlayerController, Team};
use crate::session::{
    has_queen, is_live, leave_notice, model_after_join, model_after_leave, model_after_sample,
    model_after_samples, player_index, sample_event, sample_events, spawn_event, SessionEvent,
    SessionModel,
};
use vstd::prelude::*;

verus! {

/// How many join announcements in `evs` are for remote identity `p`.
pub open spec fn joins_for(evs: Seq<SessionEvent>, p: i32) -> nat
    decreases evs.len(),
{
    if evs.len() == 0 {
        0
    } else {
        joins_for(evs.drop_last(), p) + match evs.last() {
            SessionEvent::Joined(e) => if e.player_controller == PlayerController::WebSocket(p) {
                1nat
            } else {
                0nat
            },
            SessionEvent::Left(_) => 0nat,
        }
    }
}

/// The samples of `ss` that come from identity `p`, in their order.
pub open spec fn samples_of(ss: Seq<ControllerState>, p: i32) -> Seq<ControllerState>
    decreases ss.len(),
{
    if ss.len() == 0 {
        Seq::empty()
    } else if ss.last().player == p {
        samples_of(ss.drop_last(), p).push(ss.last())
    } else {
        samples_of(ss.drop_last(), p)
    }
}

/// Whether two sessions agree on identity `p`: roster membership and table entry.
pub open spec fn agree_on(a: SessionModel, b: SessionModel, p: i32) -> bool {
    &&& a.sockets.contains(p) == b.sockets.contains(p)
    &&& a.controllers.contains_key(p) == b.controllers.contains_key(p)
    &&& a.controllers.contains_key(p) ==> a.controllers[p] == b.controllers[p]
}

proof fn lemma_joins_for_push(evs: Seq<SessionEvent>, e: SessionEvent, p: i32)
    ensures
        joins_for(evs.push(e), p) == joins_for(evs, p) + match e {
            SessionEvent::Joined(j) => if j.player_controller == PlayerController::WebSocket(p) {
                1nat
            } else {
                0nat
            },
            SessionEvent::Left(_) => 0nat,
        },
{
    assert(evs.push(e).drop_last() =~= evs);
}

/// A sample from another identity leaves what the session holds for `p` alone.
proof fn lemma_other_sample_keeps(m: SessionModel, s: ControllerState, p: i32)
    requires
        s.player != p,
    ensures
        agree_on(m, model_after_sample(m, s), p),
{
}

/// One sample from `p` acts alike on two sessions that agree on `p`.
proof fn lemma_own_sample_agrees(a: SessionModel, b: SessionModel, s: ControllerState, p: i32)
    requires
        s.player == p,
        agree_on(a, b, p),
    ensures
        agree_on(model_after_sample(a, s), model_after_sample(b, s), p),
{
}

/// Without a leave from `p` in between, samples from `p` announce its join
/// at most once, and never when `p` is already joined.
pub proof fn lemma_join_at_most_once(m: SessionModel, ss: Seq<ControllerState>, p: i32)
    requires
        forall|k: int| 0 <= k < ss.len() && (#[trigger] ss[k]).player == p ==> !ss[k].is_leaving,
    ensures
        joins_for(sample_events(m, ss), p) <= 1,
        m.sockets.contains(p) ==> joins_for(sample_events(m, ss), p) == 0,
        (m.sockets.contains(p) || joins_for(sample_events(m, ss), p) == 1) ==> model_after_samples(
            m,
            ss,
        ).sockets.contains(p),
    decreases ss.len(),
{
    if ss.len() > 0 {
        let pre = ss.drop_last();
        assert forall|k: int| 0 <= k < pre.len() && (#[trigger] pre[k]).player == p implies !pre[k].is_leaving by {
            assert(pre[k] == ss[k]);
        }
        lemma_join_at_most_once(m, pre, p);
        let a = model_after_samples(m, pre);
        let s = ss.last();
        assert(s == ss[ss.len() - 1]);
        let before = sample_events(m, pre);
        match sample_event(a, s) {
            Some(e) => lemma_joins_for_push(before, e, p),
            None => {},
        }
    }
}

/// A leave from a joined identity takes it out of the roster, the table and
/// the arena, and its next non-leaving sample announces a fresh join.
pub proof fn lemma_leave_then_rejoin(
    m: SessionModel,
    gone: ControllerState,
    back: ControllerState,
)
    requires
        m.wf(),
        m.sockets.contains(gone.player),
        gone.is_leaving,
        back.player == gone.player,
        !back.is_leaving,
    ensures
        ({
            let c = PlayerController::WebSocket(gone.player);
            let after = model_after_sample(m, gone);
            &&& !after.sockets.contains(gone.player)
            &&& !after.controllers.contains_key(gone.player)
            &&& !is_live(after.players, c)
            &&& sample_event(m, gone) matches Some(SessionEvent::Left(n)) && n.controller == c
            &&& sample_event(after, back) == Some(
                SessionEvent::Joined(spawn_event(after, c, sample_team(back))),
            )
            &&& model_after_sample(after, back).sockets.contains(gone.player)
        }),
{
    let c = PlayerController::WebSocket(gone.player);
    assert(m.joined(c));
    crate::session::lemma_leave_keeps_wf(m, c);
    assert(model_after_sample(m, gone).joined(c) == false);
}

/// Two live queens of one team are the same player.
pub proof fn lemma_single_queen(m: SessionModel, t: Team, i: int, j: int)
    requires
        m.wf(),
        0 <= i < m.players.len(),
        0 <= j < m.players.len(),
        m.players[i].is_queen && m.players[i].team == t,
        m.players[j].is_queen && m.players[j].team == t,
    ensures
        i == j,
{
    if i < j {
        assert(m.players[i].team != m.players[j].team);
    } else if j < i {
        assert(m.players[j].team != m.players[i].team);
    }
}

/// When a queen leaves, her team is left without a queen: nobody is promoted.
pub proof fn lemma_queen_leave_no_successor(m: SessionModel, c: PlayerController)
    requires
        m.wf(),
        leave_notice(m, c) matches Some(n) && n.was_queen,
    ensures
        !has_queen(model_after_leave(m, c).players, leave_notice(m, c)->Some_0.team),
        model_after_leave(m, c).wf(),
{
    crate::session::lemma_leave_keeps_wf(m, c);
    let ps = m.players;
    let x = player_index(ps, c);
    let t = ps[x].team;
    let n = model_after_leave(m, c).players;
    if has_queen(n, t) {
        let k = choose|k: int| 0 <= k < n.len() && #[trigger] n[k].is_queen && n[k].team == t;
        let k2 = if k < x { k } else { k + 1 };
        assert(n[k] == ps[k2]);
        lemma_single_queen(m, t, x, k2);
    }
}

/// A join leads its team exactly when the team has no queen, and after any
/// join the team has one, so later joins to it do not lead.
pub proof fn lemma_first_join_leads(m: SessionModel, c: PlayerController, t: Team)
    requires
        m.wf(),
        !m.joined(c),
    ensures
        spawn_event(m, c, t).is_queen == !has_queen(m.players, t),
        has_queen(model_after_join(m, c, t).players, t),
        model_after_join(m, c, t).wf(),
{
    crate::session::lemma_join_keeps_wf(m, c, t);
    let n = model_after_join(m, c, t).players;
    if has_queen(m.players, t) {
        let k = choose|k: int| 0 <= k < m.players.len() && #[trigger] m.players[k].is_queen && m.players[k].team == t;
        assert(n[k] == m.players[k]);
    } else {
        assert(n[m.players.len() as int].is_queen);
    }
}

/// Each identity ends with the same roster membership and table entry as
/// if only its own samples had been reconciled: samples of different
/// identities may interleave in any order.
pub proof fn lemma_interleaving(m: SessionModel, ss: Seq<ControllerState>, p: i32)
    ensures
        agree_on(model_after_samples(m, ss), model_after_samples(m, samples_of(ss, p)), p),
    decreases ss.len(),
{
    if ss.len() > 0 {
        let pre = ss.drop_last();
        lemma_interleaving(m, pre, p);
        let s = ss.last();
        if s.player == p {
            assert(samples_of(ss, p).drop_last() =~= samples_of(pre, p));
            lemma_own_sample_agrees(
                model_after_samples(m, pre),
                model_after_samples(m, samples_of(pre, p)),
                s,
                p,
            );
        } else {
            lemma_other_sample_keeps(model_after_samples(m, pre), s, p);
        }
    }
}

/// Draining an empty queue changes nothing and announces nothing.
pub proof fn lemma_empty_drain(m: SessionModel)
    ensures
        model_after_samples(m, Seq::empty()) == m,
        sample_events(m, Seq::empty()) == Seq::<SessionEvent>::empty(),
{
}

} // verus!
