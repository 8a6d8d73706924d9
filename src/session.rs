use crate::controller::{
    sample_team, ControllerState, LeaveNotification, LivePlayer, PlayerController, SpawnPlayerEvent, Team,
};
use std::collections::HashMap;
use std::collections::HashSet;
use vstd::prelude::*;

verus! {

broadcast use vstd::std_specs::hash::group_hash_axioms;

/// Local gamepads that currently drive a player.
pub struct JoinedGamepads(pub HashSet<usize>);

/// Remote identities that currently drive a player.
pub struct JoinedWebSockets(pub HashSet<i32>);

/// The most recent non-leaving report of each joined remote identity.
pub struct WebSocketControllers(pub HashMap<i32, ControllerState>);

/// The abstract state of a session: both rosters, the controller table and
/// the live players in the order they joined.
pub struct SessionModel {
    pub gamepads: Set<usize>,
    pub sockets: Set<i32>,
    pub controllers: Map<i32, ControllerState>,
    pub players: Seq<LivePlayer>,
}

/// Whether some live player leads team `t`.
pub open spec fn has_queen(ps: Seq<LivePlayer>, t: Team) -> bool {
    exists|i: int| #![trigger ps[i]] 0 <= i < ps.len() && ps[i].is_queen && ps[i].team == t
}

/// Whether some live player is driven by `c`.
pub open spec fn is_live(ps: Seq<LivePlayer>, c: PlayerController) -> bool {
    exists|i: int| #![trigger ps[i]] 0 <= i < ps.len() && ps[i].controller == c
}

/// The position of the live player driven by `c` (meaningful when `is_live(ps, c)`).
pub open spec fn player_index(ps: Seq<LivePlayer>, c: PlayerController) -> int {
    choose|i: int| 0 <= i < ps.len() && ps[i].controller == c
}

impl SessionModel {
    /// Whether `c` is in the roster that belongs to its kind of controller.
    pub open spec fn joined(self, c: PlayerController) -> bool {
        match c {
            PlayerController::Gamepad(g) => self.gamepads.contains(g),
            PlayerController::WebSocket(p) => self.sockets.contains(p),
        }
    }

    /// Controllers drive at most one player each, each team has at most one
    /// queen, a controller is in its roster exactly when it drives a live
    /// player, and only joined remote identities have a table entry.
    pub open spec fn wf(self) -> bool {
        &&& forall|i: int, j: int|
            #![trigger self.players[i], self.players[j]]
            0 <= i < j < self.players.len() ==> self.players[i].controller
                != self.players[j].controller
        &&& forall|i: int, j: int|
            #![trigger self.players[i], self.players[j]]
            0 <= i < j < self.players.len() && self.players[i].is_queen
                && self.players[j].is_queen ==> self.players[i].team != self.players[j].team
        &&& forall|c: PlayerController| #[trigger] self.joined(c) <==> is_live(self.players, c)
        &&& forall|p: i32| #[trigger] self.controllers.contains_key(p) ==> self.sockets.contains(p)
    }

    /// The session with nobody in it.
    pub open spec fn empty() -> SessionModel {
        SessionModel {
            gamepads: Set::empty(),
            sockets: Set::empty(),
            controllers: Map::empty(),
            players: Seq::empty(),
        }
    }
}

/// What joining `c` to team `t` announces: it leads exactly when the team has no queen.
pub open spec fn spawn_event(m: SessionModel, c: PlayerController, t: Team) -> SpawnPlayerEvent {
    SpawnPlayerEvent {
        team: t,
        is_queen: !has_queen(m.players, t),
        player_controller: c,
        delay_millis: 0,
        start_invincible: false,
    }
}

/// The session after `c` joins team `t`.
pub open spec fn model_after_join(m: SessionModel, c: PlayerController, t: Team) -> SessionModel {
    SessionModel {
        gamepads: match c {
            PlayerController::Gamepad(g) => m.gamepads.insert(g),
            PlayerController::WebSocket(_) => m.gamepads,
        },
        sockets: match c {
            PlayerController::Gamepad(_) => m.sockets,
            PlayerController::WebSocket(p) => m.sockets.insert(p),
        },
        controllers: m.controllers,
        players: m.players.push(
            LivePlayer { controller: c, team: t, is_queen: !has_queen(m.players, t) },
        ),
    }
}

/// The session after `c` leaves: out of its roster, out of the controller
/// table, and its player (if any) removed.
pub open spec fn model_after_leave(m: SessionModel, c: PlayerController) -> SessionModel {
    SessionModel {
        gamepads: match c {
            PlayerController::Gamepad(g) => m.gamepads.remove(g),
            PlayerController::WebSocket(_) => m.gamepads,
        },
        sockets: match c {
            PlayerController::Gamepad(_) => m.sockets,
            PlayerController::WebSocket(p) => m.sockets.remove(p),
        },
        controllers: match c {
            PlayerController::Gamepad(_) => m.controllers,
            PlayerController::WebSocket(p) => m.controllers.remove(p),
        },
        players: if is_live(m.players, c) {
            m.players.remove(player_index(m.players, c))
        } else {
            m.players
        },
    }
}

/// What the departure of `c` announces: its player's team and role, if it had a player.
pub open spec fn leave_notice(m: SessionModel, c: PlayerController) -> Option<LeaveNotification> {
    if is_live(m.players, c) {
        let p = m.players[player_index(m.players, c)];
        Some(LeaveNotification { controller: c, team: p.team, was_queen: p.is_queen })
    } else {
        None
    }
}

pub(crate) proof fn lemma_join_keeps_wf(m: SessionModel, c: PlayerController, t: Team)
    requires
        m.wf(),
        !m.joined(c),
    ensures
        model_after_join(m, c, t).wf(),
{
    let n = model_after_join(m, c, t);
    let ps = m.players;
    assert forall|i: int, j: int|
        #![trigger n.players[i], n.players[j]]
        0 <= i < j < n.players.len() && n.players[i].is_queen && n.players[j].is_queen implies n.players[i].team
        != n.players[j].team by {
        if j == ps.len() {
            assert(ps[i].is_queen && ps[i].team == ps[i].team);
        }
    }
    assert forall|d: PlayerController| #[trigger] n.joined(d) <==> is_live(n.players, d) by {
        assert(m.joined(d) <==> is_live(ps, d));
        if is_live(n.players, d) && d != c {
            let k = choose|k: int| 0 <= k < n.players.len() && n.players[k].controller == d;
            assert(ps[k].controller == d);
        }
        if d != c && is_live(ps, d) {
            let k = choose|k: int| 0 <= k < ps.len() && ps[k].controller == d;
            assert(n.players[k].controller == d);
        }
        if d == c {
            assert(n.players[ps.len() as int].controller == d);
        }
    }
}

pub(crate) proof fn lemma_leave_keeps_wf(m: SessionModel, c: PlayerController)
    requires
        m.wf(),
    ensures
        model_after_leave(m, c).wf(),
        !model_after_leave(m, c).joined(c),
{
    let n = model_after_leave(m, c);
    let ps = m.players;
    if !is_live(ps, c) {
        assert forall|d: PlayerController| #[trigger] n.joined(d) <==> is_live(n.players, d) by {
            assert(m.joined(d) <==> is_live(ps, d));
        }
    } else {
        let x = player_index(ps, c);
        assert forall|d: PlayerController| #[trigger] n.joined(d) <==> is_live(n.players, d) by {
            assert(m.joined(d) <==> is_live(ps, d));
            if is_live(n.players, d) {
                let k = choose|k: int| 0 <= k < n.players.len() && n.players[k].controller == d;
                if k < x {
                    assert(ps[k].controller == d);
                } else {
                    assert(ps[k + 1].controller == d);
                }
            }
            if d != c && is_live(ps, d) {
                let k = choose|k: int| 0 <= k < ps.len() && ps[k].controller == d;
                if k < x {
                    assert(n.players[k].controller == d);
                } else {
                    assert(n.players[k - 1].controller == d);
                }
            }
        }
        assert forall|i: int, j: int|
            #![trigger n.players[i], n.players[j]]
            0 <= i < j < n.players.len() implies n.players[i].controller
            != n.players[j].controller by {
            let i2 = if i < x { i } else { i + 1 };
            let j2 = if j < x { j } else { j + 1 };
            assert(n.players[i] == ps[i2] && n.players[j] == ps[j2]);
        }
        assert forall|i: int, j: int|
            #![trigger n.players[i], n.players[j]]
            0 <= i < j < n.players.len() && n.players[i].is_queen && n.players[j].is_queen implies n.players[i].team
            != n.players[j].team by {
            let i2 = if i < x { i } else { i + 1 };
            let j2 = if j < x { j } else { j + 1 };
            assert(n.players[i] == ps[i2] && n.players[j] == ps[j2]);
        }
    }
}

/// What the session announces while reconciling input.
#[derive(PartialEq, Eq, Structural, Clone, Copy, Debug)]
pub enum SessionEvent {
    Joined(SpawnPlayerEvent),
    Left(LeaveNotification),
}

/// A local gamepad's trigger presses on this tick.
#[derive(PartialEq, Eq, Structural, Clone, Copy, Debug)]
pub struct GamepadPress {
    pub gamepad: usize,
    pub left_just_pressed: bool,
    pub right_just_pressed: bool,
}

/// The session after one remote sample: a joined identity leaves or has its
/// table entry overwritten; an unknown one joins unless it is leaving.
pub open spec fn model_after_sample(m: SessionModel, s: ControllerState) -> SessionModel {
    let c = PlayerController::WebSocket(s.player);
    if m.sockets.contains(s.player) {
        if s.is_leaving {
            model_after_leave(m, c)
        } else {
            SessionModel {
                gamepads: m.gamepads,
                sockets: m.sockets,
                controllers: m.controllers.insert(s.player, s),
                players: m.players,
            }
        }
    } else if !s.is_leaving {
        model_after_join(m, c, sample_team(s))
    } else {
        m
    }
}

/// What one remote sample announces.
pub open spec fn sample_event(m: SessionModel, s: ControllerState) -> Option<SessionEvent> {
    let c = PlayerController::WebSocket(s.player);
    if m.sockets.contains(s.player) {
        if s.is_leaving {
            match leave_notice(m, c) {
                Some(n) => Some(SessionEvent::Left(n)),
                None => None,
            }
        } else {
            None
        }
    } else if !s.is_leaving {
        Some(SessionEvent::Joined(spawn_event(m, c, sample_team(s))))
    } else {
        None
    }
}

/// The session after the samples `ss`, in order.
pub open spec fn model_after_samples(m: SessionModel, ss: Seq<ControllerState>) -> SessionModel
    decreases ss.len(),
{
    if ss.len() == 0 {
        m
    } else {
        model_after_sample(model_after_samples(m, ss.drop_last()), ss.last())
    }
}

/// Everything the samples `ss` announce, in order.
pub open spec fn sample_events(m: SessionModel, ss: Seq<ControllerState>) -> Seq<SessionEvent>
    decreases ss.len(),
{
    if ss.len() == 0 {
        Seq::empty()
    } else {
        let before = sample_events(m, ss.drop_last());
        match sample_event(model_after_samples(m, ss.drop_last()), ss.last()) {
            Some(e) => before.push(e),
            None => before,
        }
    }
}

/// The team a local join press asks for: the left trigger picks yellow.
pub open spec fn press_team(p: GamepadPress) -> Team {
    if p.left_just_pressed {
        Team::Yellow
    } else {
        Team::Purple
    }
}

/// Whether a press asks a gamepad that is not yet joined to join.
pub open spec fn press_joins(m: SessionModel, p: GamepadPress) -> bool {
    (p.left_just_pressed || p.right_just_pressed) && !m.gamepads.contains(p.gamepad)
}

/// The session after one local press.
pub open spec fn model_after_press(m: SessionModel, p: GamepadPress) -> SessionModel {
    if press_joins(m, p) {
        model_after_join(m, PlayerController::Gamepad(p.gamepad), press_team(p))
    } else {
        m
    }
}

/// The session after the presses `ps`, in order.
pub open spec fn model_after_presses(m: SessionModel, ps: Seq<GamepadPress>) -> SessionModel
    decreases ps.len(),
{
    if ps.len() == 0 {
        m
    } else {
        model_after_press(model_after_presses(m, ps.drop_last()), ps.last())
    }
}

/// The joins that the presses `ps` announce, in order.
pub open spec fn press_events(m: SessionModel, ps: Seq<GamepadPress>) -> Seq<SpawnPlayerEvent>
    decreases ps.len(),
{
    if ps.len() == 0 {
        Seq::empty()
    } else {
        let before = press_events(m, ps.drop_last());
        let at = model_after_presses(m, ps.drop_last());
        if press_joins(at, ps.last()) {
            before.push(
                spawn_event(at, PlayerController::Gamepad(ps.last().gamepad), press_team(ps.last())),
            )
        } else {
            before
        }
    }
}

/// The session after each controller of `cs` leaves, in order.
pub open spec fn model_after_leaves(m: SessionModel, cs: Seq<PlayerController>) -> SessionModel
    decreases cs.len(),
{
    if cs.len() == 0 {
        m
    } else {
        model_after_leave(model_after_leaves(m, cs.drop_last()), cs.last())
    }
}

/// The departures that the leaves of `cs` announce, in order.
pub open spec fn leave_notices(m: SessionModel, cs: Seq<PlayerController>) -> Seq<LeaveNotification>
    decreases cs.len(),
{
    if cs.len() == 0 {
        Seq::empty()
    } else {
        let before = leave_notices(m, cs.drop_last());
        match leave_notice(model_after_leaves(m, cs.drop_last()), cs.last()) {
            Some(n) => before.push(n),
            None => before,
        }
    }
}

proof fn lemma_sample_keeps_wf(m: SessionModel, s: ControllerState)
    requires
        m.wf(),
    ensures
        model_after_sample(m, s).wf(),
{
    let c = PlayerController::WebSocket(s.player);
    if m.sockets.contains(s.player) {
        if s.is_leaving {
            lemma_leave_keeps_wf(m, c);
        } else {
            let n = model_after_sample(m, s);
            assert forall|d: PlayerController| #[trigger] n.joined(d) <==> is_live(n.players, d) by {
                assert(m.joined(d) <==> is_live(m.players, d));
            }
        }
    } else if !s.is_leaving {
        lemma_join_keeps_wf(m, c, sample_team(s));
    }
}

proof fn lemma_samples_keep_wf(m: SessionModel, ss: Seq<ControllerState>)
    requires
        m.wf(),
    ensures
        model_after_samples(m, ss).wf(),
    decreases ss.len(),
{
    if ss.len() > 0 {
        lemma_samples_keep_wf(m, ss.drop_last());
        lemma_sample_keeps_wf(model_after_samples(m, ss.drop_last()), ss.last());
    }
}

/// The join state that the simulation owns: both rosters, the controller
/// table and the live players.
pub struct Session {
    pub joined_gamepads: JoinedGamepads,
    pub joined_web_sockets: JoinedWebSockets,
    pub web_socket_controllers: WebSocketControllers,
    pub players: Vec<LivePlayer>,
}

impl View for Session {
    type V = SessionModel;

    open spec fn view(&self) -> SessionModel {
        SessionModel {
            gamepads: self.joined_gamepads.0@,
            sockets: self.joined_web_sockets.0@,
            controllers: self.web_socket_controllers.0@,
            players: self.players@,
        }
    }
}

impl Session {
    /// A session with nobody joined.
    pub fn new() -> (s: Session)
        ensures
            s@ == SessionModel::empty(),
            s@.wf(),
    {
        let s = Session {
            joined_gamepads: JoinedGamepads(HashSet::new()),
            joined_web_sockets: JoinedWebSockets(HashSet::new()),
            web_socket_controllers: WebSocketControllers(HashMap::new()),
            players: Vec::new(),
        };
        assert(s@.gamepads =~= Set::empty());
        assert(s@.sockets =~= Set::empty());
        assert(s@.controllers =~= Map::empty());
        s
    }

    /// Whether `c` is in its roster.
    pub fn is_joined(&self, c: PlayerController) -> (r: bool)
        ensures
            r == self@.joined(c),
    {
        match c {
            PlayerController::Gamepad(g) => self.joined_gamepads.0.contains(&g),
            PlayerController::WebSocket(p) => self.joined_web_sockets.0.contains(&p),
        }
    }

    /// The latest report of remote identity `p`, as downstream systems read it.
    pub fn controller_state(&self, p: i32) -> (r: Option<ControllerState>)
        ensures
            r == (if self@.controllers.contains_key(p) {
                Some(self@.controllers[p])
            } else {
                None
            }),
    {
        match self.web_socket_controllers.0.get(&p) {
            Some(c) => Some(*c),
            None => None,
        }
    }

    /// Whether some live player currently leads team `t`.
    pub fn team_has_queen(&self, t: Team) -> (r: bool)
        ensures
            r == has_queen(self@.players, t),
    {
        let mut i: usize = 0;
        while i < self.players.len()
            invariant
                i <= self.players.len(),
                forall|k: int| 0 <= k < i ==> !(#[trigger] self.players@[k].is_queen && self.players@[k].team == t),
            decreases self.players.len() - i,
        {
            if self.players[i].is_queen && self.players[i].team == t {
                assert(self.players@[i as int].team == t);
                return true;
            }
            i = i + 1;
        }
        false
    }

    /// The position of the live player driven by `c`, if there is one.
    pub fn find_player(&self, c: PlayerController) -> (r: Option<usize>)
        requires
            self@.wf(),
        ensures
            r is None <==> !is_live(self@.players, c),
            r matches Some(i) ==> i == player_index(self@.players, c),
    {
        let mut i: usize = 0;
        while i < self.players.len()
            invariant
                i <= self.players.len(),
                self@.wf(),
                forall|k: int| 0 <= k < i ==> (#[trigger] self.players@[k]).controller != c,
            decreases self.players.len() - i,
        {
            if self.players[i].controller == c {
                proof {
                    let ps = self.players@;
                    assert(ps[i as int].controller == c);
                    assert(is_live(ps, c));
                    let x = player_index(ps, c);
                    if x != i {
                        if x < i {
                            assert(ps[x].controller != ps[i as int].controller);
                        } else {
                            assert(ps[i as int].controller != ps[x].controller);
                        }
                    }
                }
                return Some(i);
            }
            i = i + 1;
        }
        None
    }

    /// Bring in a new player driven by `c` on team `t`; it becomes the
    /// team's queen exactly when the team has none.
    pub fn add_player(&mut self, c: PlayerController, t: Team) -> (ev: SpawnPlayerEvent)
        requires
            old(self)@.wf(),
            !old(self)@.joined(c),
        ensures
            final(self)@ == model_after_join(old(self)@, c, t),
            ev == spawn_event(old(self)@, c, t),
            final(self)@.wf(),
    {
        proof {
            lemma_join_keeps_wf(self@, c, t);
        }
        let is_queen = !self.team_has_queen(t);
        match c {
            PlayerController::Gamepad(g) => {
                self.joined_gamepads.0.insert(g);
            },
            PlayerController::WebSocket(p) => {
                self.joined_web_sockets.0.insert(p);
            },
        }
        self.players.push(LivePlayer { controller: c, team: t, is_queen });
        SpawnPlayerEvent {
            team: t,
            is_queen,
            player_controller: c,
            delay_millis: 0,
            start_invincible: false,
        }
    }

    /// Take `c` out of the session: out of its roster and the controller
    /// table, and its player removed if it has one.
    pub fn leave(&mut self, c: PlayerController) -> (r: Option<LeaveNotification>)
        requires
            old(self)@.wf(),
        ensures
            final(self)@ == model_after_leave(old(self)@, c),
            r == leave_notice(old(self)@, c),
            final(self)@.wf(),
    {
        proof {
            lemma_leave_keeps_wf(self@, c);
        }
        let found = self.find_player(c);
        match c {
            PlayerController::Gamepad(g) => {
                self.joined_gamepads.0.remove(&g);
            },
            PlayerController::WebSocket(p) => {
                self.joined_web_sockets.0.remove(&p);
                self.web_socket_controllers.0.remove(&p);
            },
        }
        match found {
            Some(i) => {
                let gone = self.players.remove(i);
                Some(LeaveNotification { controller: c, team: gone.team, was_queen: gone.is_queen })
            },
            None => None,
        }
    }

    /// Reconcile one remote sample against the session.
    pub fn apply_sample(&mut self, s: ControllerState) -> (r: Option<SessionEvent>)
        requires
            old(self)@.wf(),
        ensures
            final(self)@ == model_after_sample(old(self)@, s),
            r == sample_event(old(self)@, s),
            final(self)@.wf(),
    {
        proof {
            lemma_sample_keeps_wf(self@, s);
        }
        let c = PlayerController::WebSocket(s.player);
        if self.joined_web_sockets.0.contains(&s.player) {
            if s.is_leaving {
                match self.leave(c) {
                    Some(n) => Some(SessionEvent::Left(n)),
                    None => None,
                }
            } else {
                self.web_socket_controllers.0.insert(s.player, s);
                None
            }
        } else if !s.is_leaving {
            let t = s.team();
            Some(SessionEvent::Joined(self.add_player(c, t)))
        } else {
            None
        }
    }

    /// Reconcile every sample drained from the ingress queue this tick, in
    /// the order they were drained.
    pub fn join_from_websocket(&mut self, samples: &Vec<ControllerState>) -> (r: Vec<SessionEvent>)
        requires
            old(self)@.wf(),
        ensures
            final(self)@ == model_after_samples(old(self)@, samples@),
            r@ == sample_events(old(self)@, samples@),
            final(self)@.wf(),
    {
        let ghost start = self@;
        let mut out: Vec<SessionEvent> = Vec::new();
        let mut i: usize = 0;
        while i < samples.len()
            invariant
                i <= samples.len(),
                self@.wf(),
                self@ == model_after_samples(start, samples@.subrange(0, i as int)),
                out@ == sample_events(start, samples@.subrange(0, i as int)),
            decreases samples.len() - i,
        {
            let s = samples[i];
            assert(samples@.subrange(0, i + 1).drop_last() =~= samples@.subrange(0, i as int));
            match self.apply_sample(s) {
                Some(e) => out.push(e),
                None => {},
            }
            i = i + 1;
        }
        assert(samples@.subrange(0, samples.len() as int) =~= samples@);
        out
    }

    /// Join every local gamepad that pressed a trigger this tick and is not
    /// yet joined: the left trigger joins yellow, the right one purple.
    pub fn join(&mut self, presses: &Vec<GamepadPress>) -> (r: Vec<SpawnPlayerEvent>)
        requires
            old(self)@.wf(),
        ensures
            final(self)@ == model_after_presses(old(self)@, presses@),
            r@ == press_events(old(self)@, presses@),
            final(self)@.wf(),
    {
        let ghost start = self@;
        let mut out: Vec<SpawnPlayerEvent> = Vec::new();
        let mut i: usize = 0;
        while i < presses.len()
            invariant
                i <= presses.len(),
                self@.wf(),
                self@ == model_after_presses(start, presses@.subrange(0, i as int)),
                out@ == press_events(start, presses@.subrange(0, i as int)),
            decreases presses.len() - i,
        {
            let p = presses[i];
            assert(presses@.subrange(0, i + 1).drop_last() =~= presses@.subrange(0, i as int));
            if (p.left_just_pressed || p.right_just_pressed) && !self.joined_gamepads.0.contains(
                &p.gamepad,
            ) {
                let t = if p.left_just_pressed {
                    Team::Yellow
                } else {
                    Team::Purple
                };
                let ev = self.add_player(PlayerController::Gamepad(p.gamepad), t);
                out.push(ev);
            }
            i = i + 1;
        }
        assert(presses@.subrange(0, presses.len() as int) =~= presses@);
        out
    }

    /// Remove every player whose controller asked to disconnect this tick.
    pub fn disconnect(&mut self, leaving: &Vec<PlayerController>) -> (r: Vec<LeaveNotification>)
        requires
            old(self)@.wf(),
        ensures
            final(self)@ == model_after_leaves(old(self)@, leaving@),
            r@ == leave_notices(old(self)@, leaving@),
            final(self)@.wf(),
    {
        let ghost start = self@;
        let mut out: Vec<LeaveNotification> = Vec::new();
        let mut i: usize = 0;
        while i < leaving.len()
            invariant
                i <= leaving.len(),
                self@.wf(),
                self@ == model_after_leaves(start, leaving@.subrange(0, i as int)),
                out@ == leave_notices(start, leaving@.subrange(0, i as int)),
            decreases leaving.len() - i,
        {
            let c = leaving[i];
            assert(leaving@.subrange(0, i + 1).drop_last() =~= leaving@.subrange(0, i as int));
            match self.leave(c) {
                Some(n) => out.push(n),
                None => {},
            }
            i = i + 1;
        }
        assert(leaving@.subrange(0, leaving.len() as int) =~= leaving@);
        out
    }
}

} // verus!
