use vstd::prelude::*;

use crate::geometry::{reaches, step_result};
use crate::map::Board;
use crate::occupancy::Occupancy;
use crate::players::{ticked, travel_of, Player};

verus! {

/// Why a move intent was discarded.
#[derive(Clone, Copy, Debug, PartialEq, Eq, Structural)]
pub enum MoveRejection {
    UnknownNodeReference,
    UnknownPlayerForSession,
    NotIdle,
    NotAdjacent,
    AlreadyOccupied,
}

/// The server's authoritative game state.
#[derive(Debug)]
pub struct ServerState {
    pub board: Board,
    pub occupancy: Occupancy,
    pub players: Vec<Player>,
    /// Number of players created so far; the next player's identifier.
    pub total_players: u32,
}

/// Some player of `players` holds junction `v`.
pub open spec fn held(players: Seq<Player>, v: u32) -> bool {
    exists|i: int| 0 <= i < players.len() && (#[trigger] players[i]).holds(v)
}

/// Some player of `players` belongs to session `c`.
pub open spec fn has_session(players: Seq<Player>, c: u64) -> bool {
    exists|i: int| 0 <= i < players.len() && (#[trigger] players[i]).client_owner_id == c
}

/// `s1` is `s0` after one movement step of `elapsed_us` microseconds: the board and
/// the identifiers handed out stay; every player takes its step (`ticked`); a player
/// that was idle stays idle where it stood; and only the previous junction of a player
/// that was moving may change its flag, to free.
pub open spec fn moved(s0: ServerState, s1: ServerState, elapsed_us: u32) -> bool {
    &&& s1.board == s0.board
    &&& s1.total_players == s0.total_players
    &&& s1.players@.len() == s0.players@.len()
    &&& forall|i: int|
        0 <= i < s0.players@.len() ==> {
            let p = s0.players@[i];
            let q = #[trigger] s1.players@[i];
            &&& q.id == p.id
            &&& q.client_owner_id == p.client_owner_id
            &&& p.queue().len() == 0 ==> q.pos == p.pos && q.current_vertex == p.current_vertex
                && q.idle()
            &&& p.queue().len() > 0 ==> {
                let to = s0.board.vertexes@[p.queue()[0] as int].pos;
                &&& q.pos == step_result(p.pos, to, travel_of(elapsed_us))
                &&& reaches(p.pos, to, travel_of(elapsed_us)) ==> q.current_vertex
                    == p.queue()[0] && q.idle()
                &&& !reaches(p.pos, to, travel_of(elapsed_us)) ==> q.current_vertex
                    == p.current_vertex && q.queue() == p.queue()
            }
        }
    &&& forall|i: int|
        0 <= i < s0.players@.len() ==> ticked(
            s0.board,
            s0.players@[i],
            #[trigger] s1.players@[i],
            elapsed_us,
        )
    &&& forall|v: int|
        0 <= v < s0.occupancy@.len() && #[trigger] s1.occupancy@[v] != s0.occupancy@[v]
            ==> !s1.occupancy@[v] && exists|i: int|
            0 <= i < s0.players@.len() && (#[trigger] s0.players@[i]).queue().len() > 0
                && s0.players@[i].current_vertex == v
}

impl ServerState {
    /// Player `p` stands on an existing junction, holds at most one reservation, on
    /// another existing junction, and has an identifier already handed out.
    pub open spec fn player_ok(self, p: Player) -> bool {
        &&& p.wf()
        &&& self.board.has_vertex(p.current_vertex)
        &&& p.queue().len() <= 1
        &&& p.queue().len() == 1 ==> self.board.has_vertex(p.queue()[0]) && p.queue()[0]
            != p.current_vertex
        &&& p.id < self.total_players
    }

    /// The authoritative invariant: a junction is filled exactly when some player holds
    /// it, and no two players hold the same junction; player identifiers and sessions
    /// are unique.
    pub open spec fn wf(self) -> bool {
        let ps = self.players@;
        &&& self.board.wf()
        &&& self.occupancy@.len() == self.board.vertexes@.len()
        &&& forall|i: int| 0 <= i < ps.len() ==> self.player_ok(#[trigger] ps[i])
        &&& forall|i: int, j: int|
            0 <= i < ps.len() && 0 <= j < ps.len() && i != j ==> (#[trigger] ps[i]).id != (
            #[trigger] ps[j]).id && ps[i].client_owner_id != ps[j].client_owner_id
        &&& forall|i: int, j: int, v: u32|
            0 <= i < ps.len() && 0 <= j < ps.len() && i != j ==> !((#[trigger] ps[i].holds(v))
                && #[trigger] ps[j].holds(v))
        &&& forall|v: u32|
            v < self.occupancy@.len() ==> (#[trigger] self.occupancy@[v as int] <==> held(ps, v))
    }

    /// A new game on `board` with every junction free and no players.
    pub fn new(board: Board) -> (r: ServerState)
        requires
            board.wf(),
        ensures
            r.wf(),
            r.board == board,
            r.players@.len() == 0,
            r.total_players == 0,
            forall|v: int| 0 <= v < r.occupancy@.len() ==> !r.occupancy@[v],
    {
        let occupancy = Occupancy::new(board.vertexes.len());
        ServerState { board, occupancy, players: Vec::new(), total_players: 0 }
    }

    /// Index of the player of session `c`, if there is one.
    pub fn find_player(&self, c: u64) -> (r: Option<usize>)
        ensures
            r is None <==> !has_session(self.players@, c),
            r matches Some(i) ==> i < self.players@.len() && self.players@[i as int].client_owner_id
                == c,
    {
        let mut i: usize = 0;
        while i < self.players.len()
            invariant
                i <= self.players@.len(),
                forall|k: int| 0 <= k < i ==> (#[trigger] self.players@[k]).client_owner_id != c,
            decreases self.players@.len() - i,
        {
            if self.players[i].client_owner_id == c {
                return Some(i);
            }
            i = i + 1;
        }
        None
    }

    /// The move intent of session `c` toward `target` passes every check of the validator.
    pub open spec fn move_accepted(self, c: u64, target: u32) -> bool {
        &&& self.board.has_vertex(target)
        &&& !self.occupancy@[target as int]
        &&& exists|i: int|
            0 <= i < self.players@.len() && (#[trigger] self.players@[i]).client_owner_id == c
                && self.players@[i].idle() && self.board.adjacent(self.players@[i].current_vertex, target)
    }

    /// Validates and enqueues the move intent of session `c` toward junction `target`: the
    /// junction must exist, the session must own a player, which must be idle, next to the
    /// junction, and the junction free. On success the junction is reserved and becomes the
    /// player's only target; on any rejection nothing changes.
    pub fn handle_client_move_player(&mut self, c: u64, target: u32) -> (r: Result<(), MoveRejection>)
        requires
            old(self).wf(),
        ensures
            final(self).wf(),
            final(self).board == old(self).board,
            final(self).total_players == old(self).total_players,
            !old(self).board.has_vertex(target) ==> r == Err::<(), MoveRejection>(
                MoveRejection::UnknownNodeReference,
            ),
            old(self).board.has_vertex(target) && !has_session(old(self).players@, c) ==> r == Err::<
                (),
                MoveRejection,
            >(MoveRejection::UnknownPlayerForSession),
            forall|i: int|
                0 <= i < old(self).players@.len() && (#[trigger] old(self).players@[i]).client_owner_id
                    == c && old(self).board.has_vertex(target) ==> {
                    let p = old(self).players@[i];
                    &&& !p.idle() ==> r == Err::<(), MoveRejection>(MoveRejection::NotIdle)
                    &&& p.idle() && !old(self).board.adjacent(p.current_vertex, target) ==> r
                        == Err::<(), MoveRejection>(MoveRejection::NotAdjacent)
                    &&& p.idle() && old(self).board.adjacent(p.current_vertex, target)
                        && old(self).occupancy@[target as int] ==> r == Err::<(), MoveRejection>(
                        MoveRejection::AlreadyOccupied,
                    )
                    &&& p.idle() && old(self).board.adjacent(p.current_vertex, target)
                        && !old(self).occupancy@[target as int] ==> {
                        &&& r is Ok
                        &&& final(self).players@.len() == old(self).players@.len()
                        &&& final(self).players@[i].queue() == seq![target]
                        &&& final(self).players@[i].current_vertex == p.current_vertex
                        &&& final(self).players@[i].pos == p.pos
                        &&& final(self).players@[i].id == p.id
                        &&& final(self).players@[i].client_owner_id == c
                        &&& forall|k: int|
                            0 <= k < old(self).players@.len() && k != i ==> final(self).players@[k]
                                == old(self).players@[k]
                    }
                },
            r is Ok <==> old(self).move_accepted(c, target),
            r is Ok ==> final(self).occupancy@ == old(self).occupancy@.update(target as int, true),
            r is Err ==> final(self).players@ == old(self).players@ && final(self).occupancy@ == old(self).occupancy@,
    {
        if !self.board.vertex_exists(target) {
            return Err(MoveRejection::UnknownNodeReference);
        }
        let i = match self.find_player(c) {
            Some(i) => i,
            None => {
                return Err(MoveRejection::UnknownPlayerForSession);
            },
        };
        proof {
            assert forall|k: int| 0 <= k < self.players@.len() && (#[trigger] self.players@[k]).client_owner_id == c implies k == i by {
                if k != i {
                    assert(self.players@[k].client_owner_id != self.players@[i as int].client_owner_id);
                }
            }
        }
        if !self.players[i].is_idle() {
            return Err(MoveRejection::NotIdle);
        }
        let current = self.players[i].current_vertex;
        if !self.board.is_adjacent(current, target) {
            return Err(MoveRejection::NotAdjacent);
        }
        match self.occupancy.reserve(target) {
            Err(_) => {
                return Err(MoveRejection::AlreadyOccupied);
            },
            Ok(()) => {},
        }
        let ghost old_players = self.players@;
        let ghost old_occ = old(self).occupancy@;
        self.players[i].enqueue(target);
        proof {
            let ps = self.players@;
            assert(ps[i as int].queue() =~= seq![target]);
            assert forall|k: int| 0 <= k < ps.len() && k != i implies ps[k] == old_players[k] by {}
            // the new reservation was free, so nobody held it
            assert(!held(old_players, target));
            assert forall|k: int| 0 <= k < ps.len() implies self.player_ok(#[trigger] ps[k]) by {
                if k == i {
                    assert(old_players[k].holds(current));
                    assert(target != current);
                } else {
                    assert(ps[k] == old_players[k]);
                }
            }
            assert forall|a: int, b: int, v: u32|
                0 <= a < ps.len() && 0 <= b < ps.len() && a != b implies !((#[trigger] ps[a].holds(v))
                    && #[trigger] ps[b].holds(v)) by {
                if a == i {
                    if v == target {
                        assert(!old_players[b].holds(target));
                    } else {
                        assert(ps[a].holds(v) ==> old_players[a].holds(v));
                    }
                } else if b == i {
                    if v == target {
                        assert(!old_players[a].holds(target));
                    } else {
                        assert(ps[b].holds(v) ==> old_players[b].holds(v));
                    }
                }
            }
            assert forall|v: u32| v < self.occupancy@.len() implies (#[trigger] self.occupancy@[v as int] <==> held(ps, v)) by {
                if v == target {
                    assert(ps[i as int].holds(v));
                } else {
                    assert(self.occupancy@[v as int] == old_occ[v as int]);
                    if held(ps, v) {
                        let k = choose|k: int| 0 <= k < ps.len() && (#[trigger] ps[k]).holds(v);
                        assert(old_players[k].holds(v));
                    }
                    if held(old_players, v) {
                        let k = choose|k: int| 0 <= k < old_players.len() && (#[trigger] old_players[k]).holds(v);
                        assert(ps[k].holds(v));
                    }
                }
            }
        }
        Ok(())
    }

    /// Advances every player by one tick of `elapsed_us` microseconds (see
    /// `Player::move_player`), keeping the authoritative invariant.
    pub fn move_players(&mut self, elapsed_us: u32)
        requires
            old(self).wf(),
        ensures
            final(self).wf(),
            moved(*old(self), *final(self), elapsed_us),
    {
        let n = self.players.len();
        let mut i: usize = 0;
        while i < n
            invariant
                self.wf(),
                self.board == old(self).board,
                self.total_players == old(self).total_players,
                n == self.players@.len(),
                n == old(self).players@.len(),
                i <= n,
                forall|k: int| i <= k < n ==> self.players@[k] == old(self).players@[k],
                forall|k: int|
                    0 <= k < i ==> {
                        let p = old(self).players@[k];
                        let q = #[trigger] self.players@[k];
                        &&& q.id == p.id
                        &&& q.client_owner_id == p.client_owner_id
                        &&& p.queue().len() == 0 ==> q.pos == p.pos && q.current_vertex
                            == p.current_vertex && q.idle()
                        &&& p.queue().len() > 0 ==> {
                            let to = old(self).board.vertexes@[p.queue()[0] as int].pos;
                            &&& q.pos == step_result(p.pos, to, travel_of(elapsed_us))
                            &&& reaches(p.pos, to, travel_of(elapsed_us)) ==> q.current_vertex
                                == p.queue()[0] && q.idle()
                            &&& !reaches(p.pos, to, travel_of(elapsed_us)) ==> q.current_vertex
                                == p.current_vertex && q.queue() == p.queue()
                        }
                    },
                forall|k: int|
                    0 <= k < i ==> ticked(
                        old(self).board,
                        old(self).players@[k],
                        #[trigger] self.players@[k],
                        elapsed_us,
                    ),
                self.occupancy@.len() == old(self).occupancy@.len(),
                forall|v: int|
                    0 <= v < old(self).occupancy@.len() && #[trigger] self.occupancy@[v] != old(
                        self).occupancy@[v] ==> !self.occupancy@[v] && exists|k: int|
                        0 <= k < i && (#[trigger] old(self).players@[k]).queue().len() > 0
                            && old(self).players@[k].current_vertex == v,
            decreases n - i,
        {
            let ghost ps0 = self.players@;
            let ghost occ0 = self.occupancy@;
            assert(self.player_ok(ps0[i as int]));
            proof {
                if ps0[i as int].queue().len() > 0 {
                    let t = ps0[i as int].queue()[0];
                    assert(ps0[i as int].holds(t));
                    assert(occ0[t as int]);
                }
            }
            self.players[i].move_player(&self.board, &mut self.occupancy, elapsed_us);
            proof {
                assert forall|v: int|
                    0 <= v < old(self).occupancy@.len() && #[trigger] self.occupancy@[v] != old(
                        self).occupancy@[v] implies !self.occupancy@[v] && exists|k: int|
                        0 <= k < i + 1 && (#[trigger] old(self).players@[k]).queue().len() > 0
                            && old(self).players@[k].current_vertex == v by {
                    if self.occupancy@[v] != occ0[v] {
                        assert(ps0[i as int] == old(self).players@[i as int]);
                    }
                }
                let ps = self.players@;
                let occ = self.occupancy@;
                let p0 = ps0[i as int];
                let p1 = ps[i as int];
                assert forall|k: int| 0 <= k < n && k != i implies ps[k] == ps0[k] by {}
                if p0.queue().len() == 0 {
                    assert(p1.queue() =~= p0.queue());
                }
                // what player i holds afterwards, it held before
                assert forall|v: u32| p1.holds(v) implies p0.holds(v) by {
                    if p0.queue().len() > 0 && p1.current_vertex == p0.queue()[0] {
                        assert(p0.queue().contains(p0.queue()[0]));
                    }
                    if p1.queue().contains(v) && p0.queue().len() > 0 {
                        let w = choose|w: int| 0 <= w < p1.queue().len() && p1.queue()[w] == v;
                        if p1.queue() == p0.queue().drop_first() {
                            assert(p0.queue()[w + 1] == v);
                        }
                    }
                }
                assert forall|k: int| 0 <= k < n implies self.player_ok(#[trigger] ps[k]) by {
                    if k == i {
                        if p0.queue().len() > 0 && p1.current_vertex == p0.queue()[0] {
                            assert(p1.queue().len() == 0);
                        }
                    }
                }
                assert forall|a: int, b: int, v: u32|
                    0 <= a < n && 0 <= b < n && a != b implies !((#[trigger] ps[a].holds(v))
                        && #[trigger] ps[b].holds(v)) by {
                    assert(ps[a].holds(v) ==> ps0[a].holds(v));
                    assert(ps[b].holds(v) ==> ps0[b].holds(v));
                }
                assert forall|v: u32| v < occ.len() implies (#[trigger] occ[v as int] <==> held(ps, v)) by {
                    assert(occ0[v as int] <==> held(ps0, v));
                    if held(ps, v) {
                        let k = choose|k: int| 0 <= k < ps.len() && (#[trigger] ps[k]).holds(v);
                        assert(ps0[k].holds(v));
                    }
                    if p0.queue().len() > 0 {
                        let t = p0.queue()[0];
                        assert(p0.holds(t));
                        if v == t {
                            if reaches(p0.pos, self.board.vertexes@[t as int].pos, travel_of(elapsed_us)) {
                                assert(ps[i as int].holds(v));
                            } else {
                                assert(p1.queue().contains(t));
                                assert(ps[i as int].holds(v));
                            }
                        } else if v == p0.current_vertex && reaches(p0.pos, self.board.vertexes@[t as int].pos, travel_of(elapsed_us)) {
                            assert(!occ[v as int]);
                            if held(ps, v) {
                                let k = choose|k: int| 0 <= k < ps.len() && (#[trigger] ps[k]).holds(v);
                                if k != i {
                                    assert(ps0[k].holds(v));
                                    assert(p0.holds(v));
                                }
                                assert(!p1.holds(v));
                            }
                        } else {
                            assert(occ[v as int] == occ0[v as int]);
                            if held(ps0, v) {
                                let k = choose|k: int| 0 <= k < ps0.len() && (#[trigger] ps0[k]).holds(v);
                                if k == i {
                                    if v != p0.current_vertex {
                                        assert(p0.queue().contains(v));
                                        let w = choose|w: int| 0 <= w < p0.queue().len() && p0.queue()[w] == v;
                                        assert(w == 0);
                                    }
                                    if !reaches(p0.pos, self.board.vertexes@[t as int].pos, travel_of(elapsed_us)) {
                                        assert(ps[k].holds(v));
                                    }
                                } else {
                                    assert(ps[k].holds(v));
                                }
                            }
                        }
                    } else {
                        assert(occ =~= occ0);
                        if held(ps0, v) {
                            let k = choose|k: int| 0 <= k < ps0.len() && (#[trigger] ps0[k]).holds(v);
                            if k == i {
                                assert(p1.current_vertex == p0.current_vertex);
                                assert(p0.queue().len() == 0);
                                assert(v == p0.current_vertex);
                            }
                            assert(ps[k].holds(v));
                        }
                    }
                }
            }
            i = i + 1;
        }
    }

    /// Junction `v` is a start junction that is free.
    pub open spec fn free_start(self, v: int) -> bool {
        0 <= v < self.board.vertexes@.len() && self.board.vertexes@[v].is_start
            && !self.occupancy@[v]
    }

    /// The free start junction of lowest identifier, if any.
    pub fn first_free_start(&self) -> (r: Option<u32>)
        requires
            self.wf(),
        ensures
            r is None ==> forall|v: int| !self.free_start(v),
            r matches Some(v) ==> self.free_start(v as int) && forall|w: int|
                0 <= w < v ==> !self.free_start(w),
    {
        let mut v: usize = 0;
        while v < self.board.vertexes.len()
            invariant
                self.wf(),
                v <= self.board.vertexes@.len(),
                forall|w: int| 0 <= w < v ==> !self.free_start(w),
            decreases self.board.vertexes@.len() - v,
        {
            if self.board.vertexes[v].is_start && !self.occupancy.filled[v] {
                return Some(v as u32);
            }
            v = v + 1;
        }
        None
    }

    /// Creates the player of a newly joined session `c` on the free start junction of lowest
    /// identifier, which it then holds. Nothing happens when the session already has a
    /// player, no start junction is free, or every identifier has been handed out.
    pub fn server_spawn_players(&mut self, c: u64) -> (r: Option<u32>)
        requires
            old(self).wf(),
        ensures
            final(self).wf(),
            final(self).board == old(self).board,
            r is Some <==> !has_session(old(self).players@, c) && old(self).total_players < u32::MAX
                && exists|v: int| old(self).free_start(v),
            r is None ==> final(self).players@ == old(self).players@ && final(self).occupancy@ == old(
                self,
            ).occupancy@ && final(self).total_players == old(self).total_players,
            r matches Some(id) ==> {
                let p = final(self).players@.last();
                let v = p.current_vertex;
                &&& id == old(self).total_players
                &&& final(self).total_players == old(self).total_players + 1
                &&& final(self).players@ == old(self).players@.push(p)
                &&& p.id == id && p.client_owner_id == c && p.idle() && p.roation_index == 0
                &&& old(self).free_start(v as int)
                &&& forall|w: int| 0 <= w < v ==> !old(self).free_start(w)
                &&& p.pos == old(self).board.vertexes@[v as int].pos
                &&& final(self).occupancy@ == old(self).occupancy@.update(v as int, true)
            },
    {
        if self.find_player(c).is_some() {
            return None;
        }
        if self.total_players == u32::MAX {
            return None;
        }
        let v = match self.first_free_start() {
            Some(v) => v,
            None => {
                return None;
            },
        };
        let ghost ps0 = self.players@;
        let ghost occ0 = self.occupancy@;
        let res = self.occupancy.reserve(v);
        let id = self.total_players;
        let p = Player::new(id, v, self.board.vertexes[v as usize].pos, c);
        self.players.push(p);
        self.total_players = id + 1;
        proof {
            let ps = self.players@;
            let n0 = ps0.len() as int;
            assert(!held(ps0, v));
            assert(ps[n0].queue() =~= Seq::<u32>::empty());
            assert forall|k: int| 0 <= k < ps.len() implies self.player_ok(#[trigger] ps[k]) by {
                if k < n0 {
                    assert(ps[k] == ps0[k]);
                }
            }
            assert forall|a: int, b: int|
                0 <= a < ps.len() && 0 <= b < ps.len() && a != b implies (#[trigger] ps[a]).id != (
                #[trigger] ps[b]).id && ps[a].client_owner_id != ps[b].client_owner_id by {
                if a == n0 {
                    assert(ps[b] == ps0[b]);
                } else if b == n0 {
                    assert(ps[a] == ps0[a]);
                }
            }
            assert forall|a: int, b: int, w: u32|
                0 <= a < ps.len() && 0 <= b < ps.len() && a != b implies !((#[trigger] ps[a].holds(w))
                    && #[trigger] ps[b].holds(w)) by {
                if a == n0 {
                    assert(ps[b] == ps0[b]);
                    if w == v {
                        assert(!ps0[b].holds(v));
                    }
                } else if b == n0 {
                    assert(ps[a] == ps0[a]);
                    if w == v {
                        assert(!ps0[a].holds(v));
                    }
                } else {
                    assert(ps[a] == ps0[a]);
                    assert(ps[b] == ps0[b]);
                }
            }
            assert forall|w: u32| w < self.occupancy@.len() implies (#[trigger] self.occupancy@[w as int] <==> held(ps, w)) by {
                if w == v {
                    assert(ps[n0].holds(v));
                } else {
                    if held(ps, w) {
                        let k = choose|k: int| 0 <= k < ps.len() && (#[trigger] ps[k]).holds(w);
                        assert(k != n0);
                        assert(ps0[k].holds(w));
                    }
                    if held(ps0, w) {
                        let k = choose|k: int| 0 <= k < ps0.len() && (#[trigger] ps0[k]).holds(w);
                        assert(ps[k].holds(w));
                    }
                }
            }
            assert(ps == ps0.push(ps[n0]));
        }
        Some(id)
    }

    /// Removes the player of session `c`, releasing the junctions it held. Returns whether
    /// the session had a player.
    pub fn remove_player(&mut self, c: u64) -> (r: bool)
        requires
            old(self).wf(),
        ensures
            final(self).wf(),
            final(self).board == old(self).board,
            final(self).total_players == old(self).total_players,
            r == has_session(old(self).players@, c),
            !r ==> final(self).players@ == old(self).players@ && final(self).occupancy@ == old(
                self,
            ).occupancy@,
            r ==> exists|i: int|
                0 <= i < old(self).players@.len() && (#[trigger] old(self).players@[i]).client_owner_id
                    == c && final(self).players@ == old(self).players@.remove(i) && forall|v: u32|
                    v < final(self).occupancy@.len() ==> #[trigger] final(self).occupancy@[v as int]
                        == (old(self).occupancy@[v as int] && !old(self).players@[i].holds(v)),
            !has_session(final(self).players@, c),
    {
        let i = match self.find_player(c) {
            Some(i) => i,
            None => {
                return false;
            },
        };
        let ghost ps0 = self.players@;
        let ghost occ0 = self.occupancy@;
        let p = self.players.remove(i);
        let cur = p.current_vertex;
        self.occupancy.release(cur);
        let next = p.next_vertex();
        match next {
            Some(t) => {
                self.occupancy.release(t);
            },
            None => {},
        }
        proof {
            let ps = self.players@;
            let occ = self.occupancy@;
            assert(p == ps0[i as int]);
            assert forall|k: int| 0 <= k < ps.len() implies #[trigger] ps[k] == ps0[if k < i { k } else { k + 1 }] by {}
            assert forall|k: int| 0 <= k < ps.len() implies self.player_ok(#[trigger] ps[k]) by {
                assert(ps[k] == ps0[if k < i { k } else { k + 1 }]);
            }
            assert forall|a: int, b: int|
                0 <= a < ps.len() && 0 <= b < ps.len() && a != b implies (#[trigger] ps[a]).id != (
                #[trigger] ps[b]).id && ps[a].client_owner_id != ps[b].client_owner_id by {
                assert(ps[a] == ps0[if a < i { a } else { a + 1 }]);
                assert(ps[b] == ps0[if b < i { b } else { b + 1 }]);
            }
            assert forall|a: int, b: int, w: u32|
                0 <= a < ps.len() && 0 <= b < ps.len() && a != b implies !((#[trigger] ps[a].holds(w))
                    && #[trigger] ps[b].holds(w)) by {
                assert(ps[a] == ps0[if a < i { a } else { a + 1 }]);
                assert(ps[b] == ps0[if b < i { b } else { b + 1 }]);
            }
            assert forall|w: u32| w < occ.len() implies #[trigger] occ[w as int] == (occ0[w as int] && !p.holds(w)) by {
                if p.queue().len() > 0 {
                    assert(p.queue() =~= seq![p.queue()[0]]);
                }
            }
            assert forall|w: u32| w < occ.len() implies (#[trigger] occ[w as int] <==> held(ps, w)) by {
                assert(occ0[w as int] <==> held(ps0, w));
                if held(ps, w) {
                    let k = choose|k: int| 0 <= k < ps.len() && (#[trigger] ps[k]).holds(w);
                    let k0 = if k < i { k } else { k + 1 };
                    assert(ps0[k0].holds(w));
                    assert(!ps0[i as int].holds(w));
                }
                if held(ps0, w) && !p.holds(w) {
                    let k = choose|k: int| 0 <= k < ps0.len() && (#[trigger] ps0[k]).holds(w);
                    assert(k != i);
                    let k1 = if k < i { k } else { k - 1 };
                    assert(ps[k1] == ps0[k]);
                }
            }
            if has_session(ps, c) {
                let k = choose|k: int| 0 <= k < ps.len() && (#[trigger] ps[k]).client_owner_id == c;
                let k0 = if k < i { k } else { k + 1 };
                assert(ps0[k0].client_owner_id == c);
            }
            assert(ps == ps0.remove(i as int));
        }
        true
    }
}

/// In every state that keeps the authoritative invariant (which every operation of
/// `ServerState` keeps), no junction is held by two players, and a junction is filled
/// exactly when one player holds it.
pub proof fn lemma_no_double_occupancy(s: ServerState, v: u32)
    requires
        s.wf(),
    ensures
        forall|i: int, j: int|
            0 <= i < s.players@.len() && 0 <= j < s.players@.len() && (#[trigger] s.players@[i]).holds(v)
                && (#[trigger] s.players@[j]).holds(v) ==> i == j,
        v < s.occupancy@.len() ==> (s.occupancy@[v as int] <==> exists|i: int|
            0 <= i < s.players@.len() && (#[trigger] s.players@[i]).holds(v)),
{
    assert forall|i: int, j: int|
        0 <= i < s.players@.len() && 0 <= j < s.players@.len() && (#[trigger] s.players@[i]).holds(v)
            && (#[trigger] s.players@[j]).holds(v) implies i == j by {
        if i != j {
            assert(!(s.players@[i].holds(v) && s.players@[j].holds(v)));
        }
    }
    if v < s.occupancy@.len() {
        assert(s.occupancy@[v as int] <==> held(s.players@, v));
    }
}

/// Once a junction is filled (as an accepted move intent leaves its target), no move
/// intent toward it is accepted, whichever session sends it.
pub proof fn lemma_filled_target_refused(s: ServerState, c: u64, t: u32)
    requires
        s.board.has_vertex(t),
        t < s.occupancy@.len(),
        s.occupancy@[t as int],
    ensures
        !s.move_accepted(c, t),
{
}

} // verus!
