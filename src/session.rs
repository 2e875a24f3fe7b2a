use vstd::prelude::*;

use crate::protocol::{keys_of, ClientEvents, ClientMessage, ServerMessage, Users};
use crate::server::{has_session, moved, ServerState};
use crate::sync::{snapshot_due, timer_after, SnapshotTimer, board_sent, handle_init_map_send, player_entry, send_game_state, update_map};

verus! {

/// A message to send, and the sessions to send it to.
#[derive(Debug)]
pub struct Outgoing {
    pub to: Vec<u64>,
    pub message: ServerMessage,
}

/// The server's game state together with its registry of joined sessions.
#[derive(Debug)]
pub struct ServerSession {
    pub state: ServerState,
    pub users: Users,
    pub timer: SnapshotTimer,
}

/// The replies of `outs`, one after another.
pub open spec fn concat(outs: Seq<Seq<Outgoing>>) -> Seq<Outgoing>
    decreases outs.len(),
{
    if outs.len() == 0 {
        Seq::empty()
    } else {
        concat(outs.drop_last()) + outs.last()
    }
}

/// Handling the messages of `inbox` in order takes `s0` through the states of `mids`, with
/// the replies `outs`: `mids[k + 1]` and `outs[k]` are what message `k` makes of `mids[k]`.
pub open spec fn inbox_handled(
    s0: ServerSession,
    inbox: Seq<(u64, ClientMessage)>,
    mids: Seq<ServerSession>,
    outs: Seq<Seq<Outgoing>>,
) -> bool {
    &&& mids.len() == inbox.len() + 1
    &&& outs.len() == inbox.len()
    &&& mids[0] == s0
    &&& forall|k: int|
        #![trigger outs[k]]
        0 <= k < inbox.len() ==> handled(mids[k], inbox[k].0, inbox[k].1, mids[k + 1], outs[k])
}

/// `s1` and reply `r` are what handling message `msg` from session `c` makes of `s0`.
pub open spec fn handled(
    s0: ServerSession,
    c: u64,
    msg: ClientMessage,
    s1: ServerSession,
    r: Seq<Outgoing>,
) -> bool {
    &&& s1.wf()
    &&& s1.state.board == s0.state.board
    &&& s1.timer == s0.timer
    &&& match msg {
        ClientMessage::Join { name } => if s0.users.has(c) {
            &&& r.len() == 0
            &&& s1.users.names@ == s0.users.names@
            &&& s1.state.players@ == s0.state.players@
        } else {
            &&& s1.users.names@ == s0.users.names@.push((c, name))
            &&& r.len() == 3
            &&& r[0].to@ == seq![c]
            &&& r[0].message matches ServerMessage::InitClient { client_id, usernames }
                && client_id == c && usernames@ == s1.users.names@
            &&& r[1].to@ == keys_of(s1.users.names@)
            &&& r[1].message matches ServerMessage::ClientConnected { client_id, username }
                && client_id == c && username == name
            &&& r[2].to@ == seq![c]
            &&& r[2].message matches ServerMessage::InitMap { vertexes, edges, materials }
                && board_sent(s0.state.board, vertexes@, edges@, materials@)
            &&& has_session(s1.state.players@, c) <==> (has_session(s0.state.players@, c) || (
            s0.state.total_players < u32::MAX && exists|v: int| s0.state.free_start(v)))
            &&& !has_session(s0.state.players@, c) && s0.state.total_players < u32::MAX && (exists|
                v: int,
            | s0.state.free_start(v)) ==> {
                let p = s1.state.players@.last();
                let v = p.current_vertex;
                &&& s1.state.players@ == s0.state.players@.push(p)
                &&& p.id == s0.state.total_players && p.client_owner_id == c && p.idle()
                &&& s0.state.free_start(v as int)
                &&& forall|w: int| 0 <= w < v ==> !s0.state.free_start(w)
                &&& p.pos == s0.state.board.vertexes@[v as int].pos
                &&& s1.state.occupancy@ == s0.state.occupancy@.update(v as int, true)
            }
        },
        ClientMessage::Disconnect {} => {
            &&& !s1.users.has(c)
            &&& !has_session(s1.state.players@, c)
            &&& !s0.users.has(c) ==> r.len() == 0 && s1.users.names@ == s0.users.names@
            &&& s0.users.has(c) ==> exists|i: int|
                0 <= i < s0.users.names@.len() && (#[trigger] s0.users.names@[i]).0
                    == c && s1.users.names@ == s0.users.names@.remove(i)
            &&& s0.users.has(c) ==> r.len() == 1 && r[0].to@ == keys_of(
                s1.users.names@,
            ) && r[0].message == (ServerMessage::ClientDisconnected { client_id: c })
        },
        ClientMessage::ChatMessage { message } => {
            &&& s1.users == s0.users
            &&& s1.state.players@ == s0.state.players@
            &&& r.len() == 1
            &&& r[0].to@ == keys_of(s0.users.names@)
            &&& r[0].message == (ServerMessage::ChatMessage { client_id: c, message })
        },
        ClientMessage::SendEvent { name, map_type, type_id } => {
            &&& r.len() == 0
            &&& s1.users == s0.users
            &&& s0.state.move_accepted(c, type_id) ==> s1.state.occupancy@
                == s0.state.occupancy@.update(type_id as int, true)
            &&& s0.state.move_accepted(c, type_id) ==> s1.state.players@.len()
                == s0.state.players@.len() && forall|i: int|
                0 <= i < s0.state.players@.len() ==> if (#[trigger] s0.state.players@[i]).client_owner_id == c {
                    s1.state.players@[i].queue() == seq![type_id]
                        && s1.state.players@[i].current_vertex
                        == s0.state.players@[i].current_vertex
                } else {
                    s1.state.players@[i] == s0.state.players@[i]
                }
            &&& !s0.state.move_accepted(c, type_id) ==> s1.state.players@
                == s0.state.players@ && s1.state.occupancy@ == s0.state.occupancy@
        },
    }
}

/// `r` is the snapshot of `s`, addressed to every joined session: the player list, then the
/// fill flag of every junction.
pub open spec fn snapshot_of(s: ServerSession, r: Seq<Outgoing>) -> bool {
    &&& r.len() == 2
    &&& r[0].to@ == keys_of(s.users.names@)
    &&& r[0].message matches ServerMessage::UpdatePlayers { players } && players@.len()
        == s.state.players@.len() && forall|i: int|
        0 <= i < players@.len() ==> #[trigger] players@[i] == player_entry(
            s.state.players@[i],
        )
    &&& r[1].to@ == keys_of(s.users.names@)
    &&& r[1].message matches ServerMessage::UpdateMap { vertexes, edges, materials }
        && vertexes@.len() == s.state.occupancy@.len() && edges@.len() == 0
        && materials@.len() == 0 && forall|i: int|
        0 <= i < vertexes@.len() ==> #[trigger] vertexes@[i] == (crate::protocol::VertexUpdate {
            id: i as u32,
            filled: s.state.occupancy@[i],
        })
}

fn to_one(c: u64) -> (r: Vec<u64>)
    ensures
        r@ == seq![c],
{
    let mut r: Vec<u64> = Vec::new();
    r.push(c);
    assert(r@ =~= seq![c]);
    r
}

impl ServerSession {
    pub open spec fn wf(self) -> bool {
        self.state.wf() && self.users.wf()
    }

    /// A server with no joined session.
    pub fn new(state: ServerState) -> (r: ServerSession)
        requires
            state.wf(),
        ensures
            r.wf(),
            r.state == state,
            r.users.names@.len() == 0,
            r.timer.accumulated_us == 0,
    {
        ServerSession { state, users: Users::new(0), timer: SnapshotTimer::new() }
    }

    /// A session left, by request or by losing its connection: it is unlisted and its player
    /// removed. When it was listed, the remaining sessions are told.
    pub fn handle_disconnect(&mut self, c: u64) -> (r: Vec<Outgoing>)
        requires
            old(self).wf(),
        ensures
            final(self).wf(),
            final(self).state.board == old(self).state.board,
            final(self).timer == old(self).timer,
            !final(self).users.has(c),
            !has_session(final(self).state.players@, c),
            final(self).users.self_id == old(self).users.self_id,
            !old(self).users.has(c) ==> r@.len() == 0 && final(self).users.names@ == old(
                self).users.names@,
            old(self).users.has(c) ==> exists|i: int|
                0 <= i < old(self).users.names@.len() && (#[trigger] old(self).users.names@[i]).0 == c
                    && final(self).users.names@ == old(self).users.names@.remove(i),
            old(self).users.has(c) ==> r@.len() == 1 && r@[0].to@ == keys_of(final(self).users.names@)
                && r@[0].message == (ServerMessage::ClientDisconnected { client_id: c }),
    {
        self.state.remove_player(c);
        let mut r: Vec<Outgoing> = Vec::new();
        match self.users.remove(c) {
            Some(_name) => {
                r.push(Outgoing { to: self.users.keys(), message: ServerMessage::ClientDisconnected { client_id: c } });
            },
            None => {},
        }
        r
    }

    /// Handles one message from session `c`. A join of an unlisted session lists it, sends
    /// it the registry and the board, tells every session, and spawns its player; a join of
    /// a listed session is ignored. A chat message goes to every session. A move request goes
    /// through the validator and is answered by nothing.
    pub fn handle_client_messages(&mut self, c: u64, msg: ClientMessage) -> (r: Vec<Outgoing>)
        requires
            old(self).wf(),
        ensures
            final(self).wf(),
            handled(*old(self), c, msg, *final(self), r@),
    {
        let mut r: Vec<Outgoing> = Vec::new();
        match msg {
            ClientMessage::Join { name } => {
                if self.users.contains_key(c) {
                    return r;
                }
                let username = name.clone();
                self.users.insert(c, name);
                r.push(Outgoing {
                    to: to_one(c),
                    message: ServerMessage::InitClient { client_id: c, usernames: self.users.copy_names() },
                });
                r.push(Outgoing {
                    to: self.users.keys(),
                    message: ServerMessage::ClientConnected { client_id: c, username },
                });
                let (vertexes, edges, materials) = handle_init_map_send(&self.state.board);
                r.push(Outgoing { to: to_one(c), message: ServerMessage::InitMap { vertexes, edges, materials } });
                self.state.server_spawn_players(c);
            },
            ClientMessage::Disconnect {} => {
                r = self.handle_disconnect(c);
            },
            ClientMessage::ChatMessage { message } => {
                r.push(Outgoing {
                    to: self.users.keys(),
                    message: ServerMessage::ChatMessage { client_id: c, message },
                });
            },
            ClientMessage::SendEvent { name, map_type, type_id } => {
                match name {
                    ClientEvents::MOVE => {
                        let _ = self.state.handle_client_move_player(c, type_id);
                    },
                }
            },
        }
        r
    }

    /// The snapshot of the current state (see `snapshot_of`).
    pub fn snapshot_messages(&self) -> (r: Vec<Outgoing>)
        requires
            self.wf(),
        ensures
            snapshot_of(*self, r@),
    {
        proof {
            assert forall|i: int| 0 <= i < self.state.players@.len() implies (#[trigger] self.state.players@[i]).wf() by {
                assert(self.state.player_ok(self.state.players@[i]));
            }
        }
        let players = send_game_state(&self.state.players);
        let vertexes = update_map(&self.state.occupancy);
        let mut r: Vec<Outgoing> = Vec::new();
        r.push(Outgoing { to: self.users.keys(), message: ServerMessage::UpdatePlayers { players } });
        r.push(Outgoing {
            to: self.users.keys(),
            message: ServerMessage::UpdateMap { vertexes, edges: Vec::new(), materials: Vec::new() },
        });
        r
    }

    /// Advances the snapshot timer by `elapsed_us` microseconds and, when a snapshot is due,
    /// returns it; otherwise returns nothing. The game state is not touched.
    pub fn send_game_state(&mut self, elapsed_us: u64) -> (r: Vec<Outgoing>)
        requires
            old(self).wf(),
        ensures
            final(self).wf(),
            final(self).state == old(self).state,
            final(self).users == old(self).users,
            final(self).timer == timer_after(old(self).timer, elapsed_us),
            snapshot_due(old(self).timer, elapsed_us) ==> snapshot_of(*final(self), r@),
            !snapshot_due(old(self).timer, elapsed_us) ==> r@.len() == 0,
    {
        if self.timer.tick(elapsed_us) {
            self.snapshot_messages()
        } else {
            Vec::new()
        }
    }

    /// One tick of the server, in the order that keeps snapshots whole: every message of the
    /// inbox handled in arrival order, then one movement step of every player, then the
    /// snapshot of the resulting state when one is due. The replies to the messages come
    /// first, in inbox order, and the snapshot, when sent, last.
    pub fn tick(&mut self, inbox: Vec<(u64, ClientMessage)>, elapsed_us: u32) -> (r: Vec<Outgoing>)
        requires
            old(self).wf(),
        ensures
            final(self).wf(),
            exists|mids: Seq<ServerSession>, outs: Seq<Seq<Outgoing>>|
                #[trigger] inbox_handled(*old(self), inbox@, mids, outs) && {
                    let last = mids.last();
                    let replies = concat(outs);
                    &&& moved(last.state, final(self).state, elapsed_us)
                    &&& final(self).users == last.users
                    &&& final(self).timer == timer_after(old(self).timer, elapsed_us as u64)
                    &&& !snapshot_due(old(self).timer, elapsed_us as u64) ==> r@ == replies
                    &&& snapshot_due(old(self).timer, elapsed_us as u64) ==> r@.len() == replies.len()
                        + 2 && r@.take(replies.len() as int) == replies && snapshot_of(
                        *final(self),
                        r@.skip(replies.len() as int),
                    )
                },
    {
        let ghost all = inbox@;
        let ghost mut done: int = 0;
        let ghost mut mids: Seq<ServerSession> = seq![*self];
        let ghost mut outs: Seq<Seq<Outgoing>> = seq![];
        let mut inbox = inbox;
        let mut r: Vec<Outgoing> = Vec::new();
        proof {
            assert(all.skip(0) =~= all);
        }
        while inbox.len() > 0
            invariant
                self.wf(),
                self.timer == old(self).timer,
                0 <= done <= all.len(),
                inbox@ == all.skip(done),
                mids.len() == done + 1,
                outs.len() == done,
                mids[0] == *old(self),
                mids[done] == *self,
                forall|k: int|
                    #![trigger outs[k]]
                    0 <= k < done ==> handled(mids[k], all[k].0, all[k].1, mids[k + 1], outs[k]),
                r@ == concat(outs),
            decreases inbox@.len(),
        {
            proof {
                assert(all.skip(done)[0] == all[done]);
            }
            let (c, m) = inbox.remove(0);
            proof {
                assert(inbox@ =~= all.skip(done + 1));
            }
            let mut out = self.handle_client_messages(c, m);
            let ghost o0 = out@;
            r.append(&mut out);
            proof {
                let mids0 = mids;
                let outs0 = outs;
                mids = mids.push(*self);
                outs = outs.push(o0);
                assert(outs.drop_last() =~= outs0);
                assert forall|k: int|
                    #![trigger outs[k]]
                    0 <= k < done + 1 implies handled(mids[k], all[k].0, all[k].1, mids[k + 1], outs[k]) by {
                    if k < done {
                        assert(mids[k] == mids0[k] && mids[k + 1] == mids0[k + 1] && outs[k] == outs0[k]);
                    }
                }
                done = done + 1;
            }
        }
        proof {
            assert(done == all.len());
            assert(inbox_handled(*old(self), all, mids, outs));
        }
        let ghost replies = r@;
        self.state.move_players(elapsed_us);
        let mut snap = self.send_game_state(elapsed_us as u64);
        let ghost s0 = snap@;
        r.append(&mut snap);
        proof {
            assert(r@.take(replies.len() as int) =~= replies);
            assert(r@.skip(replies.len() as int) =~= s0);
            if !snapshot_due(old(self).timer, elapsed_us as u64) {
                assert(r@ =~= replies);
            }
        }
        r
    }
}

} // verus!
