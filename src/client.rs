use vstd::prelude::*;

use crate::geometry::Point;
use crate::map::{contains_id, Board};
use crate::occupancy::Occupancy;
use crate::players::{ticked, Player};
use crate::sync::{board_from_init, board_sent};
use crate::protocol;
use crate::protocol::{first_names, ServerMessage, Users};

verus! {

/// The board with every update of `ups` set verbatim, in order; updates naming an unknown
/// junction are skipped.
pub open spec fn applied(occ: Seq<bool>, ups: Seq<protocol::VertexUpdate>) -> Seq<bool>
    decreases ups.len(),
{
    if ups.len() == 0 {
        occ
    } else {
        let prev = applied(occ, ups.drop_last());
        let u = ups.last();
        if u.id < prev.len() {
            prev.update(u.id as int, u.filled)
        } else {
            prev
        }
    }
}

/// A snapshot entry that the client can place: its junction, and its next junction if it
/// has one, exist, and its position is within range. Any other entry is a stale reference.
pub open spec fn usable(b: Board, e: protocol::Player) -> bool {
    &&& b.has_vertex(e.current_vertex)
    &&& (Point { x: e.x, y: e.y }).in_range()
    &&& e.next_vertex matches Some(t) ==> b.has_vertex(t)
}

/// Player `p` shows what entry `e` says: its junction and facing, and either moving with the
/// entry's next junction as its only target, or, when the entry has none, idle exactly at
/// the entry's position.
pub open spec fn reflects(b: Board, p: Player, e: protocol::Player) -> bool {
    &&& p.id == e.id
    &&& p.current_vertex == e.current_vertex
    &&& p.roation_index == e.rotation
    &&& e.next_vertex matches Some(t) ==> !p.idle() && p.queue() == seq![t]
    &&& e.next_vertex is None ==> p.idle() && p.pos == (Point { x: e.x, y: e.y })
}

/// `after` is the roster `before` with the entries of snapshot `snap` applied on board `b`:
/// every listed player is kept; the last placeable entry of each identifier
/// is reflected by a player; a player whose entries cannot be placed is left as it was; and
/// a player that is new was spawned from a placeable entry, for that entry's session.
pub open spec fn snapshot_applied(
    b: Board,
    before: Seq<Player>,
    after: Seq<Player>,
    snap: Seq<protocol::Player>,
) -> bool {
    &&& forall|k: int|
        0 <= k < before.len() && in_snapshot(snap, (#[trigger] before[k]).id) ==> has_id(
            after,
            before[k].id,
        )
    &&& forall|j: int|
        0 <= j < snap.len() && usable(b, #[trigger] snap[j]) && (forall|j2: int|
            j < j2 < snap.len() ==> snap[j2].id != snap[j].id) ==> exists|m: int|
            0 <= m < after.len() && reflects(b, after[m], snap[j])
    &&& forall|k: int|
        0 <= k < before.len() && has_id(after, (#[trigger] before[k]).id) && (forall|j: int|
            0 <= j < snap.len() && snap[j].id == before[k].id ==> !usable(b, snap[j]))
            ==> after.contains(before[k])
    &&& forall|m: int|
        0 <= m < after.len() && !has_id(before, (#[trigger] after[m]).id) ==> exists|j: int|
            0 <= j < snap.len() && usable(b, snap[j]) && (#[trigger] snap[j]).id == after[m].id
                && after[m].client_owner_id == snap[j].client_owner_id
}

/// What applying every entry of a snapshot leaves, stated from the facts the applying
/// loop keeps: `mid` keeps the identifiers of `before` in place, leaves alone the players
/// without placeable entries, adds only players spawned from placeable entries, and
/// reflects the last placeable entry of each identifier.
proof fn lemma_entries_applied(b: Board, before: Seq<Player>, mid: Seq<Player>, snap: Seq<protocol::Player>)
    requires
        mid.len() >= before.len(),
        forall|k: int| 0 <= k < before.len() ==> (#[trigger] mid[k]).id == before[k].id,
        forall|k: int|
            0 <= k < before.len() && (forall|j1: int|
                0 <= j1 < snap.len() && snap[j1].id == before[k].id ==> !usable(b, snap[j1]))
                ==> #[trigger] mid[k] == before[k],
        forall|m: int|
            before.len() <= m < mid.len() ==> exists|j1: int|
                0 <= j1 < snap.len() && usable(b, snap[j1]) && (#[trigger] snap[j1]).id
                    == (#[trigger] mid[m]).id && mid[m].client_owner_id == snap[j1].client_owner_id,
        forall|j1: int|
            0 <= j1 < snap.len() && usable(b, #[trigger] snap[j1]) && (forall|j2: int|
                j1 < j2 < snap.len() ==> snap[j2].id != snap[j1].id) ==> exists|m: int|
                0 <= m < mid.len() && reflects(b, mid[m], snap[j1]),
    ensures
        snapshot_applied(b, before, mid, snap),
        forall|k: int|
            0 <= k < before.len() && !in_snapshot(snap, (#[trigger] before[k]).id) ==> mid.contains(
                before[k],
            ),
        b.vertexes@.len() == 0 && before.len() == 0 ==> mid.len() == 0,
{
    assert forall|k: int|
        0 <= k < before.len() && in_snapshot(snap, (#[trigger] before[k]).id) implies has_id(
        mid,
        before[k].id,
    ) by {
        assert(mid[k].id == before[k].id);
    }
    assert forall|k: int|
        0 <= k < before.len() && has_id(mid, (#[trigger] before[k]).id) && (forall|j1: int|
            0 <= j1 < snap.len() && snap[j1].id == before[k].id ==> !usable(b, snap[j1]))
            implies mid.contains(before[k]) by {
        assert(mid[k] == before[k]);
    }
    assert forall|m: int|
        0 <= m < mid.len() && !has_id(before, (#[trigger] mid[m]).id) implies exists|j1: int|
            0 <= j1 < snap.len() && usable(b, snap[j1]) && (#[trigger] snap[j1]).id == mid[m].id
                && mid[m].client_owner_id == snap[j1].client_owner_id by {
        if m < before.len() {
            assert(mid[m].id == before[m].id);
        }
    }
    assert forall|k: int|
        0 <= k < before.len() && !in_snapshot(snap, (#[trigger] before[k]).id) implies mid.contains(
        before[k],
    ) by {
        assert(mid[k] == before[k]);
    }
    if b.vertexes@.len() == 0 && before.len() == 0 && mid.len() > 0 {
        let j1 = choose|j1: int|
            0 <= j1 < snap.len() && usable(b, snap[j1]) && (#[trigger] snap[j1]).id
                == (#[trigger] mid[0]).id && mid[0].client_owner_id == snap[j1].client_owner_id;
    }
}

/// Removing the players a snapshot omits from a roster to which its entries were applied
/// keeps every fact of `snapshot_applied`.
proof fn lemma_despawn_keeps_applied(
    b: Board,
    before: Seq<Player>,
    mid: Seq<Player>,
    after: Seq<Player>,
    snap: Seq<protocol::Player>,
)
    requires
        snapshot_applied(b, before, mid, snap),
        forall|x: int, y: int|
            0 <= x < mid.len() && 0 <= y < mid.len() && x != y ==> (#[trigger] mid[x]).id != (
            #[trigger] mid[y]).id,
        forall|m: int| 0 <= m < after.len() ==> in_snapshot(snap, (#[trigger] after[m]).id),
        forall|m: int| 0 <= m < after.len() ==> mid.contains(#[trigger] after[m]),
        forall|k: int|
            0 <= k < mid.len() && in_snapshot(snap, (#[trigger] mid[k]).id) ==> after.contains(mid[k]),
    ensures
        snapshot_applied(b, before, after, snap),
{
    assert forall|k: int|
        0 <= k < before.len() && in_snapshot(snap, (#[trigger] before[k]).id) implies has_id(
        after,
        before[k].id,
    ) by {
        let k1 = choose|k1: int| 0 <= k1 < mid.len() && (#[trigger] mid[k1]).id == before[k].id;
        let m = choose|m: int| 0 <= m < after.len() && after[m] == mid[k1];
        assert(after[m].id == before[k].id);
    }
    assert forall|j: int|
        0 <= j < snap.len() && usable(b, #[trigger] snap[j]) && (forall|j2: int|
            j < j2 < snap.len() ==> snap[j2].id != snap[j].id) implies exists|m: int|
            0 <= m < after.len() && reflects(b, after[m], snap[j]) by {
        let k = choose|k: int| 0 <= k < mid.len() && reflects(b, mid[k], snap[j]);
        assert(in_snapshot(snap, mid[k].id));
        let m = choose|m: int| 0 <= m < after.len() && after[m] == mid[k];
    }
    assert forall|k: int|
        0 <= k < before.len() && has_id(after, (#[trigger] before[k]).id) && (forall|j: int|
            0 <= j < snap.len() && snap[j].id == before[k].id ==> !usable(b, snap[j]))
            implies after.contains(before[k]) by {
        let m = choose|m: int| 0 <= m < after.len() && (#[trigger] after[m]).id == before[k].id;
        assert(mid.contains(after[m]));
        let k1 = choose|k1: int| 0 <= k1 < mid.len() && mid[k1] == after[m];
        assert(has_id(mid, before[k].id));
        assert(mid.contains(before[k]));
        let k2 = choose|k2: int| 0 <= k2 < mid.len() && mid[k2] == before[k];
        assert(k1 == k2);
        assert(after[m] == before[k]);
    }
    assert forall|m: int|
        0 <= m < after.len() && !has_id(before, (#[trigger] after[m]).id) implies exists|j: int|
            0 <= j < snap.len() && usable(b, snap[j]) && (#[trigger] snap[j]).id == after[m].id
                && after[m].client_owner_id == snap[j].client_owner_id by {
        assert(mid.contains(after[m]));
        let k1 = choose|k1: int| 0 <= k1 < mid.len() && mid[k1] == after[m];
        assert(!has_id(before, mid[k1].id));
    }
}

/// Some player of `ps` has identifier `id`.
pub open spec fn has_id(ps: Seq<Player>, id: u32) -> bool {
    exists|k: int| 0 <= k < ps.len() && (#[trigger] ps[k]).id == id
}

/// Some entry of the snapshot has identifier `id`.
pub open spec fn in_snapshot(snap: Seq<protocol::Player>, id: u32) -> bool {
    exists|j: int| 0 <= j < snap.len() && (#[trigger] snap[j]).id == id
}

/// Brings player `p` in line with snapshot entry `e`: its next junction becomes the only
/// target; without one the player stops exactly at the entry's position.
fn reconcile_player(p: &mut Player, e: protocol::Player)
    requires
        old(p).wf(),
        (Point { x: e.x, y: e.y }).in_range(),
    ensures
        final(p).wf(),
        final(p).id == old(p).id,
        final(p).client_owner_id == old(p).client_owner_id,
        final(p).current_vertex == e.current_vertex,
        final(p).roation_index == e.rotation,
        e.next_vertex matches Some(t) ==> !final(p).idle() && final(p).queue() == seq![t],
        e.next_vertex is None ==> final(p).idle() && final(p).pos == (Point { x: e.x, y: e.y }),
{
    p.current_vertex = e.current_vertex;
    p.roation_index = e.rotation;
    p.clear_queue();
    match e.next_vertex {
        Some(t) => {
            p.enqueue(t);
            assert(p.queue() =~= seq![t]);
        },
        None => {
            p.pos = Point { x: e.x, y: e.y };
        },
    }
}

/// The junctions of `adj`, in order, that are selected and not filled: the move requests
/// that a selection produces.
pub open spec fn selectable(adj: Seq<u32>, selected: Seq<u32>, occ: Seq<bool>) -> Seq<u32>
    decreases adj.len(),
{
    if adj.len() == 0 {
        seq![]
    } else {
        let prev = selectable(adj.drop_last(), selected, occ);
        let v = adj.last();
        if selected.contains(v) && v < occ.len() && !occ[v as int] {
            prev.push(v)
        } else {
            prev
        }
    }
}

/// What a server message means to the person at this client.
#[derive(Debug)]
pub enum ClientNotice {
    Nothing,
    Joined { username: String },
    Left { username: String },
    Chat { username: String, message: String },
    UnknownClient { client_id: u64 },
}

/// A client's mirror of the board and the players.
#[derive(Debug)]
pub struct ClientState {
    pub board: Board,
    pub occupancy: Occupancy,
    pub players: Vec<Player>,
    /// The joined sessions, and this client's own.
    pub users: Users,
    pub map_is_init: bool,
    /// Players missing from a snapshot are removed on every this many-th snapshot (every
    /// snapshot when at most 1).
    pub despawn_interval: u32,
    /// Snapshots applied since players were last removed.
    pub snapshots_since_despawn: u32,
}

impl ClientState {
    /// Board and occupancy agree in size; every player stands on a known junction within
    /// range, and no two players share an identifier. Before the board arrives there are
    /// neither junctions nor players.
    pub open spec fn wf(self) -> bool {
        let ps = self.players@;
        &&& self.board.wf()
        &&& self.users.wf()
        &&& self.occupancy@.len() == self.board.vertexes@.len()
        &&& !self.map_is_init ==> self.board.vertexes@.len() == 0 && ps.len() == 0
        &&& forall|k: int|
            0 <= k < ps.len() ==> (#[trigger] ps[k]).wf() && self.board.has_vertex(ps[k].current_vertex)
        &&& forall|a: int, b: int|
            0 <= a < ps.len() && 0 <= b < ps.len() && a != b ==> (#[trigger] ps[a]).id != (
            #[trigger] ps[b]).id
    }

    /// A client of session `self_id` that has not received the board yet.
    pub fn new(self_id: u64) -> (r: ClientState)
        ensures
            r.wf(),
            r.users.self_id == self_id,
            !r.map_is_init,
            r.players@.len() == 0,
            r.board.vertexes@.len() == 0,
            r.despawn_interval == 1,
            r.snapshots_since_despawn == 0,
    {
        ClientState {
            board: Board { vertexes: Vec::new(), edges: Vec::new(), materials: Vec::new() },
            occupancy: Occupancy::new(0),
            players: Vec::new(),
            users: Users::new(self_id),
            map_is_init: false,
            despawn_interval: 1,
            snapshots_since_despawn: 0,
        }
    }

    /// The snapshot being applied next is one on which missing players are removed.
    pub open spec fn despawn_due(self) -> bool {
        self.snapshots_since_despawn + 1 >= self.despawn_interval
    }

    /// Sets how many snapshots pass between two removals of missing players.
    pub fn set_despawn_interval(&mut self, n: u32)
        requires
            old(self).wf(),
        ensures
            final(self).wf(),
            final(self).despawn_interval == n,
            final(self).snapshots_since_despawn == old(self).snapshots_since_despawn,
            final(self).players@ == old(self).players@,
            final(self).board == old(self).board,
            final(self).occupancy@ == old(self).occupancy@,
            final(self).users == old(self).users,
            final(self).map_is_init == old(self).map_is_init,
    {
        self.despawn_interval = n;
    }

    /// Index of the player with identifier `id`, if any.
    pub fn find_player(&self, id: u32) -> (r: Option<usize>)
        ensures
            r is None <==> !has_id(self.players@, id),
            r matches Some(k) ==> k < self.players@.len() && self.players@[k as int].id == id,
    {
        let mut k: usize = 0;
        while k < self.players.len()
            invariant
                k <= self.players@.len(),
                forall|m: int| 0 <= m < k ==> (#[trigger] self.players@[m]).id != id,
            decreases self.players@.len() - k,
        {
            if self.players[k].id == id {
                return Some(k);
            }
            k = k + 1;
        }
        None
    }

    /// Applies one snapshot entry: a known player is brought in line with it; an unknown one
    /// is spawned on the entry's junction and then brought in line. An entry the client
    /// cannot place changes nothing. Fill flags are left to the server's board deltas.
    pub fn apply_entry(&mut self, e: protocol::Player)
        requires
            old(self).wf(),
        ensures
            final(self).wf(),
            final(self).board == old(self).board,
            final(self).users == old(self).users,
            final(self).map_is_init == old(self).map_is_init,
            final(self).occupancy@ == old(self).occupancy@,
            final(self).despawn_interval == old(self).despawn_interval,
            final(self).snapshots_since_despawn == old(self).snapshots_since_despawn,
            !usable(old(self).board, e) ==> final(self).players@ == old(self).players@,
            usable(old(self).board, e) ==> {
                let n0 = old(self).players@.len();
                let ps = final(self).players@;
                &&& has_id(old(self).players@, e.id) ==> ps.len() == n0
                &&& !has_id(old(self).players@, e.id) ==> ps.len() == n0 + 1 && ps[n0 as int].id
                    == e.id && ps[n0 as int].client_owner_id == e.client_owner_id
                &&& exists|k: int| 0 <= k < ps.len() && reflects(old(self).board, #[trigger] ps[k], e)
                &&& forall|k: int|
                    0 <= k < n0 && (#[trigger] old(self).players@[k]).id != e.id ==> ps[k]
                        == old(self).players@[k]
                &&& forall|k: int|
                    0 <= k < n0 ==> (#[trigger] ps[k]).id == old(self).players@[k].id
                        && ps[k].client_owner_id == old(self).players@[k].client_owner_id
            },
    {
        let pos = Point { x: e.x, y: e.y };
        let next_ok = match e.next_vertex {
            Some(t) => self.board.vertex_exists(t),
            None => true,
        };
        if !self.board.vertex_exists(e.current_vertex) || !pos.is_in_range() || !next_ok {
            return;
        }
        let ghost ps0 = self.players@;
        let k = match self.find_player(e.id) {
            Some(k) => k,
            None => {
                let start = self.board.vertexes[e.current_vertex as usize].pos;
                self.players.push(Player::new(e.id, e.current_vertex, start, e.client_owner_id));
                proof {
                    let ps = self.players@;
                    assert forall|a: int, b: int|
                        0 <= a < ps.len() && 0 <= b < ps.len() && a != b implies (#[trigger] ps[a]).id
                            != (#[trigger] ps[b]).id by {
                        if a == ps0.len() {
                            assert(ps0[b].id != e.id);
                        } else if b == ps0.len() {
                            assert(ps0[a].id != e.id);
                        } else {
                            assert(ps[a] == ps0[a] && ps[b] == ps0[b]);
                        }
                    }
                    assert forall|m: int| 0 <= m < ps0.len() implies ps[m] == ps0[m] by {}
                }
                self.players.len() - 1
            },
        };
        let ghost ps1 = self.players@;
        proof {
            assert forall|m: int| 0 <= m < ps1.len() && m != k implies ps1[m].id != e.id by {
                assert(ps1[m].id != ps1[k as int].id);
            }
        }
        reconcile_player(&mut self.players[k], e);
        proof {
            let ps = self.players@;
            assert forall|m: int| 0 <= m < ps.len() && m != k implies ps[m] == ps1[m] by {}
            assert(reflects(self.board, ps[k as int], e));
            assert forall|a: int, b: int|
                0 <= a < ps.len() && 0 <= b < ps.len() && a != b implies (#[trigger] ps[a]).id != (
                #[trigger] ps[b]).id by {
                assert(ps1[a].id != ps1[b].id);
            }
        }
    }

    /// Whether some entry of the snapshot has identifier `id`.
    fn snapshot_has(snap: &Vec<protocol::Player>, id: u32) -> (r: bool)
        ensures
            r == in_snapshot(snap@, id),
    {
        let mut j: usize = 0;
        while j < snap.len()
            invariant
                j <= snap@.len(),
                forall|m: int| 0 <= m < j ==> (#[trigger] snap@[m]).id != id,
            decreases snap@.len() - j,
        {
            if snap[j].id == id {
                return true;
            }
            j = j + 1;
        }
        false
    }

    /// Removes every player that the snapshot does not list; the others stay as they are.
    pub fn despawn_missing(&mut self, snap: &Vec<protocol::Player>)
        requires
            old(self).wf(),
        ensures
            final(self).wf(),
            final(self).board == old(self).board,
            final(self).occupancy@ == old(self).occupancy@,
            final(self).users == old(self).users,
            final(self).map_is_init == old(self).map_is_init,
            final(self).despawn_interval == old(self).despawn_interval,
            forall|m: int|
                0 <= m < final(self).players@.len() ==> in_snapshot(
                    snap@,
                    (#[trigger] final(self).players@[m]).id,
                ),
            forall|m: int|
                0 <= m < final(self).players@.len() ==> old(self).players@.contains(
                    #[trigger] final(self).players@[m],
                ),
            forall|k: int|
                0 <= k < old(self).players@.len() && in_snapshot(
                    snap@,
                    (#[trigger] old(self).players@[k]).id,
                ) ==> final(self).players@.contains(old(self).players@[k]),
    {
        let ghost ps0 = self.players@;
        proof {
            assert forall|i: int|
                0 <= i < ps0.len() && in_snapshot(snap@, (#[trigger] ps0[i]).id) implies self.players@.contains(ps0[i]) by {
                assert(self.players@[i] == ps0[i]);
            }
            assert forall|m: int| 0 <= m < self.players@.len() implies ps0.contains(#[trigger] self.players@[m]) by {
                assert(ps0[m] == self.players@[m]);
            }
        }
        let mut k: usize = 0;
        while k < self.players.len()
            invariant
                self.wf(),
                self.board == old(self).board,
                self.occupancy@ == old(self).occupancy@,
                self.users == old(self).users,
                self.despawn_interval == old(self).despawn_interval,
                self.map_is_init == old(self).map_is_init,
                ps0 == old(self).players@,
                k <= self.players@.len(),
                forall|m: int| 0 <= m < k ==> in_snapshot(snap@, (#[trigger] self.players@[m]).id),
                forall|m: int|
                    0 <= m < self.players@.len() ==> ps0.contains(#[trigger] self.players@[m]),
                forall|i: int|
                    0 <= i < ps0.len() && in_snapshot(snap@, (#[trigger] ps0[i]).id) ==> self.players@.contains(ps0[i]),
            decreases self.players@.len() - k,
        {
            if Self::snapshot_has(snap, self.players[k].id) {
                k = k + 1;
            } else {
                let ghost before = self.players@;
                let _gone = self.players.remove(k);
                proof {
                    let ps = self.players@;
                    assert forall|m: int| 0 <= m < ps.len() implies #[trigger] ps[m] == before[if m < k { m } else { m + 1 }] by {}
                    assert forall|m: int| 0 <= m < ps.len() implies ps[m].wf() && self.board.has_vertex(ps[m].current_vertex) by {
                        assert(ps[m] == before[if m < k { m } else { m + 1 }]);
                    }
                    assert forall|a: int, b: int|
                        0 <= a < ps.len() && 0 <= b < ps.len() && a != b implies (#[trigger] ps[a]).id
                            != (#[trigger] ps[b]).id by {
                        assert(ps[a] == before[if a < k { a } else { a + 1 }]);
                        assert(ps[b] == before[if b < k { b } else { b + 1 }]);
                    }
                    assert forall|m: int| 0 <= m < ps.len() implies ps0.contains(#[trigger] ps[m]) by {
                        assert(ps[m] == before[if m < k { m } else { m + 1 }]);
                        assert(before.contains(before[if m < k { m } else { m + 1 }]));
                    }
                    assert forall|i: int|
                        0 <= i < ps0.len() && in_snapshot(snap@, (#[trigger] ps0[i]).id) implies ps.contains(ps0[i]) by {
                        let m0 = choose|m: int| 0 <= m < before.len() && before[m] == ps0[i];
                        assert(m0 != k);
                        let m1 = if m0 < k { m0 } else { m0 - 1 };
                        assert(ps[m1] == ps0[i]);
                    }
                }
            }
        }
    }

    /// Applies each entry of a snapshot in order (see `apply_entry`).
    fn apply_entries(&mut self, snap: &Vec<protocol::Player>)
        requires
            old(self).wf(),
        ensures
            final(self).wf(),
            final(self).board == old(self).board,
            final(self).users == old(self).users,
            final(self).map_is_init == old(self).map_is_init,
            final(self).occupancy@ == old(self).occupancy@,
            final(self).despawn_interval == old(self).despawn_interval,
            final(self).snapshots_since_despawn == old(self).snapshots_since_despawn,
            snapshot_applied(old(self).board, old(self).players@, final(self).players@, snap@),
            forall|k: int|
                0 <= k < old(self).players@.len() && !in_snapshot(
                    snap@,
                    (#[trigger] old(self).players@[k]).id,
                ) ==> final(self).players@.contains(old(self).players@[k]),
            old(self).board.vertexes@.len() == 0 && old(self).players@.len() == 0
                ==> final(self).players@.len() == 0,
    {
        let ghost before = self.players@;
        let ghost n0 = before.len();
        let mut j: usize = 0;
        while j < snap.len()
            invariant
                self.wf(),
                self.board == old(self).board,
                self.users == old(self).users,
                self.map_is_init == old(self).map_is_init,
                self.occupancy@ == old(self).occupancy@,
                self.despawn_interval == old(self).despawn_interval,
                self.snapshots_since_despawn == old(self).snapshots_since_despawn,
                before == old(self).players@,
                n0 == before.len(),
                j <= snap@.len(),
                self.players@.len() >= n0,
                forall|k: int| 0 <= k < n0 ==> (#[trigger] self.players@[k]).id == before[k].id,
                forall|k: int|
                    0 <= k < n0 && (forall|j1: int|
                        0 <= j1 < j && snap@[j1].id == before[k].id ==> !usable(self.board, snap@[j1]))
                        ==> #[trigger] self.players@[k] == before[k],
                forall|m: int|
                    n0 <= m < self.players@.len() ==> exists|j1: int|
                        0 <= j1 < j && usable(self.board, snap@[j1]) && (#[trigger] snap@[j1]).id
                            == (#[trigger] self.players@[m]).id && self.players@[m].client_owner_id
                            == snap@[j1].client_owner_id,
                forall|j1: int|
                    0 <= j1 < j && usable(self.board, #[trigger] snap@[j1]) && (forall|j2: int|
                        j1 < j2 < j ==> snap@[j2].id != snap@[j1].id) ==> exists|m: int|
                        0 <= m < self.players@.len() && reflects(self.board, self.players@[m], snap@[j1]),
            decreases snap@.len() - j,
        {
            let e = snap[j];
            let ghost ps0 = self.players@;
            self.apply_entry(e);
            proof {
                let ps = self.players@;
                assert(snap@[j as int] == e);
                assert forall|k: int|
                    0 <= k < n0 && (forall|j1: int|
                        0 <= j1 < j + 1 && snap@[j1].id == before[k].id ==> !usable(self.board, snap@[j1]))
                        implies #[trigger] ps[k] == before[k] by {
                    if usable(self.board, e) {
                        assert(ps0[k].id == before[k].id);
                        assert(ps0[k].id != e.id);
                    }
                }
                assert forall|m: int| n0 <= m < ps.len() implies exists|j1: int|
                    0 <= j1 < j + 1 && usable(self.board, snap@[j1]) && (#[trigger] snap@[j1]).id
                        == (#[trigger] ps[m]).id && ps[m].client_owner_id == snap@[j1].client_owner_id by {
                    if m < ps0.len() {
                        let j1 = choose|j1: int|
                            0 <= j1 < j && usable(self.board, snap@[j1]) && (#[trigger] snap@[j1]).id
                                == (#[trigger] ps0[m]).id && ps0[m].client_owner_id == snap@[j1].client_owner_id;
                        if usable(self.board, e) {
                            assert(ps[m].id == ps0[m].id);
                            if ps0[m].id != e.id {
                                assert(ps[m] == ps0[m]);
                            }
                        }
                    } else {
                        assert(snap@[j as int].id == ps[m].id);
                    }
                }
                assert forall|j1: int|
                    0 <= j1 < j + 1 && usable(self.board, #[trigger] snap@[j1]) && (forall|j2: int|
                        j1 < j2 < j + 1 ==> snap@[j2].id != snap@[j1].id) implies exists|m: int|
                        0 <= m < ps.len() && reflects(self.board, ps[m], snap@[j1]) by {
                    if j1 < j {
                        assert(snap@[j as int].id != snap@[j1].id);
                        let m = choose|m: int| 0 <= m < ps0.len() && reflects(self.board, ps0[m], snap@[j1]);
                        if usable(self.board, e) {
                            assert(ps0[m].id != e.id);
                            assert(ps[m] == ps0[m]);
                        }
                        assert(reflects(self.board, ps[m], snap@[j1]));
                    }
                }
            }
            j = j + 1;
        }
        proof {
            lemma_entries_applied(self.board, before, self.players@, snap@);
        }
    }

    /// Applies a player snapshot: each entry in order (see `apply_entry`); then, when the
    /// despawn interval has come round, removes every local player the snapshot omits, and
    /// otherwise leaves them as they are. Fill flags are left to the server's board deltas.
    pub fn update_players(&mut self, snap: &Vec<protocol::Player>)
        requires
            old(self).wf(),
        ensures
            final(self).wf(),
            final(self).board == old(self).board,
            final(self).users == old(self).users,
            final(self).map_is_init == old(self).map_is_init,
            final(self).occupancy@ == old(self).occupancy@,
            final(self).despawn_interval == old(self).despawn_interval,
            snapshot_applied(old(self).board, old(self).players@, final(self).players@, snap@),
            !old(self).map_is_init ==> final(self).players@ == old(self).players@,
            old(self).despawn_due() ==> final(self).snapshots_since_despawn == 0 && forall|m: int|
                0 <= m < final(self).players@.len() ==> in_snapshot(
                    snap@,
                    (#[trigger] final(self).players@[m]).id,
                ),
            !old(self).despawn_due() ==> final(self).snapshots_since_despawn
                == old(self).snapshots_since_despawn + 1 && forall|k: int|
                0 <= k < old(self).players@.len() && !in_snapshot(
                    snap@,
                    (#[trigger] old(self).players@[k]).id,
                ) ==> final(self).players@.contains(old(self).players@[k]),
    {
        let ghost before = self.players@;
        self.apply_entries(snap);
        let ghost ps1 = self.players@;
        proof {
            if !self.map_is_init {
                assert(ps1 =~= before);
            }
        }
        let seen = self.snapshots_since_despawn.saturating_add(1);
        if seen >= self.despawn_interval {
            self.despawn_missing(snap);
            self.snapshots_since_despawn = 0;
            proof {
                lemma_despawn_keeps_applied(self.board, before, ps1, self.players@, snap@);
                if !self.map_is_init {
                    if self.players@.len() > 0 {
                        assert(ps1.contains(self.players@[0]));
                    }
                    assert(self.players@ =~= before);
                }
            }
        } else {
            self.snapshots_since_despawn = seen;
        }
    }

    /// Index of the player this client controls: the one owned by its own session.
    pub fn controlled_player(&self) -> (r: Option<usize>)
        ensures
            r is None <==> forall|k: int|
                0 <= k < self.players@.len() ==> (#[trigger] self.players@[k]).client_owner_id
                    != self.users.self_id,
            r matches Some(k) ==> k < self.players@.len() && self.players@[k as int].client_owner_id
                == self.users.self_id && forall|m: int|
                0 <= m < k ==> (#[trigger] self.players@[m]).client_owner_id != self.users.self_id,
    {
        let mut k: usize = 0;
        while k < self.players.len()
            invariant
                k <= self.players@.len(),
                forall|m: int| 0 <= m < k ==> (#[trigger] self.players@[m]).client_owner_id != self.users.self_id,
            decreases self.players@.len() - k,
        {
            if self.players[k].client_owner_id == self.users.self_id {
                return Some(k);
            }
            k = k + 1;
        }
        None
    }

    /// Move requests for the current selection: the junctions next to the controlled
    /// player's junction that are selected and free, in adjacency order. None while the
    /// controlled player is moving, or when there is none.
    pub fn move_my_player(&self, selected: &Vec<u32>) -> (r: Vec<u32>)
        requires
            self.wf(),
        ensures
            match self.controlled_index() {
                None => r@.len() == 0,
                Some(k) => {
                    let p = self.players@[k];
                    &&& !p.idle() ==> r@.len() == 0
                    &&& p.idle() ==> r@ == selectable(
                        self.board.vertexes@[p.current_vertex as int].adjacencies.vertex_list@,
                        selected@,
                        self.occupancy@,
                    )
                },
            },
    {
        let k = match self.controlled_player() {
            Some(k) => k,
            None => {
                return Vec::new();
            },
        };
        if !self.players[k].is_idle() {
            return Vec::new();
        }
        let adj = &self.board.vertexes[self.players[k].current_vertex as usize].adjacencies.vertex_list;
        let mut r: Vec<u32> = Vec::new();
        let mut j: usize = 0;
        while j < adj.len()
            invariant
                j <= adj@.len(),
                r@ == selectable(adj@.take(j as int), selected@, self.occupancy@),
            decreases adj@.len() - j,
        {
            let v = adj[j];
            proof {
                assert(adj@.take(j + 1).drop_last() == adj@.take(j as int));
                assert(adj@.take(j + 1).last() == v);
            }
            if contains_id(selected, v) && self.occupancy.is_free(v) {
                r.push(v);
            }
            j = j + 1;
        }
        proof {
            assert(adj@.take(adj@.len() as int) == adj@);
        }
        r
    }

    /// The first player owned by this client's session, if any.
    pub open spec fn controlled_index(self) -> Option<int> {
        if exists|k: int| 0 <= k < self.players@.len() && (#[trigger] self.players@[k]).client_owner_id == self.users.self_id {
            Some(choose|k: int| 0 <= k < self.players@.len() && (#[trigger] self.players@[k]).client_owner_id == self.users.self_id && forall|m: int| 0 <= m < k ==> (#[trigger] self.players@[m]).client_owner_id != self.users.self_id)
        } else {
            None
        }
    }

    /// Takes the board description sent on joining. When it can be rebuilt (see
    /// `board_from_init`) it replaces the board, every junction is free, the roster is
    /// emptied and the board counts as known; otherwise nothing changes. Returns whether it
    /// was taken.
    pub fn init_map(
        &mut self,
        vs: &Vec<protocol::Vertex>,
        es: &Vec<protocol::Edge>,
        ms: &Vec<protocol::Material>,
    ) -> (r: bool)
        requires
            old(self).wf(),
        ensures
            final(self).wf(),
            final(self).users == old(self).users,
            r == crate::sync::init_ok(vs@, es@, ms@),
            r ==> board_sent(final(self).board, vs@, es@, ms@) && final(self).map_is_init
                && final(self).players@.len() == 0 && final(self).occupancy@ == Seq::new(
                vs@.len(),
                |i: int| false,
            ),
            !r ==> final(self).board == old(self).board && final(self).players@ == old(
                self).players@ && final(self).occupancy@ == old(self).occupancy@
                && final(self).map_is_init == old(self).map_is_init,
    {
        match board_from_init(vs, es, ms) {
            Some(b) => {
                self.occupancy = Occupancy::new(b.vertexes.len());
                self.board = b;
                self.players = Vec::new();
                self.map_is_init = true;
                true
            },
            None => false,
        }
    }

    /// Advances every player by one tick of `elapsed_us` microseconds (see `Player::advance`)
    /// as a local prediction. Fill flags are left to the server's board deltas.
    pub fn move_players(&mut self, elapsed_us: u32)
        requires
            old(self).wf(),
        ensures
            final(self).wf(),
            final(self).board == old(self).board,
            final(self).users == old(self).users,
            final(self).map_is_init == old(self).map_is_init,
            final(self).occupancy@ == old(self).occupancy@,
            final(self).players@.len() == old(self).players@.len(),
            forall|i: int|
                0 <= i < old(self).players@.len() ==> ticked(
                    old(self).board,
                    old(self).players@[i],
                    #[trigger] final(self).players@[i],
                    elapsed_us,
                ),
    {
        let n = self.players.len();
        let mut i: usize = 0;
        while i < n
            invariant
                self.wf(),
                self.board == old(self).board,
                self.users == old(self).users,
                self.map_is_init == old(self).map_is_init,
                self.occupancy@ == old(self).occupancy@,
                n == self.players@.len(),
                n == old(self).players@.len(),
                i <= n,
                forall|k: int| i <= k < n ==> self.players@[k] == old(self).players@[k],
                forall|k: int|
                    0 <= k < i ==> ticked(
                        old(self).board,
                        old(self).players@[k],
                        #[trigger] self.players@[k],
                        elapsed_us,
                    ),
            decreases n - i,
        {
            let ghost ps0 = self.players@;
            let _ = self.players[i].advance(&self.board, elapsed_us);
            proof {
                let ps = self.players@;
                assert forall|k: int| 0 <= k < n && k != i implies ps[k] == ps0[k] by {}
                assert forall|a: int, b: int|
                    0 <= a < n && 0 <= b < n && a != b implies (#[trigger] ps[a]).id != (#[trigger] ps[b]).id by {
                    assert(ps0[a].id != ps0[b].id);
                }
            }
            i = i + 1;
        }
    }

    /// Name listed for session `c`, if any.
    fn name_of(&self, c: u64) -> (r: Option<String>)
        ensures
            r is Some <==> self.users.has(c),
            r matches Some(n) ==> exists|i: int|
                0 <= i < self.users.names@.len() && self.users.names@[i] == (c, n),
    {
        match self.users.index_of(c) {
            Some(i) => Some(self.users.names[i].1.clone()),
            None => None,
        }
    }

    /// Handles one message from the server and says what it means to the person here.
    pub fn handle_server_messages(&mut self, msg: ServerMessage) -> (r: ClientNotice)
        requires
            old(self).wf(),
        ensures
            final(self).wf(),
            match msg {
                ServerMessage::ClientConnected { client_id, username } => {
                    &&& final(self).users.self_id == old(self).users.self_id
                    &&& !old(self).users.has(client_id) ==> final(self).users.names@ == old(
                        self).users.names@.push((client_id, username))
                    &&& old(self).users.has(client_id) ==> exists|i: int|
                        0 <= i < old(self).users.names@.len() && (#[trigger] old(self).users.names@[i]).0
                            == client_id && final(self).users.names@ == old(self).users.names@.remove(
                            i,
                        ).push((client_id, username))
                    &&& r == (ClientNotice::Joined { username })
                    &&& final(self).players@ == old(self).players@
                    &&& final(self).occupancy@ == old(self).occupancy@
                },
                ServerMessage::ClientDisconnected { client_id } => {
                    &&& final(self).users.self_id == old(self).users.self_id
                    &&& !old(self).users.has(client_id) ==> final(self).users.names@ == old(
                        self).users.names@ && r == (ClientNotice::UnknownClient { client_id })
                    &&& old(self).users.has(client_id) ==> exists|i: int|
                        0 <= i < old(self).users.names@.len() && (#[trigger] old(self).users.names@[i]).0
                            == client_id && final(self).users.names@ == old(self).users.names@.remove(
                            i,
                        ) && r == (ClientNotice::Left { username: old(self).users.names@[i].1 })
                    &&& final(self).players@ == old(self).players@
                    &&& final(self).occupancy@ == old(self).occupancy@
                },
                ServerMessage::ChatMessage { client_id, message } => {
                    &&& final(self).users == old(self).users
                    &&& !old(self).users.has(client_id) ==> r == (ClientNotice::UnknownClient {
                        client_id,
                    })
                    &&& old(self).users.has(client_id) && client_id == old(self).users.self_id ==> r
                        == ClientNotice::Nothing
                    &&& old(self).users.has(client_id) && client_id != old(self).users.self_id ==> (r
                        matches ClientNotice::Chat { username, message: m } && m == message
                        && old(self).users.names@.contains((client_id, username)))
                },
                ServerMessage::InitClient { client_id, usernames } => {
                    &&& final(self).users.self_id == client_id
                    &&& final(self).users.names@ == first_names(usernames@)
                    &&& r == ClientNotice::Nothing
                    &&& final(self).players@ == old(self).players@
                },
                ServerMessage::InitMap { vertexes, edges, materials } => {
                    &&& r == ClientNotice::Nothing
                    &&& crate::sync::init_ok(vertexes@, edges@, materials@) ==> board_sent(
                        final(self).board,
                        vertexes@,
                        edges@,
                        materials@,
                    ) && final(self).map_is_init && final(self).players@.len() == 0
                    &&& !crate::sync::init_ok(vertexes@, edges@, materials@) ==> final(self).board
                        == old(self).board && final(self).players@ == old(self).players@
                        && final(self).occupancy@ == old(self).occupancy@
                    &&& final(self).users == old(self).users
                },
                ServerMessage::UpdatePlayers { players } => {
                    &&& r == ClientNotice::Nothing
                    &&& final(self).board == old(self).board
                    &&& final(self).users == old(self).users
                    &&& final(self).map_is_init == old(self).map_is_init
                    &&& final(self).occupancy@ == old(self).occupancy@
                    &&& snapshot_applied(old(self).board, old(self).players@, final(self).players@, players@)
                    &&& !old(self).map_is_init ==> final(self).players@ == old(self).players@
                    &&& old(self).despawn_due() ==> forall|m: int|
                        0 <= m < final(self).players@.len() ==> in_snapshot(
                            players@,
                            (#[trigger] final(self).players@[m]).id,
                        )
                    &&& !old(self).despawn_due() ==> forall|k: int|
                        0 <= k < old(self).players@.len() && !in_snapshot(
                            players@,
                            (#[trigger] old(self).players@[k]).id,
                        ) ==> final(self).players@.contains(old(self).players@[k])
                },
                ServerMessage::UpdateMap { vertexes, edges, materials } => {
                    &&& r == ClientNotice::Nothing
                    &&& final(self).occupancy@ == applied(old(self).occupancy@, vertexes@)
                    &&& final(self).players@ == old(self).players@
                    &&& final(self).board == old(self).board
                    &&& final(self).users == old(self).users
                },
            },
    {
        match msg {
            ServerMessage::ClientConnected { client_id, username } => {
                let _ = self.users.remove(client_id);
                let name = username.clone();
                self.users.insert(client_id, username);
                ClientNotice::Joined { username: name }
            },
            ServerMessage::ClientDisconnected { client_id } => {
                let ghost names0 = self.users.names@;
                match self.users.remove(client_id) {
                    Some(username) => {
                        ClientNotice::Left { username }
                    },
                    None => ClientNotice::UnknownClient { client_id },
                }
            },
            ServerMessage::ChatMessage { client_id, message } => {
                match self.name_of(client_id) {
                    Some(username) => {
                        if client_id != self.users.self_id {
                            proof {
                                let i = choose|i: int|
                                    0 <= i < self.users.names@.len() && self.users.names@[i] == (client_id, username);
                                assert(self.users.names@.contains((client_id, username)));
                            }
                            ClientNotice::Chat { username, message }
                        } else {
                            ClientNotice::Nothing
                        }
                    },
                    None => ClientNotice::UnknownClient { client_id },
                }
            },
            ServerMessage::InitClient { client_id, usernames } => {
                let mut users = Users::new(client_id);
                let mut names = usernames;
                let ghost all = names@;
                let mut i: usize = 0;
                while i < names.len()
                    invariant
                        users.wf(),
                        users.self_id == client_id,
                        names@ == all,
                        i <= names@.len(),
                        users.names@ == first_names(all.take(i as int)),
                    decreases names@.len() - i,
                {
                    let c = names[i].0;
                    let name = names[i].1.clone();
                    proof {
                        assert(all.take(i + 1).drop_last() == all.take(i as int));
                        assert(all.take(i + 1).last() == names@[i as int]);
                    }
                    users.insert(c, name);
                    i = i + 1;
                }
                proof {
                    assert(all.take(all.len() as int) == all);
                }
                self.users = users;
                ClientNotice::Nothing
            },
            ServerMessage::InitMap { vertexes, edges, materials } => {
                self.init_map(&vertexes, &edges, &materials);
                ClientNotice::Nothing
            },
            ServerMessage::UpdatePlayers { players } => {
                self.update_players(&players);
                ClientNotice::Nothing
            },
            ServerMessage::UpdateMap { vertexes, edges, materials } => {
                self.update_map(&vertexes);
                ClientNotice::Nothing
            },
        }
    }

    /// Sets each junction's flag verbatim from a board delta, in order; unknown junctions
    /// are skipped.
    pub fn update_map(&mut self, ups: &Vec<protocol::VertexUpdate>)
        requires
            old(self).wf(),
        ensures
            final(self).wf(),
            final(self).occupancy@ == applied(old(self).occupancy@, ups@),
            final(self).board == old(self).board,
            final(self).players@ == old(self).players@,
            final(self).users == old(self).users,
            final(self).map_is_init == old(self).map_is_init,
    {
        let mut j: usize = 0;
        while j < ups.len()
            invariant
                j <= ups@.len(),
                self.wf(),
                self.board == old(self).board,
                self.players@ == old(self).players@,
                self.users == old(self).users,
                self.map_is_init == old(self).map_is_init,
                self.occupancy@ == applied(old(self).occupancy@, ups@.take(j as int)),
            decreases ups@.len() - j,
        {
            let u = ups[j];
            proof {
                assert(ups@.take(j + 1).drop_last() == ups@.take(j as int));
                assert(ups@.take(j + 1).last() == u);
            }
            self.occupancy.set(u.id, u.filled);
            j = j + 1;
        }
        proof {
            assert(ups@.take(ups@.len() as int) == ups@);
        }
    }
}

} // verus!
