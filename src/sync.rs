use vstd::prelude::*;

use crate::geometry::Point;
use crate::map::{ids_below, Adjacencies, Board, Edge, Material, Vertex};
use crate::occupancy::Occupancy;
use crate::players::Player;
use crate::protocol;

verus! {

/// Interval between two snapshots, in microseconds: twenty per second.
pub const SNAPSHOT_INTERVAL_US: u64 = 50_000;

/// Two adjacency records hold the same lists.
pub open spec fn same_adjacency(a: Adjacencies, b: Adjacencies) -> bool {
    &&& a.edge_list@ == b.edge_list@
    &&& a.vertex_list@ == b.vertex_list@
    &&& a.material_list@ == b.material_list@
}

/// `m` describes junction `v`.
pub open spec fn vertex_sent(v: Vertex, m: protocol::Vertex) -> bool {
    &&& m.id == v.id
    &&& m.x == v.pos.x && m.y == v.pos.y
    &&& m.is_start_vertex == v.is_start
    &&& same_adjacency(m.adjacentices, v.adjacencies)
}

/// `m` describes connector `e`.
pub open spec fn edge_sent(e: Edge, m: protocol::Edge) -> bool {
    &&& m.id == e.id
    &&& m.x == e.pos.x && m.y == e.pos.y
    &&& m.dx == e.direction.x && m.dy == e.direction.y
    &&& same_adjacency(m.adjacentices, e.adjacencies)
}

/// `m` describes resource site `s`.
pub open spec fn material_sent(s: Material, m: protocol::Material) -> bool {
    &&& m.id == s.id
    &&& m.x == s.pos.x && m.y == s.pos.y
    &&& m.material_type == s.material_type
    &&& same_adjacency(m.adjacentices, s.adjacencies)
}

/// The three lists of a board description describe board `b`, node by node.
pub open spec fn board_sent(
    b: Board,
    vs: Seq<protocol::Vertex>,
    es: Seq<protocol::Edge>,
    ms: Seq<protocol::Material>,
) -> bool {
    &&& vs.len() == b.vertexes@.len()
    &&& es.len() == b.edges@.len()
    &&& ms.len() == b.materials@.len()
    &&& forall|i: int| 0 <= i < vs.len() ==> vertex_sent(b.vertexes@[i], #[trigger] vs[i])
    &&& forall|j: int| 0 <= j < es.len() ==> edge_sent(b.edges@[j], #[trigger] es[j])
    &&& forall|k: int| 0 <= k < ms.len() ==> material_sent(b.materials@[k], #[trigger] ms[k])
}

/// Adjacency ids of `a` name existing nodes of a board of the given sizes.
pub open spec fn adjacency_in(a: Adjacencies, nv: int, ne: int, nm: int) -> bool {
    &&& ids_below(a.vertex_list@, nv)
    &&& ids_below(a.edge_list@, ne)
    &&& ids_below(a.material_list@, nm)
}

/// A board description can be rebuilt into a board: node `i` of each list has
/// identifier `i`, stands within range, and names only nodes that the description holds.
pub open spec fn init_ok(vs: Seq<protocol::Vertex>, es: Seq<protocol::Edge>, ms: Seq<protocol::Material>) -> bool {
    let nv = vs.len() as int;
    let ne = es.len() as int;
    let nm = ms.len() as int;
    &&& nv <= u32::MAX + 1
    &&& forall|i: int|
        0 <= i < nv ==> {
            let m = #[trigger] vs[i];
            &&& m.id == i
            &&& (Point { x: m.x, y: m.y }).in_range()
            &&& adjacency_in(m.adjacentices, nv, ne, nm)
        }
    &&& forall|j: int|
        0 <= j < ne ==> {
            let m = #[trigger] es[j];
            &&& m.id == j
            &&& (Point { x: m.x, y: m.y }).in_range()
            &&& adjacency_in(m.adjacentices, nv, ne, nm)
        }
    &&& forall|k: int|
        0 <= k < nm ==> {
            let m = #[trigger] ms[k];
            &&& m.id == k
            &&& (Point { x: m.x, y: m.y }).in_range()
            &&& adjacency_in(m.adjacentices, nv, ne, nm)
        }
}

/// The snapshot entry of player `p`.
pub open spec fn player_entry(p: Player) -> protocol::Player {
    protocol::Player {
        id: p.id,
        x: p.pos.x,
        y: p.pos.y,
        rotation: p.roation_index,
        current_vertex: p.current_vertex,
        next_vertex: if p.queue().len() > 0 { Some(p.queue()[0]) } else { None },
        client_owner_id: p.client_owner_id,
    }
}

/// The full description of board `b` that a newly joined client receives.
pub fn handle_init_map_send(b: &Board) -> (r: (Vec<protocol::Vertex>, Vec<protocol::Edge>, Vec<protocol::Material>))
    ensures
        board_sent(*b, r.0@, r.1@, r.2@),
{
    let mut vs: Vec<protocol::Vertex> = Vec::new();
    let mut i: usize = 0;
    while i < b.vertexes.len()
        invariant
            i <= b.vertexes@.len(),
            vs@.len() == i,
            forall|k: int| 0 <= k < i ==> vertex_sent(b.vertexes@[k], #[trigger] vs@[k]),
        decreases b.vertexes@.len() - i,
    {
        let v = &b.vertexes[i];
        vs.push(protocol::Vertex {
            id: v.id,
            adjacentices: v.adjacencies.copy(),
            x: v.pos.x,
            y: v.pos.y,
            is_start_vertex: v.is_start,
        });
        i = i + 1;
    }
    let mut es: Vec<protocol::Edge> = Vec::new();
    let mut j: usize = 0;
    while j < b.edges.len()
        invariant
            j <= b.edges@.len(),
            es@.len() == j,
            forall|k: int| 0 <= k < j ==> edge_sent(b.edges@[k], #[trigger] es@[k]),
        decreases b.edges@.len() - j,
    {
        let e = &b.edges[j];
        es.push(protocol::Edge {
            id: e.id,
            adjacentices: e.adjacencies.copy(),
            x: e.pos.x,
            y: e.pos.y,
            dx: e.direction.x,
            dy: e.direction.y,
        });
        j = j + 1;
    }
    let mut ms: Vec<protocol::Material> = Vec::new();
    let mut k: usize = 0;
    while k < b.materials.len()
        invariant
            k <= b.materials@.len(),
            ms@.len() == k,
            forall|q: int| 0 <= q < k ==> material_sent(b.materials@[q], #[trigger] ms@[q]),
        decreases b.materials@.len() - k,
    {
        let m = &b.materials[k];
        ms.push(protocol::Material {
            id: m.id,
            adjacentices: m.adjacencies.copy(),
            x: m.pos.x,
            y: m.pos.y,
            material_type: m.material_type,
        });
        k = k + 1;
    }
    (vs, es, ms)
}

/// The fill flag of every junction, in identifier order.
pub fn update_map(occ: &Occupancy) -> (r: Vec<protocol::VertexUpdate>)
    requires
        occ@.len() <= u32::MAX + 1,
    ensures
        r@.len() == occ@.len(),
        forall|i: int|
            0 <= i < r@.len() ==> #[trigger] r@[i] == (protocol::VertexUpdate {
                id: i as u32,
                filled: occ@[i],
            }),
{
    let mut r: Vec<protocol::VertexUpdate> = Vec::new();
    let mut i: usize = 0;
    while i < occ.filled.len()
        invariant
            i <= occ@.len() <= u32::MAX + 1,
            r@.len() == i,
            forall|k: int|
                0 <= k < i ==> #[trigger] r@[k] == (protocol::VertexUpdate {
                    id: k as u32,
                    filled: occ@[k],
                }),
        decreases occ@.len() - i,
    {
        r.push(protocol::VertexUpdate { id: i as u32, filled: occ.filled[i] });
        i = i + 1;
    }
    r
}

/// The snapshot entry of every player, in roster order.
pub fn send_game_state(players: &Vec<Player>) -> (r: Vec<protocol::Player>)
    requires
        forall|i: int| 0 <= i < players@.len() ==> (#[trigger] players@[i]).wf(),
    ensures
        r@.len() == players@.len(),
        forall|i: int| 0 <= i < r@.len() ==> #[trigger] r@[i] == player_entry(players@[i]),
{
    let mut r: Vec<protocol::Player> = Vec::new();
    let mut i: usize = 0;
    while i < players.len()
        invariant
            i <= players@.len(),
            forall|k: int| 0 <= k < players@.len() ==> (#[trigger] players@[k]).wf(),
            r@.len() == i,
            forall|k: int| 0 <= k < i ==> #[trigger] r@[k] == player_entry(players@[k]),
        decreases players@.len() - i,
    {
        let p = &players[i];
        r.push(protocol::Player {
            id: p.id,
            x: p.pos.x,
            y: p.pos.y,
            rotation: p.roation_index,
            current_vertex: p.current_vertex,
            next_vertex: p.next_vertex(),
            client_owner_id: p.client_owner_id,
        });
        i = i + 1;
    }
    r
}

/// Time accumulated by timer `t` once `elapsed_us` more microseconds have passed, saturating
/// at the largest `u64`.
pub open spec fn accumulated(t: SnapshotTimer, elapsed_us: u64) -> int {
    if t.accumulated_us + elapsed_us > u64::MAX {
        u64::MAX as int
    } else {
        t.accumulated_us + elapsed_us
    }
}

/// A snapshot is due once the accumulated time reaches the interval.
pub open spec fn snapshot_due(t: SnapshotTimer, elapsed_us: u64) -> bool {
    accumulated(t, elapsed_us) >= SNAPSHOT_INTERVAL_US
}

/// The timer after a tick: the interval is subtracted when a snapshot is due.
pub open spec fn timer_after(t: SnapshotTimer, elapsed_us: u64) -> SnapshotTimer {
    SnapshotTimer {
        accumulated_us: (if snapshot_due(t, elapsed_us) {
            accumulated(t, elapsed_us) - SNAPSHOT_INTERVAL_US
        } else {
            accumulated(t, elapsed_us)
        }) as u64,
    }
}

/// Paces snapshots at a fixed cadence, independent of the tick rate.
#[derive(Clone, Copy, Debug, PartialEq, Eq, Structural)]
pub struct SnapshotTimer {
    pub accumulated_us: u64,
}

impl SnapshotTimer {
    pub fn new() -> (r: SnapshotTimer)
        ensures
            r.accumulated_us == 0,
    {
        SnapshotTimer { accumulated_us: 0 }
    }

    /// Adds a tick of `elapsed_us` microseconds; returns whether a snapshot is due. When one
    /// is, the interval is taken off the accumulated time rather than resetting it.
    pub fn tick(&mut self, elapsed_us: u64) -> (r: bool)
        ensures
            r == snapshot_due(*old(self), elapsed_us),
            *final(self) == timer_after(*old(self), elapsed_us),
    {
        let acc = self.accumulated_us.saturating_add(elapsed_us);
        if acc < SNAPSHOT_INTERVAL_US {
            self.accumulated_us = acc;
            false
        } else {
            self.accumulated_us = acc - SNAPSHOT_INTERVAL_US;
            true
        }
    }
}

/// Whether every id of `s` is below `n`.
fn all_below(s: &Vec<u32>, n: usize) -> (r: bool)
    ensures
        r == ids_below(s@, n as int),
{
    let mut i: usize = 0;
    while i < s.len()
        invariant
            i <= s@.len(),
            forall|k: int| 0 <= k < i ==> (#[trigger] s@[k]) < n,
        decreases s@.len() - i,
    {
        if (s[i] as usize) >= n {
            return false;
        }
        i = i + 1;
    }
    true
}

fn adjacency_within(a: &Adjacencies, nv: usize, ne: usize, nm: usize) -> (r: bool)
    ensures
        r == adjacency_in(*a, nv as int, ne as int, nm as int),
{
    all_below(&a.vertex_list, nv) && all_below(&a.edge_list, ne) && all_below(&a.material_list, nm)
}

/// Rebuilds a board from the description a client receives. Gives `None` exactly when the
/// description cannot be rebuilt (see `init_ok`); otherwise the board it describes.
pub fn board_from_init(
    vs: &Vec<protocol::Vertex>,
    es: &Vec<protocol::Edge>,
    ms: &Vec<protocol::Material>,
) -> (r: Option<Board>)
    ensures
        r is Some <==> init_ok(vs@, es@, ms@),
        r matches Some(b) ==> board_sent(b, vs@, es@, ms@) && b.wf(),
{
    let nv = vs.len();
    let ne = es.len();
    let nm = ms.len();
    if nv as u64 > 4_294_967_296u64 {
        return None;
    }
    let mut vertexes: Vec<Vertex> = Vec::new();
    let mut i: usize = 0;
    while i < nv
        invariant
            nv == vs@.len() <= u32::MAX + 1,
            ne == es@.len(),
            nm == ms@.len(),
            i <= nv,
            vertexes@.len() == i,
            forall|k: int|
                0 <= k < i ==> {
                    let m = #[trigger] vs@[k];
                    &&& m.id == k
                    &&& (Point { x: m.x, y: m.y }).in_range()
                    &&& adjacency_in(m.adjacentices, nv as int, ne as int, nm as int)
                    &&& vertex_sent(vertexes@[k], m)
                },
        decreases nv - i,
    {
        let m = &vs[i];
        let pos = Point { x: m.x, y: m.y };
        if m.id as usize != i || !pos.is_in_range() || !adjacency_within(&m.adjacentices, nv, ne, nm) {
            return None;
        }
        vertexes.push(Vertex { id: m.id, pos, is_start: m.is_start_vertex, adjacencies: m.adjacentices.copy() });
        i = i + 1;
    }
    let mut edges: Vec<Edge> = Vec::new();
    let mut j: usize = 0;
    while j < ne
        invariant
            nv == vs@.len() <= u32::MAX + 1,
            ne == es@.len(),
            nm == ms@.len(),
            j <= ne,
            edges@.len() == j,
            forall|k: int|
                0 <= k < j ==> {
                    let m = #[trigger] es@[k];
                    &&& m.id == k
                    &&& (Point { x: m.x, y: m.y }).in_range()
                    &&& adjacency_in(m.adjacentices, nv as int, ne as int, nm as int)
                    &&& edge_sent(edges@[k], m)
                },
        decreases ne - j,
    {
        let m = &es[j];
        let pos = Point { x: m.x, y: m.y };
        if m.id as usize != j || !pos.is_in_range() || !adjacency_within(&m.adjacentices, nv, ne, nm) {
            return None;
        }
        edges.push(Edge { id: m.id, pos, direction: Point { x: m.dx, y: m.dy }, adjacencies: m.adjacentices.copy() });
        j = j + 1;
    }
    let mut materials: Vec<Material> = Vec::new();
    let mut k: usize = 0;
    while k < nm
        invariant
            nv == vs@.len() <= u32::MAX + 1,
            ne == es@.len(),
            nm == ms@.len(),
            k <= nm,
            materials@.len() == k,
            forall|q: int|
                0 <= q < k ==> {
                    let m = #[trigger] ms@[q];
                    &&& m.id == q
                    &&& (Point { x: m.x, y: m.y }).in_range()
                    &&& adjacency_in(m.adjacentices, nv as int, ne as int, nm as int)
                    &&& material_sent(materials@[q], m)
                },
        decreases nm - k,
    {
        let m = &ms[k];
        let pos = Point { x: m.x, y: m.y };
        if m.id as usize != k || !pos.is_in_range() || !adjacency_within(&m.adjacentices, nv, ne, nm) {
            return None;
        }
        materials.push(Material { id: m.id, pos, material_type: m.material_type, adjacencies: m.adjacentices.copy() });
        k = k + 1;
    }
    let b = Board { vertexes, edges, materials };
    assert forall|i: int| 0 <= i < nv implies {
        let v = #[trigger] b.vertexes@[i];
        &&& v.id == i
        &&& v.pos.in_range()
        &&& adjacency_in(v.adjacencies, nv as int, ne as int, nm as int)
    } by {
        assert(vertex_sent(b.vertexes@[i], vs@[i]));
    }
    assert forall|j: int| 0 <= j < ne implies {
        let e = #[trigger] b.edges@[j];
        &&& e.id == j
        &&& e.pos.in_range()
        &&& adjacency_in(e.adjacencies, nv as int, ne as int, nm as int)
    } by {
        assert(edge_sent(b.edges@[j], es@[j]));
    }
    assert forall|k: int| 0 <= k < nm implies {
        let m = #[trigger] b.materials@[k];
        &&& m.id == k
        &&& m.pos.in_range()
        &&& adjacency_in(m.adjacencies, nv as int, ne as int, nm as int)
    } by {
        assert(material_sent(b.materials@[k], ms@[k]));
    }
    assert(b.vertexes@.len() == nv && b.edges@.len() == ne && b.materials@.len() == nm);
    assert(b.wf());
    Some(b)
}

/// A board description built from a well-formed board can be rebuilt, and every board
/// rebuilt from it has the source board's adjacency table, node by node.
pub proof fn lemma_init_round_trip(
    b: Board,
    vs: Seq<protocol::Vertex>,
    es: Seq<protocol::Edge>,
    ms: Seq<protocol::Material>,
    b2: Board,
)
    requires
        b.wf(),
        board_sent(b, vs, es, ms),
        board_sent(b2, vs, es, ms),
    ensures
        init_ok(vs, es, ms),
        b2.vertexes@.len() == b.vertexes@.len(),
        b2.edges@.len() == b.edges@.len(),
        b2.materials@.len() == b.materials@.len(),
        forall|i: int|
            0 <= i < b.vertexes@.len() ==> same_adjacency(
                (#[trigger] b2.vertexes@[i]).adjacencies,
                b.vertexes@[i].adjacencies,
            ),
        forall|j: int|
            0 <= j < b.edges@.len() ==> same_adjacency(
                (#[trigger] b2.edges@[j]).adjacencies,
                b.edges@[j].adjacencies,
            ),
        forall|k: int|
            0 <= k < b.materials@.len() ==> same_adjacency(
                (#[trigger] b2.materials@[k]).adjacencies,
                b.materials@[k].adjacencies,
            ),
{
    assert forall|i: int| 0 <= i < vs.len() implies {
        let m = #[trigger] vs[i];
        &&& m.id == i
        &&& (Point { x: m.x, y: m.y }).in_range()
        &&& adjacency_in(m.adjacentices, vs.len() as int, es.len() as int, ms.len() as int)
    } by {
        assert(vertex_sent(b.vertexes@[i], vs[i]));
    }
    assert forall|j: int| 0 <= j < es.len() implies {
        let m = #[trigger] es[j];
        &&& m.id == j
        &&& (Point { x: m.x, y: m.y }).in_range()
        &&& adjacency_in(m.adjacentices, vs.len() as int, es.len() as int, ms.len() as int)
    } by {
        assert(edge_sent(b.edges@[j], es[j]));
    }
    assert forall|k: int| 0 <= k < ms.len() implies {
        let m = #[trigger] ms[k];
        &&& m.id == k
        &&& (Point { x: m.x, y: m.y }).in_range()
        &&& adjacency_in(m.adjacentices, vs.len() as int, es.len() as int, ms.len() as int)
    } by {
        assert(material_sent(b.materials@[k], ms[k]));
    }
    assert forall|i: int| 0 <= i < b.vertexes@.len() implies same_adjacency(
        (#[trigger] b2.vertexes@[i]).adjacencies,
        b.vertexes@[i].adjacencies,
    ) by {
        assert(vertex_sent(b.vertexes@[i], vs[i]));
        assert(vertex_sent(b2.vertexes@[i], vs[i]));
    }
    assert forall|j: int| 0 <= j < b.edges@.len() implies same_adjacency(
        (#[trigger] b2.edges@[j]).adjacencies,
        b.edges@[j].adjacencies,
    ) by {
        assert(edge_sent(b.edges@[j], es[j]));
        assert(edge_sent(b2.edges@[j], es[j]));
    }
    assert forall|k: int| 0 <= k < b.materials@.len() implies same_adjacency(
        (#[trigger] b2.materials@[k]).adjacencies,
        b.materials@[k].adjacencies,
    ) by {
        assert(material_sent(b.materials@[k], ms[k]));
        assert(material_sent(b2.materials@[k], ms[k]));
    }
}

} // verus!
