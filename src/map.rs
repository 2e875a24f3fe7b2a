use vstd::prelude::*;

use crate::geometry::{midpoint, mid, Point};

verus! {

/// Kind tag of a clickable map object.
pub const MAPCLICKABLE: u8 = 0;
/// Kind tag of a junction.
pub const VERTEX: u8 = 1;
/// Kind tag of a connector.
pub const EDGE: u8 = 2;
/// Kind tag of a resource site.
pub const MATERIAL: u8 = 3;

pub const BLUE: u8 = 0;
pub const YELLOW: u8 = 1;
pub const RED: u8 = 2;
pub const GREEN: u8 = 3;
pub const PURPLE: u8 = 4;
pub const ORANGE: u8 = 5;

/// Identifiers of the neighbours of a node, by kind of neighbour.
#[derive(Clone, Debug)]
pub struct Adjacencies {
    pub edge_list: Vec<u32>,
    pub vertex_list: Vec<u32>,
    pub material_list: Vec<u32>,
}

/// A copy of a list of identifiers.
pub fn copy_ids(v: &Vec<u32>) -> (r: Vec<u32>)
    ensures
        r@ == v@,
{
    let r = v.clone();
    assert(r@ =~= v@);
    r
}

impl Adjacencies {
    /// A copy of these lists.
    pub fn copy(&self) -> (r: Adjacencies)
        ensures
            r.edge_list@ == self.edge_list@,
            r.vertex_list@ == self.vertex_list@,
            r.material_list@ == self.material_list@,
    {
        Adjacencies {
            edge_list: copy_ids(&self.edge_list),
            vertex_list: copy_ids(&self.vertex_list),
            material_list: copy_ids(&self.material_list),
        }
    }
}

/// A junction: the occupiable node players move between.
#[derive(Debug)]
pub struct Vertex {
    pub id: u32,
    pub pos: Point,
    pub is_start: bool,
    pub adjacencies: Adjacencies,
}

/// A connector between two junctions. `direction` is the vector from its second
/// junction to its first, from which its drawn rotation follows.
#[derive(Debug)]
pub struct Edge {
    pub id: u32,
    pub pos: Point,
    pub direction: Point,
    pub adjacencies: Adjacencies,
}

/// A resource site, next to some junctions.
#[derive(Debug)]
pub struct Material {
    pub id: u32,
    pub pos: Point,
    pub material_type: u8,
    pub adjacencies: Adjacencies,
}

/// The board graph: each node stands at the index equal to its identifier.
#[derive(Debug)]
pub struct Board {
    pub vertexes: Vec<Vertex>,
    pub edges: Vec<Edge>,
    pub materials: Vec<Material>,
}

/// A pair of indices in a layout's connection list.
#[derive(Clone, Copy, Debug)]
pub struct Connection {
    pub a: i32,
    pub b: i32,
}

/// A resource site of a layout, with its color name.
#[derive(Debug)]
pub struct ManaPoint {
    pub pos: Point,
    pub color: String,
}

/// A parsed board layout. Junction `i` stands at `vertex_positions[i]`; a vertex connection
/// joins two junctions by index and is connector number its own index; a mana connection
/// joins resource site `a` to junction `b`.
#[derive(Debug)]
pub struct MapInitData {
    pub map_start_vertexes: Vec<u32>,
    pub vertex_positions: Vec<Point>,
    pub vertex_connections: Vec<Connection>,
    pub mana_points: Vec<ManaPoint>,
    pub mana_connections: Vec<Connection>,
}

/// Why a layout cannot become a board; each names the first offending entry.
#[derive(Clone, Copy, Debug, PartialEq, Eq, Structural)]
pub enum MalformedLayoutError {
    PositionOutOfRange { index: usize },
    BadVertexConnection { index: usize },
    ManaPositionOutOfRange { index: usize },
    UnknownColor { index: usize },
    BadManaConnection { index: usize },
}

/// The color code of a color name, if it is one of the six known names.
pub open spec fn color_code(s: Seq<char>) -> Option<u8> {
    if s == "blue"@ {
        Some(BLUE)
    } else if s == "yellow"@ {
        Some(YELLOW)
    } else if s == "red"@ {
        Some(RED)
    } else if s == "green"@ {
        Some(GREEN)
    } else if s == "purple"@ {
        Some(PURPLE)
    } else if s == "orange"@ {
        Some(ORANGE)
    } else {
        None
    }
}

/// Both ends of `c` are valid indices: `a` below `na`, `b` below `nb`.
pub open spec fn conn_in(c: Connection, na: int, nb: int) -> bool {
    0 <= c.a < na && 0 <= c.b < nb
}

/// Junction neighbours of junction `i`, in the order of the connections that name it.
pub open spec fn vertex_neighbors(conns: Seq<Connection>, i: int) -> Seq<u32>
    decreases conns.len(),
{
    if conns.len() == 0 {
        seq![]
    } else {
        let c = conns.last();
        let prev = vertex_neighbors(conns.drop_last(), i);
        let p = if c.a == i { prev.push(c.b as u32) } else { prev };
        if c.b == i { p.push(c.a as u32) } else { p }
    }
}

/// Connectors at junction `i`, once for each end of theirs at `i`.
pub open spec fn vertex_edges(conns: Seq<Connection>, i: int) -> Seq<u32>
    decreases conns.len(),
{
    if conns.len() == 0 {
        seq![]
    } else {
        let c = conns.last();
        let j = (conns.len() - 1) as u32;
        let prev = vertex_edges(conns.drop_last(), i);
        let p = if c.a == i { prev.push(j) } else { prev };
        if c.b == i { p.push(j) } else { p }
    }
}

/// Resource sites that mana connections join to junction `i`.
pub open spec fn vertex_materials(mcs: Seq<Connection>, i: int) -> Seq<u32>
    decreases mcs.len(),
{
    if mcs.len() == 0 {
        seq![]
    } else {
        let c = mcs.last();
        let prev = vertex_materials(mcs.drop_last(), i);
        if c.b == i { prev.push(c.a as u32) } else { prev }
    }
}

/// Junctions that mana connections join to resource site `k`.
pub open spec fn material_vertexes(mcs: Seq<Connection>, k: int) -> Seq<u32>
    decreases mcs.len(),
{
    if mcs.len() == 0 {
        seq![]
    } else {
        let c = mcs.last();
        let prev = material_vertexes(mcs.drop_last(), k);
        if c.a == k { prev.push(c.b as u32) } else { prev }
    }
}

impl MapInitData {
    /// The first `n` junction positions are within range.
    pub open spec fn positions_ok(self, n: int) -> bool {
        forall|i: int| 0 <= i < n ==> (#[trigger] self.vertex_positions@[i]).in_range()
    }

    /// The first `n` vertex connections name existing junctions.
    pub open spec fn connections_ok(self, n: int) -> bool {
        forall|j: int|
            0 <= j < n ==> conn_in(
                #[trigger] self.vertex_connections@[j],
                self.vertex_positions@.len() as int,
                self.vertex_positions@.len() as int,
            )
    }

    /// Resource site `k` stands within range and has a known color.
    pub open spec fn mana_point_ok(self, k: int) -> bool {
        self.mana_points@[k].pos.in_range() && color_code(self.mana_points@[k].color@) is Some
    }

    /// The first `n` resource sites are usable.
    pub open spec fn mana_points_ok(self, n: int) -> bool {
        forall|k: int| 0 <= k < n ==> #[trigger] self.mana_point_ok(k)
    }

    /// The first `n` mana connections name an existing resource site and junction.
    pub open spec fn mana_connections_ok(self, n: int) -> bool {
        forall|j: int|
            0 <= j < n ==> conn_in(
                #[trigger] self.mana_connections@[j],
                self.mana_points@.len() as int,
                self.vertex_positions@.len() as int,
            )
    }

    /// Every entry of the layout is usable.
    pub open spec fn valid(self) -> bool {
        &&& self.positions_ok(self.vertex_positions@.len() as int)
        &&& self.connections_ok(self.vertex_connections@.len() as int)
        &&& self.mana_points_ok(self.mana_points@.len() as int)
        &&& self.mana_connections_ok(self.mana_connections@.len() as int)
    }

    /// Every list of the layout is short enough for its indices to be `u32` identifiers.
    pub open spec fn fits(self) -> bool {
        &&& self.vertex_positions@.len() <= u32::MAX
        &&& self.vertex_connections@.len() <= u32::MAX
        &&& self.mana_points@.len() <= u32::MAX
    }

    /// Whether `v` is junction `i` of this layout.
    pub open spec fn vertex_described(self, i: int, v: Vertex) -> bool {
        let conns = self.vertex_connections@;
        &&& v.id == i
        &&& v.pos == self.vertex_positions@[i]
        &&& v.is_start == self.map_start_vertexes@.contains(i as u32)
        &&& v.adjacencies.edge_list@ == vertex_edges(conns, i)
        &&& v.adjacencies.vertex_list@ == vertex_neighbors(conns, i)
        &&& v.adjacencies.material_list@ == vertex_materials(self.mana_connections@, i)
    }

    /// Whether `e` is connector `j` of this layout: it stands halfway between its junctions.
    pub open spec fn edge_described(self, j: int, e: Edge) -> bool {
        let c = self.vertex_connections@[j];
        let pa = self.vertex_positions@[c.a as int];
        let pb = self.vertex_positions@[c.b as int];
        &&& e.id == j
        &&& e.pos == Point {
            x: mid(pa.x as int, pb.x as int) as i64,
            y: mid(pa.y as int, pb.y as int) as i64,
        }
        &&& e.direction == Point { x: (pa.x - pb.x) as i64, y: (pa.y - pb.y) as i64 }
        &&& e.adjacencies.edge_list@ == Seq::<u32>::empty()
        &&& e.adjacencies.vertex_list@ == seq![c.a as u32, c.b as u32]
        &&& e.adjacencies.material_list@ == Seq::<u32>::empty()
    }

    /// Whether `m` is resource site `k` of this layout.
    pub open spec fn material_described(self, k: int, m: Material) -> bool {
        &&& m.id == k
        &&& m.pos == self.mana_points@[k].pos
        &&& Some(m.material_type) == color_code(self.mana_points@[k].color@)
        &&& m.adjacencies.edge_list@ == Seq::<u32>::empty()
        &&& m.adjacencies.vertex_list@ == material_vertexes(self.mana_connections@, k)
        &&& m.adjacencies.material_list@ == Seq::<u32>::empty()
    }

    /// Whether `b` is the board that this layout describes.
    pub open spec fn describes(self, b: Board) -> bool {
        &&& b.vertexes@.len() == self.vertex_positions@.len()
        &&& b.edges@.len() == self.vertex_connections@.len()
        &&& b.materials@.len() == self.mana_points@.len()
        &&& forall|i: int|
            0 <= i < b.vertexes@.len() ==> self.vertex_described(i, #[trigger] b.vertexes@[i])
        &&& forall|j: int|
            0 <= j < b.edges@.len() ==> self.edge_described(j, #[trigger] b.edges@[j])
        &&& forall|k: int|
            0 <= k < b.materials@.len() ==> self.material_described(k, #[trigger] b.materials@[k])
    }
}

/// The code of a color name, if it is known.
pub fn color_of(s: &String) -> (r: Option<u8>)
    ensures
        r == color_code(s@),
{
    proof {
        reveal_strlit("blue");
        reveal_strlit("yellow");
        reveal_strlit("red");
        reveal_strlit("green");
        reveal_strlit("purple");
        reveal_strlit("orange");
    }
    if *s == "blue".to_owned() {
        Some(BLUE)
    } else if *s == "yellow".to_owned() {
        Some(YELLOW)
    } else if *s == "red".to_owned() {
        Some(RED)
    } else if *s == "green".to_owned() {
        Some(GREEN)
    } else if *s == "purple".to_owned() {
        Some(PURPLE)
    } else if *s == "orange".to_owned() {
        Some(ORANGE)
    } else {
        None
    }
}


/// The connectors and junction neighbours of junction `i`.
fn vertex_links(conns: &Vec<Connection>, i: u32) -> (r: (Vec<u32>, Vec<u32>))
    requires
        conns@.len() <= u32::MAX,
    ensures
        r.0@ == vertex_edges(conns@, i as int),
        r.1@ == vertex_neighbors(conns@, i as int),
{
    let mut edges: Vec<u32> = Vec::new();
    let mut nbrs: Vec<u32> = Vec::new();
    let mut j: usize = 0;
    while j < conns.len()
        invariant
            j <= conns@.len() <= u32::MAX,
            edges@ == vertex_edges(conns@.take(j as int), i as int),
            nbrs@ == vertex_neighbors(conns@.take(j as int), i as int),
        decreases conns@.len() - j,
    {
        let c = conns[j];
        proof {
            assert(conns@.take(j + 1).drop_last() == conns@.take(j as int));
            assert(conns@.take(j + 1).last() == c);
        }
        if c.a as i64 == i as i64 {
            edges.push(j as u32);
            nbrs.push(c.b as u32);
        }
        if c.b as i64 == i as i64 {
            edges.push(j as u32);
            nbrs.push(c.a as u32);
        }
        j = j + 1;
    }
    proof {
        assert(conns@.take(conns@.len() as int) == conns@);
    }
    (edges, nbrs)
}

/// Resource sites joined to junction `i` (`by_vertex`), or junctions joined to
/// resource site `i` (otherwise).
fn mana_links(mcs: &Vec<Connection>, i: u32, by_vertex: bool) -> (r: Vec<u32>)
    ensures
        by_vertex ==> r@ == vertex_materials(mcs@, i as int),
        !by_vertex ==> r@ == material_vertexes(mcs@, i as int),
{
    let mut out: Vec<u32> = Vec::new();
    let mut j: usize = 0;
    while j < mcs.len()
        invariant
            j <= mcs@.len(),
            by_vertex ==> out@ == vertex_materials(mcs@.take(j as int), i as int),
            !by_vertex ==> out@ == material_vertexes(mcs@.take(j as int), i as int),
        decreases mcs@.len() - j,
    {
        let c = mcs[j];
        proof {
            assert(mcs@.take(j + 1).drop_last() == mcs@.take(j as int));
            assert(mcs@.take(j + 1).last() == c);
        }
        if by_vertex {
            if c.b as i64 == i as i64 {
                out.push(c.a as u32);
            }
        } else {
            if c.a as i64 == i as i64 {
                out.push(c.b as u32);
            }
        }
        j = j + 1;
    }
    proof {
        assert(mcs@.take(mcs@.len() as int) == mcs@);
    }
    out
}

/// Whether `v` occurs in `s`.
pub fn contains_id(s: &Vec<u32>, v: u32) -> (r: bool)
    ensures
        r == s@.contains(v),
{
    let mut j: usize = 0;
    while j < s.len()
        invariant
            j <= s@.len(),
            forall|k: int| 0 <= k < j ==> s@[k] != v,
        decreases s@.len() - j,
    {
        if s[j] == v {
            return true;
        }
        j = j + 1;
    }
    false
}


/// `e` is the error that the first unusable entry of `l` gives: every entry checked
/// before it is usable.
pub open spec fn check_layout_result(l: MapInitData, e: MalformedLayoutError) -> bool {
    let nv = l.vertex_positions@.len() as int;
    let nm = l.mana_points@.len() as int;
    match e {
        MalformedLayoutError::PositionOutOfRange { index } => {
            &&& index < nv
            &&& l.positions_ok(index as int)
            &&& !l.vertex_positions@[index as int].in_range()
        },
        MalformedLayoutError::BadVertexConnection { index } => {
            &&& l.positions_ok(nv)
            &&& index < l.vertex_connections@.len()
            &&& l.connections_ok(index as int)
            &&& !conn_in(l.vertex_connections@[index as int], nv, nv)
        },
        MalformedLayoutError::ManaPositionOutOfRange { index } => {
            &&& l.positions_ok(nv)
            &&& l.connections_ok(l.vertex_connections@.len() as int)
            &&& index < nm
            &&& l.mana_points_ok(index as int)
            &&& !l.mana_points@[index as int].pos.in_range()
        },
        MalformedLayoutError::UnknownColor { index } => {
            &&& l.positions_ok(nv)
            &&& l.connections_ok(l.vertex_connections@.len() as int)
            &&& index < nm
            &&& l.mana_points_ok(index as int)
            &&& l.mana_points@[index as int].pos.in_range()
            &&& color_code(l.mana_points@[index as int].color@) is None
        },
        MalformedLayoutError::BadManaConnection { index } => {
            &&& l.positions_ok(nv)
            &&& l.connections_ok(l.vertex_connections@.len() as int)
            &&& l.mana_points_ok(nm)
            &&& index < l.mana_connections@.len()
            &&& l.mana_connections_ok(index as int)
            &&& !conn_in(l.mana_connections@[index as int], nm, nv)
        },
    }
}

/// Index of the first junction position out of range, if any.
fn first_bad_position(l: &MapInitData) -> (r: Option<usize>)
    ensures
        r is None ==> l.positions_ok(l.vertex_positions@.len() as int),
        r matches Some(i) ==> i < l.vertex_positions@.len() && l.positions_ok(i as int)
            && !l.vertex_positions@[i as int].in_range(),
{
    let mut i: usize = 0;
    while i < l.vertex_positions.len()
        invariant
            i <= l.vertex_positions@.len(),
            l.positions_ok(i as int),
        decreases l.vertex_positions@.len() - i,
    {
        if !l.vertex_positions[i].is_in_range() {
            return Some(i);
        }
        i = i + 1;
    }
    None
}

/// Whether both ends of `c` are valid indices: `a` below `na`, `b` below `nb`.
fn connection_in(c: Connection, na: usize, nb: usize) -> (r: bool)
    ensures
        r == conn_in(c, na as int, nb as int),
{
    c.a >= 0 && (c.a as u64) < (na as u64) && c.b >= 0 && (c.b as u64) < (nb as u64)
}

/// Index of the first vertex connection naming a missing junction, if any.
fn first_bad_connection(l: &MapInitData) -> (r: Option<usize>)
    ensures
        r is None ==> l.connections_ok(l.vertex_connections@.len() as int),
        r matches Some(j) ==> j < l.vertex_connections@.len() && l.connections_ok(j as int)
            && !conn_in(l.vertex_connections@[j as int], l.vertex_positions@.len() as int, l.vertex_positions@.len() as int),
{
    let n = l.vertex_positions.len();
    let mut j: usize = 0;
    while j < l.vertex_connections.len()
        invariant
            j <= l.vertex_connections@.len(),
            n == l.vertex_positions@.len(),
            l.connections_ok(j as int),
        decreases l.vertex_connections@.len() - j,
    {
        if !connection_in(l.vertex_connections[j], n, n) {
            return Some(j);
        }
        j = j + 1;
    }
    None
}

/// Index of the first mana connection naming a missing node, if any.
fn first_bad_mana_connection(l: &MapInitData) -> (r: Option<usize>)
    ensures
        r is None ==> l.mana_connections_ok(l.mana_connections@.len() as int),
        r matches Some(j) ==> j < l.mana_connections@.len() && l.mana_connections_ok(j as int)
            && !conn_in(l.mana_connections@[j as int], l.mana_points@.len() as int, l.vertex_positions@.len() as int),
{
    let nm = l.mana_points.len();
    let nv = l.vertex_positions.len();
    let mut j: usize = 0;
    while j < l.mana_connections.len()
        invariant
            j <= l.mana_connections@.len(),
            nm == l.mana_points@.len(),
            nv == l.vertex_positions@.len(),
            l.mana_connections_ok(j as int),
        decreases l.mana_connections@.len() - j,
    {
        if !connection_in(l.mana_connections[j], nm, nv) {
            return Some(j);
        }
        j = j + 1;
    }
    None
}

/// Checks every entry of a layout, reporting the first that cannot be used.
pub fn check_layout(l: &MapInitData) -> (r: Result<(), MalformedLayoutError>)
    ensures
        r is Ok <==> l.valid(),
        r matches Err(e) ==> check_layout_result(*l, e),
{
    if let Some(index) = first_bad_position(l) {
        return Err(MalformedLayoutError::PositionOutOfRange { index });
    }
    if let Some(index) = first_bad_connection(l) {
        return Err(MalformedLayoutError::BadVertexConnection { index });
    }
    let mut k: usize = 0;
    while k < l.mana_points.len()
        invariant
            k <= l.mana_points@.len(),
            l.positions_ok(l.vertex_positions@.len() as int),
            l.connections_ok(l.vertex_connections@.len() as int),
            l.mana_points_ok(k as int),
        decreases l.mana_points@.len() - k,
    {
        if !l.mana_points[k].pos.is_in_range() {
            assert(!l.mana_point_ok(k as int));
            return Err(MalformedLayoutError::ManaPositionOutOfRange { index: k });
        }
        if color_of(&l.mana_points[k].color).is_none() {
            assert(!l.mana_point_ok(k as int));
            return Err(MalformedLayoutError::UnknownColor { index: k });
        }
        k = k + 1;
    }
    if let Some(index) = first_bad_mana_connection(l) {
        return Err(MalformedLayoutError::BadManaConnection { index });
    }
    Ok(())
}


/// All entries of `s` are below `n`.
pub open spec fn ids_below(s: Seq<u32>, n: int) -> bool {
    forall|x: int| 0 <= x < s.len() ==> (#[trigger] s[x]) < n
}

impl Board {
    /// Every node stands at its identifier's index, within range, and names only existing
    /// nodes as neighbours.
    pub open spec fn wf(self) -> bool {
        let nv = self.vertexes@.len() as int;
        let ne = self.edges@.len() as int;
        let nm = self.materials@.len() as int;
        &&& nv <= u32::MAX + 1
        &&& forall|i: int|
            0 <= i < nv ==> {
                let v = #[trigger] self.vertexes@[i];
                &&& v.id == i
                &&& v.pos.in_range()
                &&& ids_below(v.adjacencies.vertex_list@, nv)
                &&& ids_below(v.adjacencies.edge_list@, ne)
                &&& ids_below(v.adjacencies.material_list@, nm)
            }
        &&& forall|j: int|
            0 <= j < ne ==> {
                let e = #[trigger] self.edges@[j];
                &&& e.id == j
                &&& e.pos.in_range()
                &&& ids_below(e.adjacencies.vertex_list@, nv)
                &&& ids_below(e.adjacencies.edge_list@, ne)
                &&& ids_below(e.adjacencies.material_list@, nm)
            }
        &&& forall|k: int|
            0 <= k < nm ==> {
                let m = #[trigger] self.materials@[k];
                &&& m.id == k
                &&& m.pos.in_range()
                &&& ids_below(m.adjacencies.vertex_list@, nv)
                &&& ids_below(m.adjacencies.edge_list@, ne)
                &&& ids_below(m.adjacencies.material_list@, nm)
            }
    }

    /// Junction `id` exists.
    pub open spec fn has_vertex(self, id: u32) -> bool {
        id < self.vertexes@.len()
    }

    /// Junction `to` is listed as a junction neighbour of junction `from`.
    pub open spec fn adjacent(self, from: u32, to: u32) -> bool {
        self.has_vertex(from) && self.vertexes@[from as int].adjacencies.vertex_list@.contains(to)
    }

    /// Whether junction `id` exists.
    pub fn vertex_exists(&self, id: u32) -> (r: bool)
        ensures
            r == self.has_vertex(id),
    {
        (id as usize) < self.vertexes.len()
    }

    /// Whether junction `to` is a junction neighbour of junction `from`.
    pub fn is_adjacent(&self, from: u32, to: u32) -> (r: bool)
        ensures
            r == self.adjacent(from, to),
    {
        if (from as usize) < self.vertexes.len() {
            contains_id(&self.vertexes[from as usize].adjacencies.vertex_list, to)
        } else {
            false
        }
    }
}

proof fn lemma_neighbors_below(conns: Seq<Connection>, i: int, n: int)
    requires
        forall|j: int| 0 <= j < conns.len() ==> conn_in(#[trigger] conns[j], n, n),
    ensures
        ids_below(vertex_neighbors(conns, i), n),
        ids_below(vertex_edges(conns, i), conns.len() as int),
    decreases conns.len(),
{
    if conns.len() > 0 {
        let pre = conns.drop_last();
        assert forall|j: int| 0 <= j < pre.len() implies conn_in(#[trigger] pre[j], n, n) by {
            assert(pre[j] == conns[j]);
        }
        lemma_neighbors_below(pre, i, n);
        assert(conn_in(conns[conns.len() - 1], n, n));
    }
}

proof fn lemma_mana_links_below(mcs: Seq<Connection>, i: int, nm: int, nv: int)
    requires
        forall|j: int| 0 <= j < mcs.len() ==> conn_in(#[trigger] mcs[j], nm, nv),
    ensures
        ids_below(vertex_materials(mcs, i), nm),
        ids_below(material_vertexes(mcs, i), nv),
    decreases mcs.len(),
{
    if mcs.len() > 0 {
        let pre = mcs.drop_last();
        assert forall|j: int| 0 <= j < pre.len() implies conn_in(#[trigger] pre[j], nm, nv) by {
            assert(pre[j] == mcs[j]);
        }
        lemma_mana_links_below(pre, i, nm, nv);
        assert(conn_in(mcs[mcs.len() - 1], nm, nv));
    }
}

proof fn lemma_described_board_wf(l: MapInitData, b: Board)
    requires
        l.valid(),
        l.fits(),
        l.describes(b),
    ensures
        b.wf(),
{
    let nv = l.vertex_positions@.len() as int;
    let nm = l.mana_points@.len() as int;
    assert forall|i: int| 0 <= i < nv implies {
        let v = #[trigger] b.vertexes@[i];
        &&& ids_below(v.adjacencies.vertex_list@, nv)
        &&& ids_below(v.adjacencies.edge_list@, b.edges@.len() as int)
        &&& ids_below(v.adjacencies.material_list@, nm)
        &&& v.pos.in_range()
    } by {
        assert(l.vertex_described(i, b.vertexes@[i]));
        assert(l.vertex_positions@[i].in_range());
        lemma_neighbors_below(l.vertex_connections@, i, nv);
        lemma_mana_links_below(l.mana_connections@, i, nm, nv);
    }
    assert forall|j: int| 0 <= j < b.edges@.len() implies {
        let e = #[trigger] b.edges@[j];
        &&& ids_below(e.adjacencies.vertex_list@, nv)
        &&& e.pos.in_range()
    } by {
        assert(l.edge_described(j, b.edges@[j]));
        let c = l.vertex_connections@[j];
        assert(conn_in(c, nv, nv));
        assert(l.vertex_positions@[c.a as int].in_range());
        assert(l.vertex_positions@[c.b as int].in_range());
    }
    assert forall|k: int| 0 <= k < nm implies {
        let m = #[trigger] b.materials@[k];
        &&& ids_below(m.adjacencies.vertex_list@, nv)
        &&& m.pos.in_range()
    } by {
        assert(l.material_described(k, b.materials@[k]));
        assert(l.mana_point_ok(k));
        lemma_mana_links_below(l.mana_connections@, k, nm, nv);
    }
}

/// Connection `c` joins junction `i` to junction `y`.
pub open spec fn links(c: Connection, i: int, y: u32) -> bool {
    (c.a == i && c.b as u32 == y) || (c.b == i && c.a as u32 == y)
}

proof fn lemma_neighbor_iff(conns: Seq<Connection>, i: int, y: u32)
    ensures
        vertex_neighbors(conns, i).contains(y) <==> exists|j: int|
            0 <= j < conns.len() && links(#[trigger] conns[j], i, y),
    decreases conns.len(),
{
    if conns.len() > 0 {
        let pre = conns.drop_last();
        let c = conns.last();
        lemma_neighbor_iff(pre, i, y);
        let prev = vertex_neighbors(pre, i);
        let p = if c.a == i { prev.push(c.b as u32) } else { prev };
        let full = vertex_neighbors(conns, i);
        assert(full == if c.b == i { p.push(c.a as u32) } else { p });
        if full.contains(y) {
            if !links(c, i, y) {
                assert(prev.contains(y)) by {
                    let w = choose|w: int| 0 <= w < full.len() && full[w] == y;
                    if c.a == i {
                        if c.b == i {
                            assert(w < prev.len());
                            assert(prev[w] == y);
                        } else {
                            assert(w < prev.len());
                            assert(prev[w] == y);
                        }
                    } else if c.b == i {
                        assert(w < prev.len());
                        assert(prev[w] == y);
                    } else {
                        assert(prev[w] == y);
                    }
                }
                let j = choose|j: int| 0 <= j < pre.len() && links(#[trigger] pre[j], i, y);
                assert(conns[j] == pre[j]);
            } else {
                assert(links(conns[conns.len() - 1], i, y));
            }
        }
        if exists|j: int| 0 <= j < conns.len() && links(#[trigger] conns[j], i, y) {
            let j = choose|j: int| 0 <= j < conns.len() && links(#[trigger] conns[j], i, y);
            if j < conns.len() - 1 {
                assert(pre[j] == conns[j]);
                assert(prev.contains(y));
                let w = choose|w: int| 0 <= w < prev.len() && prev[w] == y;
                assert(p[w] == y);
                assert(full[w] == y);
            } else {
                if c.a == i && c.b as u32 == y {
                    assert(p[prev.len() as int] == y);
                    assert(full[prev.len() as int] == y);
                } else {
                    assert(full[p.len() as int] == y);
                }
            }
        }
    }
}

/// On every board built from a layout, junction adjacency is symmetric: when junction `y`
/// is listed as a neighbour of junction `x`, `x` is listed as a neighbour of `y`.
pub proof fn lemma_adjacency_symmetric(l: MapInitData, b: Board, x: u32, y: u32)
    requires
        l.valid(),
        l.fits(),
        l.describes(b),
        b.adjacent(x, y),
    ensures
        b.adjacent(y, x),
{
    let conns = l.vertex_connections@;
    let nv = l.vertex_positions@.len() as int;
    assert(l.vertex_described(x as int, b.vertexes@[x as int]));
    lemma_described_board_wf(l, b);
    lemma_neighbor_iff(conns, x as int, y);
    let j = choose|j: int| 0 <= j < conns.len() && links(#[trigger] conns[j], x as int, y);
    assert(conn_in(conns[j], nv, nv));
    assert(links(conns[j], y as int, x));
    lemma_neighbor_iff(conns, y as int, x);
    let v = b.vertexes@[x as int];
    let w = choose|w: int| 0 <= w < v.adjacencies.vertex_list@.len() && v.adjacencies.vertex_list@[w] == y;
    assert(y < nv);
    assert(l.vertex_described(y as int, b.vertexes@[y as int]));
}

/// Builds the board that a layout describes, or reports the first entry that cannot be used.
pub fn setup(l: &MapInitData) -> (r: Result<Board, MalformedLayoutError>)
    requires
        l.fits(),
    ensures
        r is Ok <==> l.valid(),
        r matches Ok(b) ==> l.describes(b) && b.wf(),
        r matches Err(e) ==> check_layout_result(*l, e),
{
    match check_layout(l) {
        Err(e) => {
            return Err(e);
        },
        Ok(()) => {},
    }
    let nv = l.vertex_positions.len();
    let mut vertexes: Vec<Vertex> = Vec::new();
    let mut i: usize = 0;
    while i < nv
        invariant
            l.valid(),
            l.fits(),
            nv == l.vertex_positions@.len(),
            i <= nv,
            vertexes@.len() == i,
            forall|i2: int| 0 <= i2 < i ==> l.vertex_described(i2, #[trigger] vertexes@[i2]),
        decreases nv - i,
    {
        let (edge_list, vertex_list) = vertex_links(&l.vertex_connections, i as u32);
        let material_list = mana_links(&l.mana_connections, i as u32, true);
        let is_start = contains_id(&l.map_start_vertexes, i as u32);
        vertexes.push(Vertex {
            id: i as u32,
            pos: l.vertex_positions[i],
            is_start,
            adjacencies: Adjacencies { edge_list, vertex_list, material_list },
        });
        i = i + 1;
    }
    let mut edges: Vec<Edge> = Vec::new();
    let mut j: usize = 0;
    while j < l.vertex_connections.len()
        invariant
            l.valid(),
            l.fits(),
            nv == l.vertex_positions@.len(),
            j <= l.vertex_connections@.len(),
            edges@.len() == j,
            forall|j2: int| 0 <= j2 < j ==> l.edge_described(j2, #[trigger] edges@[j2]),
        decreases l.vertex_connections@.len() - j,
    {
        let c = l.vertex_connections[j];
        assert(conn_in(l.vertex_connections@[j as int], nv as int, nv as int));
        let pa = l.vertex_positions[c.a as usize];
        let pb = l.vertex_positions[c.b as usize];
        assert(l.vertex_positions@[c.a as int].in_range());
        assert(l.vertex_positions@[c.b as int].in_range());
        let mut vertex_list: Vec<u32> = Vec::new();
        vertex_list.push(c.a as u32);
        vertex_list.push(c.b as u32);
        edges.push(Edge {
            id: j as u32,
            pos: Point { x: midpoint(pa.x, pb.x), y: midpoint(pa.y, pb.y) },
            direction: Point { x: pa.x - pb.x, y: pa.y - pb.y },
            adjacencies: Adjacencies { edge_list: Vec::new(), vertex_list, material_list: Vec::new() },
        });
        proof {
            assert(edges@[j as int].adjacencies.vertex_list@ =~= seq![c.a as u32, c.b as u32]);
        }
        j = j + 1;
    }
    let mut materials: Vec<Material> = Vec::new();
    let mut k: usize = 0;
    while k < l.mana_points.len()
        invariant
            l.valid(),
            l.fits(),
            k <= l.mana_points@.len(),
            materials@.len() == k,
            forall|k2: int| 0 <= k2 < k ==> l.material_described(k2, #[trigger] materials@[k2]),
        decreases l.mana_points@.len() - k,
    {
        assert(l.mana_point_ok(k as int));
        let color = color_of(&l.mana_points[k].color);
        let material_type = match color {
            Some(c) => c,
            None => BLUE,
        };
        let vertex_list = mana_links(&l.mana_connections, k as u32, false);
        materials.push(Material {
            id: k as u32,
            pos: l.mana_points[k].pos,
            material_type,
            adjacencies: Adjacencies { edge_list: Vec::new(), vertex_list, material_list: Vec::new() },
        });
        k = k + 1;
    }
    let b = Board { vertexes, edges, materials };
    proof {
        lemma_described_board_wf(*l, b);
    }
    Ok(b)
}

} // verus!
