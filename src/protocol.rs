use vstd::prelude::*;

use crate::map::Adjacencies;

verus! {

/// Kinds of event a client can ask the server to perform.
#[derive(Clone, Copy, Debug, PartialEq, Eq, Structural)]
pub enum ClientEvents {
    MOVE,
}

/// The kind of event that the client's pointer selection currently produces.
#[derive(Clone, Copy, Debug, PartialEq, Eq, Structural)]
pub struct CurrentClientEventTrigger(pub ClientEvents);

/// An event request received from session `client_id`.
#[derive(Clone, Copy, Debug, PartialEq, Eq, Structural)]
pub struct ClientEvent {
    pub name: ClientEvents,
    pub map_type: u8,
    pub type_id: u32,
    pub client_id: u64,
}

/// Whether this process is the server.
#[derive(Clone, Copy, Debug, PartialEq, Eq, Structural)]
pub struct IsServer(pub bool);

/// Fill state of one junction.
#[derive(Clone, Copy, Debug, PartialEq, Eq, Structural)]
pub struct VertexUpdate {
    pub id: u32,
    pub filled: bool,
}

/// Change of one connector.
#[derive(Clone, Copy, Debug, PartialEq, Eq, Structural)]
pub struct EdgeUpdate {
    pub id: u32,
}

/// Change of owner of one resource site.
#[derive(Clone, Copy, Debug, PartialEq, Eq, Structural)]
pub struct MaterialUpdate {
    pub id: u32,
    pub owner: u32,
}

/// A board delta as received by a client.
#[derive(Clone, Debug)]
pub struct ServerUpdateMapEvent {
    pub vertexes: Vec<VertexUpdate>,
    pub edges: Vec<EdgeUpdate>,
    pub materials: Vec<MaterialUpdate>,
}

/// A player snapshot as received by a client.
#[derive(Clone, Debug)]
pub struct ServerUpdatePlayerEvent {
    pub players: Vec<Player>,
}

/// Messages from a client to the server.
#[derive(Clone, Debug)]
pub enum ClientMessage {
    Join { name: String },
    Disconnect {},
    ChatMessage { message: String },
    SendEvent { name: ClientEvents, map_type: u8, type_id: u32 },
}

/// Messages from the server to clients.
#[derive(Clone, Debug)]
pub enum ServerMessage {
    ClientConnected { client_id: u64, username: String },
    ClientDisconnected { client_id: u64 },
    ChatMessage { client_id: u64, message: String },
    InitClient { client_id: u64, usernames: Vec<(u64, String)> },
    InitMap { vertexes: Vec<Vertex>, edges: Vec<Edge>, materials: Vec<Material> },
    UpdatePlayers { players: Vec<Player> },
    UpdateMap { vertexes: Vec<VertexUpdate>, edges: Vec<EdgeUpdate>, materials: Vec<MaterialUpdate> },
}

/// A junction as sent in a board description.
#[derive(Clone, Debug)]
pub struct Vertex {
    pub id: u32,
    pub adjacentices: Adjacencies,
    pub x: i64,
    pub y: i64,
    pub is_start_vertex: bool,
}

/// A connector as sent in a board description; `(dx, dy)` is its direction.
#[derive(Clone, Debug)]
pub struct Edge {
    pub id: u32,
    pub adjacentices: Adjacencies,
    pub x: i64,
    pub y: i64,
    pub dx: i64,
    pub dy: i64,
}

/// A resource site as sent in a board description.
#[derive(Clone, Debug)]
pub struct Material {
    pub id: u32,
    pub adjacentices: Adjacencies,
    pub x: i64,
    pub y: i64,
    pub material_type: u8,
}

/// One player's entry in a snapshot.
#[derive(Clone, Copy, Debug, PartialEq, Eq, Structural)]
pub struct Player {
    pub id: u32,
    pub x: i64,
    pub y: i64,
    pub rotation: i32,
    pub current_vertex: u32,
    pub next_vertex: Option<u32>,
    pub client_owner_id: u64,
}

/// Session identifiers of a list of names, in order.
pub open spec fn keys_of(names: Seq<(u64, String)>) -> Seq<u64> {
    names.map_values(|e: (u64, String)| e.0)
}

/// The entries of `s` in order, keeping only the first entry of each session.
pub open spec fn first_names(s: Seq<(u64, String)>) -> Seq<(u64, String)>
    decreases s.len(),
{
    if s.len() == 0 {
        s
    } else {
        let prev = first_names(s.drop_last());
        if keys_of(prev).contains(s.last().0) {
            prev
        } else {
            prev.push(s.last())
        }
    }
}

/// The joined sessions and their display names, in order of joining, and this process's
/// own session.
#[derive(Debug)]
pub struct Users {
    pub self_id: u64,
    pub names: Vec<(u64, String)>,
}

impl Users {
    /// No session is listed twice.
    pub open spec fn wf(self) -> bool {
        keys_of(self.names@).no_duplicates()
    }

    /// Session `c` is listed.
    pub open spec fn has(self, c: u64) -> bool {
        keys_of(self.names@).contains(c)
    }

    pub fn new(self_id: u64) -> (r: Users)
        ensures
            r.wf(),
            r.self_id == self_id,
            r.names@.len() == 0,
    {
        let r = Users { self_id, names: Vec::new() };
        assert(keys_of(r.names@) =~= Seq::<u64>::empty());
        r
    }

    /// Index of session `c`, if listed.
    pub fn index_of(&self, c: u64) -> (r: Option<usize>)
        ensures
            r is None <==> !self.has(c),
            r matches Some(i) ==> i < self.names@.len() && self.names@[i as int].0 == c,
    {
        let mut i: usize = 0;
        while i < self.names.len()
            invariant
                i <= self.names@.len(),
                forall|k: int| 0 <= k < i ==> (#[trigger] self.names@[k]).0 != c,
            decreases self.names@.len() - i,
        {
            if self.names[i].0 == c {
                assert(keys_of(self.names@)[i as int] == c);
                return Some(i);
            }
            i = i + 1;
        }
        proof {
            if self.has(c) {
                let k = choose|k: int| 0 <= k < keys_of(self.names@).len() && keys_of(self.names@)[k] == c;
                assert(self.names@[k].0 == c);
            }
        }
        None
    }

    /// Whether session `c` is listed.
    pub fn contains_key(&self, c: u64) -> (r: bool)
        ensures
            r == self.has(c),
    {
        self.index_of(c).is_some()
    }

    /// Lists session `c` with its name, unless it is listed already. Returns whether it was
    /// added.
    pub fn insert(&mut self, c: u64, name: String) -> (r: bool)
        requires
            old(self).wf(),
        ensures
            final(self).wf(),
            final(self).self_id == old(self).self_id,
            r == !old(self).has(c),
            r ==> final(self).names@ == old(self).names@.push((c, name)),
            !r ==> final(self).names@ == old(self).names@,
    {
        if self.contains_key(c) {
            return false;
        }
        let ghost old_names = self.names@;
        self.names.push((c, name));
        proof {
            assert(keys_of(self.names@) =~= keys_of(old_names).push(c));
        }
        true
    }

    /// Unlists session `c`, returning its name if it was listed.
    pub fn remove(&mut self, c: u64) -> (r: Option<String>)
        requires
            old(self).wf(),
        ensures
            final(self).wf(),
            final(self).self_id == old(self).self_id,
            r is Some <==> old(self).has(c),
            !final(self).has(c),
            r is None ==> final(self).names@ == old(self).names@,
            r matches Some(name) ==> exists|i: int|
                0 <= i < old(self).names@.len() && old(self).names@[i] == (c, name)
                    && final(self).names@ == old(self).names@.remove(i),
    {
        match self.index_of(c) {
            None => None,
            Some(i) => {
                let ghost old_names = self.names@;
                let e = self.names.remove(i);
                proof {
                    assert(keys_of(self.names@) =~= keys_of(old_names).remove(i as int));
                    if self.has(c) {
                        let k = choose|k: int| 0 <= k < keys_of(self.names@).len() && keys_of(self.names@)[k] == c;
                        let k0 = if k < i { k } else { k + 1 };
                        assert(keys_of(old_names)[k0] == c);
                        assert(keys_of(old_names)[i as int] == c);
                    }
                }
                Some(e.1)
            },
        }
    }

    /// Every listed session, in order.
    pub fn keys(&self) -> (r: Vec<u64>)
        ensures
            r@ == keys_of(self.names@),
    {
        let mut r: Vec<u64> = Vec::new();
        let mut i: usize = 0;
        while i < self.names.len()
            invariant
                i <= self.names@.len(),
                r@ == keys_of(self.names@).take(i as int),
            decreases self.names@.len() - i,
        {
            r.push(self.names[i].0);
            i = i + 1;
            assert(r@ =~= keys_of(self.names@).take(i as int));
        }
        assert(r@ =~= keys_of(self.names@));
        r
    }

    /// A copy of the listed sessions and names.
    pub fn copy_names(&self) -> (r: Vec<(u64, String)>)
        ensures
            r@ == self.names@,
    {
        let mut r: Vec<(u64, String)> = Vec::new();
        let mut i: usize = 0;
        while i < self.names.len()
            invariant
                i <= self.names@.len(),
                r@ == self.names@.take(i as int),
            decreases self.names@.len() - i,
        {
            let e = &self.names[i];
            r.push((e.0, e.1.clone()));
            i = i + 1;
            assert(r@ =~= self.names@.take(i as int));
        }
        assert(r@ =~= self.names@);
        r
    }
}

} // verus!
