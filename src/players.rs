use vstd::prelude::*;

use crate::geometry::{dist_sq, facing, reaches, sector, step_result, step_toward, Point};
use crate::map::{contains_id, Board};
use crate::occupancy::Occupancy;

verus! {

/// Movement speed of a player, in thousandths of a board unit per second.
pub const MOVE_SPEED: u64 = 60_000;

/// Movement state of a player. A moving player carries its queue of target junctions,
/// head first; an idle player carries none.
#[derive(Debug)]
pub enum States {
    Idle,
    MoveToEntity(Vec<u32>),
}

/// A player on the board.
#[derive(Debug)]
pub struct Player {
    pub id: u32,
    pub current_vertex: u32,
    pub pos: Point,
    pub roation_index: i32,
    pub client_owner_id: u64,
    pub state: States,
}

/// Distance covered at `MOVE_SPEED` in `elapsed_us` microseconds.
pub open spec fn travel_of(elapsed_us: u32) -> nat {
    (MOVE_SPEED * elapsed_us / 1_000_000) as nat
}

/// `q` is player `p` after one tick of `elapsed_us` microseconds on board `b`: a player
/// without a known target stays as it was; a moving one takes a straight-line step toward
/// its head junction, faces it, strictly closes in on it while it has not arrived, and on
/// arrival stands on it with the head taken off its queue.
pub open spec fn ticked(b: Board, p: Player, q: Player, elapsed_us: u32) -> bool {
    &&& q.id == p.id
    &&& q.client_owner_id == p.client_owner_id
    &&& p.queue().len() == 0 || !b.has_vertex(p.queue()[0]) ==> {
        &&& q.pos == p.pos
        &&& q.roation_index == p.roation_index
        &&& q.current_vertex == p.current_vertex
        &&& q.queue() == p.queue()
    }
    &&& p.queue().len() > 0 && b.has_vertex(p.queue()[0]) ==> {
        let t = p.queue()[0];
        let to = b.vertexes@[t as int].pos;
        let travel = travel_of(elapsed_us);
        &&& q.pos == step_result(p.pos, to, travel)
        &&& q.roation_index == sector(to.x - p.pos.x, to.y - p.pos.y)
        &&& reaches(p.pos, to, travel) ==> q.current_vertex == t && q.queue()
            == p.queue().drop_first()
        &&& !reaches(p.pos, to, travel) ==> {
            &&& q.current_vertex == p.current_vertex
            &&& q.queue() == p.queue()
            &&& travel >= 1 ==> dist_sq(q.pos, to) < dist_sq(p.pos, to)
        }
    }
}

impl Player {
    /// Queued target junctions, head first.
    pub open spec fn queue(self) -> Seq<u32> {
        match self.state {
            States::Idle => Seq::empty(),
            States::MoveToEntity(q) => q@,
        }
    }

    /// The player is idle.
    pub open spec fn idle(self) -> bool {
        self.state is Idle
    }

    /// A moving player has a target; the position is within the board's range.
    pub open spec fn wf(self) -> bool {
        &&& self.pos.in_range()
        &&& self.state matches States::MoveToEntity(q) ==> q@.len() > 0
    }

    /// Junction `v` is this player's current junction or one of its reservations.
    pub open spec fn holds(self, v: u32) -> bool {
        self.current_vertex == v || self.queue().contains(v)
    }

    /// A new idle player standing on junction `vertex` at `pos`.
    pub fn new(id: u32, vertex: u32, pos: Point, client_owner_id: u64) -> (r: Player)
        ensures
            r.id == id,
            r.current_vertex == vertex,
            r.pos == pos,
            r.roation_index == 0,
            r.client_owner_id == client_owner_id,
            r.idle(),
    {
        Player { id, current_vertex: vertex, pos, roation_index: 0, client_owner_id, state: States::Idle }
    }

    /// Whether the player is idle.
    pub fn is_idle(&self) -> (r: bool)
        ensures
            r == self.idle(),
    {
        match self.state {
            States::Idle => true,
            States::MoveToEntity(_) => false,
        }
    }

    /// The junction the player is heading for, if it is moving.
    pub fn next_vertex(&self) -> (r: Option<u32>)
        requires
            self.wf(),
        ensures
            r == (if self.queue().len() > 0 { Some(self.queue()[0]) } else { None::<u32> }),
    {
        match &self.state {
            States::Idle => None,
            States::MoveToEntity(q) => Some(q[0]),
        }
    }

    /// Appends `target` to the queue; the player is then moving.
    pub fn enqueue(&mut self, target: u32)
        ensures
            final(self).queue() == old(self).queue().push(target),
            !final(self).idle(),
            final(self).id == old(self).id,
            final(self).current_vertex == old(self).current_vertex,
            final(self).pos == old(self).pos,
            final(self).roation_index == old(self).roation_index,
            final(self).client_owner_id == old(self).client_owner_id,
    {
        if self.is_idle() {
            let mut q: Vec<u32> = Vec::new();
            q.push(target);
            self.state = States::MoveToEntity(q);
            assert(self.queue() =~= old(self).queue().push(target));
        } else {
            match &mut self.state {
                States::Idle => {},
                States::MoveToEntity(q) => {
                    q.push(target);
                },
            }
        }
    }

    /// Whether junction `t` is among the queued targets.
    pub fn has_target(&self, t: u32) -> (r: bool)
        ensures
            r == self.queue().contains(t),
    {
        match &self.state {
            States::Idle => false,
            States::MoveToEntity(q) => contains_id(q, t),
        }
    }

    /// Removes every queued target; the player is then idle.
    pub fn clear_queue(&mut self)
        ensures
            final(self).idle(),
            final(self).id == old(self).id,
            final(self).current_vertex == old(self).current_vertex,
            final(self).pos == old(self).pos,
            final(self).roation_index == old(self).roation_index,
            final(self).client_owner_id == old(self).client_owner_id,
    {
        self.state = States::Idle;
    }

    /// Advances the player by one tick of `elapsed_us` microseconds toward the head of its
    /// queue. On arrival the player stands exactly on it, which becomes its junction, and the
    /// head leaves the queue. Returns whether it arrived. Fill flags are not touched.
    pub fn advance(&mut self, board: &Board, elapsed_us: u32) -> (r: bool)
        requires
            old(self).wf(),
            board.wf(),
            board.has_vertex(old(self).current_vertex),
        ensures
            final(self).wf(),
            board.has_vertex(final(self).current_vertex),
            ticked(*board, *old(self), *final(self), elapsed_us),
            r == (old(self).queue().len() > 0 && board.has_vertex(old(self).queue()[0]) && reaches(
                old(self).pos,
                board.vertexes@[old(self).queue()[0] as int].pos,
                travel_of(elapsed_us),
            )),
    {
        let t = match self.next_vertex() {
            Some(t) => t,
            None => {
                return false;
            },
        };
        if !board.vertex_exists(t) {
            return false;
        }
        let to = board.vertexes[t as usize].pos;
        let from = self.pos;
        let travel: u64 = MOVE_SPEED * (elapsed_us as u64) / 1_000_000;
        let (pos, arrived) = step_toward(from, to, travel);
        self.roation_index = facing(to.x - from.x, to.y - from.y);
        self.pos = pos;
        if arrived {
            self.current_vertex = t;
            self.pop_target();
        }
        arrived
    }

    /// One tick of the authoritative move: `advance`, with the head junction's reservation
    /// confirmed, and on arrival the previous junction released.
    pub fn move_player(&mut self, board: &Board, occ: &mut Occupancy, elapsed_us: u32)
        requires
            old(self).wf(),
            board.wf(),
            board.has_vertex(old(self).current_vertex),
            old(occ)@.len() == board.vertexes@.len(),
        ensures
            final(self).wf(),
            board.has_vertex(final(self).current_vertex),
            ticked(*board, *old(self), *final(self), elapsed_us),
            final(occ)@.len() == old(occ)@.len(),
            old(self).queue().len() == 0 || !board.has_vertex(old(self).queue()[0]) ==> final(occ)@
                == old(occ)@,
            old(self).queue().len() > 0 && board.has_vertex(old(self).queue()[0]) ==> {
                let t = old(self).queue()[0];
                let to = board.vertexes@[t as int].pos;
                if reaches(old(self).pos, to, travel_of(elapsed_us)) {
                    final(occ)@ == old(occ)@.update(old(self).current_vertex as int, false).update(
                        t as int,
                        true,
                    )
                } else {
                    final(occ)@ == old(occ)@.update(t as int, true)
                }
            },
    {
        let head = self.next_vertex();
        let cur = self.current_vertex;
        let arrived = self.advance(board, elapsed_us);
        match head {
            Some(t) => {
                if board.vertex_exists(t) {
                    occ.set(t, true);
                    if arrived {
                        occ.set(cur, false);
                        occ.set(t, true);
                    }
                }
            },
            None => {},
        }
    }

    /// Removes the head of the queue; the player is idle once the queue is empty.
    fn pop_target(&mut self)
        requires
            old(self).queue().len() > 0,
        ensures
            final(self).queue() == old(self).queue().drop_first(),
            final(self).wf() == final(self).pos.in_range(),
            final(self).id == old(self).id,
            final(self).current_vertex == old(self).current_vertex,
            final(self).pos == old(self).pos,
            final(self).roation_index == old(self).roation_index,
            final(self).client_owner_id == old(self).client_owner_id,
    {
        match &mut self.state {
            States::Idle => {},
            States::MoveToEntity(q) => {
                q.remove(0);
            },
        }
        let empty = match &self.state {
            States::Idle => false,
            States::MoveToEntity(q) => q.len() == 0,
        };
        if empty {
            self.state = States::Idle;
            assert(self.queue() =~= old(self).queue().drop_first());
        }
    }
}

proof fn lemma_dist_nonneg(a: Point, b: Point)
    ensures
        dist_sq(a, b) >= 0,
{
    assert((b.x - a.x) * (b.x - a.x) >= 0) by (nonlinear_arith);
    assert((b.y - a.y) * (b.y - a.y) >= 0) by (nonlinear_arith);
}

proof fn lemma_en_route_shrinks(b: Board, ps: Seq<Player>, elapsed_us: u32, t: u32, k: int)
    requires
        b.has_vertex(t),
        travel_of(elapsed_us) >= 1,
        0 <= k < ps.len(),
        forall|i: int| 0 <= i < ps.len() - 1 ==> ticked(b, #[trigger] ps[i], ps[i + 1], elapsed_us),
        forall|i: int|
            0 <= i < ps.len() ==> (#[trigger] ps[i]).queue().len() > 0 && ps[i].queue()[0] == t
                && ps[i].current_vertex != t,
    ensures
        dist_sq(ps[k].pos, b.vertexes@[t as int].pos) + k <= dist_sq(ps[0].pos, b.vertexes@[t as int].pos),
    decreases k,
{
    if k > 0 {
        lemma_en_route_shrinks(b, ps, elapsed_us, t, k - 1);
        let p = ps[k - 1];
        assert(ticked(b, p, ps[k], elapsed_us));
        assert(p.queue().len() > 0 && p.queue()[0] == t);
        assert(ps[k].current_vertex != t);
    }
}

/// A moving player arrives: over consecutive ticks that each cover at least one thousandth
/// of a unit, a player can still be on its way to the head of its queue for at most as many
/// ticks as the squared distance it started from.
pub proof fn lemma_player_arrives(b: Board, ps: Seq<Player>, elapsed_us: u32, t: u32)
    requires
        b.has_vertex(t),
        travel_of(elapsed_us) >= 1,
        ps.len() >= 1,
        forall|i: int| 0 <= i < ps.len() - 1 ==> ticked(b, #[trigger] ps[i], ps[i + 1], elapsed_us),
        forall|i: int|
            0 <= i < ps.len() ==> (#[trigger] ps[i]).queue().len() > 0 && ps[i].queue()[0] == t
                && ps[i].current_vertex != t,
    ensures
        ps.len() - 1 <= dist_sq(ps[0].pos, b.vertexes@[t as int].pos),
{
    lemma_en_route_shrinks(b, ps, elapsed_us, t, ps.len() - 1);
    lemma_dist_nonneg(ps[ps.len() - 1].pos, b.vertexes@[t as int].pos);
}

} // verus!
