use vstd::prelude::*;

verus! {

/// Why a junction could not be reserved.
#[derive(Clone, Copy, Debug, PartialEq, Eq, Structural)]
pub enum OccupancyError {
    AlreadyOccupied,
    UnknownNodeReference,
}

/// The fill flag of every junction, indexed by junction identifier.
#[derive(Debug)]
pub struct Occupancy {
    pub filled: Vec<bool>,
}

impl View for Occupancy {
    type V = Seq<bool>;

    open spec fn view(&self) -> Seq<bool> {
        self.filled@
    }
}

impl Occupancy {
    /// `n` junctions, all free.
    pub fn new(n: usize) -> (r: Occupancy)
        ensures
            r@ == Seq::new(n as nat, |i: int| false),
    {
        let mut filled: Vec<bool> = Vec::new();
        let mut i: usize = 0;
        while i < n
            invariant
                i <= n,
                filled@ == Seq::new(i as nat, |k: int| false),
            decreases n - i,
        {
            filled.push(false);
            i = i + 1;
            assert(filled@ =~= Seq::new(i as nat, |k: int| false));
        }
        Occupancy { filled }
    }

    /// Number of junctions tracked.
    pub fn len(&self) -> (r: usize)
        ensures
            r == self@.len(),
    {
        self.filled.len()
    }

    /// Whether junction `id` exists and is not filled.
    pub fn is_free(&self, id: u32) -> (r: bool)
        ensures
            r == (id < self@.len() && !self@[id as int]),
    {
        (id as usize) < self.filled.len() && !self.filled[id as usize]
    }

    /// Whether junction `id` exists and is filled.
    pub fn is_filled(&self, id: u32) -> (r: bool)
        ensures
            r == (id < self@.len() && self@[id as int]),
    {
        (id as usize) < self.filled.len() && self.filled[id as usize]
    }

    /// Marks a free junction filled; a filled or unknown junction is refused and
    /// nothing changes.
    pub fn reserve(&mut self, id: u32) -> (r: Result<(), OccupancyError>)
        ensures
            id >= old(self)@.len() ==> r == Err::<(), OccupancyError>(
                OccupancyError::UnknownNodeReference,
            ),
            id < old(self)@.len() && old(self)@[id as int] ==> r == Err::<(), OccupancyError>(
                OccupancyError::AlreadyOccupied,
            ),
            r is Err ==> final(self)@ == old(self)@,
            id < old(self)@.len() && !old(self)@[id as int] ==> r is Ok && final(self)@ == old(
                self,
            )@.update(id as int, true),
    {
        if (id as usize) >= self.filled.len() {
            Err(OccupancyError::UnknownNodeReference)
        } else if self.filled[id as usize] {
            Err(OccupancyError::AlreadyOccupied)
        } else {
            self.filled.set(id as usize, true);
            Ok(())
        }
    }

    /// Marks junction `id` free. Releasing a free or unknown junction changes nothing.
    pub fn release(&mut self, id: u32)
        ensures
            id < old(self)@.len() ==> final(self)@ == old(self)@.update(id as int, false),
            id >= old(self)@.len() ==> final(self)@ == old(self)@,
            id < old(self)@.len() && !old(self)@[id as int] ==> final(self)@ == old(self)@,
    {
        if (id as usize) < self.filled.len() {
            self.filled.set(id as usize, false);
        }
        proof {
            if id < old(self)@.len() && !old(self)@[id as int] {
                assert(self.filled@ =~= old(self)@);
            }
        }
    }

    /// Sets the flag of junction `id` verbatim; an unknown junction changes nothing.
    pub fn set(&mut self, id: u32, value: bool)
        ensures
            id < old(self)@.len() ==> final(self)@ == old(self)@.update(id as int, value),
            id >= old(self)@.len() ==> final(self)@ == old(self)@,
    {
        if (id as usize) < self.filled.len() {
            self.filled.set(id as usize, value);
        }
    }
}

} // verus!
