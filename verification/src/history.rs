//! A bounded stack of board snapshots for stepping backward.
//!
//! Snapshots are kept in chronological order. Pushing past the fixed
//! capacity evicts the oldest snapshot; popping returns the newest first.

use vstd::prelude::*;
use crate::game::GameOfLife;

verus! {

/// The bounded history: `entries[0]` is the oldest retained snapshot,
/// `entries[len-1]` the newest.
pub struct HistoryBuffer {
    pub entries: Vec<GameOfLife>,
    pub capacity: usize,
}

impl View for HistoryBuffer {
    type V = Seq<Seq<Seq<bool>>>;

    open spec fn view(&self) -> Seq<Seq<Seq<bool>>> {
        self.entries@.map_values(|g: GameOfLife| g@)
    }
}

/// What one push leaves retained: append the snapshot, and when that exceeds
/// the capacity drop the oldest entry.
pub open spec fn pushed(
    s: Seq<Seq<Seq<bool>>>,
    cap: nat,
    v: Seq<Seq<bool>>,
) -> Seq<Seq<Seq<bool>>> {
    if cap == 0 {
        Seq::empty()
    } else if s.len() < cap {
        s.push(v)
    } else {
        s.subrange(1, s.len() as int).push(v)
    }
}

/// The retained history after pushing a whole sequence of snapshots in order.
pub open spec fn pushed_all(
    s: Seq<Seq<Seq<bool>>>,
    cap: nat,
    vs: Seq<Seq<Seq<bool>>>,
) -> Seq<Seq<Seq<bool>>>
    decreases vs.len(),
{
    if vs.len() == 0 {
        s
    } else {
        pushed(pushed_all(s, cap, vs.drop_last()), cap, vs.last())
    }
}

impl HistoryBuffer {
    /// Never more snapshots than the capacity, and every snapshot is a
    /// well-formed board.
    pub open spec fn wf(self) -> bool {
        &&& self.entries@.len() <= self.capacity
        &&& forall|i: int| 0 <= i < self.entries@.len() ==> (#[trigger] self.entries@[i]).wf()
    }

    /// An empty history with the given fixed capacity.
    pub fn new(capacity: usize) -> (h: HistoryBuffer)
        ensures
            h.wf(),
            h.capacity == capacity,
            h@ == Seq::<Seq<Seq<bool>>>::empty(),
    {
        let h = HistoryBuffer { entries: Vec::new(), capacity };
        proof {
            assert(h@ =~~= Seq::<Seq<Seq<bool>>>::empty());
        }
        h
    }

    pub fn len(&self) -> (n: usize)
        ensures
            n == self@.len(),
    {
        self.entries.len()
    }

    pub fn capacity(&self) -> (n: usize)
        ensures
            n == self.capacity,
    {
        self.capacity
    }

    /// Append a snapshot, evicting the oldest entry if the buffer was full.
    pub fn push(&mut self, snapshot: GameOfLife)
        requires
            old(self).wf(),
            snapshot.wf(),
        ensures
            final(self).wf(),
            final(self).capacity == old(self).capacity,
            final(self)@ == pushed(old(self)@, old(self).capacity as nat, snapshot@),
    {
        self.entries.push(snapshot);
        if self.entries.len() > self.capacity {
            self.entries.remove(0);
        }
        proof {
            assert(self@ =~~= pushed(old(self)@, old(self).capacity as nat, snapshot@));
        }
    }

    /// Remove and return the newest snapshot; `None` on an empty history
    /// (underflow is a no-op, not a fault).
    pub fn pop(&mut self) -> (r: Option<GameOfLife>)
        requires
            old(self).wf(),
        ensures
            final(self).wf(),
            final(self).capacity == old(self).capacity,
            old(self)@.len() == 0 ==> r is None && final(self)@ == old(self)@,
            old(self)@.len() > 0 ==> (match r {
                Some(g) => g.wf() && g@ == old(self)@.last()
                    && final(self)@ == old(self)@.drop_last(),
                None => false,
            }),
    {
        let r = self.entries.pop();
        proof {
            if old(self)@.len() > 0 {
                assert(self@ =~~= old(self)@.drop_last());
            } else {
                assert(self@ =~~= old(self)@);
            }
        }
        r
    }
}

/// Round trip: pushing at most `cap` snapshots onto an empty history retains
/// all of them, in push order. Since `pop` removes and returns the last
/// retained entry, popping then yields exactly the pushed boards in reverse.
pub proof fn lemma_history_round_trip(cap: nat, vs: Seq<Seq<Seq<bool>>>)
    requires
        vs.len() <= cap,
    ensures
        pushed_all(Seq::empty(), cap, vs) == vs,
    decreases vs.len(),
{
    if vs.len() == 0 {
        assert(pushed_all(Seq::empty(), cap, vs) =~~= vs);
    } else {
        lemma_history_round_trip(cap, vs.drop_last());
        assert(pushed_all(Seq::empty(), cap, vs) =~~= vs);
    }
}

/// Pushing one snapshot more than the capacity onto an empty history loses
/// exactly the oldest snapshot: the first board pushed is gone for good.
pub proof fn lemma_history_overflow(cap: nat, vs: Seq<Seq<Seq<bool>>>)
    requires
        vs.len() == cap + 1,
    ensures
        pushed_all(Seq::empty(), cap, vs) == vs.subrange(1, vs.len() as int),
{
    lemma_history_round_trip(cap, vs.drop_last());
    assert(pushed_all(Seq::empty(), cap, vs) =~~= vs.subrange(1, vs.len() as int));
}

} // verus!
