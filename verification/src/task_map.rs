use vstd::prelude::*;
use crate::MAX_TASKS;
use crate::bitmap::{Bitmap, bits32, ascending_members, circular_members, count_true};
use crate::types::TaskId;

verus! {

/// The slot indices of a list of task ids.
pub open spec fn ids_of(s: Seq<TaskId>) -> Seq<usize> {
    Seq::new(s.len(), |i: int| s[i]@ as usize)
}

/// A set of task slots, one bit per slot.
#[derive(Clone, Copy)]
pub struct TaskMap(Bitmap<u32>);

impl View for TaskMap {
    type V = Seq<bool>;

    closed spec fn view(&self) -> Seq<bool> {
        self.0@
    }
}

impl TaskMap {
    /// The raw word of a map; bit `i` stands for slot `i`.
    pub closed spec fn word(&self) -> u32 {
        (self.0).0
    }

    /// The map's membership, read from its word.
    pub proof fn lemma_view(&self)
        ensures
            self@ == bits32(self.word()),
            self@.len() == MAX_TASKS,
    {
    }

    /// The empty set.
    pub fn new() -> (r: Self)
        ensures
            r@ == Seq::new(MAX_TASKS as nat, |i: int| false),
    {
        TaskMap(Bitmap::<u32>::new())
    }

    /// The set whose members are the set bits of `value`.
    pub fn from(value: u32) -> (r: Self)
        ensures
            r@ == bits32(value),
            r.word() == value,
    {
        TaskMap(Bitmap::<u32>::from(value))
    }

    /// The word behind the set.
    pub fn raw(&self) -> (r: u32)
        ensures
            r == self.word(),
    {
        self.0.raw()
    }

    /// Adds slot `tid`.
    pub fn add(&mut self, tid: TaskId)
        ensures
            final(self)@ == old(self)@.update(tid@ as int, true),
            tid@ < MAX_TASKS,
    {
        self.0.set(tid.id());
    }

    /// Removes slot `tid`.
    pub fn remove(&mut self, tid: TaskId)
        ensures
            final(self)@ == old(self)@.update(tid@ as int, false),
            tid@ < MAX_TASKS,
    {
        self.0.clear(tid.id());
    }

    /// Whether slot `tid` is a member.
    pub fn is_set(&self, tid: TaskId) -> (r: bool)
        ensures
            r == self@[tid@ as int],
            tid@ < MAX_TASKS,
    {
        self.0.is_set(tid.id())
    }

    /// Number of members.
    pub fn ones(&self) -> (r: usize)
        ensures
            r == count_true(self@),
    {
        self.0.ones()
    }

    /// The lowest slot that is not a member, or `None` when every slot is.
    pub fn first_free(&self) -> (r: Option<TaskId>)
        ensures
            r is None <==> (forall|i: int| 0 <= i < MAX_TASKS ==> #[trigger] self@[i]),
            r matches Some(t) ==> !self@[t@ as int] && (forall|i: int|
                0 <= i < t@ ==> #[trigger] self@[i]),
    {
        let r = self.0.first_unset();
        proof {
            assert(self@ == self.0@);
        }
        match r {
            Some(b) => {
                let t = TaskId::new(b);
                proof {
                    assert(!self@[b as int]);
                }
                t
            },
            None => None,
        }
    }

    /// The members in ascending order.
    pub fn iter(self) -> (r: Vec<TaskId>)
        ensures
            ascending_members(self@, ids_of(r@)),
            forall|k: int| 0 <= k < r@.len() ==> (#[trigger] r@[k])@ < MAX_TASKS,
    {
        let bits = self.0.iter();
        to_ids(bits)
    }

    /// The members from `start_bit` upwards, then those below it.
    pub fn iter_from(self, start_bit: usize) -> (r: Vec<TaskId>)
        requires
            start_bit < MAX_TASKS,
        ensures
            circular_members(self@, start_bit as int, ids_of(r@)),
            forall|k: int| 0 <= k < r@.len() ==> (#[trigger] r@[k])@ < MAX_TASKS,
    {
        let bits = self.0.iter_from(start_bit);
        let r = to_ids(bits);
        r
    }
}

/// Turns slot indices below `MAX_TASKS` into task ids.
fn to_ids(bits: Vec<usize>) -> (r: Vec<TaskId>)
    requires
        forall|k: int| 0 <= k < bits@.len() ==> #[trigger] bits@[k] < MAX_TASKS,
    ensures
        ids_of(r@) == bits@,
        forall|k: int| 0 <= k < r@.len() ==> (#[trigger] r@[k])@ == bits@[k],
{
    let mut out: Vec<TaskId> = Vec::new();
    let mut i: usize = 0;
    while i < bits.len()
        invariant
            i <= bits@.len(),
            forall|k: int| 0 <= k < bits@.len() ==> #[trigger] bits@[k] < MAX_TASKS,
            ids_of(out@) == bits@.subrange(0, i as int),
            out@.len() == i,
            forall|k: int| 0 <= k < i ==> (#[trigger] out@[k])@ == bits@[k],
        decreases bits@.len() - i,
    {
        let t = TaskId::new(bits[i]).unwrap();
        let ghost before = out@;
        out.push(t);
        proof {
            assert(ids_of(out@) =~= bits@.subrange(0, i + 1)) by {
                assert(ids_of(before) == bits@.subrange(0, i as int));
                assert forall|k: int| 0 <= k < i implies ids_of(out@)[k] == bits@[k] by {
                    assert(out@[k] == before[k]);
                    assert(ids_of(before)[k] == bits@.subrange(0, i as int)[k]);
                }
                assert(ids_of(out@)[i as int] == bits@[i as int]);
            }
        }
        i = i + 1;
    }
    assert(bits@.subrange(0, bits@.len() as int) =~= bits@);
    out
}

/// A set of task slots kept directly in a word.
#[derive(Clone, Copy)]
pub struct TaskList(pub u32);

impl View for TaskList {
    type V = Seq<bool>;

    open spec fn view(&self) -> Seq<bool> {
        bits32(self.0)
    }
}

impl TaskList {
    /// The empty list.
    pub fn new() -> (r: Self)
        ensures
            r.0 == 0,
    {
        TaskList(0)
    }

    /// The list whose members are the set bits of `value`.
    pub fn from(value: u32) -> (r: Self)
        ensures
            r.0 == value,
    {
        TaskList(value)
    }

    /// Adds slot `tid`.
    pub fn add(&mut self, tid: usize)
        requires
            tid < MAX_TASKS,
        ensures
            final(self)@ == old(self)@.update(tid as int, true),
    {
        let mut b = Bitmap::<u32>::from(self.0);
        b.set(tid);
        self.0 = b.raw();
    }

    /// Removes slot `tid`.
    pub fn remove(&mut self, tid: usize)
        requires
            tid < MAX_TASKS,
        ensures
            final(self)@ == old(self)@.update(tid as int, false),
    {
        let mut b = Bitmap::<u32>::from(self.0);
        b.clear(tid);
        self.0 = b.raw();
    }

    /// Whether the list has no member.
    pub fn is_empty(&self) -> (r: bool)
        ensures
            r == (self.0 == 0),
    {
        self.0 == 0
    }

    /// The members in ascending order.
    pub fn iter(self) -> (r: Vec<usize>)
        ensures
            ascending_members(self@, r@),
    {
        Bitmap::<u32>::from(self.0).iter()
    }
}

} // verus!
