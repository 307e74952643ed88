//! A bounded first-in first-out buffer over a fixed block of slots.
use std::collections::HashMap;
use vstd::prelude::*;

verus! {

broadcast use vstd::std_specs::hash::group_hash_axioms;

/// The slot that holds the `k`-th oldest element when the oldest one sits in slot `start`.
pub open spec fn slot(start: int, k: int, capacity: int) -> int {
    if start + k < capacity {
        start + k
    } else {
        start + k - capacity
    }
}

/// The number of slots of a buffer that is made with `bound`. Elements of size zero take no room,
/// so that a buffer of them has every slot that can be numbered.
pub open spec fn slots_for<T>(bound: usize) -> usize {
    if vstd::layout::size_of::<T>() == 0 {
        usize::MAX
    } else {
        bound
    }
}

/// A ring buffer that never holds more elements than it has slots: as many as the bound it was made
/// with or, if the elements have size zero, as many as can be numbered.
///
/// Its view is the sequence of the elements it holds, oldest first.
pub struct LockFreeBoundedRingBuffer<T> {
    /// The first slots. Those outside the occupied stretch may hold anything.
    buffer: Vec<Option<T>>,
    /// The slots behind `buffer` that hold something; only elements of size zero get there.
    beyond: HashMap<usize, T>,
    /// Number of slots.
    slots: usize,
    /// Slot of the oldest element.
    start: usize,
    /// Slot that the next element goes to.
    end: usize,
    /// Number of elements held.
    count: usize,
}

impl<T> View for LockFreeBoundedRingBuffer<T> {
    type V = Seq<T>;

    closed spec fn view(&self) -> Seq<T> {
        Seq::new(
            self.count as nat,
            |k: int| self.at(slot(self.start as int, k, self.slots as int)).unwrap(),
        )
    }
}

/// Bound of a buffer made by `default`, which takes 1 MiB times the size of an element.
pub const DEFAULT_BUFFER_SIZE: usize = 1048576;

impl<T> LockFreeBoundedRingBuffer<T> {
    /// What slot `idx` holds.
    spec fn at(&self, idx: int) -> Option<T> {
        if idx < self.buffer@.len() {
            self.buffer@[idx]
        } else if self.beyond@.contains_key(idx as usize) {
            Some(self.beyond@[idx as usize])
        } else {
            None
        }
    }

    /// The number of slots.
    pub closed spec fn bound(&self) -> nat {
        self.slots as nat
    }

    /// The slot of the oldest element.
    pub closed spec fn start_slot(&self) -> int {
        self.start as int
    }

    /// The slot that the next element goes to.
    pub closed spec fn end_slot(&self) -> int {
        self.end as int
    }

    /// Slot `idx` holds `value`.
    pub closed spec fn holds_at(&self, idx: int, value: T) -> bool {
        self.at(idx) == Some(value)
    }

    /// The occupied slots are `count` many, begin at `start`, end before `end`, and each of them
    /// holds an element.
    pub closed spec fn wf(&self) -> bool {
        let slots = self.slots as int;
        &&& self.buffer@.len() <= slots
        &&& self.count <= slots
        &&& self.start < slots || self.start == 0
        &&& self.end as int == slot(self.start as int, self.count as int, slots)
        &&& forall|k: int|
            #![trigger slot(self.start as int, k, slots)]
            0 <= k < self.count ==> self.at(slot(self.start as int, k, slots)) is Some
    }

    /// Number of slots, place of the occupied stretch and number of elements are those of `before`,
    /// and so is what every slot but `idx` holds.
    pub open spec fn differs_only_at(&self, before: Self, idx: int) -> bool {
        &&& self.bound() == before.bound()
        &&& self.start_slot() == before.start_slot()
        &&& self.end_slot() == before.end_slot()
        &&& self@.len() == before@.len()
        &&& forall|i: int, v: T|
            0 <= i < before.bound() && i != idx ==> #[trigger] self.holds_at(i, v)
                == before.holds_at(i, v)
    }

    /// What putting `value` into slot `idx` makes of the buffer `before`.
    pub open spec fn inserted(&self, before: Self, idx: int, value: T) -> bool {
        &&& self.differs_only_at(before, idx)
        &&& self.holds_at(idx, value)
    }

    /// What taking `value` out of slot `idx` makes of the buffer `before`.
    pub open spec fn taken(&self, before: Self, idx: int, value: T) -> bool {
        &&& before.holds_at(idx, value)
        &&& self.differs_only_at(before, idx)
        &&& forall|v: T| !#[trigger] self.holds_at(idx, v)
    }

    /// Makes an empty buffer with `bound` slots, or with every slot that can be numbered if its
    /// elements have size zero.
    pub fn new(bound: usize) -> (ring: Self)
        ensures
            ring.wf(),
            ring@ == Seq::<T>::empty(),
            ring.bound() == slots_for::<T>(bound),
            ring.start_slot() == 0,
    {
        let takes_room: bool = std::mem::size_of::<T>() != 0;
        let allocated: usize = if takes_room {
            bound
        } else {
            0
        };
        let mut buffer: Vec<Option<T>> = Vec::with_capacity(allocated);
        let mut i: usize = 0;
        while i < allocated
            invariant
                i <= allocated,
                buffer@.len() == i,
            decreases allocated - i,
        {
            buffer.push(None);
            i = i + 1;
        }
        let slots: usize = if takes_room {
            bound
        } else {
            usize::MAX
        };
        let ring = LockFreeBoundedRingBuffer {
            buffer,
            beyond: HashMap::new(),
            slots,
            start: 0,
            end: 0,
            count: 0,
        };
        assert(ring@ =~= Seq::<T>::empty());
        ring
    }

    /// Puts `value` into slot `idx`, in place of what that slot holds.
    ///
    /// An element that sits in the slot is exchanged for `value`; no other element, nor their
    /// number, changes, and every other slot holds what it held before.
    pub fn insert_value(&mut self, idx: usize, value: T)
        requires
            old(self).wf(),
            idx < old(self).bound(),
        ensures
            final(self).wf(),
            final(self).inserted(*old(self), idx as int, value),
            final(self)@ == Seq::new(
                old(self)@.len(),
                |k: int|
                    if slot(old(self).start_slot(), k, old(self).bound() as int) == idx {
                        value
                    } else {
                        old(self)@[k]
                    },
            ),
    {
        if idx < self.buffer.len() {
            self.buffer[idx] = Some(value);
        } else {
            self.beyond.insert(idx, value);
        }
        assert(forall|i: int|
            0 <= i < self.slots ==> #[trigger] self.at(i) == (if i == idx {
                Some(value)
            } else {
                old(self).at(i)
            }));
        assert(self@ =~= Seq::new(
            old(self)@.len(),
            |k: int|
                if slot(old(self).start_slot(), k, old(self).bound() as int) == idx {
                    value
                } else {
                    old(self)@[k]
                },
        ));
    }

    /// Returns the number of elements that the buffer has room for.
    pub fn capacity(&self) -> (capacity: usize)
        ensures
            capacity == self.bound(),
    {
        self.slots
    }

    /// Returns the current number of elements in the buffer.
    pub fn len(&self) -> (len: usize)
        ensures
            len == self@.len(),
    {
        self.count
    }

    /// Checks if the buffer is empty.
    pub fn is_empty(&self) -> (empty: bool)
        ensures
            empty == (self@.len() == 0),
    {
        self.len() == 0
    }

    /// Pushes a value into the buffer, behind all others. Returns an error, and drops the value,
    /// if the buffer is full.
    pub fn push(&mut self, value: T) -> (result: Result<(), String>)
        requires
            old(self).wf(),
        ensures
            final(self).wf(),
            final(self).bound() == old(self).bound(),
            final(self).start_slot() == old(self).start_slot(),
            result is Ok <==> old(self)@.len() < old(self).bound(),
            result is Ok ==> final(self)@ == old(self)@.push(value),
            result matches Err(e) ==> e@ == "Buffer is full!"@ && final(self)@ == old(self)@,
            forall|i: int, v: T|
                0 <= i < old(self).bound() && (result is Ok ==> i != slot(
                    old(self).start_slot(),
                    old(self)@.len() as int,
                    old(self).bound() as int,
                )) ==> #[trigger] final(self).holds_at(i, v) == old(self).holds_at(i, v),
    {
        if self.len() == self.capacity() {
            return Err("Buffer is full!".to_string());
        }
        let current_end: usize = self.end;
        let new_end: usize = if current_end + 1 < self.capacity() {
            current_end + 1
        } else {
            0
        };
        self.insert_value(current_end, value);
        let ghost held = *self;
        self.count = self.count + 1;
        self.end = new_end;
        proof {
            let slots = self.slots as int;
            assert(forall|i: int| #[trigger] self.at(i) == held.at(i));
            assert(held@.len() == held.count);
            assert forall|k: int|
                #![trigger slot(self.start as int, k, slots)]
                0 <= k < self.count implies self.at(slot(self.start as int, k, slots)) is Some
                && self@[k] == old(self)@.push(value)[k] by {
                if k < held.count {
                    assert(held@[k] == old(self)@[k]);
                } else {
                    assert(held.holds_at(current_end as int, value));
                }
            }
            assert(self@ =~= old(self)@.push(value));
            assert forall|i: int, v: T| 0 <= i < slots && i != current_end implies
                #[trigger] self.holds_at(i, v) == old(self).holds_at(i, v) by {
                assert(held.holds_at(i, v) == old(self).holds_at(i, v));
            }
        }
        Ok(())
    }

    /// The `k`-th oldest element, counted from zero.
    pub(crate) fn peek(&self, k: usize) -> (element: &T)
        requires
            self.wf(),
            k < self@.len(),
        ensures
            *element == self@[k as int],
    {
        let to_the_end: usize = self.slots - self.start;
        let idx: usize = if k < to_the_end {
            self.start + k
        } else {
            k - to_the_end
        };
        assert(idx == slot(self.start as int, k as int, self.slots as int));
        assert(self.at(idx as int) is Some);
        if idx < self.buffer.len() {
            self.buffer[idx].as_ref().unwrap()
        } else {
            self.beyond.get(&idx).unwrap()
        }
    }

    /// Takes out of a slot what it holds.
    fn get_value(&mut self, idx: usize) -> (value: T)
        requires
            idx < old(self).bound(),
            exists|held: T| old(self).holds_at(idx as int, held),
        ensures
            final(self).taken(*old(self), idx as int, value),
            final(self).buffer@.len() == old(self).buffer@.len(),
    {
        if idx < self.buffer.len() {
            let mut taken: Option<T> = None;
            std::mem::swap(&mut taken, &mut self.buffer[idx]);
            taken.unwrap()
        } else {
            self.beyond.remove(&idx).unwrap()
        }
    }

    /// Takes the oldest element out of the buffer, or returns `None` if there is none.
    pub fn pop(&mut self) -> (popped: Option<T>)
        requires
            old(self).wf(),
        ensures
            final(self).wf(),
            final(self).bound() == old(self).bound(),
            popped is None <==> old(self)@.len() == 0,
            popped is None ==> final(self)@ == old(self)@ && final(self).start_slot() == old(
                self,
            ).start_slot(),
            popped matches Some(value) ==> {
                &&& value == old(self)@[0]
                &&& final(self)@ == old(self)@.drop_first()
                &&& final(self).start_slot() == slot(
                    old(self).start_slot(),
                    1,
                    old(self).bound() as int,
                )
            },
            forall|i: int, v: T|
                0 <= i < old(self).bound() && (popped is Some ==> i != old(self).start_slot())
                    ==> #[trigger] final(self).holds_at(i, v) == old(self).holds_at(i, v),
    {
        let current_start: usize = self.start;
        let current_end: usize = self.end;
        if current_start == current_end && self.len() == 0 {
            return None;
        }
        proof {
            assert(slot(self.start as int, 0, self.slots as int) == self.start);
            assert(self.holds_at(self.start as int, self.at(self.start as int).unwrap()));
        }
        let value = self.get_value(current_start);
        let ghost rest = *self;
        self.count = self.count - 1;
        let capacity: usize = self.capacity();
        let new_start: usize = if current_start + 1 >= capacity {
            0
        } else {
            current_start + 1
        };
        self.start = new_start;
        proof {
            let capacity = capacity as int;
            assert(old(self)@.len() == old(self).count && rest@.len() == rest.count);
            assert forall|i: int| 0 <= i < capacity && i != current_start implies
                #[trigger] self.at(i) == old(self).at(i) by {
                assert(self.at(i) == rest.at(i));
                if rest.at(i) is Some {
                    assert(rest.holds_at(i, rest.at(i).unwrap()));
                }
                if old(self).at(i) is Some {
                    assert(rest.holds_at(i, old(self).at(i).unwrap()));
                }
            }
            assert forall|k: int| 0 <= k < self.count implies slot(self.start as int, k, capacity)
                == #[trigger] slot(old(self).start as int, k + 1, capacity) && slot(
                self.start as int,
                k,
                capacity,
            ) != old(self).start by {}
            assert forall|k: int| #![trigger slot(self.start as int, k, capacity)]
                0 <= k < self.count implies self.at(slot(self.start as int, k, capacity)) is Some by {
                assert(old(self).at(slot(old(self).start as int, k + 1, capacity)) is Some);
            }
            assert(self@ =~= old(self)@.drop_first());
        }
        Some(value)
    }
}

impl<T> Default for LockFreeBoundedRingBuffer<T> {
    fn default() -> (ring: Self)
        ensures
            ring.wf(),
            ring@ == Seq::<T>::empty(),
            ring.bound() == slots_for::<T>(DEFAULT_BUFFER_SIZE),
            ring.start_slot() == 0,
    {
        Self::new(DEFAULT_BUFFER_SIZE)
    }
}

/// The elements that are left once `n` of them have been popped.
pub open spec fn after_pops<T>(elements: Seq<T>, n: nat) -> Seq<T>
    decreases n,
{
    if n == 0 {
        elements
    } else {
        after_pops(elements, (n - 1) as nat).drop_first()
    }
}

proof fn lemma_after_pops<T>(elements: Seq<T>, n: nat)
    requires
        n <= elements.len(),
    ensures
        after_pops(elements, n) == elements.skip(n as int),
    decreases n,
{
    if n == 0 {
        assert(elements.skip(0) =~= elements);
    } else {
        lemma_after_pops(elements, (n - 1) as nat);
        assert(elements.skip(n - 1).drop_first() =~= elements.skip(n as int));
    }
}

/// First in, first out: a value that was pushed is popped right after the elements that were held
/// before it, which come out in their order.
pub proof fn law_first_in_first_out<T>(elements: Seq<T>, value: T, n: nat)
    requires
        n <= elements.len(),
    ensures
        after_pops(elements.push(value), n).len() > 0,
        after_pops(elements.push(value), n)[0] == (if n < elements.len() {
            elements[n as int]
        } else {
            value
        }),
{
    lemma_after_pops(elements.push(value), n);
}

/// What was put into a slot is what is taken out of it: if `put` is what putting `value` into slot
/// `idx` made of `before`, and `left` what taking `got` out of that slot made of `put`, then `got` is
/// `value`, and the number of slots, the number of elements and what every other slot holds are what
/// they were at first.
pub proof fn law_slot_gives_back_what_was_put_in<T>(
    before: LockFreeBoundedRingBuffer<T>,
    put: LockFreeBoundedRingBuffer<T>,
    left: LockFreeBoundedRingBuffer<T>,
    idx: int,
    value: T,
    got: T,
)
    requires
        0 <= idx < before.bound(),
        put.inserted(before, idx, value),
        left.taken(put, idx, got),
    ensures
        got == value,
        put.bound() == before.bound(),
        left.bound() == before.bound(),
        put.start_slot() == before.start_slot(),
        left.start_slot() == before.start_slot(),
        put.end_slot() == before.end_slot(),
        left.end_slot() == before.end_slot(),
        put@.len() == before@.len(),
        left@.len() == before@.len(),
        put.holds_at(idx, value),
        forall|v: T| !#[trigger] left.holds_at(idx, v),
        forall|i: int, v: T|
            0 <= i < before.bound() && i != idx ==> #[trigger] put.holds_at(i, v)
                == before.holds_at(i, v),
        forall|i: int, v: T|
            0 <= i < before.bound() && i != idx ==> #[trigger] left.holds_at(i, v)
                == before.holds_at(i, v),
{
    assert forall|i: int, v: T| 0 <= i < before.bound() && i != idx implies
        #[trigger] left.holds_at(i, v) == before.holds_at(i, v) by {
        assert(put.holds_at(i, v) == before.holds_at(i, v));
    }
}

/// A buffer never holds more elements than it has slots.
pub proof fn law_bound_is_kept<T>(ring: LockFreeBoundedRingBuffer<T>)
    requires
        ring.wf(),
    ensures
        ring@.len() <= ring.bound(),
{
}

/// Slots follow one another around the ring: the oldest element sits in the start slot, the next one
/// in the slot behind, and slot zero is behind the last one, so that no two elements share a slot.
pub proof fn law_slots_go_around_the_ring(start: int, k: int, j: int, capacity: int)
    requires
        0 <= start < capacity,
        0 <= k < capacity,
        0 <= j < capacity,
    ensures
        slot(start, 0, capacity) == start,
        0 <= slot(start, k, capacity) < capacity,
        k + 1 < capacity ==> slot(start, k + 1, capacity) == (if slot(start, k, capacity) + 1
            == capacity {
            0
        } else {
            slot(start, k, capacity) + 1
        }),
        k != j ==> slot(start, k, capacity) != slot(start, j, capacity),
{
}

/// A buffer has as many slots as the bound it is made with, unless its elements take no room: then
/// it has every slot that can be numbered. One made by default has a mebi of them.
pub proof fn law_buffer_has_the_slots_asked_for<T>(bound: usize)
    ensures
        vstd::layout::size_of::<T>() > 0 ==> slots_for::<T>(bound) == bound,
        vstd::layout::size_of::<T>() == 0 ==> slots_for::<T>(bound) == usize::MAX,
        bound <= slots_for::<T>(bound),
        DEFAULT_BUFFER_SIZE == 1024 * 1024,
{
}

} // verus!
