//! A work-stealing ring buffer: its owner pushes and pops at the back,
//! stealers take from the front. Its capacity is a power of two.

use vstd::prelude::*;
use vstd::arithmetic::power2::{pow2, lemma_pow2_pos, lemma_pow2_unfold, lemma_pow2_strictly_increases};
use vstd::rwlock::{RwLock, RwLockPredicate};
use std::sync::Arc;

verus! {

/// `n` is a power of two.
pub open spec fn is_power_of_two(n: int) -> bool {
    exists|k: nat| pow2(k) == n
}

/// `p` is the smallest power of two that is at least `n`.
pub open spec fn is_next_power_of_two(n: int, p: int) -> bool {
    &&& is_power_of_two(p)
    &&& n <= p
    &&& forall|q: int| is_power_of_two(q) && n <= q ==> p <= q
}

/// The capacity a ring buffer asked for `cap` slots gets: `cap` itself when it
/// is a power of two, otherwise the next power of two (one slot for `cap == 0`).
pub open spec fn ring_capacity(cap: int, capacity: int) -> bool {
    is_next_power_of_two(if cap < 1 { 1 } else { cap }, capacity)
}

proof fn lemma_pow2_monotone(a: nat, b: nat)
    requires
        a <= b,
    ensures
        pow2(a) <= pow2(b),
{
    if a < b {
        lemma_pow2_strictly_increases(a, b);
    }
}

/// Rounds a requested capacity up to a power of two, as [`Ringbuf::new`] does.
pub fn round_capacity(cap: usize) -> (capacity: usize)
    requires
        cap <= usize::MAX / 2 + 1,
    ensures
        ring_capacity(cap as int, capacity as int),
{
    let mut p: usize = 1;
    let ghost mut k: nat = 0;
    proof {
        assert(pow2(0) == 1) by {
            lemma_pow2_pos(0);
            vstd::arithmetic::power2::lemma2_to64();
        }
    }
    while p < cap
        invariant
            p == pow2(k),
            1 <= p,
            k > 0 ==> pow2((k - 1) as nat) < cap,
            cap <= usize::MAX / 2 + 1,
        decreases 2 * cap - p,
    {
        proof {
            lemma_pow2_unfold(k + 1);
        }
        p = p * 2;
        proof {
            k = k + 1;
        }
    }
    proof {
        let n: int = if cap < 1 { 1 } else { cap as int };
        assert(is_power_of_two(p as int));
        assert forall|q: int| is_power_of_two(q) && n <= q implies p <= q by {
            let j = choose|j: nat| pow2(j) == q;
            if k == 0 {
                lemma_pow2_pos(j);
            } else {
                if j < k {
                    lemma_pow2_monotone(j, (k - 1) as nat);
                }
                lemma_pow2_monotone(k, j);
            }
        }
    }
    p
}

/// Outcome of a steal attempt on a [`Stealer`].
#[derive(Debug, PartialEq, Eq)]
pub enum Steal<T> {
    Empty,
    Retry,
    Success(T),
}

impl<T> Steal<T> {
    /// The stolen item, if the attempt succeeded.
    pub fn success(self) -> (r: Option<T>)
        ensures
            r == (match self {
                Steal::Success(data) => Some(data),
                _ => None,
            }),
    {
        match self {
            Steal::Success(data) => Some(data),
            _ => None,
        }
    }

    pub fn is_success(&self) -> (r: bool)
        ensures
            r == (*self is Success),
    {
        match self {
            Steal::Success(_) => true,
            _ => false,
        }
    }

    pub fn is_retry(&self) -> (r: bool)
        ensures
            r == (*self is Retry),
    {
        match self {
            Steal::Retry => true,
            _ => false,
        }
    }

    pub fn is_empty(&self) -> (r: bool)
        ensures
            r == (*self is Empty),
    {
        match self {
            Steal::Empty => true,
            _ => false,
        }
    }
}

/// Physical slot of the `j`-th item of a ring whose first item sits at `head`.
pub open spec fn phys(head: int, j: int, cap: int) -> int {
    if head + j < cap { head + j } else { head + j - cap }
}

/// The sequential state shared by a [`Ringbuf`] and its [`Stealer`]s: a ring
/// of `capacity` slots holding the items from `head` on.
///
/// The owner pushes and pops at the back; stealers take from the front.
pub struct Inner<T> {
    slots: Vec<Option<T>>,
    head: usize,
    len: usize,
}

impl<T> View for Inner<T> {
    type V = Seq<T>;

    /// The items, front (oldest, next to be stolen) first.
    closed spec fn view(&self) -> Seq<T> {
        Seq::new(
            self.len as nat,
            |j: int| self.slots@[phys(self.head as int, j, self.slots@.len() as int)]->0,
        )
    }
}

impl<T> Inner<T> {
    /// Number of slots.
    pub closed spec fn capacity(&self) -> nat {
        self.slots@.len()
    }

    /// The ring is well formed: occupied slots are exactly those of the items.
    pub closed spec fn wf(&self) -> bool {
        let cap = self.slots@.len() as int;
        &&& cap > 0
        &&& self.head < cap
        &&& self.len <= cap
        &&& forall|j: int|
            0 <= j < cap ==> (#[trigger] self.slots@[phys(self.head as int, j, cap)] is Some <==> j
                < self.len)
    }

    /// An empty ring whose capacity is `cap` rounded up to a power of two.
    pub fn new(cap: usize) -> (r: Self)
        requires
            cap <= usize::MAX / 2 + 1,
        ensures
            r.wf(),
            r@ == Seq::<T>::empty(),
            ring_capacity(cap as int, r.capacity() as int),
    {
        let capacity = round_capacity(cap);
        let mut slots: Vec<Option<T>> = Vec::with_capacity(capacity);
        let mut i: usize = 0;
        while i < capacity
            invariant
                i <= capacity,
                slots@.len() == i,
                forall|j: int| 0 <= j < i ==> #[trigger] slots@[j] is None,
            decreases capacity - i,
        {
            slots.push(None);
            i = i + 1;
        }
        let r = Inner { slots, head: 0, len: 0 };
        assert(r@ =~= Seq::<T>::empty());
        r
    }

    /// Number of items.
    pub fn len(&self) -> (r: usize)
        requires
            self.wf(),
        ensures
            r == self@.len(),
            r <= self.capacity(),
    {
        self.len
    }

    pub fn is_empty(&self) -> (r: bool)
        requires
            self.wf(),
        ensures
            r == (self@.len() == 0),
    {
        self.len == 0
    }

    /// Number of slots.
    pub fn capacity_slots(&self) -> (r: usize)
        ensures
            r == self.capacity(),
    {
        self.slots.len()
    }

    /// Appends `item` at the back, or hands it back when the ring is full.
    pub fn push(&mut self, item: T) -> (r: Result<(), T>)
        requires
            old(self).wf(),
        ensures
            final(self).wf(),
            final(self).capacity() == old(self).capacity(),
            final(self)@ == pushed(old(self)@, old(self).capacity(), item),
            r is Ok <==> old(self)@.len() < old(self).capacity(),
            r matches Err(x) ==> x == item,
    {
        let cap = self.slots.len();
        if self.len == cap {
            return Err(item);
        }
        let idx = if self.head < cap - self.len {
            self.head + self.len
        } else {
            self.head - (cap - self.len)
        };
        let ghost old_self = *self;
        assert(idx == phys(self.head as int, self.len as int, cap as int));
        assert(old_self.slots@[phys(self.head as int, self.len as int, cap as int)] is None);
        self.slots.set(idx, Some(item));
        self.len = self.len + 1;
        assert forall|j: int|
            0 <= j < cap implies (#[trigger] self.slots@[phys(self.head as int, j, cap as int)] is Some
            <==> j < self.len) by {
            if j != old_self.len {
                assert(old_self.slots@[phys(self.head as int, j, cap as int)] is Some <==> j
                    < old_self.len);
            }
        }
        assert(self@ =~= old_self@.push(item));
        Ok(())
    }

    /// Removes the item at the back (the most recently pushed one).
    pub fn pop(&mut self) -> (r: Option<T>)
        requires
            old(self).wf(),
        ensures
            final(self).wf(),
            final(self).capacity() == old(self).capacity(),
            r == popped(old(self)@).0,
            final(self)@ == popped(old(self)@).1,
    {
        if self.len == 0 {
            return None;
        }
        let cap = self.slots.len();
        let last = self.len - 1;
        let idx = if self.head < cap - last {
            self.head + last
        } else {
            self.head - (cap - last)
        };
        let ghost old_self = *self;
        assert(idx == phys(self.head as int, last as int, cap as int));
        assert(old_self.slots@[idx as int] is Some);
        let mut taken: Option<T> = None;
        self.slots.set_and_swap(idx, &mut taken);
        self.len = last;
        assert forall|j: int|
            0 <= j < cap implies (#[trigger] self.slots@[phys(self.head as int, j, cap as int)] is Some
            <==> j < self.len) by {
            if j != last {
                assert(old_self.slots@[phys(self.head as int, j, cap as int)] is Some <==> j
                    < old_self.len);
            }
        }
        assert(self@ =~= old_self@.drop_last());
        taken
    }

    /// Removes the item at the front (the oldest one).
    pub fn steal(&mut self) -> (r: Option<T>)
        requires
            old(self).wf(),
        ensures
            final(self).wf(),
            final(self).capacity() == old(self).capacity(),
            r == stolen(old(self)@).0,
            final(self)@ == stolen(old(self)@).1,
    {
        if self.len == 0 {
            return None;
        }
        let cap = self.slots.len();
        let idx = self.head;
        let ghost old_self = *self;
        assert(idx == phys(self.head as int, 0, cap as int));
        assert(old_self.slots@[idx as int] is Some);
        let mut taken: Option<T> = None;
        self.slots.set_and_swap(idx, &mut taken);
        self.head = if self.head + 1 < cap { self.head + 1 } else { 0 };
        self.len = self.len - 1;
        assert forall|j: int|
            0 <= j < cap implies (#[trigger] self.slots@[phys(self.head as int, j, cap as int)] is Some
            <==> j < self.len) by {
            if j + 1 < cap {
                assert(phys(self.head as int, j, cap as int) == phys(
                    old_self.head as int,
                    j + 1,
                    cap as int,
                ));
                assert(old_self.slots@[phys(old_self.head as int, j + 1, cap as int)] is Some <==> j
                    + 1 < old_self.len);
            } else {
                assert(phys(self.head as int, j, cap as int) == old_self.head);
            }
        }
        assert forall|j: int| 0 <= j < self.len implies phys(self.head as int, j, cap as int) == phys(
            old_self.head as int,
            j + 1,
            cap as int,
        ) by {}
        assert(self@ =~= old_self@.drop_first());
        taken
    }
}

/// What the lock around a ring keeps true: the ring is well formed and keeps
/// the capacity it was made with.
pub struct RingPred {
    pub capacity: usize,
}

impl<T> RwLockPredicate<Inner<T>> for RingPred {
    open spec fn inv(self, v: Inner<T>) -> bool {
        v.wf() && v.capacity() == self.capacity
    }
}

/// The owner's handle on a work-stealing ring buffer.
///
/// The owner pushes and pops at the back; [`Stealer`]s take from the front.
/// All handles share one ring behind a lock.
pub struct Ringbuf<T> {
    inner: Arc<RwLock<Inner<T>, RingPred>>,
}

/// A handle that takes items from the front of a [`Ringbuf`].
pub struct Stealer<T> {
    inner: Arc<RwLock<Inner<T>, RingPred>>,
}

impl<T> Ringbuf<T> {
    /// Number of slots of the shared ring.
    pub closed spec fn capacity(&self) -> nat {
        self.inner.pred().capacity as nat
    }

    /// The ring this handle shares.
    pub closed spec fn ring(&self) -> RwLock<Inner<T>, RingPred> {
        *self.inner
    }

    /// A ring of `cap` slots, rounded up to a power of two.
    pub fn new(cap: usize) -> (r: Self)
        requires
            cap <= usize::MAX / 2 + 1,
        ensures
            ring_capacity(cap as int, r.capacity() as int),
    {
        let inner = Inner::<T>::new(cap);
        let capacity = inner.capacity_slots();
        let lock = RwLock::new(inner, Ghost(RingPred { capacity }));
        Ringbuf { inner: Arc::new(lock) }
    }

    /// Number of slots of the ring.
    pub fn slots(&self) -> (r: usize)
        ensures
            r == self.capacity(),
    {
        let handle = self.inner.acquire_read();
        let r = handle.borrow().capacity_slots();
        handle.release_read();
        r
    }

    /// A new stealer on the same ring.
    pub fn stealer(&self) -> (r: Stealer<T>)
        ensures
            r.ring() == self.ring(),
            r.capacity() == self.capacity(),
    {
        Stealer { inner: self.inner.clone() }
    }

    /// Pushes `item` at the back; hands it back when the ring is full.
    pub fn push(&self, item: T) -> (r: Result<(), T>)
        ensures
            r matches Err(x) ==> x == item,
    {
        let (mut ring, handle) = self.inner.acquire_write();
        let r = ring.push(item);
        handle.release_write(ring);
        r
    }

    /// Pops the most recently pushed item.
    pub fn pop(&self) -> (r: Option<T>) {
        let (mut ring, handle) = self.inner.acquire_write();
        let r = ring.pop();
        handle.release_write(ring);
        r
    }

    pub fn len(&self) -> (r: usize)
        ensures
            r <= self.capacity(),
    {
        let handle = self.inner.acquire_read();
        let r = handle.borrow().len();
        handle.release_read();
        r
    }

    pub fn is_empty(&self) -> (r: bool) {
        let handle = self.inner.acquire_read();
        let r = handle.borrow().is_empty();
        handle.release_read();
        r
    }

    /// Number of handles (this one, its clones' owners and the stealers) on the ring.
    pub fn strong_count(&self) -> (r: usize)
        ensures
            r > 0,
    {
        arc_strong_count(&self.inner)
    }
}

impl<T> Stealer<T> {
    /// Number of slots of the shared ring.
    pub closed spec fn capacity(&self) -> nat {
        self.inner.pred().capacity as nat
    }

    /// The ring this handle shares.
    pub closed spec fn ring(&self) -> RwLock<Inner<T>, RingPred> {
        *self.inner
    }

    /// Takes the oldest item. Holding the lock, a steal never has to be retried.
    pub fn steal(&self) -> (r: Steal<T>)
        ensures
            !(r is Retry),
    {
        let (mut ring, handle) = self.inner.acquire_write();
        let taken = ring.steal();
        handle.release_write(ring);
        match taken {
            Some(item) => Steal::Success(item),
            None => Steal::Empty,
        }
    }

    pub fn len(&self) -> (r: usize)
        ensures
            r <= self.capacity(),
    {
        let handle = self.inner.acquire_read();
        let r = handle.borrow().len();
        handle.release_read();
        r
    }

    pub fn is_empty(&self) -> (r: bool) {
        let handle = self.inner.acquire_read();
        let r = handle.borrow().is_empty();
        handle.release_read();
        r
    }
}

/// `Arc::strong_count`: the number of `Arc`s pointing at the allocation; the
/// one passed in is among them.
#[verifier::external_body]
fn arc_strong_count<V>(a: &Arc<V>) -> (r: usize)
    ensures
        r > 0,
{
    Arc::strong_count(a)
}

/// The items after [`Inner::push`] of `x` on a ring holding `items` with
/// `cap` slots: `x` joins at the back when there is room.
pub open spec fn pushed<T>(items: Seq<T>, cap: nat, x: T) -> Seq<T> {
    if items.len() < cap {
        items.push(x)
    } else {
        items
    }
}

/// What [`Inner::pop`] gives on a ring holding `items`, and the items left:
/// the back item, if any.
pub open spec fn popped<T>(items: Seq<T>) -> (Option<T>, Seq<T>) {
    if items.len() > 0 {
        (Some(items.last()), items.drop_last())
    } else {
        (None, items)
    }
}

/// What [`Inner::steal`] gives on a ring holding `items`, and the items
/// left: the front item, if any.
pub open spec fn stolen<T>(items: Seq<T>) -> (Option<T>, Seq<T>) {
    if items.len() > 0 {
        (Some(items[0]), items.drop_first())
    } else {
        (None, items)
    }
}

/// The items after pushing each of `xs` in turn.
pub open spec fn push_all<T>(items: Seq<T>, cap: nat, xs: Seq<T>) -> Seq<T>
    decreases xs.len(),
{
    if xs.len() == 0 {
        items
    } else {
        push_all(pushed(items, cap, xs[0]), cap, xs.drop_first())
    }
}

/// The items after `n` steals.
pub open spec fn steal_times<T>(items: Seq<T>, n: nat) -> Seq<T>
    decreases n,
{
    if n == 0 {
        items
    } else {
        stolen(steal_times(items, (n - 1) as nat)).1
    }
}

/// An item the owner pushes on a ring with room is the next one the owner
/// pops, and popping it leaves the ring as it was before the push; on a full
/// ring the push changes nothing.
pub proof fn law_push_then_pop<T>(items: Seq<T>, cap: nat, x: T)
    ensures
        items.len() < cap ==> popped(pushed(items, cap, x)).0 == Some(x),
        items.len() < cap ==> popped(pushed(items, cap, x)).1 == items,
        items.len() >= cap ==> pushed(items, cap, x) == items,
{
    assert(items.push(x).drop_last() =~= items);
}

/// The owner's pushes do not disturb the stealers: on a non-empty ring with
/// room, a steal takes the same item and leaves the same items whether the
/// owner pushed before it or after it.
pub proof fn law_push_steal_commute<T>(items: Seq<T>, cap: nat, x: T)
    requires
        0 < items.len() < cap,
    ensures
        stolen(pushed(items, cap, x)).0 == stolen(items).0,
        stolen(pushed(items, cap, x)).1 == pushed(stolen(items).1, cap, x),
{
    assert(items.push(x).drop_first() =~= items.drop_first().push(x));
}

proof fn lemma_push_all<T>(items: Seq<T>, cap: nat, xs: Seq<T>)
    requires
        items.len() + xs.len() <= cap,
    ensures
        push_all(items, cap, xs) == items + xs,
    decreases xs.len(),
{
    if xs.len() > 0 {
        lemma_push_all(items.push(xs[0]), cap, xs.drop_first());
        assert(items.push(xs[0]) + xs.drop_first() =~= items + xs);
    } else {
        assert(items + xs =~= items);
    }
}

proof fn lemma_steal_times<T>(items: Seq<T>, n: nat)
    requires
        n <= items.len(),
    ensures
        steal_times(items, n) == items.skip(n as int),
    decreases n,
{
    if n > 0 {
        lemma_steal_times(items, (n - 1) as nat);
        assert(items.skip(n - 1).drop_first() =~= items.skip(n as int));
    } else {
        assert(items.skip(0) =~= items);
    }
}

/// Stealers take items in the order they were pushed: after pushing `xs`
/// on an empty ring with room for them all, the ring holds `xs`, and the
/// steal after `i` others takes `xs[i]`.
pub proof fn law_steal_in_push_order<T>(xs: Seq<T>, cap: nat, i: int)
    requires
        xs.len() <= cap,
        0 <= i < xs.len(),
    ensures
        push_all(Seq::empty(), cap, xs) == xs,
        stolen(steal_times(xs, i as nat)).0 == Some(xs[i]),
{
    lemma_push_all(Seq::empty(), cap, xs);
    assert(Seq::<T>::empty() + xs =~= xs);
    lemma_steal_times(xs, i as nat);
}

/// No item is lost or duplicated: a push that is taken adds exactly its
/// item, a refused one changes nothing, and a pop or a steal removes
/// exactly the item it returns.
pub proof fn law_items_conserved<T>(items: Seq<T>, cap: nat, x: T)
    ensures
        pushed(items, cap, x).to_multiset() == (if items.len() < cap {
            items.to_multiset().insert(x)
        } else {
            items.to_multiset()
        }),
        popped(items).0 matches Some(y) ==> popped(items).1.to_multiset().insert(y)
            == items.to_multiset(),
        popped(items).0 is None ==> popped(items).1 == items,
        stolen(items).0 matches Some(y) ==> stolen(items).1.to_multiset().insert(y)
            == items.to_multiset(),
        stolen(items).0 is None ==> stolen(items).1 == items,
{
    broadcast use vstd::seq_lib::group_to_multiset_ensures;

    if items.len() > 0 {
        assert(items.drop_last().push(items.last()) =~= items);
        assert(items =~= seq![items[0]] + items.drop_first());
        vstd::seq_lib::lemma_multiset_commutative(seq![items[0]], items.drop_first());
        assert(seq![items[0]] =~= Seq::<T>::empty().push(items[0]));
        assert(Seq::<T>::empty().to_multiset() =~= vstd::multiset::Multiset::empty());
    }
}

} // verus!
