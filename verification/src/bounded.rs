//! Fixed-capacity lists: `heapless::Vec` together with the sequence of its items.
//!
//! A push onto a full list leaves the list as it is and hands the item back, so
//! a run of pushes keeps the longest prefix that fits. `clip` is that prefix.

use vstd::prelude::*;
use vstd::std_specs::cmp::PartialEqSpec;

verus! {

/// `heapless::Vec`, the storage behind [`BoundedVec`].
#[verifier::external_type_specification]
#[verifier::external_body]
#[verifier::reject_recursive_types(T)]
pub struct ExHeaplessVec<T, const N: usize>(heapless::Vec<T, N>);

/// The first `n` items of `s`, or all of `s` where it has no more than `n`.
pub open spec fn clip<T>(s: Seq<T>, n: nat) -> Seq<T> {
    if s.len() <= n {
        s
    } else {
        s.take(n as int)
    }
}

/// Clipping before a push changes nothing once the result is clipped again.
pub proof fn lemma_clip_push<T>(s: Seq<T>, item: T, n: nat)
    ensures
        clip(clip(s, n).push(item), n) == clip(s.push(item), n),
        clip(s, n).len() <= n,
{
    if s.len() >= n {
        assert(clip(s, n).push(item).take(n as int) =~= s.take(n as int));
        assert(s.push(item).take(n as int) =~= s.take(n as int));
    }
}

/// Clipping before an append changes nothing once the result is clipped again.
pub proof fn lemma_clip_append<T>(s: Seq<T>, t: Seq<T>, n: nat)
    ensures
        clip(clip(s, n) + t, n) == clip(s + t, n),
        clip(s, n).len() <= n,
{
    if s.len() > n {
        assert((clip(s, n) + t).take(n as int) =~= s.take(n as int));
        assert((s + t).take(n as int) =~= s.take(n as int));
    }
}

/// A list of at most `N` items.
///
/// `items` holds them and `model` is the sequence that `items` holds. Only the
/// functions of this module reach either field: a list starts out in `new`, and
/// `push` and `clear` are all that changes one.
#[verifier::reject_recursive_types(T)]
pub struct BoundedVec<T, const N: usize> {
    items: heapless::Vec<T, N>,
    model: Ghost<Seq<T>>,
}

impl<T, const N: usize> View for BoundedVec<T, N> {
    type V = Seq<T>;

    closed spec fn view(&self) -> Seq<T> {
        self.model@
    }
}

impl<T, const N: usize> BoundedVec<T, N> {
    /// Calls `heapless::Vec::new`, which gives an empty list.
    #[verifier::external_body]
    fn heapless_new() -> (r: Self)
        ensures
            r@ == Seq::<T>::empty(),
    {
        BoundedVec { items: heapless::Vec::new(), model: Ghost(Seq::empty()) }
    }

    /// Calls `heapless::Vec::push`: below the capacity the item is appended; at
    /// the capacity it comes back and the list stays as it is.
    #[verifier::external_body]
    fn heapless_push(&mut self, item: T) -> (r: Result<(), T>)
        ensures
            old(self)@.len() < N ==> r is Ok && final(self)@ == old(self)@.push(item),
            old(self)@.len() >= N ==> (r matches Err(e) && e == item) && final(self)@ == old(self)@,
    {
        self.items.push(item)
    }

    /// Calls `heapless::Vec::clear`, which drops every item.
    #[verifier::external_body]
    fn heapless_clear(&mut self)
        ensures
            final(self)@ == Seq::<T>::empty(),
    {
        self.items.clear()
    }

    /// Calls `heapless::Vec::as_slice`: the items in order, never more than `N`.
    #[verifier::external_body]
    fn heapless_as_slice(&self) -> (r: &[T])
        ensures
            r@ == self@,
            r@.len() <= N,
    {
        self.items.as_slice()
    }

    /// An empty list.
    pub fn new() -> (r: Self)
        ensures
            r@ == Seq::<T>::empty(),
    {
        Self::heapless_new()
    }

    /// Appends `item`; a full list hands it back.
    pub fn push(&mut self, item: T) -> (r: Result<(), T>)
        ensures
            old(self)@.len() < N ==> r is Ok,
            old(self)@.len() >= N ==> (r matches Err(e) && e == item),
            final(self)@ == clip(old(self)@.push(item), N as nat),
    {
        let used = self.heapless_as_slice();
        assert(used@.len() >= N ==> self@.push(item).take(N as int) =~= self@);
        self.heapless_push(item)
    }

    /// Appends `items` one by one, as far as there is room.
    pub fn push_all(&mut self, items: &[T]) where T: Copy
        ensures
            final(self)@ == clip(old(self)@ + items@, N as nat),
    {
        let used = self.heapless_as_slice();
        let ghost before = self@;
        assert(before + items@.take(0) =~= before);
        let mut i: usize = 0;
        while i < items.len()
            invariant
                i <= items@.len(),
                self@ == clip(before + items@.take(i as int), N as nat),
            decreases items@.len() - i,
        {
            proof {
                assert(before + items@.take(i + 1) =~= (before + items@.take(i as int)).push(
                    items@[i as int],
                ));
                lemma_clip_push(before + items@.take(i as int), items@[i as int], N as nat);
            }
            let _ = self.push(items[i]);
            i += 1;
        }
        assert(items@.take(i as int) =~= items@);
    }

    /// Removes every item.
    pub fn clear(&mut self)
        ensures
            final(self)@ == Seq::<T>::empty(),
    {
        self.heapless_clear()
    }

    /// The items in order.
    pub fn as_slice(&self) -> (r: &[T])
        ensures
            r@ == self@,
            r@.len() <= N,
    {
        self.heapless_as_slice()
    }
}

impl<T, const N: usize> core::ops::Deref for BoundedVec<T, N> {
    type Target = [T];

    fn deref(&self) -> (r: &[T])
        ensures
            r@ == self@,
            r@.len() <= N,
    {
        self.heapless_as_slice()
    }
}

impl<T, const N: usize> Default for BoundedVec<T, N> {
    fn default() -> (r: Self)
        ensures
            r@ == Seq::<T>::empty(),
    {
        Self::new()
    }
}

impl<T: PartialEq, const N: usize> PartialEq for BoundedVec<T, N> {
    fn eq(&self, other: &Self) -> (r: bool) {
        let items = self.as_slice();
        let others = other.as_slice();
        if items.len() != others.len() {
            return false;
        }
        let mut i: usize = 0;
        while i < items.len()
            invariant
                i <= items@.len(),
                items@ == self@,
                others@ == other@,
                items@.len() == others@.len(),
                T::obeys_eq_spec() ==> forall|k: int|
                    0 <= k < i ==> (#[trigger] items@[k]).eq_spec(&others@[k]),
            decreases items@.len() - i,
        {
            if items[i] != others[i] {
                return false;
            }
            i += 1;
        }
        true
    }
}

impl<T: PartialEq, const N: usize> vstd::std_specs::cmp::PartialEqSpecImpl for BoundedVec<T, N> {
    open spec fn obeys_eq_spec() -> bool {
        T::obeys_eq_spec()
    }

    open spec fn eq_spec(&self, other: &Self) -> bool {
        &&& self@.len() == other@.len()
        &&& forall|i: int|
            0 <= i < self@.len() ==> (#[trigger] self@[i]).eq_spec(&other@[i])
    }
}

impl<T: Eq, const N: usize> Eq for BoundedVec<T, N> {

}

impl<T: Clone, const N: usize> Clone for BoundedVec<T, N> {
    fn clone(&self) -> (r: Self)
        ensures
            r@.len() == self@.len(),
            forall|i: int| 0 <= i < self@.len() ==> cloned::<T>(#[trigger] self@[i], r@[i]),
    {
        let mut copy: Self = Self::new();
        let items = self.as_slice();
        let mut i: usize = 0;
        while i < items.len()
            invariant
                i <= items@.len() <= N,
                items@ == self@,
                copy@.len() == i,
                forall|k: int| 0 <= k < i ==> cloned::<T>(#[trigger] self@[k], copy@[k]),
            decreases items@.len() - i,
        {
            let _ = copy.push(items[i].clone());
            i += 1;
        }
        copy
    }
}

} // verus!
