use vstd::prelude::*;

verus! {

/// Number of empty entries in `s`.
pub open spec fn count_empty<T>(s: Seq<Option<T>>) -> nat
    decreases s.len(),
{
    if s.len() == 0 {
        0
    } else {
        count_empty(s.drop_last()) + if s.last() is None {
            1nat
        } else {
            0nat
        }
    }
}

proof fn lemma_count_empty_add<T>(a: Seq<Option<T>>, b: Seq<Option<T>>)
    ensures
        count_empty(a + b) == count_empty(a) + count_empty(b),
    decreases b.len(),
{
    if b.len() > 0 {
        assert((a + b).drop_last() =~= a + b.drop_last());
        lemma_count_empty_add(a, b.drop_last());
    } else {
        assert(a + b =~= a);
    }
}

proof fn lemma_count_empty_bounds<T>(s: Seq<Option<T>>)
    ensures
        count_empty(s) <= s.len(),
        count_empty(s) == s.len() <==> (forall|i: int| 0 <= i < s.len() ==> s[i] is None),
        count_empty(s) == 0 <==> (forall|i: int| 0 <= i < s.len() ==> s[i] is Some),
    decreases s.len(),
{
    if s.len() > 0 {
        lemma_count_empty_bounds(s.drop_last());
        assert forall|i: int| 0 <= i < s.len() - 1 implies s.drop_last()[i] == s[i] by {}
    }
}

proof fn lemma_count_empty_update<T>(s: Seq<Option<T>>, i: int)
    requires
        0 <= i < s.len(),
        s[i] is Some,
    ensures
        count_empty(s.update(i, None)) == count_empty(s) + 1,
{
    let t = s.update(i, None);
    assert(s =~= s.subrange(0, i) + seq![s[i]] + s.subrange(i + 1, s.len() as int));
    assert(t =~= s.subrange(0, i) + seq![None::<T>] + s.subrange(i + 1, s.len() as int));
    lemma_count_empty_add(s.subrange(0, i) + seq![s[i]], s.subrange(i + 1, s.len() as int));
    lemma_count_empty_add(s.subrange(0, i), seq![s[i]]);
    lemma_count_empty_add(s.subrange(0, i) + seq![None::<T>], s.subrange(i + 1, s.len() as int));
    lemma_count_empty_add(s.subrange(0, i), seq![None::<T>]);
    assert(seq![s[i]].drop_last() =~= Seq::<Option<T>>::empty());
    assert(seq![None::<T>].drop_last() =~= Seq::<Option<T>>::empty());
}

proof fn lemma_count_empty_replace<T>(s: Seq<Option<T>>, i: int, x: T)
    requires
        0 <= i < s.len(),
        s[i] is Some,
    ensures
        count_empty(s.update(i, Some(x))) == count_empty(s),
{
    let t = s.update(i, Some(x));
    lemma_count_empty_update(s, i);
    lemma_count_empty_update(t, i);
    assert(t.update(i, None) =~= s.update(i, None));
}

/// The indices below `n` that hold an entry.
pub open spec fn filled_below<T>(s: Seq<Option<T>>, n: nat) -> Set<nat> {
    Set::new(|i: nat| i < n && s[i as int] is Some)
}

proof fn lemma_filled_below_len<T>(s: Seq<Option<T>>, n: nat)
    requires
        n <= s.len(),
    ensures
        filled_below(s, n).finite(),
        filled_below(s, n).len() + count_empty(s.subrange(0, n as int)) == n,
    decreases n,
{
    if n == 0 {
        assert(filled_below(s, n) =~= Set::<nat>::empty());
        assert(s.subrange(0, 0) =~= Seq::<Option<T>>::empty());
    } else {
        let m = (n - 1) as nat;
        lemma_filled_below_len(s, m);
        assert(s.subrange(0, n as int).drop_last() =~= s.subrange(0, m as int));
        if s[m as int] is Some {
            assert(filled_below(s, n) =~= filled_below(s, m).insert(m));
        } else {
            assert(filled_below(s, n) =~= filled_below(s, m));
        }
    }
}

/// Relies on `Vec::capacity`: the capacity is never below the length.
#[verifier::external_body]
fn capacity<T>(v: &Vec<T>) -> (r: usize)
    ensures
        r >= v@.len(),
{
    v.capacity()
}

impl<T> Default for Slots<T> {
    fn default() -> (r: Self)
        ensures
            r.wf(),
            r@ == Map::<nat, T>::empty(),
            r.storage_len() == 0,
    {
        let r = Slots { first_unknown: 0, unclaimed_empty_count: 0, data: Vec::new() };
        proof {
            assert(r.data@.subrange(0, 0) =~= Seq::<Option<T>>::empty());
            assert(r@ =~= Map::<nat, T>::empty());
        }
        r
    }
}

/// A handle to an entry of a [`Slots`] arena, given out by `push`.
pub struct SlotIndex {
    index: usize,
}

impl SlotIndex {
    /// The position of the entry the handle refers to.
    pub closed spec fn id(&self) -> nat {
        self.index as nat
    }
}

/// An arena of entries addressed by stable handles, whose entries may be taken out
/// in any order.
///
/// The storage is split in three parts:
/// `0 .. first_unknown` holds live entries only;
/// `first_unknown .. data.len()` holds live entries and `unclaimed_empty_count` taken ones;
/// beyond `data.len()` nothing is stored.
/// Whenever the taken entries form a suffix of the storage, the storage is cut back to the
/// last live entry, so the last stored entry is always live. Live entries never move.
pub struct Slots<T> {
    first_unknown: usize,
    unclaimed_empty_count: usize,
    data: Vec<Option<T>>,
}

impl<T> View for Slots<T> {
    type V = Map<nat, T>;

    /// The live entries, by handle position.
    closed spec fn view(&self) -> Map<nat, T> {
        Map::new(
            |i: nat| i < self.data@.len() && self.data@[i as int] is Some,
            |i: nat| self.data@[i as int]->Some_0,
        )
    }
}

impl<T> Slots<T> {
    /// The well-formedness of the arena's bookkeeping.
    pub closed spec fn wf(&self) -> bool {
        let len = self.data@.len();
        &&& self.first_unknown <= len
        &&& forall|i: int| 0 <= i < self.first_unknown ==> self.data@[i] is Some
        &&& self.unclaimed_empty_count == count_empty(
            self.data@.subrange(self.first_unknown as int, len as int),
        )
        &&& (len == 0 || self.data@.last() is Some)
    }

    /// The storage ends right after the last live entry: every live handle lies below its
    /// end, and the entry just before its end is live.
    pub open spec fn storage_tight(&self) -> bool {
        &&& forall|i: nat| self@.contains_key(i) ==> i < self.storage_len()
        &&& (self.storage_len() == 0 || self@.contains_key((self.storage_len() - 1) as nat))
    }

    /// How many entries the backing storage holds, live or taken.
    pub closed spec fn storage_len(&self) -> nat {
        self.data@.len()
    }

    proof fn lemma_view_bounded(&self)
        requires
            self.wf(),
        ensures
            forall|i: nat| self@.contains_key(i) ==> i < self.storage_len(),
            self@.dom().finite(),
            self@.dom().len() + self.unclaimed_empty_count == self.storage_len(),
    {
        let s = self.data@;
        let fu = self.first_unknown as int;
        lemma_filled_below_len(s, s.len());
        assert(self@.dom() =~= filled_below(s, s.len()));
        assert(s.subrange(0, s.len() as int) =~= s.subrange(0, fu) + s.subrange(fu, s.len() as int));
        lemma_count_empty_add(s.subrange(0, fu), s.subrange(fu, s.len() as int));
        lemma_count_empty_bounds(s.subrange(0, fu));
    }

    /// A well-formed arena has finitely many live entries, and its storage is tight.
    pub proof fn lemma_live_entries(&self)
        requires
            self.wf(),
        ensures
            self@.dom().finite(),
            self.storage_tight(),
    {
        self.lemma_view_bounded();
    }

    /// The arena holds no live entry exactly when its storage is empty.
    proof fn lemma_empty_iff_no_storage(&self)
        requires
            self.wf(),
        ensures
            self@ == Map::<nat, T>::empty() <==> self.storage_len() == 0,
    {
        let s = self.data@;
        if s.len() > 0 {
            assert(self@.contains_key((s.len() - 1) as nat));
        } else {
            assert(self@ =~= Map::<nat, T>::empty());
        }
    }
}

/// Every handle taken back returns the value pushed under it, and once every pushed
/// entry has been taken, in whatever order, the arena's storage is empty again.
pub proof fn lemma_storage_freed_when_all_taken<T>(s: Slots<T>)
    requires
        s.wf(),
        s@ == Map::<nat, T>::empty(),
    ensures
        s.storage_len() == 0,
{
    s.lemma_empty_iff_no_storage();
}

impl<T: Copy> Slots<T> {
    /// Stores `item` and returns the handle under which it can be read and taken.
    pub fn push(&mut self, item: T) -> (r: SlotIndex)
        requires
            old(self).wf(),
        ensures
            final(self).wf(),
            !old(self)@.contains_key(r.id()),
            final(self)@ == old(self)@.insert(r.id(), item),
            r.id() == old(self).storage_len(),
            final(self).storage_len() == old(self).storage_len() + 1,
            final(self)@.dom().finite(),
            final(self).storage_tight(),
    {
        proof {
            self.lemma_view_bounded();
        }
        let slot_index = SlotIndex { index: self.data.len() };
        let ghost s0 = self.data@;
        self.data.push(Some(item));
        proof {
            let fu = self.first_unknown as int;
            assert(self.data@.subrange(fu, self.data@.len() as int) =~= s0.subrange(
                fu,
                s0.len() as int,
            ).push(Some(item)));
            assert(self.data@.subrange(fu, self.data@.len() as int).drop_last() =~= s0.subrange(
                fu,
                s0.len() as int,
            ));
            assert(self@ =~= old(self)@.insert(slot_index.id(), item));
            self.lemma_view_bounded();
        }
        slot_index
    }

    /// Removes the entry under `handle` and returns it. Taking a handle a second time is
    /// ruled out: the entry is no longer live.
    pub fn take(&mut self, handle: SlotIndex) -> (r: T)
        requires
            old(self).wf(),
            old(self)@.contains_key(handle.id()),
        ensures
            final(self).wf(),
            r == old(self)@[handle.id()],
            final(self)@ == old(self)@.remove(handle.id()),
            final(self).storage_len() <= old(self).storage_len(),
            final(self)@.dom().finite(),
            final(self).storage_tight(),
    {
        proof {
            self.lemma_view_bounded();
        }
        let SlotIndex { index } = handle;
        let datum = self.data[index].unwrap();
        let ghost s0 = self.data@;
        let ghost fu0 = self.first_unknown as int;
        self.data.set(index, None);
        let ghost s1 = self.data@;
        let len = self.data.len();
        proof {
            lemma_count_empty_bounds(s0.subrange(fu0, len as int));
            if index as int >= fu0 {
                assert(s1.subrange(fu0, len as int) =~= s0.subrange(fu0, len as int).update(
                    index - fu0,
                    None,
                ));
                lemma_count_empty_update(s0.subrange(fu0, len as int), index - fu0);
            } else {
                let low = s1.subrange(index as int, fu0);
                assert(s1.subrange(index as int, len as int) =~= low + s0.subrange(fu0, len as int));
                lemma_count_empty_add(low, s0.subrange(fu0, len as int));
                assert(low =~= s0.subrange(index as int, fu0).update(0, None));
                lemma_count_empty_bounds(s0.subrange(index as int, fu0));
                lemma_count_empty_update(s0.subrange(index as int, fu0), 0);
            }
        }
        self.unclaimed_empty_count = self.unclaimed_empty_count + 1;
        if index < self.first_unknown {
            self.first_unknown = index;
        }
        proof {
            let fu = self.first_unknown as int;
            lemma_count_empty_bounds(s1.subrange(fu, len as int));
            assert(self@ =~= old(self)@.remove(handle.id()));
        }
        while self.data.len() > 0 && self.data[self.data.len() - 1].is_none()
            invariant
                self.first_unknown <= self.data@.len(),
                forall|i: int| 0 <= i < self.first_unknown ==> self.data@[i] is Some,
                self.unclaimed_empty_count == count_empty(
                    self.data@.subrange(self.first_unknown as int, self.data@.len() as int),
                ),
                self@ == old(self)@.remove(handle.id()),
                self.data@.len() <= old(self).data@.len(),
            decreases self.data@.len(),
        {
            let ghost s = self.data@;
            let ghost fu = self.first_unknown as int;
            let _ = self.data.pop();
            proof {
                assert(s.subrange(fu, s.len() as int).drop_last() =~= self.data@.subrange(
                    fu,
                    self.data@.len() as int,
                ));
                assert(self@ =~= old(self)@.remove(handle.id()));
            }
            self.unclaimed_empty_count = self.unclaimed_empty_count - 1;
        }
        proof {
            self.lemma_view_bounded();
        }
        datum
    }

    /// Whether `handle` refers to a live entry of this arena.
    pub fn contains(&self, handle: &SlotIndex) -> (r: bool)
        requires
            self.wf(),
        ensures
            r == self@.contains_key(handle.id()),
    {
        handle.index < self.data.len() && self.data[handle.index].is_some()
    }

    /// Reads the entry under `handle`.
    pub fn get(&self, handle: &SlotIndex) -> (r: &T)
        requires
            self.wf(),
            self@.contains_key(handle.id()),
        ensures
            *r == self@[handle.id()],
    {
        self.data[handle.index].as_ref().unwrap()
    }

    /// The number of live entries.
    pub fn filled_slots(&self) -> (r: usize)
        requires
            self.wf(),
        ensures
            self@.dom().finite(),
            r == self@.dom().len(),
    {
        proof {
            self.lemma_view_bounded();
        }
        self.data.len() - self.unclaimed_empty_count
    }

    /// Whether the backing storage is empty, which is when no entry is live.
    pub fn is_empty(&self) -> (r: bool)
        requires
            self.wf(),
        ensures
            r == (self.storage_len() == 0),
            r == (self@ == Map::<nat, T>::empty()),
    {
        proof {
            self.lemma_empty_iff_no_storage();
        }
        self.data.is_empty()
    }

    /// Gives write access to the entry under `handle`; what is written there stays live
    /// under the same handle.
    pub fn get_mut(&mut self, handle: &SlotIndex) -> (r: &mut T)
        requires
            old(self).wf(),
            old(self)@.contains_key(handle.id()),
        ensures
            *r == old(self)@[handle.id()],
            final(self).wf(),
            final(self)@ == old(self)@.insert(handle.id(), *final(r)),
            final(self).storage_len() == old(self).storage_len(),
    {
        proof {
            let s = self.data@;
            let i = handle.index as int;
            let fu = self.first_unknown as int;
            assert(self@.contains_key(handle.id()));
            assert forall|x: T| #[trigger] count_empty(s.update(i, Some(x)).subrange(fu, s.len() as int)) == count_empty(s.subrange(fu, s.len() as int)) by {
                if i >= fu {
                    let sub = s.subrange(fu, s.len() as int);
                    assert(s.update(i, Some(x)).subrange(fu, s.len() as int) =~= sub.update(i - fu, Some(x)));
                    lemma_count_empty_replace(sub, i - fu, x);
                } else {
                    assert(s.update(i, Some(x)).subrange(fu, s.len() as int) =~= s.subrange(fu, s.len() as int));
                }
            }
        }
        let slot = &mut self.data[handle.index];
        slot.as_mut().unwrap()
    }

    /// How many more entries fit before the storage has to grow.
    pub fn available_slots(&self) -> (r: usize)
        ensures
            r + self.storage_len() <= usize::MAX,
    {
        capacity(&self.data) - self.data.len()
    }

    /// Whether the next `push` has to grow the storage.
    pub fn full(&self) -> (r: bool) {
        self.available_slots() == 0
    }
}

} // verus!
