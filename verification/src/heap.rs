//! The mutable heap, the frozen value graph, and the one-shot freeze pass
//! between them.
//!
//! The mutable heap owns every complex value allocated into it; a value's
//! references always point at slots allocated before it. The freeze pass
//! walks the slots once, in allocation order, converts each into its
//! simple form through [`crate::avalue::AValue::into_simple`], and records
//! the conversion in the freezer's memo table — so each value's freeze
//! routine runs exactly once, however many parents reference it, and
//! parents sharing a child resolve it to the one frozen slot. Afterwards
//! every old slot redirects to its frozen counterpart: outstanding handles
//! observably resolve to the new simple value.

use vstd::prelude::*;

use crate::avalue::{AValue, Complex, ComplexValue, Simple, Wrapper};
use crate::payload::{lemma_freeze_memo_agree, ComplexPayload, SimplePayload};
use crate::value::FreezeError;

verus! {

/// What the memo table answers for a slot: the frozen counterpart where one
/// was recorded, nothing otherwise.
pub open spec fn memo_lookup(memo: Seq<Option<usize>>, r: usize) -> Option<usize> {
    if r < memo.len() {
        memo[r as int]
    } else {
        None
    }
}

/// The one-shot mutable-to-immutable converter's state: for each old heap
/// slot, the frozen slot it became, once it has.
pub struct Freezer {
    memo: Vec<Option<usize>>,
}

impl Freezer {
    /// The memo table, for specifications.
    pub closed spec fn memo_view(&self) -> Seq<Option<usize>> {
        self.memo@
    }

    /// A freezer that has frozen nothing yet, for a heap of `n` slots.
    pub fn new(n: usize) -> (r: Freezer)
        ensures
            r.memo_view().len() == n,
            forall|i: int| 0 <= i < n ==> r.memo_view()[i] is None,
    {
        let mut memo: Vec<Option<usize>> = Vec::new();
        let mut i: usize = 0;
        while i < n
            invariant
                i <= n,
                memo@.len() == i,
                forall|j: int| 0 <= j < i ==> memo@[j] is None,
            decreases n - i,
        {
            memo.push(None);
            i = i + 1;
        }
        Freezer { memo }
    }

    /// Resolve an old heap reference to its frozen counterpart. Fails with
    /// [`FreezeError::Unresolved`] exactly where no counterpart has been
    /// recorded for that slot.
    pub fn freeze(&self, r: usize) -> (res: Result<usize, FreezeError>)
        ensures
            match memo_lookup(self.memo_view(), r) {
                Some(j) => res == Ok::<usize, FreezeError>(j),
                None => res == Err::<usize, FreezeError>(FreezeError::Unresolved),
            },
    {
        if r < self.memo.len() {
            match self.memo[r] {
                Some(j) => Ok(j),
                None => Err(FreezeError::Unresolved),
            }
        } else {
            Err(FreezeError::Unresolved)
        }
    }

    /// Record that old slot `old_slot` froze into frozen slot `new_slot`.
    pub fn record(&mut self, old_slot: usize, new_slot: usize)
        requires
            old_slot < old(self).memo_view().len(),
        ensures
            final(self).memo_view() == old(self).memo_view().update(
                old_slot as int,
                Some(new_slot),
            ),
    {
        let dest = &mut self.memo[old_slot];
        *dest = Some(new_slot);
    }
}

/// One slot of the mutable heap: a complex value still subject to tracing
/// and freezing, a simple value parked until the freeze pass carries it
/// over, a redirection to the frozen counterpart once the slot has been
/// frozen, or a vacancy left where a freeze failed mid-conversion.
pub enum HeapSlot {
    Complex(Wrapper<Complex, ComplexPayload>),
    Simple(Wrapper<Simple, SimplePayload>),
    Redirected(usize),
    Vacant,
}

/// The heap references a slot holds: a complex value's own, none for the
/// other forms.
pub open spec fn slot_refs(s: HeapSlot) -> Seq<usize> {
    match s {
        HeapSlot::Complex(w) => w.1.refs_spec(),
        _ => Seq::empty(),
    }
}

/// Whether every reference of a slot points strictly below a bound.
pub open spec fn refs_below(s: HeapSlot, bound: int) -> bool {
    forall|k: int| 0 <= k < slot_refs(s).len() ==> slot_refs(s)[k] < bound
}

/// The heap's ownership invariant: a value only references slots allocated
/// before it.
pub open spec fn heap_wf(s: Seq<HeapSlot>) -> bool {
    forall|i: int| 0 <= i < s.len() ==> refs_below(#[trigger] s[i], i)
}

/// Whether no slot has been frozen or vacated yet.
pub open spec fn unfrozen(s: Seq<HeapSlot>) -> bool {
    forall|i: int|
        0 <= i < s.len() ==> ((#[trigger] s[i]) matches HeapSlot::Complex(_) || s[i] matches
            HeapSlot::Simple(_))
}

/// The memo table of a fully frozen heap of `n` slots: each old slot froze
/// into the frozen slot of the same position.
pub open spec fn full_memo(n: nat) -> Seq<Option<usize>> {
    Seq::new(n, |i: int| Some(i as usize))
}

/// Whether a slot's value freezes against the given memo table. A simple
/// value always does: carrying it over invokes no freeze routine.
pub open spec fn slot_freezes(s: HeapSlot, memo: Seq<Option<usize>>) -> bool {
    match s {
        HeapSlot::Complex(w) => w.1.freeze_ok_spec(memo),
        _ => true,
    }
}

/// How a frozen slot relates to the old slot it came from: the payload's
/// own freeze relation for a complex value, identity for a simple one.
pub open spec fn slot_frozen_rel(
    s: HeapSlot,
    memo: Seq<Option<usize>>,
    out: Wrapper<Simple, SimplePayload>,
) -> bool {
    match s {
        HeapSlot::Complex(w) => w.1.frozen_rel(memo, out.1),
        HeapSlot::Simple(w) => out == w,
        _ => true,
    }
}

/// The error the first failing slot reports.
pub open spec fn slot_err(s: HeapSlot, memo: Seq<Option<usize>>) -> FreezeError {
    match s {
        HeapSlot::Complex(w) => w.1.freeze_err_spec(memo),
        _ => FreezeError::Unfreezable,
    }
}

/// The position of the first slot that does not freeze, scanning from the
/// front, or `None` where the whole heap freezes.
pub open spec fn first_unfreezable(s: Seq<HeapSlot>, memo: Seq<Option<usize>>) -> Option<int>
    decreases s.len(),
{
    if s.len() == 0 {
        None
    } else if !slot_freezes(s[0], memo) {
        Some(0int)
    } else {
        match first_unfreezable(s.subrange(1, s.len() as int), memo) {
            Some(i) => Some(i + 1),
            None => None,
        }
    }
}

/// Where `first_unfreezable` answers, it answers the first failing slot,
/// every slot before it freezing; where it does not, every slot freezes.
pub proof fn lemma_first_unfreezable_spec(s: Seq<HeapSlot>, memo: Seq<Option<usize>>)
    ensures
        match first_unfreezable(s, memo) {
            Some(i) => 0 <= i < s.len() && !slot_freezes(s[i], memo) && (forall|j: int|
                0 <= j < i ==> slot_freezes(#[trigger] s[j], memo)),
            None => forall|j: int| 0 <= j < s.len() ==> slot_freezes(#[trigger] s[j], memo),
        },
    decreases s.len(),
{
    if s.len() != 0 && slot_freezes(s[0], memo) {
        let rest = s.subrange(1, s.len() as int);
        lemma_first_unfreezable_spec(rest, memo);
        assert(forall|j: int| 0 <= j < rest.len() ==> rest[j] == s[j + 1]);
        match first_unfreezable(rest, memo) {
            Some(i) => {
                assert(first_unfreezable(s, memo) == Some(i + 1));
                assert(rest[i] == s[i + 1]);
                assert forall|j: int| 0 <= j < i + 1 implies slot_freezes(
                    #[trigger] s[j],
                    memo,
                ) by {
                    if j > 0 {
                        assert(rest[j - 1] == s[j]);
                        assert(slot_freezes(rest[j - 1], memo));
                    }
                }
            }
            None => {
                assert forall|j: int| 0 <= j < s.len() implies slot_freezes(
                    #[trigger] s[j],
                    memo,
                ) by {
                    if j > 0 {
                        assert(rest[j - 1] == s[j]);
                        assert(slot_freezes(rest[j - 1], memo));
                    }
                }
            }
        }
    }
}

/// The immutable value graph a successful freeze pass publishes: one
/// simple envelope per old heap slot. Once produced it is never mutated,
/// so it may be shared freely.
pub struct FrozenHeap {
    slots: Vec<Wrapper<Simple, SimplePayload>>,
}

impl View for FrozenHeap {
    type V = Seq<Wrapper<Simple, SimplePayload>>;

    closed spec fn view(&self) -> Seq<Wrapper<Simple, SimplePayload>> {
        self.slots@
    }
}

impl FrozenHeap {
    /// The number of frozen values.
    pub fn len(&self) -> (r: usize)
        ensures
            r == self@.len(),
    {
        self.slots.len()
    }

    /// The frozen value at a slot.
    pub fn get(&self, i: usize) -> (r: Option<&Wrapper<Simple, SimplePayload>>)
        ensures
            match r {
                Some(w) => i < self@.len() && *w == self@[i as int],
                None => i >= self@.len(),
            },
    {
        if i < self.slots.len() {
            Some(&self.slots[i])
        } else {
            None
        }
    }
}

/// The mutable heap: it owns every value allocated into it for the
/// duration of its mutable phase, single writer, no locking.
pub struct Heap {
    slots: Vec<HeapSlot>,
}

impl View for Heap {
    type V = Seq<HeapSlot>;

    closed spec fn view(&self) -> Seq<HeapSlot> {
        self.slots@
    }
}

impl Heap {
    /// An empty heap.
    pub fn new() -> (r: Heap)
        ensures
            r@ == Seq::<HeapSlot>::empty(),
            heap_wf(r@),
            unfrozen(r@),
    {
        let r = Heap { slots: Vec::new() };
        proof {
            assert(r@ =~= Seq::<HeapSlot>::empty());
        }
        r
    }

    /// The number of slots.
    pub fn len(&self) -> (r: usize)
        ensures
            r == self@.len(),
    {
        self.slots.len()
    }

    /// The slot at a position.
    pub fn get(&self, i: usize) -> (r: Option<&HeapSlot>)
        ensures
            match r {
                Some(s) => i < self@.len() && *s == self@[i as int],
                None => i >= self@.len(),
            },
    {
        if i < self.slots.len() {
            Some(&self.slots[i])
        } else {
            None
        }
    }

    /// Allocate a complex value. Its references must name already
    /// allocated slots — the heap's ownership invariant.
    pub fn alloc_complex(&mut self, p: ComplexPayload) -> (i: usize)
        requires
            heap_wf(old(self)@),
            forall|k: int|
                0 <= k < p.refs_spec().len() ==> #[trigger] p.refs_spec()[k] < old(self)@.len(),
        ensures
            i == old(self)@.len(),
            final(self)@ == old(self)@.push(HeapSlot::Complex(Wrapper(Complex, p))),
            heap_wf(final(self)@),
            unfrozen(old(self)@) ==> unfrozen(final(self)@),
    {
        let i = self.slots.len();
        self.slots.push(HeapSlot::Complex(crate::avalue::complex(p)));
        proof {
            assert(self@ =~= old(self)@.push(HeapSlot::Complex(Wrapper(Complex, p))));
            assert forall|j: int| 0 <= j < self@.len() implies refs_below(
                #[trigger] self@[j],
                j,
            ) by {
                if j < old(self)@.len() {
                    assert(self@[j] == old(self)@[j]);
                    assert(refs_below(old(self)@[j], j));
                }
            }
        }
        i
    }

    /// Allocate an intrinsically simple value on the mutable heap; the
    /// freeze pass will carry it over unchanged.
    pub fn alloc_simple(&mut self, p: SimplePayload) -> (i: usize)
        requires
            heap_wf(old(self)@),
        ensures
            i == old(self)@.len(),
            final(self)@ == old(self)@.push(HeapSlot::Simple(Wrapper(Simple, p))),
            heap_wf(final(self)@),
            unfrozen(old(self)@) ==> unfrozen(final(self)@),
    {
        let i = self.slots.len();
        self.slots.push(HeapSlot::Simple(crate::avalue::simple(p)));
        proof {
            assert(self@ =~= old(self)@.push(HeapSlot::Simple(Wrapper(Simple, p))));
            assert forall|j: int| 0 <= j < self@.len() implies refs_below(
                #[trigger] self@[j],
                j,
            ) by {
                if j < old(self)@.len() {
                    assert(self@[j] == old(self)@[j]);
                    assert(refs_below(old(self)@[j], j));
                }
            }
        }
        i
    }

    /// Follow a slot's redirection into the frozen graph: after a freeze,
    /// an outstanding handle to an old slot observably resolves to the new
    /// simple value.
    pub fn resolve<'a>(&self, frozen: &'a FrozenHeap, i: usize) -> (r: Option<
        &'a Wrapper<Simple, SimplePayload>,
    >)
        ensures
            match r {
                Some(w) => {
                    &&& i < self@.len()
                    &&& self@[i as int] matches HeapSlot::Redirected(j)
                    &&& j < frozen@.len()
                    &&& *w == frozen@[j as int]
                },
                None => i >= self@.len() || (forall|j: usize|
                    self@[i as int] == HeapSlot::Redirected(j) ==> j >= frozen@.len()),
            },
    {
        if i < self.slots.len() {
            match &self.slots[i] {
                HeapSlot::Redirected(j) => frozen.get(*j),
                _ => None,
            }
        } else {
            None
        }
    }

    /// The one-shot freeze pass over the whole heap, in allocation order.
    ///
    /// On success every old slot has been converted exactly once — one
    /// frozen slot per old slot, parents sharing a child resolving it to
    /// the same frozen slot — and every old slot redirects to its frozen
    /// counterpart. On failure the pass stops at the first slot whose
    /// payload refuses to freeze: slots before it stay redirected (frozen
    /// work is not rolled back), the failing slot is left vacant, and
    /// later slots are untouched.
    pub fn freeze(&mut self) -> (r: Result<FrozenHeap, FreezeError>)
        requires
            heap_wf(old(self)@),
            unfrozen(old(self)@),
        ensures
            ({
                let memo = full_memo(old(self)@.len());
                match r {
                    Ok(fh) => {
                        &&& first_unfreezable(old(self)@, memo) is None
                        &&& fh@.len() == old(self)@.len()
                        &&& forall|i: int|
                            0 <= i < old(self)@.len() ==> slot_frozen_rel(
                                #[trigger] old(self)@[i],
                                memo,
                                fh@[i],
                            )
                        &&& final(self)@.len() == old(self)@.len()
                        &&& forall|i: int|
                            0 <= i < old(self)@.len() ==> final(self)@[i] == HeapSlot::Redirected(
                                i as usize,
                            )
                    }
                    Err(e) => {
                        &&& first_unfreezable(old(self)@, memo) matches Some(f)
                        &&& e == slot_err(old(self)@[f], memo)
                        &&& final(self)@.len() == old(self)@.len()
                        &&& forall|j: int|
                            0 <= j < f ==> final(self)@[j] == HeapSlot::Redirected(j as usize)
                        &&& final(self)@[f] == HeapSlot::Vacant
                        &&& forall|j: int|
                            f < j < old(self)@.len() ==> final(self)@[j] == old(self)@[j]
                    }
                }
            }),
    {
        let ghost orig = old(self)@;
        let ghost memo_full = full_memo(old(self)@.len());
        let n = self.slots.len();
        let mut freezer = Freezer::new(n);
        let mut frozen: Vec<Wrapper<Simple, SimplePayload>> = Vec::new();
        let mut i: usize = 0;
        while i < n
            invariant
                n == orig.len(),
                orig == old(self)@,
                memo_full == full_memo(orig.len()),
                heap_wf(orig),
                unfrozen(orig),
                i <= n,
                self@.len() == n,
                freezer.memo_view().len() == n,
                forall|j: int| 0 <= j < i ==> freezer.memo_view()[j] == Some(j as usize),
                forall|j: int| i <= j < n ==> freezer.memo_view()[j] is None,
                frozen@.len() == i,
                forall|j: int| 0 <= j < i ==> slot_freezes(#[trigger] orig[j], memo_full),
                forall|j: int|
                    0 <= j < i ==> slot_frozen_rel(#[trigger] orig[j], memo_full, frozen@[j]),
                forall|j: int| 0 <= j < i ==> self@[j] == HeapSlot::Redirected(j as usize),
                forall|j: int| i <= j < n ==> self@[j] == orig[j],
            decreases n - i,
        {
            let mut taken = HeapSlot::Vacant;
            let dest = &mut self.slots[i];
            core::mem::swap(dest, &mut taken);
            proof {
                assert(taken == orig[i as int]);
            }
            match taken {
                HeapSlot::Simple(w) => {
                    frozen.push(w);
                    freezer.record(i, i);
                    let dest2 = &mut self.slots[i];
                    *dest2 = HeapSlot::Redirected(i);
                }
                HeapSlot::Complex(w) => {
                    let ghost wp = w.1;
                    let ghost memo_now = freezer.memo_view();
                    proof {
                        assert forall|k: int|
                            0 <= k < wp.refs_spec().len() implies memo_lookup(
                            memo_now,
                            #[trigger] wp.refs_spec()[k],
                        ) == memo_lookup(memo_full, wp.refs_spec()[k]) by {
                            assert(slot_refs(orig[i as int]) == wp.refs_spec());
                            assert(refs_below(orig[i as int], i as int));
                            assert(slot_refs(orig[i as int])[k] < i);
                            let rr = wp.refs_spec()[k];
                            assert(memo_now[rr as int] == Some(rr));
                            assert(memo_full[rr as int] == Some(rr));
                        }
                        lemma_freeze_memo_agree(wp, memo_now, memo_full);
                    }
                    match w.into_simple(&freezer) {
                        Ok(sw) => {
                            frozen.push(sw);
                            freezer.record(i, i);
                            let dest2 = &mut self.slots[i];
                            *dest2 = HeapSlot::Redirected(i);
                            proof {
                                assert(slot_frozen_rel(orig[i as int], memo_full, sw));
                            }
                        }
                        Err(e) => {
                            proof {
                                assert(!slot_freezes(orig[i as int], memo_full));
                                lemma_first_unfreezable_spec(orig, memo_full);
                                match first_unfreezable(orig, memo_full) {
                                    Some(f) => {
                                        if f < i {
                                            assert(slot_freezes(orig[f], memo_full));
                                        }
                                        if f > i {
                                            assert(slot_freezes(orig[i as int], memo_full));
                                        }
                                    }
                                    None => {
                                        assert(slot_freezes(orig[i as int], memo_full));
                                    }
                                }
                                assert(first_unfreezable(orig, memo_full) == Some(i as int));
                                assert(e == slot_err(orig[i as int], memo_full));
                            }
                            return Err(e);
                        }
                    }
                }
                HeapSlot::Redirected(_) => {
                    proof {
                        assert(false);
                    }
                    return Err(FreezeError::Unfreezable);
                }
                HeapSlot::Vacant => {
                    proof {
                        assert(false);
                    }
                    return Err(FreezeError::Unfreezable);
                }
            }
            i = i + 1;
        }
        proof {
            lemma_first_unfreezable_spec(orig, memo_full);
            match first_unfreezable(orig, memo_full) {
                Some(f) => {
                    assert(slot_freezes(orig[f], memo_full));
                }
                None => {
                }
            }
        }
        Ok(FrozenHeap { slots: frozen })
    }
}

} // verus!
