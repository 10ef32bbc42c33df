use vstd::prelude::*;
use vstd::std_specs::iter::IteratorSpec;
use crate::error::{InvAccessErr, StackErr};
use crate::slot::{
    Slot, SlotIterator, SlotIteratorMut, contents, excess, stacked_onto, topped_up,
};
use crate::stack::{Stackable, holds, sets_amount_alone, within_cap};
use crate::stacking::{
    all_within_cap, auto_stacked, fill_offers, filled, leftover, lemma_auto_stack_conserves,
    lemma_auto_stack_keeps_caps, lemma_fill_then_place, lemma_rest_falls, lemma_rest_step,
    place_offers, placed_into, rest_at, share, total_held, unmerged, unplaced,
};

verus! {

/// Whether `slot` holds a stack of `item`.
pub open spec fn holds_item<T: Stackable>(slot: Option<T>, item: T::Item) -> bool {
    slot is Some && slot->0.item_spec() == item
}

/// Whether `index` is the lowest index at which `slots` holds a stack of
/// `item`.
pub open spec fn first_of<T: Stackable>(slots: Seq<Option<T>>, item: T::Item, index: int) -> bool {
    &&& 0 <= index < slots.len()
    &&& holds_item(slots[index], item)
    &&& forall|j: int| 0 <= j < index ==> !holds_item(#[trigger] slots[j], item)
}

/// Whether no slot holds a stack of `item`.
pub open spec fn none_of<T: Stackable>(slots: Seq<Option<T>>, item: T::Item) -> bool {
    forall|j: int| 0 <= j < slots.len() ==> !holds_item(#[trigger] slots[j], item)
}

/// Whether a stack can be put at `index`: the index is in range and the slot
/// there is empty.
pub open spec fn free_at<T>(slots: Seq<Option<T>>, index: int) -> bool {
    0 <= index < slots.len() && slots[index] is None
}

/// The slots after an attempt to put `stack` at `index`.
pub open spec fn inserted_at<T>(slots: Seq<Option<T>>, index: int, stack: T) -> Seq<Option<T>> {
    if free_at(slots, index) {
        slots.update(index, Some(stack))
    } else {
        slots
    }
}

/// The stack at `index`: none if the index is out of range or the slot empty.
pub open spec fn occupant_at<T>(slots: Seq<Option<T>>, index: int) -> Option<T> {
    if 0 <= index < slots.len() {
        slots[index]
    } else {
        None
    }
}

/// The slots with the one at `index` emptied.
pub open spec fn emptied_at<T>(slots: Seq<Option<T>>, index: int) -> Seq<Option<T>> {
    if 0 <= index < slots.len() {
        slots.update(index, None)
    } else {
        slots
    }
}

/// Whether `slot` holds a stack without a unit in it.
pub open spec fn is_spent<T: Stackable>(slot: Option<T>) -> bool {
    slot is Some && slot->0.amount_spec() == 0
}

/// The slots with every stack of no units removed.
pub open spec fn cleaned<T: Stackable>(slots: Seq<Option<T>>) -> Seq<Option<T>> {
    Seq::new(
        slots.len(),
        |i: int|
            if is_spent(slots[i]) {
                None
            } else {
                slots[i]
            },
    )
}

/// Cleaning twice leaves what cleaning once leaves.
pub proof fn lemma_cleaned_twice<T: Stackable>(slots: Seq<Option<T>>)
    ensures
        cleaned(cleaned(slots)) == cleaned(slots),
{
    assert(cleaned(cleaned(slots)) =~= cleaned(slots));
}

/// A stack that was put into a free slot is what taking from that slot
/// gives, and taking it leaves the slots as they were before, the slot empty.
pub proof fn lemma_insert_then_take<T>(slots: Seq<Option<T>>, index: int, stack: T)
    requires
        free_at(slots, index),
    ensures
        occupant_at(inserted_at(slots, index, stack), index) == Some(stack),
        emptied_at(inserted_at(slots, index, stack), index) == slots,
        emptied_at(inserted_at(slots, index, stack), index)[index] is None,
{
    assert(emptied_at(inserted_at(slots, index, stack), index) =~= slots);
}

/// A fixed row of slots, with data of the owner's choosing beside it.
#[derive(Clone, Debug, PartialEq, Eq, PartialOrd, Ord)]
pub struct Inv<T, M> {
    slots: Vec<Slot<T>>,
    pub meta: M,
    slot_amount: usize,
}

impl<T, M> View for Inv<T, M> {
    type V = Seq<Option<T>>;

    /// The content of each slot, in index order.
    closed spec fn view(&self) -> Seq<Option<T>> {
        Seq::new(self.slots@.len(), |i: int| self.slots@[i]@)
    }
}

impl<T, M> IntoIterator for Inv<T, M> {
    type Item = Slot<T>;

    type IntoIter = std::vec::IntoIter<Slot<T>>;

    /// Hands the slots out by value, in index order.
    fn into_iter(self) -> (iter: std::vec::IntoIter<Slot<T>>)
        ensures
            contents(iter.remaining()) == self@,
    {
        assert(contents(self.slots@) =~= self@);
        self.slots.into_iter()
    }
}

impl<T: Stackable, M: Default> Default for Inv<T, M> {
    /// A container of sixteen empty slots.
    fn default() -> (inv: Self)
        ensures
            inv.wf(),
            inv.capacity() == 16,
            forall|i: int| 0 <= i < 16 ==> inv@[i] is None,
            M::default.ensures((), inv.metadata()),
    {
        Inv::new(16, M::default())
    }
}

impl<T: Stackable, M> Inv<T, M> {
    /// The number of slots that the container was made with.
    pub closed spec fn capacity(&self) -> nat {
        self.slot_amount as nat
    }

    /// The owner's data, as the field `meta` holds it.
    pub closed spec fn metadata(&self) -> M {
        self.meta
    }

    /// The container has as many slots as it was made with.
    pub open spec fn wf(&self) -> bool {
        self@.len() == self.capacity()
    }

    /// Creates a container of `slot_amount` empty slots.
    pub fn new(slot_amount: usize, meta: M) -> (inv: Self)
        ensures
            inv.wf(),
            inv.capacity() == slot_amount,
            inv.metadata() == meta,
            forall|i: int| 0 <= i < slot_amount ==> inv@[i] is None,
    {
        let mut slots: Vec<Slot<T>> = Vec::new();
        let mut i: usize = 0;
        while i < slot_amount
            invariant
                i <= slot_amount,
                slots@.len() == i,
                forall|j: int| 0 <= j < i ==> slots@[j]@ is None,
            decreases slot_amount - i,
        {
            slots.push(Slot::new_empty());
            i += 1;
        }
        Inv { slots, meta, slot_amount }
    }

    /// Puts `stack` into the slot at `index` as it is, merging nothing. An
    /// index out of range or an occupied slot hands the stack back.
    pub fn insert_at(&mut self, index: usize, stack: T) -> (res: Result<(), T>)
        ensures
            res is Ok <==> free_at(old(self)@, index as int),
            res is Err ==> res == Err::<(), T>(stack),
            final(self)@ == inserted_at(old(self)@, index as int, stack),
            all_within_cap(old(self)@) && within_cap(Some(stack)) ==> all_within_cap(final(self)@),
            old(self).wf() ==> final(self).wf(),
            final(self).metadata() == old(self).metadata(),
            final(self).capacity() == old(self).capacity(),
    {
        if index < self.slots.len() {
            if self.slots[index].is_empty() {
                let _ = self.slots[index].insert(stack);
                assert(self@ =~= inserted_at(old(self)@, index as int, stack));
                Ok(())
            } else {
                Err(stack)
            }
        } else {
            Err(stack)
        }
    }

    /// Removes the stack at `index` and returns it: none if the index is out
    /// of range or the slot empty.
    pub fn take_from(&mut self, index: usize) -> (taken: Option<T>)
        ensures
            taken == occupant_at(old(self)@, index as int),
            final(self)@ == emptied_at(old(self)@, index as int),
            all_within_cap(old(self)@) ==> all_within_cap(final(self)@),
            old(self).wf() ==> final(self).wf(),
            final(self).metadata() == old(self).metadata(),
            final(self).capacity() == old(self).capacity(),
    {
        if index < self.slots.len() {
            let taken = self.slots[index].take();
            assert(self@ =~= emptied_at(old(self)@, index as int));
            taken
        } else {
            None
        }
    }

    /// The lowest index of a slot that holds a stack of `item`.
    fn position(&self, item: &T::Item) -> (found: Option<usize>)
        ensures
            match found {
                Some(index) => first_of(self@, *item, index as int),
                None => none_of(self@, *item),
            },
    {
        let mut i: usize = 0;
        while i < self.slots.len()
            invariant
                i <= self.slots@.len(),
                forall|j: int| 0 <= j < i ==> !holds_item(#[trigger] self@[j], *item),
            decreases self.slots@.len() - i,
        {
            if let Some(held) = self.slots[i].inner() {
                if *held.item() == *item {
                    return Some(i);
                }
            }
            i += 1;
        }
        None
    }

    /// The first slot, in index order, that holds a stack of `item`.
    pub fn find(&self, item: &T::Item) -> (found: Option<&Slot<T>>)
        ensures
            match found {
                Some(slot) => exists|index: int|
                    first_of(self@, *item, index) && slot@ == self@[index],
                None => none_of(self@, *item),
            },
    {
        match self.position(item) {
            Some(index) => Some(&self.slots[index]),
            None => None,
        }
    }

    /// The first slot, in index order, that holds a stack of `item`, to be
    /// changed in place.
    pub fn find_mut(&mut self, item: &T::Item) -> (found: Option<&mut Slot<T>>)
        ensures
            match found {
                Some(slot) => exists|index: int|
                    {
                        &&& first_of(old(self)@, *item, index)
                        &&& slot@ == old(self)@[index]
                        &&& final(self)@ == old(self)@.update(index, final(slot)@)
                    },
                None => none_of(old(self)@, *item) && final(self)@ == old(self)@,
            },
            final(self).metadata() == old(self).metadata(),
            final(self).capacity() == old(self).capacity(),
    {
        match self.position(item) {
            Some(index) => {
                let slot = &mut self.slots[index];
                Some(slot)
            },
            None => None,
        }
    }

    /// The first slot that holds a stack of `item`, or why there is none.
    pub fn find_slot(&self, item: &T::Item) -> (res: Result<&Slot<T>, InvAccessErr>)
        ensures
            match res {
                Ok(slot) => exists|index: int|
                    first_of(self@, *item, index) && slot@ == self@[index],
                Err(why) => why == InvAccessErr::ItemNotFound && none_of(self@, *item),
            },
    {
        match self.position(item) {
            Some(index) => Ok(&self.slots[index]),
            None => Err(InvAccessErr::ItemNotFound),
        }
    }

    /// The first slot that holds a stack of `item`, to be changed in place,
    /// or why there is none.
    pub fn find_slot_mut(&mut self, item: &T::Item) -> (res: Result<&mut Slot<T>, InvAccessErr>)
        ensures
            match res {
                Ok(slot) => exists|index: int|
                    {
                        &&& first_of(old(self)@, *item, index)
                        &&& slot@ == old(self)@[index]
                        &&& final(self)@ == old(self)@.update(index, final(slot)@)
                    },
                Err(why) => why == InvAccessErr::ItemNotFound && none_of(old(self)@, *item)
                    && final(self)@ == old(self)@,
            },
            final(self).metadata() == old(self).metadata(),
            final(self).capacity() == old(self).capacity(),
    {
        match self.position(item) {
            Some(index) => {
                let slot = &mut self.slots[index];
                Ok(slot)
            },
            None => Err(InvAccessErr::ItemNotFound),
        }
    }

    /// The slot at `index`.
    pub fn get_slot(&self, index: usize) -> (res: Result<&Slot<T>, InvAccessErr>)
        ensures
            match res {
                Ok(slot) => index < self@.len() && slot@ == self@[index as int],
                Err(why) => why == InvAccessErr::SlotOutOfBounds && index >= self@.len(),
            },
    {
        if index < self.slots.len() {
            Ok(&self.slots[index])
        } else {
            Err(InvAccessErr::SlotOutOfBounds)
        }
    }

    /// The slot at `index`, to be changed in place.
    pub fn get_slot_mut(&mut self, index: usize) -> (res: Result<&mut Slot<T>, InvAccessErr>)
        ensures
            match res {
                Ok(slot) => index < old(self)@.len() && slot@ == old(self)@[index as int]
                    && final(self)@ == old(self)@.update(index as int, final(slot)@),
                Err(why) => why == InvAccessErr::SlotOutOfBounds && index >= old(self)@.len()
                    && final(self)@ == old(self)@,
            },
            final(self).metadata() == old(self).metadata(),
            final(self).capacity() == old(self).capacity(),
    {
        if index < self.slots.len() {
            let slot = &mut self.slots[index];
            Ok(slot)
        } else {
            Err(InvAccessErr::SlotOutOfBounds)
        }
    }

    /// Takes the whole stack out of the slot at `index`, leaving it empty.
    pub fn take_stack(&mut self, index: usize) -> (res: Result<T, InvAccessErr>)
        ensures
            match res {
                Ok(taken) => occupant_at(old(self)@, index as int) == Some(taken),
                Err(why) => if index < old(self)@.len() {
                    why == InvAccessErr::SlotEmpty && old(self)@[index as int] is None
                } else {
                    why == InvAccessErr::SlotOutOfBounds
                },
            },
            final(self)@ == emptied_at(old(self)@, index as int),
            all_within_cap(old(self)@) ==> all_within_cap(final(self)@),
            old(self).wf() ==> final(self).wf(),
            final(self).metadata() == old(self).metadata(),
            final(self).capacity() == old(self).capacity(),
    {
        if index < self.slots.len() {
            let taken = self.slots[index].take();
            assert(self@ =~= emptied_at(old(self)@, index as int));
            match taken {
                Some(stack) => Ok(stack),
                None => Err(InvAccessErr::SlotEmpty),
            }
        } else {
            Err(InvAccessErr::SlotOutOfBounds)
        }
    }

    /// Tops the slot at `index` up with `to_place`, as `Slot::stack` does.
    /// What comes back as the part above the cap must be one that a stack can
    /// hold.
    pub fn stack_at(&mut self, index: usize, to_place: T) -> (res: Result<
        Result<(), StackErr<T>>,
        InvAccessErr,
    >)
        requires
            index < old(self)@.len() ==> excess(old(self)@[index as int], to_place) <= u32::MAX,
        ensures
            match res {
                Ok(stacked) => {
                    &&& index < old(self)@.len()
                    &&& final(self)@ == old(self)@.update(index as int, final(self)@[index as int])
                    &&& stacked_onto(
                        old(self)@[index as int],
                        to_place,
                        final(self)@[index as int],
                        stacked,
                    )
                },
                Err(why) => why == InvAccessErr::SlotOutOfBounds && index >= old(self)@.len()
                    && final(self)@ == old(self)@,
            },
            all_within_cap(old(self)@) ==> all_within_cap(final(self)@),
            old(self).wf() ==> final(self).wf(),
            final(self).metadata() == old(self).metadata(),
            final(self).capacity() == old(self).capacity(),
    {
        if index < self.slots.len() {
            let stacked = self.slots[index].stack(to_place);
            assert(self@ =~= old(self)@.update(index as int, self@[index as int]));
            proof {
                if all_within_cap(old(self)@) {
                    assert forall|i: int| 0 <= i < self@.len() implies within_cap(
                        #[trigger] self@[i],
                    ) by {
                        assert(within_cap(old(self)@[i]));
                    }
                }
            }
            Ok(stacked)
        } else {
            Err(InvAccessErr::SlotOutOfBounds)
        }
    }

    /// Walks the slots in index order.
    pub fn iter(&self) -> (iter: SlotIterator<'_, T>)
        ensures
            iter.remaining() == self@,
    {
        assert(contents(self.slots@) =~= self@);
        SlotIterator::new(self.slots.as_slice())
    }

    /// Walks the slots in index order, handing each out to be changed in
    /// place.
    pub fn iter_mut(&mut self) -> (iter: SlotIteratorMut<'_, T>)
        ensures
            contents(iter.slots@) == old(self)@,
            final(self)@ == contents(final(iter.slots)@),
            final(self).metadata() == old(self).metadata(),
            final(self).capacity() == old(self).capacity(),
    {
        SlotIteratorMut { slots: self.slots.as_mut_slice() }
    }

    /// Empties every slot whose stack holds no unit.
    pub fn clean_empty(&mut self)
        ensures
            final(self)@ == cleaned(old(self)@),
            all_within_cap(old(self)@) ==> all_within_cap(final(self)@),
            old(self).wf() ==> final(self).wf(),
            final(self).metadata() == old(self).metadata(),
            final(self).capacity() == old(self).capacity(),
    {
        let n: usize = self.slots.len();
        let mut i: usize = 0;
        while i < n
            invariant
                i <= n,
                n == self.slots@.len(),
                self@.len() == old(self)@.len(),
                self.metadata() == old(self).metadata(),
                self.capacity() == old(self).capacity(),
                forall|j: int| 0 <= j < i ==> self@[j] == #[trigger] cleaned(old(self)@)[j],
                forall|j: int| i <= j < n ==> self@[j] == #[trigger] old(self)@[j],
            decreases n - i,
        {
            let spent: bool = match self.slots[i].inner() {
                Some(stack) => stack.amount() == 0,
                None => false,
            };
            if spent {
                let _ = self.slots[i].take();
            }
            i += 1;
        }
        assert(self@ =~= cleaned(old(self)@));
    }

    /// The fill phase: in index order, tops up each stack of the item of
    /// `stack` from it, until `stack` holds nothing.
    fn auto_stack_inner_filled(&mut self, stack: &mut T)
        requires
            sets_amount_alone(*old(stack)),
        ensures
            filled(
                old(self)@,
                old(stack).item_spec(),
                old(stack).amount_spec() as nat,
                final(self)@,
            ),
            *final(stack) == old(stack).with_amount(
                unmerged(
                    old(self)@,
                    old(stack).item_spec(),
                    old(stack).amount_spec() as nat,
                ) as u32,
            ),
            final(stack).item_spec() == old(stack).item_spec(),
            final(stack).amount_spec() == unmerged(
                old(self)@,
                old(stack).item_spec(),
                old(stack).amount_spec() as nat,
            ),
            final(self).metadata() == old(self).metadata(),
            final(self).capacity() == old(self).capacity(),
    {
        let ghost before = self@;
        let ghost item = stack.item_spec();
        let ghost quantity = stack.amount_spec() as nat;
        let ghost offers = fill_offers(before, item);
        let n: usize = self.slots.len();
        let mut i: usize = 0;
        while i < n
            invariant
                i <= n,
                n == self.slots@.len(),
                n == before.len(),
                before == old(self)@,
                item == old(stack).item_spec(),
                quantity == old(stack).amount_spec(),
                self.metadata() == old(self).metadata(),
                self.capacity() == old(self).capacity(),
                offers == fill_offers(before, item),
                stack.item_spec() == item,
                stack.amount_spec() == rest_at(offers, quantity, i as int),
                sets_amount_alone(*old(stack)),
                *stack == old(stack).with_amount(rest_at(offers, quantity, i as int) as u32),
                forall|j: int|
                    0 <= j < i ==> topped_up(
                        #[trigger] before[j],
                        share(offers, quantity, j),
                        self@[j],
                    ),
                forall|j: int| i <= j < n ==> self@[j] == #[trigger] before[j],
            decreases n - i,
        {
            if stack.amount() == 0 {
                proof {
                    assert forall|j: int| 0 <= j < n implies topped_up(
                        before[j],
                        share(offers, quantity, j),
                        #[trigger] self@[j],
                    ) by {
                        if j >= i {
                            lemma_rest_falls(offers, quantity, i as int, j);
                        }
                    }
                    lemma_rest_falls(offers, quantity, i as int, n as int);
                }
                return ;
            }
            if self.slots[i].can_stack(stack) {
                let _ = self.slots[i].try_stack(stack);
            }
            proof {
                lemma_rest_step(offers, quantity, i as int);
            }
            i += 1;
        }
    }

    /// The placement phase: in index order, puts a new stack of at most the
    /// cap into each empty slot, taking its units from `stack`, until `stack`
    /// holds nothing.
    fn auto_stack_inner_empty(&mut self, stack: &mut T)
        requires
            sets_amount_alone(*old(stack)),
        ensures
            placed_into(
                old(self)@,
                old(stack).item_spec(),
                old(stack).amount_spec() as nat,
                final(self)@,
            ),
            *final(stack) == old(stack).with_amount(
                rest_at(
                    place_offers(old(self)@, old(stack).item_spec()),
                    old(stack).amount_spec() as nat,
                    old(self)@.len() as int,
                ) as u32,
            ),
            final(stack).item_spec() == old(stack).item_spec(),
            final(stack).amount_spec() == rest_at(
                place_offers(old(self)@, old(stack).item_spec()),
                old(stack).amount_spec() as nat,
                old(self)@.len() as int,
            ),
            final(self).metadata() == old(self).metadata(),
            final(self).capacity() == old(self).capacity(),
    {
        let ghost before = self@;
        let ghost item = stack.item_spec();
        let ghost quantity = stack.amount_spec() as nat;
        let ghost offers = place_offers(before, item);
        let n: usize = self.slots.len();
        let mut i: usize = 0;
        while i < n
            invariant
                i <= n,
                n == self.slots@.len(),
                n == before.len(),
                before == old(self)@,
                item == old(stack).item_spec(),
                quantity == old(stack).amount_spec(),
                self.metadata() == old(self).metadata(),
                self.capacity() == old(self).capacity(),
                offers == place_offers(before, item),
                stack.item_spec() == item,
                stack.amount_spec() == rest_at(offers, quantity, i as int),
                sets_amount_alone(*old(stack)),
                *stack == old(stack).with_amount(rest_at(offers, quantity, i as int) as u32),
                forall|j: int|
                    0 <= j < i ==> if (#[trigger] before[j]) is None && rest_at(
                        offers,
                        quantity,
                        j,
                    ) > 0 {
                        holds(self@[j], item, share(offers, quantity, j) as int)
                    } else {
                        self@[j] == before[j]
                    },
                forall|j: int| i <= j < n ==> self@[j] == #[trigger] before[j],
            decreases n - i,
        {
            if stack.amount() == 0 {
                proof {
                    assert forall|j: int| 0 <= j < n implies if before[j] is None && rest_at(
                        offers,
                        quantity,
                        j,
                    ) > 0 {
                        holds(#[trigger] self@[j], item, share(offers, quantity, j) as int)
                    } else {
                        self@[j] == before[j]
                    } by {
                        if j >= i {
                            lemma_rest_falls(offers, quantity, i as int, j);
                        }
                    }
                    lemma_rest_falls(offers, quantity, i as int, n as int);
                }
                return ;
            }
            if self.slots[i].is_empty() {
                let have: u32 = stack.amount();
                let max: u32 = stack.max_amount();
                let to_add: u32 = if have < max { have } else { max };
                let new_stack = stack.new_splitted(to_add);
                *stack.amount_mut() = have - to_add;
                let _ = self.slots[i].insert(new_stack);
            }
            proof {
                lemma_rest_step(offers, quantity, i as int);
            }
            i += 1;
        }
    }

    /// Adds the units of `stack` to the container: first to the stacks of the
    /// same item that are below their cap, then as new stacks of at most the
    /// cap in the empty slots, in index order both times. Returns what found
    /// no place: the stack itself with that amount in it, or nothing if all
    /// was placed.
    pub fn auto_stack(&mut self, stack: T) -> (rest: Option<T>)
        ensures
            auto_stacked(
                old(self)@,
                stack.item_spec(),
                stack.amount_spec() as nat,
                final(self)@,
            ),
            rest == unplaced(
                stack,
                leftover(old(self)@, stack.item_spec(), stack.amount_spec() as nat),
            ),
            rest is Some ==> holds(
                rest,
                stack.item_spec(),
                leftover(old(self)@, stack.item_spec(), stack.amount_spec() as nat) as int,
            ),
            total_held(final(self)@) + leftover(
                old(self)@,
                stack.item_spec(),
                stack.amount_spec() as nat,
            ) == total_held(old(self)@) + stack.amount_spec(),
            all_within_cap(old(self)@) ==> all_within_cap(final(self)@),
            old(self).wf() ==> final(self).wf(),
            final(self).metadata() == old(self).metadata(),
            final(self).capacity() == old(self).capacity(),
    {
        let ghost before = self@;
        let ghost item = stack.item_spec();
        let ghost quantity = stack.amount_spec() as nat;
        let mut stack = stack;
        if stack.amount() == 0 {
            proof {
                lemma_fill_then_place(before, item, quantity, before, before);
                lemma_auto_stack_conserves(before, item, quantity, before);
            }
            return None;
        }
        self.auto_stack_inner_filled(&mut stack);
        let ghost between = self@;
        if stack.amount() == 0 {
            proof {
                lemma_fill_then_place(before, item, quantity, between, between);
                lemma_auto_stack_conserves(before, item, quantity, between);
                if all_within_cap(before) {
                    lemma_auto_stack_keeps_caps(before, item, quantity, between);
                }
            }
            return None;
        }
        self.auto_stack_inner_empty(&mut stack);
        proof {
            lemma_fill_then_place(before, item, quantity, between, self@);
            lemma_auto_stack_conserves(before, item, quantity, self@);
            if all_within_cap(before) {
                lemma_auto_stack_keeps_caps(before, item, quantity, self@);
            }
        }
        if stack.amount() > 0 {
            Some(stack)
        } else {
            None
        }
    }
}

} // verus!
