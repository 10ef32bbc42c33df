use vstd::prelude::*;
use vstd::math::min;
use crate::error::{InvAccessErr, StackErr};
use crate::stack::{Stackable, accepts, amount_of, holds, room, within_cap};

verus! {

/// Whether `after` holds the stack of `before` with `amount` units in it and
/// nothing else changed.
pub open spec fn resized<T: Stackable>(before: Option<T>, amount: int, after: Option<T>) -> bool {
    &&& before is Some
    &&& after == Some(before->0.with_amount(amount as u32))
    &&& holds(after, before->0.item_spec(), amount)
}

/// Whether `after` is `before` with `gain` more units in its stack: the very
/// same slot if nothing was gained, else the same stack with that many more.
pub open spec fn topped_up<T: Stackable>(before: Option<T>, gain: nat, after: Option<T>) -> bool {
    if gain == 0 {
        after == before
    } else {
        before is Some && resized(before, before->0.amount_spec() + gain, after)
    }
}

/// Whether `res` hands back `amount` units of `item` as the part that did
/// not fit.
pub open spec fn overflows<T: Stackable>(
    res: Result<(), StackErr<T>>,
    item: T::Item,
    amount: int,
) -> bool {
    &&& res matches Err(StackErr::StackSizeOverflow(rest))
    &&& rest.item_spec() == item
    &&& rest.amount_spec() == amount
}

/// How many units come back when `to_place` is stacked onto `before`: what
/// the two hold together above the cap of the item. Nothing comes back from
/// a stack of another item, which takes nothing.
pub open spec fn excess<T: Stackable>(before: Option<T>, to_place: T) -> int {
    let cap = T::max_for(to_place.item_spec());
    match before {
        None => if to_place.amount_spec() > cap {
            to_place.amount_spec() - cap
        } else {
            0
        },
        Some(held) => if held.item_spec() == to_place.item_spec() && held.amount_spec()
            + to_place.amount_spec() > cap {
            held.amount_spec() + to_place.amount_spec() - cap
        } else {
            0
        },
    }
}

/// Whether `after` and `res` are what topping up `before` with `to_place`
/// gives. An empty slot takes the stack, cut down to the cap where it is
/// above it. A stack of the same item takes the units and is then cut down to
/// the cap. Either way the part above the cap comes back as a new stack. A
/// stack of another item takes nothing and the stack comes back as it is.
pub open spec fn stacked_onto<T: Stackable>(
    before: Option<T>,
    to_place: T,
    after: Option<T>,
    res: Result<(), StackErr<T>>,
) -> bool {
    let item = to_place.item_spec();
    let cap = T::max_for(item);
    match before {
        None => if excess(before, to_place) == 0 {
            res is Ok && after == Some(to_place)
        } else {
            resized(Some(to_place), cap as int, after) && overflows(
                res,
                item,
                excess(before, to_place),
            )
        },
        Some(held) => if held.item_spec() != item {
            res == Err::<(), StackErr<T>>(StackErr::ItemTypeDoesNotMatch(to_place)) && after
                == before
        } else if excess(before, to_place) == 0 {
            res is Ok && topped_up(before, to_place.amount_spec() as nat, after)
        } else {
            resized(before, cap as int, after) && overflows(res, item, excess(before, to_place))
        },
    }
}

/// What removing `amount` units from `slot` answers: an empty slot and a
/// stack that is too small are refused.
pub open spec fn removal<T: Stackable>(slot: Option<T>, amount: u32) -> Result<(), InvAccessErr> {
    match slot {
        None => Err(InvAccessErr::SlotEmpty),
        Some(held) => if amount > held.amount_spec() {
            Err(InvAccessErr::AmountInsufficient)
        } else {
            Ok(())
        },
    }
}

/// Whether `after` is what removing `amount` units leaves of `before`: the
/// slot as it was if the removal is refused or removes nothing from a stack
/// that holds something, an empty slot if it takes the last unit, else the
/// same stack with that much less.
pub open spec fn reduced<T: Stackable>(before: Option<T>, amount: u32, after: Option<T>) -> bool {
    if removal(before, amount) is Err {
        after == before
    } else if before->0.amount_spec() == amount {
        after is None
    } else if amount == 0 {
        after == before
    } else {
        resized(before, before->0.amount_spec() - amount, after)
    }
}

/// One cell of a container: empty, or holding one stack.
#[derive(Debug, Clone, PartialEq, Eq, PartialOrd, Ord)]
pub struct Slot<T> {
    pub(crate) inner: Option<T>,
}

impl<T> View for Slot<T> {
    type V = Option<T>;

    /// The stack in the slot, if there is one.
    closed spec fn view(&self) -> Option<T> {
        self.inner
    }
}

impl<T: Stackable> Slot<T> {
    /// Creates an empty slot.
    pub fn new_empty() -> (slot: Self)
        ensures
            slot@ is None,
    {
        Slot { inner: None }
    }

    /// Creates a slot that holds `items`.
    pub fn new(items: T) -> (slot: Self)
        ensures
            slot@ == Some(items),
    {
        Slot { inner: Some(items) }
    }

    /// Returns true if the slot holds no stack.
    pub fn is_empty(&self) -> (empty: bool)
        ensures
            empty == (self@ is None),
    {
        self.inner.is_none()
    }

    /// Whether units of `stack` can be merged into this slot: it holds a stack
    /// of the same item that is below its cap.
    pub fn can_stack(&self, stack: &T) -> (accepted: bool)
        ensures
            accepted == accepts(self@, stack.item_spec()),
    {
        if let Some(existing) = &self.inner {
            existing.item() == stack.item() && existing.amount() < existing.max_amount()
        } else {
            false
        }
    }

    /// Moves as many units from `stack` into this slot as the slot has room
    /// for, and returns how many were moved.
    pub fn try_stack(&mut self, stack: &mut T) -> (moved: u32)
        ensures
            moved == min(
                old(stack).amount_spec() as int,
                room(old(self)@, old(stack).item_spec()) as int,
            ),
            topped_up(old(self)@, moved as nat, final(self)@),
            *final(stack) == if moved == 0 {
                *old(stack)
            } else {
                old(stack).with_amount((old(stack).amount_spec() - moved) as u32)
            },
            final(stack).item_spec() == old(stack).item_spec(),
            final(stack).amount_spec() == old(stack).amount_spec() - moved,
            within_cap(old(self)@) ==> within_cap(final(self)@),
    {
        if !self.can_stack(stack) {
            return 0;
        }
        match &mut self.inner {
            Some(existing) => {
                let held: u32 = existing.amount();
                let space: u32 = existing.max_amount() - held;
                let have: u32 = stack.amount();
                let to_add: u32 = if have < space { have } else { space };
                if to_add == 0 {
                    return 0;
                }
                *existing.amount_mut() = held + to_add;
                *stack.amount_mut() = have - to_add;
                to_add
            },
            None => 0,
        }
    }

    /// Puts `stack` into the slot if it is empty; an occupied slot hands the
    /// stack back and stays as it is. Nothing is merged.
    pub fn insert(&mut self, stack: T) -> (rejected: Option<T>)
        ensures
            old(self)@ is None ==> rejected is None && final(self)@ == Some(stack),
            old(self)@ is Some ==> rejected == Some(stack) && final(self)@ == old(self)@,
            within_cap(old(self)@) && within_cap(Some(stack)) ==> within_cap(final(self)@),
    {
        if self.inner.is_none() {
            self.inner = Some(stack);
            None
        } else {
            Some(stack)
        }
    }

    /// Tops the slot up with `to_place`. An empty slot takes the stack; a
    /// stack of the same item takes its units; a stack of another item takes
    /// nothing and hands the stack back as it is. What the slot then holds
    /// above the cap of the item is cut off and comes back as a new stack,
    /// which must be one that a stack can hold.
    pub fn stack(&mut self, to_place: T) -> (res: Result<(), StackErr<T>>)
        requires
            excess(old(self)@, to_place) <= u32::MAX,
        ensures
            stacked_onto(old(self)@, to_place, final(self)@, res),
            within_cap(old(self)@) ==> within_cap(final(self)@),
    {
        let mut to_place = to_place;
        match &mut self.inner {
            Some(held) => {
                if !(held.item() == to_place.item()) {
                    return Err(StackErr::ItemTypeDoesNotMatch(to_place));
                }
                let max: u32 = held.max_amount();
                let have: u32 = held.amount();
                let more: u32 = to_place.amount();
                if have <= max && more <= max - have {
                    if more > 0 {
                        *held.amount_mut() = have + more;
                    }
                    return Ok(());
                }
                let over: u32 = if have <= max {
                    more - (max - have)
                } else {
                    more + (have - max)
                };
                let rest = held.new_splitted(over);
                if have != max {
                    *held.amount_mut() = max;
                }
                return Err(StackErr::StackSizeOverflow(rest));
            },
            None => {},
        }
        let max: u32 = to_place.max_amount();
        let have: u32 = to_place.amount();
        if have <= max {
            self.inner = Some(to_place);
            return Ok(());
        }
        let rest = to_place.new_splitted(have - max);
        *to_place.amount_mut() = max;
        self.inner = Some(to_place);
        Err(StackErr::StackSizeOverflow(rest))
    }

    /// The stack in the slot, if there is one.
    pub fn inner(&self) -> (inner: &Option<T>)
        ensures
            *inner == self@,
    {
        &self.inner
    }

    /// Removes the stack from the slot and returns it.
    pub fn take(&mut self) -> (taken: Option<T>)
        ensures
            taken == old(self)@,
            final(self)@ is None,
    {
        self.inner.take()
    }

    /// The item of the stack in the slot.
    pub fn get_item(&self) -> (res: Result<&T::Item, InvAccessErr>)
        ensures
            match self@ {
                Some(held) => res == Ok::<&T::Item, InvAccessErr>(&held.item_spec()),
                None => res == Err::<&T::Item, InvAccessErr>(InvAccessErr::SlotEmpty),
            },
    {
        if let Some(held) = &self.inner {
            Ok(held.item())
        } else {
            Err(InvAccessErr::SlotEmpty)
        }
    }

    /// The units of the stack in the slot.
    pub fn get_amount(&self) -> (res: Result<u32, InvAccessErr>)
        ensures
            match self@ {
                Some(held) => res == Ok::<u32, InvAccessErr>(held.amount_spec()),
                None => res == Err::<u32, InvAccessErr>(InvAccessErr::SlotEmpty),
            },
    {
        if let Some(held) = &self.inner {
            Ok(held.amount())
        } else {
            Err(InvAccessErr::SlotEmpty)
        }
    }

    /// The units in the slot; an empty slot holds none.
    pub fn amount(&self) -> (amount: u32)
        ensures
            amount == amount_of(self@),
    {
        if let Some(existing) = &self.inner {
            existing.amount()
        } else {
            0
        }
    }

    /// Decreases the amount by one; the same as `decrement`.
    pub fn decrease_amount(&mut self) -> (res: Result<(), InvAccessErr>)
        ensures
            res == removal(old(self)@, 1),
            reduced(old(self)@, 1, final(self)@),
            within_cap(old(self)@) ==> within_cap(final(self)@),
    {
        self.decrement_by(1)
    }

    /// Decreases the amount by `amount`; the same as `decrement_by`.
    pub fn decrease_amount_by(&mut self, amount: u32) -> (res: Result<(), InvAccessErr>)
        ensures
            res == removal(old(self)@, amount),
            reduced(old(self)@, amount, final(self)@),
            within_cap(old(self)@) ==> within_cap(final(self)@),
    {
        self.decrement_by(amount)
    }

    /// Removes one unit from the stack in the slot.
    pub fn decrement(&mut self) -> (res: Result<(), InvAccessErr>)
        ensures
            res == removal(old(self)@, 1),
            reduced(old(self)@, 1, final(self)@),
            within_cap(old(self)@) ==> within_cap(final(self)@),
    {
        self.decrement_by(1)
    }

    /// Removes `amount` units from the stack in the slot. A stack that holds
    /// fewer is left as it is; one that loses its last unit leaves the slot
    /// empty.
    pub fn decrement_by(&mut self, amount: u32) -> (res: Result<(), InvAccessErr>)
        ensures
            res == removal(old(self)@, amount),
            reduced(old(self)@, amount, final(self)@),
            within_cap(old(self)@) ==> within_cap(final(self)@),
    {
        match &mut self.inner {
            Some(existing) => {
                let held: u32 = existing.amount();
                if held < amount {
                    return Err(InvAccessErr::AmountInsufficient);
                }
                if held > amount {
                    *existing.amount_mut() = held - amount;
                    return Ok(());
                }
            },
            None => {
                return Err(InvAccessErr::SlotEmpty);
            },
        }
        self.inner = None;
        Ok(())
    }
}

/// What each of `slots` holds, in order.
pub open spec fn contents<T>(slots: Seq<Slot<T>>) -> Seq<Option<T>> {
    Seq::new(slots.len(), |i: int| slots[i]@)
}

/// Walks the slots of a container in index order.
pub struct SlotIterator<'a, T> {
    pub(crate) slots: &'a [Slot<T>],
    pub(crate) index: usize,
}

impl<'a, T> SlotIterator<'a, T> {
    /// What the slots still to come hold, in the order in which they come.
    pub closed spec fn remaining(&self) -> Seq<Option<T>> {
        if self.index <= self.slots@.len() {
            contents(self.slots@.skip(self.index as int))
        } else {
            Seq::empty()
        }
    }

    /// An iterator that has all of `slots` still to come.
    pub(crate) fn new(slots: &'a [Slot<T>]) -> (iter: Self)
        ensures
            iter.remaining() == contents(slots@),
    {
        let iter = SlotIterator { slots, index: 0 };
        assert(iter.remaining() =~= contents(slots@));
        iter
    }

    /// The next slot, if one is left.
    pub fn next(&mut self) -> (slot: Option<&'a Slot<T>>)
        ensures
            match slot {
                Some(slot) => {
                    &&& old(self).remaining().len() > 0
                    &&& slot@ == old(self).remaining()[0]
                    &&& final(self).remaining() == old(self).remaining().skip(1)
                },
                None => {
                    &&& old(self).remaining().len() == 0
                    &&& final(self).remaining() == old(self).remaining()
                },
            },
    {
        if self.index < self.slots.len() {
            let slot = &self.slots[self.index];
            self.index += 1;
            assert(self.remaining() =~= old(self).remaining().skip(1));
            Some(slot)
        } else {
            None
        }
    }
}

/// Walks the slots of a container in index order and hands each out to be
/// changed in place. `slots` is what is still to come; what the container
/// holds in the end is the slots handed out, as they were left, and after
/// them the slots never asked for.
pub struct SlotIteratorMut<'a, T> {
    pub slots: &'a mut [Slot<T>],
}

impl<'a, T> SlotIteratorMut<'a, T> {
    /// The next slot, if one is left.
    pub fn next(&mut self) -> (slot: Option<&'a mut Slot<T>>)
        ensures
            match slot {
                Some(slot) => {
                    &&& old(self).slots@.len() > 0
                    &&& *slot == old(self).slots@[0]
                    &&& final(self).slots@ == old(self).slots@.skip(1)
                    &&& final(old(self).slots)@ == seq![*final(slot)] + final(final(self).slots)@
                },
                None => {
                    &&& old(self).slots@.len() == 0
                    &&& final(self).slots@.len() == 0
                    &&& final(final(self).slots)@ == final(old(self).slots)@
                },
            },
    {
        if self.slots.len() == 0 {
            return None;
        }
        let mut slots: &'a mut [Slot<T>] = &mut [];
        core::mem::swap(&mut self.slots, &mut slots);
        let (head, tail) = slots.split_at_mut(1);
        self.slots = tail;
        head.first_mut()
    }
}

} // verus!
