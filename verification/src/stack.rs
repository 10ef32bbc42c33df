use vstd::prelude::*;
use vstd::std_specs::cmp::PartialEqSpec;

verus! {

/// What a value must offer to be kept in a slot: an item that says which
/// stacks may merge, an amount, and the cap that the item puts on one stack.
///
/// The four spec functions are the stack as the contracts see it. An
/// implementation that is to be verified states them; left as they are, they
/// say nothing of the value.
pub trait Stackable: Sized {
    /// The identity by which stacks are grouped and looked up.
    type Item: PartialEq + Eq + PartialOrd + Ord;

    /// The item of this stack.
    open spec fn item_spec(&self) -> Self::Item {
        arbitrary()
    }

    /// How many units this stack holds.
    open spec fn amount_spec(&self) -> u32 {
        arbitrary()
    }

    /// The most units that one stack of `item` may hold.
    open spec fn max_for(item: Self::Item) -> u32 {
        arbitrary()
    }

    /// This stack with `amount` units in it and nothing else changed.
    open spec fn with_amount(self, amount: u32) -> Self {
        arbitrary()
    }

    /// A new stack of the same item that holds exactly `amount` units.
    fn new_splitted(&self, amount: u32) -> (part: Self)
        ensures
            part.item_spec() == self.item_spec(),
            part.amount_spec() == amount,
    ;

    /// How many units this stack holds. Setting the amount of this stack
    /// sets the amount alone.
    fn amount(&self) -> (amount: u32)
        ensures
            amount == self.amount_spec(),
            self.with_amount(amount) == *self,
            forall|set: u32| (#[trigger] self.with_amount(set)).amount_spec() == set,
            forall|set: u32| (#[trigger] self.with_amount(set)).item_spec() == self.item_spec(),
            forall|first: u32, second: u32| #[trigger]
                self.with_amount(first).with_amount(second) == self.with_amount(second),
    ;

    /// The amount, to be changed in place: what is written there is the
    /// stack's new amount, and nothing else of the stack changes.
    fn amount_mut(&mut self) -> (amount: &mut u32)
        ensures
            *amount == old(self).amount_spec(),
            *final(self) == old(self).with_amount(*final(amount)),
            final(self).amount_spec() == *final(amount),
            final(self).item_spec() == old(self).item_spec(),
    ;

    /// The most units that a stack of this stack's item may hold.
    fn max_amount(&self) -> (max: u32)
        ensures
            max == Self::max_for(self.item_spec()),
    ;

    /// The item of this stack. Comparing it with `==` tells whether the
    /// other item is the same.
    fn item(&self) -> (item: &Self::Item)
        ensures
            *item == self.item_spec(),
            decides_equality(*item),
    ;
}

/// Whether `==` on `item` is equality: it answers true for `item` itself and
/// for nothing else.
pub open spec fn decides_equality<I: PartialEq>(item: I) -> bool {
    &&& <I as PartialEqSpec>::obeys_eq_spec()
    &&& forall|other: I| #[trigger] item.eq_spec(&other) <==> item == other
}

/// Whether `with_amount` on `stack` sets the amount and nothing else: the
/// stack's own amount gives the stack itself, the amount set is the amount
/// held, the item stays, and of two amounts set in turn only the second
/// counts.
pub open spec fn sets_amount_alone<T: Stackable>(stack: T) -> bool {
    &&& stack.with_amount(stack.amount_spec()) == stack
    &&& forall|amount: u32| (#[trigger] stack.with_amount(amount)).amount_spec() == amount
    &&& forall|amount: u32|
        (#[trigger] stack.with_amount(amount)).item_spec() == stack.item_spec()
    &&& forall|first: u32, second: u32| #[trigger]
        stack.with_amount(first).with_amount(second) == stack.with_amount(second)
}

/// The cap on a stack of this stack's own item.
pub open spec fn max_of<T: Stackable>(stack: T) -> u32 {
    T::max_for(stack.item_spec())
}

/// Whether `slot` holds a stack of `item` with exactly `amount` units.
pub open spec fn holds<T: Stackable>(slot: Option<T>, item: T::Item, amount: int) -> bool {
    &&& slot is Some
    &&& slot->0.item_spec() == item
    &&& slot->0.amount_spec() == amount
}

/// The units in `slot`: those of its stack, none if it is empty.
pub open spec fn amount_of<T: Stackable>(slot: Option<T>) -> nat {
    match slot {
        Some(held) => held.amount_spec() as nat,
        None => 0,
    }
}

/// Whether `slot` is empty or holds no more than the cap of its item.
pub open spec fn within_cap<T: Stackable>(slot: Option<T>) -> bool {
    slot is Some ==> slot->0.amount_spec() <= max_of(slot->0)
}

/// Whether `slot` holds a stack of `item` that is below its cap.
pub open spec fn accepts<T: Stackable>(slot: Option<T>, item: T::Item) -> bool {
    &&& slot is Some
    &&& slot->0.item_spec() == item
    &&& slot->0.amount_spec() < T::max_for(item)
}

/// How many units of `item` can still be merged into `slot`.
pub open spec fn room<T: Stackable>(slot: Option<T>, item: T::Item) -> nat {
    if accepts(slot, item) {
        (T::max_for(item) - slot->0.amount_spec()) as nat
    } else {
        0
    }
}

/// How many units of `item` a new stack in `slot` can take: the cap of the
/// item if the slot is empty, nothing if it is occupied.
pub open spec fn vacancy<T: Stackable>(slot: Option<T>, item: T::Item) -> nat {
    if slot is None {
        T::max_for(item) as nat
    } else {
        0
    }
}

} // verus!
