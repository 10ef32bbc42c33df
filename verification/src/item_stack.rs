use vstd::prelude::*;
use crate::error::StackErr;
use crate::stack::{Stackable, decides_equality};

verus! {

/// What an item must say to be counted in an `ItemStack`: how many of it one
/// stack may hold.
pub trait Stacksize: Sized + PartialEq {
    /// The most units of this item that one stack may hold. An implementation
    /// that is to be verified states it.
    open spec fn max_stacksize_spec(&self) -> u32 {
        arbitrary()
    }

    /// The most units of this item that one stack may hold.
    fn get_max_stacksize(&self) -> (max: u32)
        ensures
            max == self.max_stacksize_spec(),
    ;
}

/// An item whose `==` is equality.
#[derive(Debug, PartialEq, Eq, PartialOrd, Ord)]
struct Lawful<T: PartialEq> {
    item: T,
}

impl<T: PartialEq> Lawful<T> {
    #[verifier::type_invariant]
    spec fn lawful(self) -> bool {
        decides_equality(self.item)
    }
}

impl<T: PartialEq + Copy> Clone for Lawful<T> {
    fn clone(&self) -> (copy: Self)
        ensures
            copy == *self,
    {
        *self
    }
}

impl<T: PartialEq + Copy> Copy for Lawful<T> {

}

/// A stack that is nothing but an item and a count.
#[derive(Debug, PartialEq, Eq, PartialOrd, Ord)]
pub struct ItemStack<T: PartialEq> {
    item: Lawful<T>,
    amount: u32,
}

impl<T: PartialEq + Copy> Clone for ItemStack<T> {
    fn clone(&self) -> (copy: Self)
        ensures
            copy == *self,
    {
        *self
    }
}

impl<T: PartialEq + Copy> Copy for ItemStack<T> {

}

impl<T: Stacksize + Eq + PartialOrd + Ord + Copy> ItemStack<T> {
    /// The item of which the stack holds copies.
    pub closed spec fn item_of(self) -> T {
        self.item.item
    }

    /// The number of copies in the stack.
    pub closed spec fn count(self) -> u32 {
        self.amount
    }

    /// The stack with `amount` copies of the same item.
    pub closed spec fn with_count(self, amount: u32) -> Self {
        ItemStack { item: self.item, amount }
    }

    /// A stack of `amount` copies of `item`.
    pub fn new(item: T, amount: u32) -> (stack: Self)
        requires
            decides_equality(item),
        ensures
            stack.item_of() == item,
            stack.count() == amount,
    {
        ItemStack { item: Lawful { item }, amount }
    }

    /// The stack cut down to the cap of its item. A stack that was above the
    /// cap comes back with the part that was cut off.
    pub fn new_from_stack(new: ItemStack<T>) -> (res: Result<Self, (Self, StackErr<Self>)>)
        ensures
            match res {
                Ok(whole) => new.count() <= new.item_of().max_stacksize_spec() && whole == new,
                Err((capped, why)) => {
                    &&& new.count() > new.item_of().max_stacksize_spec()
                    &&& capped.item_of() == new.item_of()
                    &&& capped.count() == new.item_of().max_stacksize_spec()
                    &&& why matches StackErr::StackSizeOverflow(rest)
                    &&& rest.item_of() == new.item_of()
                    &&& rest.count() == new.count() - new.item_of().max_stacksize_spec()
                },
            },
    {
        let mut new = new;
        match new.stacksize_split() {
            Ok(()) => Ok(new),
            Err(rest) => Err((new, StackErr::StackSizeOverflow(rest))),
        }
    }

    /// Cuts the stack down to the cap of its item and hands back what was
    /// cut off, if anything was.
    fn stacksize_split(&mut self) -> (res: Result<(), ItemStack<T>>)
        ensures
            final(self).item_of() == old(self).item_of(),
            match res {
                Ok(()) => old(self).count() <= old(self).item_of().max_stacksize_spec()
                    && *final(self) == *old(self),
                Err(rest) => {
                    &&& old(self).count() > old(self).item_of().max_stacksize_spec()
                    &&& final(self).count() == old(self).item_of().max_stacksize_spec()
                    &&& rest.item_of() == old(self).item_of()
                    &&& rest.count() == old(self).count() - old(
                        self,
                    ).item_of().max_stacksize_spec()
                },
            },
    {
        let max: u32 = self.item.item.get_max_stacksize();
        if self.amount > max {
            let rest: u32 = self.amount - max;
            self.amount = max;
            Err(ItemStack { item: self.item, amount: rest })
        } else {
            Ok(())
        }
    }

    /// Adds the copies of `other` to this stack and cuts the stack down to
    /// the cap of its item. A stack of another item is handed back as it is,
    /// and nothing is added; of a stack of the same item, what was cut off,
    /// which must be a number that a stack can hold.
    pub fn stack(&mut self, other: ItemStack<T>) -> (res: Result<(), StackErr<ItemStack<T>>>)
        requires
            other.item_of() == old(self).item_of() ==> old(self).count() + other.count()
                - old(self).item_of().max_stacksize_spec() <= u32::MAX,
        ensures
            final(self).item_of() == old(self).item_of(),
            if other.item_of() != old(self).item_of() {
                res == Err::<(), StackErr<ItemStack<T>>>(StackErr::ItemTypeDoesNotMatch(other))
                    && *final(self) == *old(self)
            } else {
                let cap = old(self).item_of().max_stacksize_spec();
                let sum = old(self).count() + other.count();
                if sum <= cap {
                    res is Ok && final(self).count() == sum
                } else {
                    &&& final(self).count() == cap
                    &&& res matches Err(StackErr::StackSizeOverflow(rest))
                    &&& rest.item_of() == old(self).item_of()
                    &&& rest.count() == sum - cap
                }
            },
    {
        proof {
            use_type_invariant(other.item);
        }
        if other.item.item == self.item.item {
            let max: u32 = self.item.item.get_max_stacksize();
            if self.amount <= max && other.amount <= max - self.amount {
                self.amount = self.amount + other.amount;
                Ok(())
            } else {
                let over: u32 = if self.amount <= max {
                    other.amount - (max - self.amount)
                } else {
                    other.amount + (self.amount - max)
                };
                self.amount = max;
                Err(StackErr::StackSizeOverflow(ItemStack { item: self.item, amount: over }))
            }
        } else {
            Err(StackErr::ItemTypeDoesNotMatch(other))
        }
    }

    /// The item of which the stack holds copies.
    pub fn get_item(&self) -> (item: &T)
        ensures
            *item == self.item_of(),
    {
        &self.item.item
    }

    /// The number of copies in the stack.
    pub fn get_amount(&self) -> (amount: u32)
        ensures
            amount == self.count(),
    {
        self.amount
    }
}

impl<T: PartialEq> From<StackErr<ItemStack<T>>> for ItemStack<T> {
    /// The stack that the error hands back.
    fn from(item: StackErr<ItemStack<T>>) -> (stack: Self) {
        match item {
            StackErr::ItemTypeDoesNotMatch(x) => x,
            StackErr::StackSizeOverflow(x) => x,
        }
    }
}

impl<T: PartialEq> vstd::std_specs::convert::FromSpecImpl<StackErr<ItemStack<T>>> for ItemStack<T> {
    open spec fn obeys_from_spec() -> bool {
        true
    }

    open spec fn from_spec(item: StackErr<ItemStack<T>>) -> Self {
        match item {
            StackErr::ItemTypeDoesNotMatch(x) => x,
            StackErr::StackSizeOverflow(x) => x,
        }
    }
}

impl<T: Stacksize + Eq + PartialOrd + Ord + Copy> Stackable for ItemStack<T> {
    type Item = T;

    open spec fn item_spec(&self) -> T {
        self.item_of()
    }

    open spec fn amount_spec(&self) -> u32 {
        self.count()
    }

    open spec fn max_for(item: T) -> u32 {
        item.max_stacksize_spec()
    }

    open spec fn with_amount(self, amount: u32) -> Self {
        self.with_count(amount)
    }

    fn new_splitted(&self, amount: u32) -> (part: Self) {
        ItemStack { item: self.item, amount }
    }

    fn amount(&self) -> (amount: u32) {
        self.amount
    }

    fn amount_mut(&mut self) -> (amount: &mut u32) {
        &mut self.amount
    }

    fn max_amount(&self) -> (max: u32) {
        self.item.item.get_max_stacksize()
    }

    fn item(&self) -> (item: &T) {
        proof {
            use_type_invariant(self.item);
        }
        &self.item.item
    }
}

} // verus!
