use vstd::prelude::*;

verus! {

/// Why a slot could not be read or changed.
#[derive(Debug, Clone, Copy, PartialEq, Eq, PartialOrd, Ord, Structural)]
pub enum InvAccessErr {
    /// The index is not below the number of slots.
    SlotOutOfBounds,
    /// The slot holds no stack.
    SlotEmpty,
    /// No slot holds a stack of the item asked for.
    ItemNotFound,
    /// The stack holds fewer units than were to be removed.
    AmountInsufficient,
}

/// Why a stack could not be merged into a slot in full. Either way the error
/// hands back what was not placed.
#[derive(Debug, Clone, PartialEq, Eq, PartialOrd, Ord)]
pub enum StackErr<T> {
    /// The slot holds a stack of another item; nothing was placed.
    ItemTypeDoesNotMatch(T),
    /// The slot is filled to the cap; this is the part that did not fit.
    StackSizeOverflow(T),
}

} // verus!
