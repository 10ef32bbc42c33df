//! Slot-based containers for stackable items: a fixed row of slots, each
//! holding at most one stack, with insertion, automatic stacking, lookup and
//! removal.

pub mod error;
pub mod stack;
pub mod item_stack;
pub mod stacking;
pub mod slot;
pub mod inv;
