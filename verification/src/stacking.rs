use vstd::prelude::*;
use crate::slot::topped_up;
use crate::stack::{Stackable, amount_of, holds, room, vacancy, within_cap};

verus! {

/// The sum of the first `i` offers.
pub open spec fn offered_before(offers: Seq<nat>, i: int) -> nat
    decreases i,
{
    if i <= 0 {
        0
    } else {
        offered_before(offers, i - 1) + offers[i - 1]
    }
}

/// What is left of `quantity` once the first `i` offers have been served in
/// full, as far as the quantity reaches.
pub open spec fn rest_at(offers: Seq<nat>, quantity: nat, i: int) -> nat {
    if quantity > offered_before(offers, i) {
        (quantity - offered_before(offers, i)) as nat
    } else {
        0
    }
}

/// What offer `i` receives of `quantity`, the offers being served in index
/// order: all it offers, or what the earlier offers have left.
pub open spec fn share(offers: Seq<nat>, quantity: nat, i: int) -> nat {
    if rest_at(offers, quantity, i) < offers[i] {
        rest_at(offers, quantity, i)
    } else {
        offers[i]
    }
}

/// The sum of the shares of the first `i` offers.
pub open spec fn shared_before(offers: Seq<nat>, quantity: nat, i: int) -> nat
    decreases i,
{
    if i <= 0 {
        0
    } else {
        shared_before(offers, quantity, i - 1) + share(offers, quantity, i - 1)
    }
}

/// The sum of the offers never falls along the offers.
pub proof fn lemma_offered_grows(offers: Seq<nat>, i: int, j: int)
    requires
        0 <= i <= j,
    ensures
        offered_before(offers, i) <= offered_before(offers, j),
    decreases j - i,
{
    if i < j {
        lemma_offered_grows(offers, i, j - 1);
    }
}

/// Serving one more offer lowers the rest by that offer's share.
pub proof fn lemma_rest_step(offers: Seq<nat>, quantity: nat, i: int)
    requires
        0 <= i,
    ensures
        rest_at(offers, quantity, i + 1) == rest_at(offers, quantity, i) - share(offers, quantity, i),
{
}

/// The rest never grows along the offers.
pub proof fn lemma_rest_falls(offers: Seq<nat>, quantity: nat, i: int, j: int)
    requires
        0 <= i <= j,
    ensures
        rest_at(offers, quantity, j) <= rest_at(offers, quantity, i),
    decreases j - i,
{
    if i < j {
        lemma_rest_falls(offers, quantity, i, j - 1);
        lemma_rest_step(offers, quantity, j - 1);
    }
}

/// Nothing is lost along the offers: the shares handed out and the rest make
/// up the quantity.
pub proof fn lemma_shares_and_rest(offers: Seq<nat>, quantity: nat, i: int)
    requires
        0 <= i,
    ensures
        shared_before(offers, quantity, i) + rest_at(offers, quantity, i) == quantity,
    decreases i,
{
    if i > 0 {
        lemma_shares_and_rest(offers, quantity, i - 1);
        lemma_rest_step(offers, quantity, i - 1);
    }
}

/// An offer receives something only when every offer before it was served in
/// full.
pub proof fn lemma_lowest_index_first(offers: Seq<nat>, quantity: nat, j: int, k: int)
    requires
        0 <= j < k,
        share(offers, quantity, k) > 0,
    ensures
        share(offers, quantity, j) == offers[j],
{
    lemma_rest_falls(offers, quantity, j + 1, k);
    lemma_rest_step(offers, quantity, j);
}

/// What each slot offers to the fill phase: the room in a stack of `item`.
pub open spec fn fill_offers<T: Stackable>(slots: Seq<Option<T>>, item: T::Item) -> Seq<nat> {
    Seq::new(slots.len(), |i: int| room(slots[i], item))
}

/// What each slot offers to the placement phase: a whole stack of `item` if
/// it is empty.
pub open spec fn place_offers<T: Stackable>(slots: Seq<Option<T>>, item: T::Item) -> Seq<nat> {
    Seq::new(slots.len(), |i: int| vacancy(slots[i], item))
}

/// The units that the fill phase merges into slot `i`.
pub open spec fn merged<T: Stackable>(
    slots: Seq<Option<T>>,
    item: T::Item,
    quantity: nat,
    i: int,
) -> nat {
    share(fill_offers(slots, item), quantity, i)
}

/// The units that the fill phase could not merge anywhere.
pub open spec fn unmerged<T: Stackable>(slots: Seq<Option<T>>, item: T::Item, quantity: nat) -> nat {
    rest_at(fill_offers(slots, item), quantity, slots.len() as int)
}

/// The units still to be placed when the placement phase reaches slot `i`.
pub open spec fn unplaced_at<T: Stackable>(
    slots: Seq<Option<T>>,
    item: T::Item,
    quantity: nat,
    i: int,
) -> nat {
    rest_at(place_offers(slots, item), unmerged(slots, item, quantity), i)
}

/// The units that the placement phase puts into slot `i` as a new stack.
pub open spec fn placed<T: Stackable>(
    slots: Seq<Option<T>>,
    item: T::Item,
    quantity: nat,
    i: int,
) -> nat {
    share(place_offers(slots, item), unmerged(slots, item, quantity), i)
}

/// The units that neither phase could put anywhere.
pub open spec fn leftover<T: Stackable>(slots: Seq<Option<T>>, item: T::Item, quantity: nat) -> nat {
    unplaced_at(slots, item, quantity, slots.len() as int)
}

/// What comes back of `stack` when `left` of its units found no place:
/// nothing if none is left, the stack itself if all of them are, else the
/// stack with that amount in it and nothing else changed.
pub open spec fn unplaced<T: Stackable>(stack: T, left: nat) -> Option<T> {
    if left == 0 {
        None
    } else if left == stack.amount_spec() {
        Some(stack)
    } else {
        Some(stack.with_amount(left as u32))
    }
}

/// Whether `after` is what the fill phase makes of `before` when `quantity`
/// units of `item` come in: every slot is topped up by its share of the room.
pub open spec fn filled<T: Stackable>(
    before: Seq<Option<T>>,
    item: T::Item,
    quantity: nat,
    after: Seq<Option<T>>,
) -> bool {
    &&& after.len() == before.len()
    &&& forall|i: int|
        0 <= i < before.len() ==> topped_up(
            before[i],
            share(fill_offers(before, item), quantity, i),
            #[trigger] after[i],
        )
}

/// Whether `after` is what the placement phase makes of `before` when
/// `quantity` units of `item` are to be placed: while units are left, each
/// empty slot gets a new stack of its share; every other slot stays as it is.
pub open spec fn placed_into<T: Stackable>(
    before: Seq<Option<T>>,
    item: T::Item,
    quantity: nat,
    after: Seq<Option<T>>,
) -> bool {
    &&& after.len() == before.len()
    &&& forall|i: int|
        0 <= i < before.len() ==> if before[i] is None && rest_at(
            place_offers(before, item),
            quantity,
            i,
        ) > 0 {
            holds(#[trigger] after[i], item, share(place_offers(before, item), quantity, i) as int)
        } else {
            after[i] == before[i]
        }
}

/// Whether `after` is what stacking `quantity` units of `item` makes of
/// `before`: an occupied slot is topped up by what the fill phase merges into
/// it, and an empty slot gets a new stack of what the placement phase puts
/// there, as long as units are left when its turn comes.
pub open spec fn auto_stacked<T: Stackable>(
    before: Seq<Option<T>>,
    item: T::Item,
    quantity: nat,
    after: Seq<Option<T>>,
) -> bool {
    &&& after.len() == before.len()
    &&& forall|i: int|
        0 <= i < before.len() ==> if before[i] is Some {
            topped_up(before[i], merged(before, item, quantity, i), #[trigger] after[i])
        } else if unplaced_at(before, item, quantity, i) > 0 {
            holds(after[i], item, placed(before, item, quantity, i) as int)
        } else {
            after[i] is None
        }
}

/// The units in the first `i` slots.
pub open spec fn held_before<T: Stackable>(slots: Seq<Option<T>>, i: int) -> nat
    decreases i,
{
    if i <= 0 {
        0
    } else {
        held_before(slots, i - 1) + amount_of(slots[i - 1])
    }
}

/// The units in all the slots.
pub open spec fn total_held<T: Stackable>(slots: Seq<Option<T>>) -> nat {
    held_before(slots, slots.len() as int)
}

/// Whether no stack in `slots` is above the cap of its item.
pub open spec fn all_within_cap<T: Stackable>(slots: Seq<Option<T>>) -> bool {
    forall|i: int| 0 <= i < slots.len() ==> within_cap(#[trigger] slots[i])
}

/// The two phases, one after the other, stack the quantity: the fill phase
/// on the slots as they are, the placement phase on its result with what the
/// fill phase left.
pub proof fn lemma_fill_then_place<T: Stackable>(
    before: Seq<Option<T>>,
    item: T::Item,
    quantity: nat,
    between: Seq<Option<T>>,
    after: Seq<Option<T>>,
)
    requires
        filled(before, item, quantity, between),
        placed_into(between, item, unmerged(before, item, quantity), after),
    ensures
        auto_stacked(before, item, quantity, after),
        place_offers(between, item) == place_offers(before, item),
{
    assert forall|i: int| 0 <= i < before.len() implies (between[i] is None) == (before[i]
        is None) by {
        assert(topped_up(before[i], share(fill_offers(before, item), quantity, i), between[i]));
    }
    assert(place_offers(between, item) =~= place_offers(before, item));
    assert forall|i: int| 0 <= i < before.len() implies if before[i] is Some {
        topped_up(before[i], merged(before, item, quantity, i), #[trigger] after[i])
    } else if unplaced_at(before, item, quantity, i) > 0 {
        holds(after[i], item, placed(before, item, quantity, i) as int)
    } else {
        after[i] is None
    } by {
        assert(topped_up(before[i], share(fill_offers(before, item), quantity, i), between[i]));
    }
}

/// Stacking neither makes nor loses a unit: what the slots hold afterwards,
/// with what is left over, is what they held before with what came in.
pub proof fn lemma_auto_stack_conserves<T: Stackable>(
    before: Seq<Option<T>>,
    item: T::Item,
    quantity: nat,
    after: Seq<Option<T>>,
)
    requires
        auto_stacked(before, item, quantity, after),
    ensures
        total_held(after) + leftover(before, item, quantity) == total_held(before) + quantity,
{
    let n = before.len() as int;
    lemma_gains(before, item, quantity, after, n);
    lemma_shares_and_rest(fill_offers(before, item), quantity, n);
    lemma_shares_and_rest(place_offers(before, item), unmerged(before, item, quantity), n);
}

/// The first `i` slots hold afterwards what they held before and what the two
/// phases gave them.
proof fn lemma_gains<T: Stackable>(
    before: Seq<Option<T>>,
    item: T::Item,
    quantity: nat,
    after: Seq<Option<T>>,
    i: int,
)
    requires
        auto_stacked(before, item, quantity, after),
        0 <= i <= before.len(),
    ensures
        held_before(after, i) == held_before(before, i) + shared_before(
            fill_offers(before, item),
            quantity,
            i,
        ) + shared_before(place_offers(before, item), unmerged(before, item, quantity), i),
    decreases i,
{
    if i > 0 {
        lemma_gains(before, item, quantity, after, i - 1);
        let j = i - 1;
        assert(amount_of(after[j]) == amount_of(before[j]) + merged(before, item, quantity, j)
            + placed(before, item, quantity, j));
    }
}

/// Stacking keeps the caps: if no stack was above its cap before, none is
/// afterwards, however many units came in.
pub proof fn lemma_auto_stack_keeps_caps<T: Stackable>(
    before: Seq<Option<T>>,
    item: T::Item,
    quantity: nat,
    after: Seq<Option<T>>,
)
    requires
        auto_stacked(before, item, quantity, after),
        all_within_cap(before),
    ensures
        all_within_cap(after),
{
    assert forall|i: int| 0 <= i < after.len() implies within_cap(#[trigger] after[i]) by {
        assert(within_cap(before[i]));
        assert(merged(before, item, quantity, i) <= room(before[i], item));
        assert(placed(before, item, quantity, i) <= vacancy(before[i], item));
    }
}

/// Existing stacks are filled before a new one is opened: an empty slot gets
/// units only when every stack of the item is filled to its cap.
pub proof fn lemma_fill_before_place<T: Stackable>(
    slots: Seq<Option<T>>,
    item: T::Item,
    quantity: nat,
    partial: int,
    empty: int,
)
    requires
        0 <= partial < slots.len(),
        0 <= empty < slots.len(),
        unplaced_at(slots, item, quantity, empty) > 0,
    ensures
        merged(slots, item, quantity, partial) == room(slots[partial], item),
{
    let fill = fill_offers(slots, item);
    let n = slots.len() as int;
    lemma_rest_falls(place_offers(slots, item), unmerged(slots, item, quantity), 0, empty);
    assert(unmerged(slots, item, quantity) > 0);
    lemma_rest_falls(fill, quantity, partial + 1, n);
    lemma_rest_step(fill, quantity, partial);
}

/// A quantity that the existing stacks have room for lands in them entirely:
/// no empty slot is touched and nothing is left over.
pub proof fn lemma_room_suffices<T: Stackable>(
    slots: Seq<Option<T>>,
    item: T::Item,
    quantity: nat,
    after: Seq<Option<T>>,
)
    requires
        auto_stacked(slots, item, quantity, after),
        quantity <= offered_before(fill_offers(slots, item), slots.len() as int),
    ensures
        leftover(slots, item, quantity) == 0,
        forall|i: int| 0 <= i < slots.len() && slots[i] is None ==> #[trigger] after[i] is None,
        shared_before(fill_offers(slots, item), quantity, slots.len() as int) == quantity,
{
    let n = slots.len() as int;
    assert(unmerged(slots, item, quantity) == 0);
    lemma_shares_and_rest(fill_offers(slots, item), quantity, n);
    assert forall|i: int| 0 <= i < slots.len() && slots[i] is None implies #[trigger] after[i]
        is None by {
        assert(unplaced_at(slots, item, quantity, i) == 0);
    }
}

/// A quantity that one stack alone has room for lands in the existing stacks
/// entirely: no empty slot is touched and nothing is left over. If no stack
/// before that one has room, all of it lands in that stack.
pub proof fn lemma_one_stack_suffices<T: Stackable>(
    slots: Seq<Option<T>>,
    item: T::Item,
    quantity: nat,
    partial: int,
    after: Seq<Option<T>>,
)
    requires
        auto_stacked(slots, item, quantity, after),
        0 <= partial < slots.len(),
        quantity <= room(slots[partial], item),
    ensures
        leftover(slots, item, quantity) == 0,
        forall|i: int| 0 <= i < slots.len() && slots[i] is None ==> #[trigger] after[i] is None,
        shared_before(fill_offers(slots, item), quantity, slots.len() as int) == quantity,
        (forall|j: int| 0 <= j < partial ==> room(#[trigger] slots[j], item) == 0) ==> merged(
            slots,
            item,
            quantity,
            partial,
        ) == quantity,
{
    let offers = fill_offers(slots, item);
    lemma_offered_grows(offers, partial + 1, slots.len() as int);
    lemma_room_suffices(slots, item, quantity, after);
    if forall|j: int| 0 <= j < partial ==> room(#[trigger] slots[j], item) == 0 {
        lemma_nothing_offered(offers, partial);
    }
}

/// Offers of nothing add up to nothing.
proof fn lemma_nothing_offered(offers: Seq<nat>, i: int)
    requires
        0 <= i <= offers.len(),
        forall|j: int| 0 <= j < i ==> #[trigger] offers[j] == 0,
    ensures
        offered_before(offers, i) == 0,
    decreases i,
{
    if i > 0 {
        lemma_nothing_offered(offers, i - 1);
    }
}

/// Among the stacks that can take units, the lowest index comes first: a
/// slot gets merged units only when every slot before it has no room left.
pub proof fn lemma_merges_lowest_first<T: Stackable>(
    slots: Seq<Option<T>>,
    item: T::Item,
    quantity: nat,
    lower: int,
    upper: int,
)
    requires
        0 <= lower < upper < slots.len(),
        merged(slots, item, quantity, upper) > 0,
    ensures
        merged(slots, item, quantity, lower) == room(slots[lower], item),
{
    lemma_lowest_index_first(fill_offers(slots, item), quantity, lower, upper);
}

/// Among the empty slots, the lowest index comes first: a slot gets a new
/// stack only when every empty slot before it got a stack filled to the cap.
pub proof fn lemma_places_lowest_first<T: Stackable>(
    slots: Seq<Option<T>>,
    item: T::Item,
    quantity: nat,
    lower: int,
    upper: int,
)
    requires
        0 <= lower < upper < slots.len(),
        unplaced_at(slots, item, quantity, upper) > 0,
    ensures
        placed(slots, item, quantity, lower) == vacancy(slots[lower], item),
{
    let offers = place_offers(slots, item);
    let rest = unmerged(slots, item, quantity);
    lemma_rest_falls(offers, rest, lower + 1, upper);
    lemma_rest_step(offers, rest, lower);
}

} // verus!
