use inv_sys::error::StackErr;
use inv_sys::inv::Inv;
use inv_sys::item_stack::{ItemStack, Stacksize};
use inv_sys::stack::Stackable;

#[derive(Clone, Copy, Debug, PartialEq, Eq, PartialOrd, Ord)]
enum Gem {
    Ruby,
    Pearl,
}

impl Stacksize for Gem {
    fn get_max_stacksize(&self) -> u32 {
        match self {
            Gem::Ruby => 1,
            Gem::Pearl => 20,
        }
    }
}

#[test]
fn item_stack_is_an_item_and_a_count() {
    let stack = ItemStack::new(Gem::Pearl, 12);
    assert_eq!(stack.get_item(), &Gem::Pearl);
    assert_eq!(stack.get_amount(), 12);
    assert_eq!(stack.item(), &Gem::Pearl);
    assert_eq!(stack.amount(), 12);
    assert_eq!(stack.max_amount(), 20);
    assert_eq!(stack.new_splitted(5), ItemStack::new(Gem::Pearl, 5));
    let mut stack = stack;
    *stack.amount_mut() = 3;
    assert_eq!(stack, ItemStack::new(Gem::Pearl, 3));
}

#[test]
fn item_stack_is_cut_at_the_cap() {
    assert_eq!(
        ItemStack::new_from_stack(ItemStack::new(Gem::Pearl, 20)),
        Ok(ItemStack::new(Gem::Pearl, 20))
    );
    assert_eq!(
        ItemStack::new_from_stack(ItemStack::new(Gem::Pearl, 45)),
        Err((
            ItemStack::new(Gem::Pearl, 20),
            StackErr::StackSizeOverflow(ItemStack::new(Gem::Pearl, 25))
        ))
    );
    assert_eq!(
        ItemStack::new_from_stack(ItemStack::new(Gem::Ruby, 2)),
        Err((
            ItemStack::new(Gem::Ruby, 1),
            StackErr::StackSizeOverflow(ItemStack::new(Gem::Ruby, 1))
        ))
    );
}

#[test]
fn item_stack_takes_its_own_item_up_to_the_cap() {
    let mut stack = ItemStack::new(Gem::Pearl, 15);
    assert_eq!(stack.stack(ItemStack::new(Gem::Pearl, 5)), Ok(()));
    assert_eq!(stack.get_amount(), 20);

    let mut stack = ItemStack::new(Gem::Pearl, 15);
    assert_eq!(
        stack.stack(ItemStack::new(Gem::Pearl, 7)),
        Err(StackErr::StackSizeOverflow(ItemStack::new(Gem::Pearl, 2)))
    );
    assert_eq!(stack.get_amount(), 20);

    assert_eq!(
        stack.stack(ItemStack::new(Gem::Ruby, 1)),
        Err(StackErr::ItemTypeDoesNotMatch(ItemStack::new(Gem::Ruby, 1)))
    );
    assert_eq!(stack, ItemStack::new(Gem::Pearl, 20));
}

#[test]
fn item_stack_above_its_cap_is_cut_when_stacked() {
    let mut stack = ItemStack::new(Gem::Pearl, 30);
    assert_eq!(
        stack.stack(ItemStack::new(Gem::Pearl, 2)),
        Err(StackErr::StackSizeOverflow(ItemStack::new(Gem::Pearl, 12)))
    );
    assert_eq!(stack, ItemStack::new(Gem::Pearl, 20));

    let mut stack = ItemStack::new(Gem::Ruby, 10);
    assert_eq!(
        stack.stack(ItemStack::new(Gem::Ruby, 0)),
        Err(StackErr::StackSizeOverflow(ItemStack::new(Gem::Ruby, 9)))
    );
    assert_eq!(stack, ItemStack::new(Gem::Ruby, 1));

    let mut stack = ItemStack::new(Gem::Pearl, 20);
    assert_eq!(stack.stack(ItemStack::new(Gem::Pearl, 0)), Ok(()));
    assert_eq!(stack, ItemStack::new(Gem::Pearl, 20));

    let mut stack = ItemStack::new(Gem::Pearl, 30);
    assert_eq!(
        stack.stack(ItemStack::new(Gem::Ruby, 1)),
        Err(StackErr::ItemTypeDoesNotMatch(ItemStack::new(Gem::Ruby, 1)))
    );
    assert_eq!(stack, ItemStack::new(Gem::Pearl, 30));
}

#[test]
fn stack_error_hands_the_stack_back() {
    let rest: ItemStack<Gem> = StackErr::StackSizeOverflow(ItemStack::new(Gem::Pearl, 2)).into();
    assert_eq!(rest, ItemStack::new(Gem::Pearl, 2));
    let other = ItemStack::from(StackErr::ItemTypeDoesNotMatch(ItemStack::new(Gem::Ruby, 1)));
    assert_eq!(other, ItemStack::new(Gem::Ruby, 1));
}

#[test]
fn item_stacks_fill_a_container() {
    let mut inv = Inv::<ItemStack<Gem>, ()>::new(3, ());
    assert_eq!(inv.auto_stack(ItemStack::new(Gem::Pearl, 12)), None);
    assert_eq!(inv.auto_stack(ItemStack::new(Gem::Ruby, 1)), None);
    assert_eq!(inv.auto_stack(ItemStack::new(Gem::Pearl, 30)), Some(ItemStack::new(Gem::Pearl, 2)));
    assert_eq!(inv.take_stack(0), Ok(ItemStack::new(Gem::Pearl, 20)));
    assert_eq!(inv.take_stack(1), Ok(ItemStack::new(Gem::Ruby, 1)));
    assert_eq!(inv.take_stack(2), Ok(ItemStack::new(Gem::Pearl, 20)));
}
