use inv_sys::error::InvAccessErr;
use inv_sys::inv::Inv;
use inv_sys::stack::Stackable;
use uuid::Uuid;

#[derive(Clone, Debug, Eq, PartialEq, PartialOrd, Ord)]
struct MyStack {
    pub uuid: Uuid,
    pub inventory_refer: Uuid,
    pub item_refer: ItemType,
    pub amount: u32,
}

#[derive(Clone, Debug, Eq, PartialEq, PartialOrd, Ord)]
enum ItemType {
    Weapon,
    Ammo,
}

impl Stackable for MyStack {
    type Item = ItemType;

    fn new_splitted(&self, amount: u32) -> Self {
        Self {
            uuid: Uuid::nil(),
            inventory_refer: self.inventory_refer,
            item_refer: self.item_refer.clone(),
            amount,
        }
    }

    fn amount(&self) -> u32 {
        self.amount
    }

    fn amount_mut(&mut self) -> &mut u32 {
        &mut self.amount
    }

    fn max_amount(&self) -> u32 {
        match self.item_refer {
            ItemType::Weapon => 1,
            ItemType::Ammo => 20,
        }
    }

    fn item(&self) -> &Self::Item {
        &self.item_refer
    }
}

fn ammo(amount: u32) -> MyStack {
    MyStack {
        uuid: Uuid::nil(),
        inventory_refer: Uuid::nil(),
        item_refer: ItemType::Ammo,
        amount,
    }
}

#[test]
fn main() {
    let mut inv = Inv::<MyStack, Uuid>::new(2, Uuid::new_v4());

    let res = inv.auto_stack(MyStack {
        uuid: Uuid::nil(),
        inventory_refer: Uuid::nil(),
        item_refer: ItemType::Ammo,
        amount: 12,
    });

    assert_eq!(res, None);

    let res = inv.auto_stack(MyStack {
        uuid: Uuid::nil(),
        inventory_refer: Uuid::nil(),
        item_refer: ItemType::Ammo,
        amount: 12,
    });

    assert_eq!(res, None);

    let res = inv.auto_stack(MyStack {
        uuid: Uuid::nil(),
        inventory_refer: Uuid::nil(),
        item_refer: ItemType::Ammo,
        amount: 17,
    });

    assert_eq!(
        res,
        Some(MyStack {
            uuid: Uuid::nil(),
            inventory_refer: Uuid::nil(),
            item_refer: ItemType::Ammo,
            amount: 1,
        })
    );

    assert_eq!(
        inv.take_from(0),
        Some(MyStack {
            uuid: Uuid::nil(),
            inventory_refer: Uuid::nil(),
            item_refer: ItemType::Ammo,
            amount: 20,
        })
    );

    println!("{:?}", inv);
}

#[test]
fn test_auto_stack() {
    let mut inv = Inv::<MyStack, Uuid>::new(4, Uuid::new_v4());

    assert_eq!(
        inv.insert_at(
            0,
            MyStack {
                uuid: Uuid::nil(),
                inventory_refer: Uuid::nil(),
                item_refer: ItemType::Ammo,
                amount: 15,
            }
        ),
        Ok(())
    );

    assert_eq!(
        inv.insert_at(
            1,
            MyStack {
                uuid: Uuid::nil(),
                inventory_refer: Uuid::nil(),
                item_refer: ItemType::Ammo,
                amount: 15,
            }
        ),
        Ok(())
    );

    assert_eq!(
        inv.insert_at(
            2,
            MyStack {
                uuid: Uuid::nil(),
                inventory_refer: Uuid::nil(),
                item_refer: ItemType::Ammo,
                amount: 15,
            }
        ),
        Ok(())
    );

    assert_eq!(
        inv.auto_stack(MyStack {
            uuid: Uuid::nil(),
            inventory_refer: Uuid::nil(),
            item_refer: ItemType::Ammo,
            amount: 5 + 5 + 5 + 20 + 5,
        }),
        Some(MyStack {
            uuid: Uuid::nil(),
            inventory_refer: Uuid::nil(),
            item_refer: ItemType::Ammo,
            amount: 5,
        })
    );

    let mut inv = Inv::<MyStack, Uuid>::new(4, Uuid::new_v4());
    assert_eq!(
        inv.insert_at(
            0,
            MyStack {
                uuid: Uuid::nil(),
                inventory_refer: Uuid::nil(),
                item_refer: ItemType::Ammo,
                amount: 15,
            }
        ),
        Ok(())
    );

    assert_eq!(
        inv.insert_at(
            2,
            MyStack {
                uuid: Uuid::nil(),
                inventory_refer: Uuid::nil(),
                item_refer: ItemType::Ammo,
                amount: 15,
            }
        ),
        Ok(())
    );

    inv.auto_stack(MyStack {
        uuid: Uuid::nil(),
        inventory_refer: Uuid::nil(),
        item_refer: ItemType::Ammo,
        amount: 5 + 5 + 5,
    });

    assert_eq!(
        inv.take_from(1),
        Some(MyStack {
            uuid: Uuid::nil(),
            inventory_refer: Uuid::nil(),
            item_refer: ItemType::Ammo,
            amount: 5,
        })
    );
}

#[test]
fn find_decrement() {
    let mut inv = Inv::<MyStack, Uuid>::new(4, Uuid::new_v4());

    assert_eq!(
        inv.insert_at(
            0,
            MyStack {
                uuid: Uuid::nil(),
                inventory_refer: Uuid::nil(),
                item_refer: ItemType::Weapon,
                amount: 1,
            }
        ),
        Ok(())
    );

    assert_eq!(
        inv.insert_at(
            2,
            MyStack {
                uuid: Uuid::nil(),
                inventory_refer: Uuid::nil(),
                item_refer: ItemType::Ammo,
                amount: 15,
            }
        ),
        Ok(())
    );

    assert_eq!(inv.find_mut(&ItemType::Ammo).map(|slot| slot.decrement()), Some(Ok(())));
    assert_eq!(inv.find_mut(&ItemType::Ammo).map(|slot| slot.amount()), Some(14));

    // Removing the last 14 units removes the stack: no slot holds ammo any
    // more, and slot 2 is empty before any cleaning.
    assert_eq!(inv.find_mut(&ItemType::Ammo).map(|slot| slot.decrement_by(14)), Some(Ok(())));
    assert_eq!(inv.find_mut(&ItemType::Ammo).map(|slot| slot.amount()), None);

    assert!(inv.take_from(2).is_none());

    inv.clean_empty();

    assert_eq!(inv.take_from(2), None);
}

#[test]
fn decrement_past_the_amount_is_refused() {
    let mut inv = Inv::<MyStack, Uuid>::new(2, Uuid::nil());
    assert_eq!(inv.insert_at(1, ammo(15)), Ok(()));
    let slot = inv.get_slot_mut(1).unwrap();
    assert_eq!(slot.decrement_by(16), Err(InvAccessErr::AmountInsufficient));
    assert_eq!(slot.amount(), 15);
    assert_eq!(slot.inner(), &Some(ammo(15)));
    assert_eq!(slot.decrement_by(15), Ok(()));
    assert!(slot.is_empty());
    assert_eq!(slot.decrement(), Err(InvAccessErr::SlotEmpty));
}

#[test]
fn a_weapon_fills_a_slot_alone() {
    let mut inv = Inv::<MyStack, Uuid>::new(2, Uuid::nil());
    let three = MyStack {
        uuid: Uuid::nil(),
        inventory_refer: Uuid::nil(),
        item_refer: ItemType::Weapon,
        amount: 3,
    };
    let rest = inv.auto_stack(three);
    assert_eq!(rest.map(|stack| stack.amount), Some(1));
    assert_eq!(inv.get_slot(0).unwrap().get_amount(), Ok(1));
    assert_eq!(inv.get_slot(1).unwrap().get_amount(), Ok(1));
    assert_eq!(inv.get_slot(1).unwrap().get_item(), Ok(&ItemType::Weapon));
}
