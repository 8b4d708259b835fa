use vstd::prelude::*;
use crate::item::ItemRef;
use crate::player::{
    add_spec, id_count, lemma_add_adds_one, slot_after_rest, Player, PlayerView, Slot,
};

verus! {

/// The inventory after trying to add `item` `n` times, stopping at the first
/// refusal, with the number of items that went in.
pub open spec fn add_repeat(inv: Seq<Slot>, item: ItemRef, n: nat) -> (Seq<Slot>, nat)
    decreases n,
{
    if n == 0 {
        (inv, 0)
    } else {
        match add_spec(inv, item) {
            None => (inv, 0),
            Some(inv2) => {
                let r = add_repeat(inv2, item, (n - 1) as nat);
                (r.0, r.1 + 1)
            },
        }
    }
}

/// Adding an item again and again puts in the inventory exactly as many
/// of it as the count of successful additions says, and no other item.
pub proof fn lemma_add_repeat_counts(inv: Seq<Slot>, item: ItemRef, n: nat, other: u64)
    requires
        inv.len() <= usize::MAX,
    ensures
        add_repeat(inv, item, n).0.len() == inv.len(),
        id_count(add_repeat(inv, item, n).0, item.id, inv.len() as int) == id_count(
            inv,
            item.id,
            inv.len() as int,
        ) + add_repeat(inv, item, n).1,
        other != item.id ==> id_count(add_repeat(inv, item, n).0, other, inv.len() as int)
            == id_count(inv, other, inv.len() as int),
    decreases n,
{
    if n > 0 {
        lemma_add_adds_one(inv, item, other);
        match add_spec(inv, item) {
            None => {},
            Some(inv2) => {
                lemma_add_repeat_counts(inv2, item, (n - 1) as nat, other);
            },
        }
    }
}

/// A seed as an item: its stack limit and price.
#[derive(PartialEq, Eq, Structural, Debug, Clone, Copy)]
pub struct SeedItemResource {
    pub max_stack: u16,
    pub precio: u16,
}

impl SeedItemResource {
    pub fn get_max_stack(&self) -> (r: u16)
        ensures
            r == self.max_stack,
    {
        self.max_stack
    }

    pub fn get_precio(&self) -> (r: u16)
        ensures
            r == self.precio,
    {
        self.precio
    }

    /// A seed can go into a tile whose data says it is plantable; a tile
    /// without data is not.
    pub fn can_plant(&self, tile_plantable: Option<bool>) -> (r: bool)
        ensures
            r == (tile_plantable == Some(true)),
    {
        match tile_plantable {
            Some(p) => p,
            None => false,
        }
    }

    /// Planting is allowed where `can_plant` holds; refused elsewhere.
    pub fn try_plant(&self, tile_plantable: Option<bool>) -> (r: Result<(), String>)
        ensures
            r is Ok <==> tile_plantable == Some(true),
            r matches Err(m) ==> m@ == "No se puede plantar en esta posici\u{f3}n"@,
    {
        if !self.can_plant(tile_plantable) {
            return Err("No se puede plantar en esta posici\u{f3}n".to_owned());
        }
        Ok(())
    }

    /// Using a seed on the tile in front: refused when something stands
    /// there or the tile is not plantable; otherwise the seed is planted
    /// and used up.
    pub fn interact(&self, something_in_front: bool, plantable: bool) -> (r: Result<bool, String>)
        ensures
            something_in_front ==> (r matches Err(m) && m@ == "Algo en frente"@),
            !something_in_front && !plantable ==> (r matches Err(m) && m@
                == "No puede plantar aca"@),
            !something_in_front && plantable ==> r == Ok::<bool, String>(true),
    {
        if something_in_front {
            return Err("Algo en frente".to_owned());
        }
        if !plantable {
            return Err("No puede plantar aca".to_owned());
        }
        Ok(true)
    }
}

/// Turns one fruit from slot `index` into seeds: the fruit leaves the
/// inventory, then `num_a_dar` seeds are added one by one until the
/// inventory refuses one. Returns how many seeds went in.
pub fn produce_seeds(player: &mut Player, index: u16, semilla: &ItemRef, num_a_dar: u16) -> (r:
    u16)
    requires
        old(player).wf(),
        (index as int) < old(player)@.inventory.len(),
        old(player)@.inventory[index as int] is Some,
    ensures
        final(player).wf(),
        ({
            let (it, c) = old(player)@.inventory[index as int].unwrap();
            let after = old(player)@.inventory.update(index as int, slot_after_rest(it, c, 1));
            let res = add_repeat(after, *semilla, num_a_dar as nat);
            &&& final(player)@ == (PlayerView { inventory: res.0, ..old(player)@ })
            &&& r as nat == res.1
        }),
{
    let i = index as usize;
    proof {
        assert(crate::player::slot_nonempty(old(player)@.inventory[i as int]));
    }
    let _ = player.rest_item_to_inventory(i, 1);
    let ghost after = player@.inventory;
    let mut added: u16 = 0;
    let mut k: u16 = 0;
    while k < num_a_dar
        invariant_except_break
            k <= num_a_dar,
            added == k,
            add_repeat(after, *semilla, num_a_dar as nat) == ({
                let rest = add_repeat(player@.inventory, *semilla, (num_a_dar - k) as nat);
                (rest.0, (rest.1 + added) as nat)
            }),
        invariant
            player.wf(),
            player@ == (PlayerView { inventory: player@.inventory, ..old(player)@ }),
        ensures
            add_repeat(after, *semilla, num_a_dar as nat) == (player@.inventory, added as nat),
        decreases num_a_dar - k,
    {
        let ghost before = player@.inventory;
        match player.add_item_to_inventory(semilla) {
            Err(_mess) => {
                assert(add_repeat(before, *semilla, (num_a_dar - k) as nat) == (before, 0nat));
                break;
            },
            Ok(_) => {
                added = added + 1;
            },
        }
        k = k + 1;
    }
    added
}

} // verus!
