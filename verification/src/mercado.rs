use vstd::prelude::*;
use crate::item::ItemRef;
use crate::player::{add_spec, is_full, slot_after_rest, Player, PlayerView};

verus! {

/// What the rules see of a market: the items on sale and the stock of each.
pub struct MercadoView {
    pub items: Seq<ItemRef>,
    pub stock: Seq<u16>,
}

impl MercadoView {
    /// One stock count per item on sale.
    pub open spec fn wf(self) -> bool {
        self.items.len() == self.stock.len()
    }
}

/// `i` is the first item on sale with this name.
pub open spec fn is_first_of_kind(items: Seq<ItemRef>, kind: u32, i: int) -> bool {
    &&& 0 <= i < items.len()
    &&& items[i].kind == kind
    &&& forall|j: int| 0 <= j < i ==> #[trigger] items[j].kind != kind
}

pub open spec fn first_of_kind(items: Seq<ItemRef>, kind: u32) -> int {
    choose|i: int| is_first_of_kind(items, kind, i)
}

/// The market after one unit of listing `i` is sold: the listing goes away
/// with its last unit.
pub open spec fn after_sale(m: MercadoView, i: int) -> MercadoView {
    if m.stock[i] - 1 == 0 {
        MercadoView { items: m.items.remove(i), stock: m.stock.remove(i) }
    } else {
        MercadoView { items: m.items, stock: m.stock.update(i, (m.stock[i] - 1) as u16) }
    }
}

/// A market: items on sale, each with a stock.
pub struct Mercado {
    items_a_la_venta: Vec<ItemRef>,
    stock_de_items_a_la_venta: Vec<u16>,
}

impl View for Mercado {
    type V = MercadoView;

    closed spec fn view(&self) -> MercadoView {
        MercadoView { items: self.items_a_la_venta@, stock: self.stock_de_items_a_la_venta@ }
    }
}

/// There is only one first listing of a name.
pub proof fn lemma_first_of_kind_unique(items: Seq<ItemRef>, kind: u32, a: int, b: int)
    requires
        is_first_of_kind(items, kind, a),
        is_first_of_kind(items, kind, b),
    ensures
        a == b,
{
    if a < b {
        assert(items[a].kind != kind);
    } else if b < a {
        assert(items[b].kind != kind);
    }
}

impl Mercado {
    pub open spec fn wf(&self) -> bool {
        self@.wf()
    }

    /// A market selling `items` with the given stocks; refused when the two
    /// lists differ in length.
    pub fn new(items: Vec<ItemRef>, stock: Vec<u16>) -> (r: Result<Mercado, String>)
        ensures
            items@.len() == stock@.len() <==> r is Ok,
            r matches Ok(m) ==> m.wf() && m@ == (MercadoView { items: items@, stock: stock@ }),
            r matches Err(e) ==> e@ == "Stock y items no son del mismo tamano"@,
    {
        if items.len() != stock.len() {
            return Err("Stock y items no son del mismo tamano".to_owned());
        }
        Ok(Mercado { items_a_la_venta: items, stock_de_items_a_la_venta: stock })
    }

    pub fn get_items(&self) -> (r: &Vec<ItemRef>)
        ensures
            r@ == self@.items,
    {
        &self.items_a_la_venta
    }

    pub fn get_stock(&self) -> (r: &Vec<u16>)
        ensures
            r@ == self@.stock,
    {
        &self.stock_de_items_a_la_venta
    }

    /// One unit of the first listing with `item`'s name is sold.
    pub fn rest_item(&mut self, item: &ItemRef)
        requires
            old(self).wf(),
            exists|i: int| is_first_of_kind(old(self)@.items, item.kind, i),
            old(self)@.stock[first_of_kind(old(self)@.items, item.kind)] > 0,
        ensures
            final(self).wf(),
            final(self)@ == after_sale(old(self)@, first_of_kind(old(self)@.items, item.kind)),
    {
        let ghost f = first_of_kind(self@.items, item.kind);
        let mut item_index: usize = 0;
        while item_index < self.items_a_la_venta.len()
            && self.items_a_la_venta[item_index].kind != item.kind
            invariant
                self.wf(),
                self@ == old(self)@,
                is_first_of_kind(self@.items, item.kind, f),
                item_index <= f,
                forall|j: int| 0 <= j < item_index ==> #[trigger] self@.items[j].kind != item.kind,
            decreases self@.items.len() - item_index,
        {
            item_index = item_index + 1;
        }
        proof {
            assert(is_first_of_kind(self@.items, item.kind, item_index as int));
            lemma_first_of_kind_unique(self@.items, item.kind, f, item_index as int);
        }
        let stock = self.stock_de_items_a_la_venta[item_index] - 1;
        if stock == 0 {
            self.stock_de_items_a_la_venta.remove(item_index);
            self.items_a_la_venta.remove(item_index);
        } else {
            self.stock_de_items_a_la_venta.set(item_index, stock);
        }
    }

    /// The player buys listing `index`, receiving `item` (the copy handed
    /// out by that listing): allowed when the inventory has an empty slot
    /// and the player has enough points. The player pays the item's price
    /// and the listing loses one unit. Otherwise nothing changes.
    pub fn buy_something(&mut self, player: &mut Player, index: u16, item: &ItemRef) -> (r: bool)
        requires
            old(self).wf(),
            old(player).wf(),
            (index as int) < old(self)@.items.len(),
            item.kind == old(self)@.items[index as int].kind,
            !is_full(old(player)@.inventory) && old(player)@.puntos >= item.precio ==> old(
                self,
            )@.stock[first_of_kind(old(self)@.items, item.kind)] > 0,
        ensures
            final(self).wf(),
            final(player).wf(),
            r == (!is_full(old(player)@.inventory) && old(player)@.puntos >= item.precio),
            r ==> final(player)@ == (PlayerView {
                inventory: add_spec(old(player)@.inventory, *item).unwrap(),
                puntos: (old(player)@.puntos - item.precio) as u16,
                ..old(player)@
            }),
            r ==> final(self)@ == after_sale(
                old(self)@,
                first_of_kind(old(self)@.items, item.kind),
            ),
            !r ==> final(player)@ == old(player)@ && final(self)@ == old(self)@,
    {
        let full_inventory = player.is_inventory_full();
        let precio = item.precio;
        if !full_inventory && player.get_puntos() >= precio {
            proof {
                lemma_first_exists(old(self)@.items, item.kind, index as int);
            }
            let result = player.add_item_to_inventory(item);
            match result {
                Ok(_message) => {
                    player.rest_points(precio);
                    self.rest_item(item);
                    return true;
                },
                Err(_message) => {
                    return false;
                },
            }
        }
        false
    }

    /// The player sells one item from slot `index` for `precio` points
    /// (the item's price scaled by the market's sale factor).
    pub fn sell_item(player: &mut Player, index: u16, precio: u16)
        requires
            old(player).wf(),
            (index as int) < old(player)@.inventory.len(),
            old(player)@.inventory[index as int] is Some,
            old(player)@.puntos + precio <= u16::MAX,
            old(player)@.points_made + precio <= u16::MAX,
        ensures
            final(player).wf(),
            final(player)@ == (PlayerView {
                inventory: old(player)@.inventory.update(
                    index as int,
                    slot_after_rest(
                        old(player)@.inventory[index as int].unwrap().0,
                        old(player)@.inventory[index as int].unwrap().1,
                        1,
                    ),
                ),
                puntos: (old(player)@.puntos + precio) as u16,
                points_made: (old(player)@.points_made + precio) as u16,
                ..old(player)@
            }),
    {
        let i = index as usize;
        proof {
            assert(crate::player::slot_nonempty(old(player)@.inventory[i as int]));
        }
        let _ = player.rest_item_to_inventory(i, 1);
        player.sum_points(precio);
    }
}

/// A listing with the name exists, so a first one does.
pub proof fn lemma_first_exists(items: Seq<ItemRef>, kind: u32, i: int)
    requires
        0 <= i < items.len(),
        items[i].kind == kind,
    ensures
        exists|f: int| is_first_of_kind(items, kind, f),
    decreases i,
{
    if exists|j: int| 0 <= j < i && #[trigger] items[j].kind == kind {
        let j = choose|j: int| 0 <= j < i && #[trigger] items[j].kind == kind;
        lemma_first_exists(items, kind, j);
    } else {
        assert(is_first_of_kind(items, kind, i));
    }
}

} // verus!
