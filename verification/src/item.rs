use vstd::prelude::*;

verus! {

/// A handle on one item resource as the inventory sees it.
///
/// `id` tells item instances apart (two slots stack only when they hold the
/// same instance), `kind` stands for the item's name (orders and the market
/// match items by name), `max_stack` and `precio` are the resource's stack
/// limit and price.
#[derive(Clone, Copy, PartialEq, Eq, Structural, Debug)]
pub struct ItemRef {
    pub id: u64,
    pub kind: u32,
    pub max_stack: u16,
    pub precio: u16,
}

impl ItemRef {
    pub fn new(id: u64, kind: u32, max_stack: u16, precio: u16) -> (r: ItemRef)
        ensures
            r == (ItemRef { id, kind, max_stack, precio }),
    {
        ItemRef { id, kind, max_stack, precio }
    }

    pub fn get_max_stack(&self) -> (r: u16)
        ensures
            r == self.max_stack,
    {
        self.max_stack
    }

    pub fn get_precio(&self) -> (r: u16)
        ensures
            r == self.precio,
    {
        self.precio
    }
}

} // verus!
