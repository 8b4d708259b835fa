use vstd::prelude::*;
use crate::item::ItemRef;
use crate::level_manager::{Pedido, Requerimiento};
use crate::fulfillment::{
    after_order, consume, kind_count, kind_need, lemma_all_filled_iff_fulfillable,
    lemma_kind_count_nonneg, lemma_kind_need_mono, max, min, order_fulfillable, req_fill,
    slot_kind_count, slot_use, total_count, total_need,
};

verus! {

/// One inventory slot: the item it holds and how many of it.
pub type Slot = Option<(ItemRef, u16)>;

/// What the rules of the game see of a player.
pub struct PlayerView {
    pub can_move: bool,
    pub is_moving: bool,
    pub active: bool,
    pub inventory: Seq<Slot>,
    pub item_actual: usize,
    pub inventario_maximo: u16,
    pub puntos: u16,
    pub direction: (i32, i32),
    pub points_made: u16,
    pub orders_made: u16,
}

impl PlayerView {
    /// The inventory has one slot per place, the selected slot exists
    /// (or is 0 in an inventory without places), and no slot holds an
    /// empty stack.
    pub open spec fn wf(self) -> bool {
        &&& self.inventory.len() == self.inventario_maximo as nat
        &&& (self.item_actual < self.inventario_maximo || (self.inventario_maximo == 0
            && self.item_actual == 0))
        &&& forall|i: int|
            0 <= i < self.inventory.len() ==> #[trigger] slot_nonempty(self.inventory[i])
    }
}

/// A slot holds either nothing or a stack of at least one item.
pub open spec fn slot_nonempty(slot: Slot) -> bool {
    match slot {
        Some((_, c)) => c >= 1,
        None => true,
    }
}

/// The slot can take one more of `item`: it holds the same item instance
/// and its stack is below the item's limit.
pub open spec fn stackable(slot: Slot, item: ItemRef) -> bool {
    match slot {
        Some((it, c)) => it.id == item.id && c < item.max_stack,
        None => false,
    }
}

/// The indices, in increasing order, of the first `n` slots that can take
/// one more of `item`.
pub open spec fn stackable_indices(inv: Seq<Slot>, item: ItemRef, n: int) -> Seq<usize>
    decreases n,
{
    if n <= 0 {
        Seq::empty()
    } else if stackable(inv[n - 1], item) {
        stackable_indices(inv, item, n - 1).push((n - 1) as usize)
    } else {
        stackable_indices(inv, item, n - 1)
    }
}

/// Every index listed by `stackable_indices` is a slot that can take the item.
pub proof fn lemma_stackable_indices_valid(inv: Seq<Slot>, item: ItemRef, n: int)
    requires
        n <= inv.len(),
        inv.len() <= usize::MAX,
    ensures
        forall|k: int|
            0 <= k < stackable_indices(inv, item, n).len() ==> {
                let i = #[trigger] stackable_indices(inv, item, n)[k];
                &&& 0 <= i < n
                &&& stackable(inv[i as int], item)
            },
    decreases n,
{
    if n > 0 {
        lemma_stackable_indices_valid(inv, item, n - 1);
        let prev = stackable_indices(inv, item, n - 1);
        let cur = stackable_indices(inv, item, n);
        assert forall|k: int| 0 <= k < cur.len() implies {
            let i = #[trigger] cur[k];
            &&& 0 <= i < n
            &&& stackable(inv[i as int], item)
        } by {
            if k < prev.len() {
                assert(cur[k] == prev[k]);
            }
        }
    }
}

/// There is only one first empty slot.
pub proof fn lemma_first_empty_unique(inv: Seq<Slot>, a: int, b: int)
    requires
        is_first_empty(inv, a),
        is_first_empty(inv, b),
    ensures
        a == b,
{
    if a < b {
        assert(inv[a] is Some);
    } else if b < a {
        assert(inv[b] is Some);
    }
}

/// How many of item instance `id` the slot holds.
pub open spec fn slot_id_count(slot: Slot, id: u64) -> int {
    match slot {
        Some((it, c)) => if it.id == id {
            c as int
        } else {
            0
        },
        None => 0,
    }
}

/// How many of item instance `id` the first `n` slots hold.
pub open spec fn id_count(inv: Seq<Slot>, id: u64, n: int) -> int
    decreases n,
{
    if n <= 0 {
        0
    } else {
        id_count(inv, id, n - 1) + slot_id_count(inv[n - 1], id)
    }
}

/// Replacing one slot changes the count of an item by the difference of the two slots.
proof fn lemma_id_count_update(inv: Seq<Slot>, i: int, s: Slot, id: u64, n: int)
    requires
        0 <= i < inv.len(),
        0 <= n <= inv.len(),
    ensures
        id_count(inv.update(i, s), id, n) == id_count(inv, id, n) + (if i < n {
            slot_id_count(s, id) - slot_id_count(inv[i], id)
        } else {
            0
        }),
    decreases n,
{
    if n > 0 {
        lemma_id_count_update(inv, i, s, id, n - 1);
    }
}

/// Adding an item succeeds exactly when some stack of that same item has
/// room or some slot is empty; it then puts exactly one more of that item
/// in the inventory and leaves the count of every other item as it was.
pub proof fn lemma_add_adds_one(inv: Seq<Slot>, item: ItemRef, other: u64)
    requires
        inv.len() <= usize::MAX,
    ensures
        add_spec(inv, item) is Some <==> (stackable_indices(inv, item, inv.len() as int).len() > 0
            || !is_full(inv)),
        add_spec(inv, item) matches Some(inv2) ==> {
            &&& inv2.len() == inv.len()
            &&& id_count(inv2, item.id, inv.len() as int) == id_count(inv, item.id, inv.len() as int)
                + 1
            &&& other != item.id ==> id_count(inv2, other, inv.len() as int) == id_count(
                inv,
                other,
                inv.len() as int,
            )
        },
{
    let n = inv.len() as int;
    let idx = stackable_indices(inv, item, n);
    if idx.len() > 0 {
        lemma_stackable_indices_valid(inv, item, n);
        let i = idx[0] as int;
        assert(0 <= i < n && stackable(inv[i], item));
        let (it, c) = inv[i].unwrap();
        let s = Some((it, (c + 1) as u16));
        lemma_id_count_update(inv, i, s, item.id, n);
        lemma_id_count_update(inv, i, s, other, n);
    } else if has_empty(inv) {
        let i = choose|i: int| is_first_empty(inv, i);
        let w = choose|w: int| 0 <= w < inv.len() && #[trigger] inv[w] is None;
        lemma_first_empty_exists(inv, w);
        let s = Some((item, 1u16));
        lemma_id_count_update(inv, i, s, item.id, n);
        lemma_id_count_update(inv, i, s, other, n);
    }
}

/// Taking one item back out of the slot that an addition filled gives the
/// inventory as it was before the addition.
pub proof fn lemma_add_then_rest_restores(inv: Seq<Slot>, item: ItemRef)
    requires
        inv.len() <= usize::MAX,
        forall|i: int| 0 <= i < inv.len() ==> #[trigger] slot_nonempty(inv[i]),
        add_spec(inv, item) is Some,
    ensures
        exists|i: int|
            0 <= i < inv.len() && (#[trigger] add_spec(inv, item).unwrap()[i] matches Some((it, c))
                && add_spec(inv, item).unwrap().update(i, slot_after_rest(it, c, 1)) == inv),
{
    let n = inv.len() as int;
    let inv2 = add_spec(inv, item).unwrap();
    let idx = stackable_indices(inv, item, n);
    if idx.len() > 0 {
        lemma_stackable_indices_valid(inv, item, n);
        let i = idx[0] as int;
        assert(slot_nonempty(inv[i]));
        let (it, c) = inv2[i].unwrap();
        assert(inv2.update(i, slot_after_rest(it, c, 1)) =~= inv);
    } else {
        let w = choose|w: int| 0 <= w < inv.len() && #[trigger] inv[w] is None;
        lemma_first_empty_exists(inv, w);
        let i = choose|i: int| is_first_empty(inv, i);
        let (it, c) = inv2[i].unwrap();
        assert(inv2.update(i, slot_after_rest(it, c, 1)) =~= inv);
    }
}

/// Where some slot is empty, a first empty slot exists.
pub proof fn lemma_first_empty_exists(inv: Seq<Slot>, w: int)
    requires
        0 <= w < inv.len(),
        inv[w] is None,
    ensures
        exists|i: int| is_first_empty(inv, i),
    decreases w,
{
    if exists|j: int| 0 <= j < w && #[trigger] inv[j] is None {
        let j = choose|j: int| 0 <= j < w && #[trigger] inv[j] is None;
        lemma_first_empty_exists(inv, j);
    } else {
        assert(is_first_empty(inv, w));
    }
}

/// `i` is the first empty slot.
pub open spec fn is_first_empty(inv: Seq<Slot>, i: int) -> bool {
    &&& 0 <= i < inv.len()
    &&& inv[i] is None
    &&& forall|j: int| 0 <= j < i ==> #[trigger] inv[j] is Some
}

pub open spec fn has_empty(inv: Seq<Slot>) -> bool {
    exists|i: int| 0 <= i < inv.len() && #[trigger] inv[i] is None
}

/// The inventory after adding one `item`: the first slot that can stack it
/// grows by one; otherwise the first empty slot gets a stack of one;
/// otherwise `None` (no room).
pub open spec fn add_spec(inv: Seq<Slot>, item: ItemRef) -> Option<Seq<Slot>> {
    let idx = stackable_indices(inv, item, inv.len() as int);
    if idx.len() > 0 {
        let i = idx[0] as int;
        let (it, c) = inv[i].unwrap();
        Some(inv.update(i, Some((it, (c + 1) as u16))))
    } else if has_empty(inv) {
        let i = choose|i: int| is_first_empty(inv, i);
        Some(inv.update(i, Some((item, 1u16))))
    } else {
        None
    }
}

/// The slot after taking `number` items out of a stack of `c`.
pub open spec fn slot_after_rest(it: ItemRef, c: u16, number: u16) -> Slot {
    if c - number == 0 {
        None
    } else {
        Some((it, (c - number) as u16))
    }
}

pub open spec fn is_full(inv: Seq<Slot>) -> bool {
    forall|i: int| 0 <= i < inv.len() ==> #[trigger] inv[i] is Some
}

/// What a movement input leads to in a given state.
pub open spec fn movement_spec(p: PlayerView, x: i32, y: i32) -> MovementAction {
    if (x == 0 && y == 0) || p.is_moving || !p.can_move {
        MovementAction::Stay
    } else {
        let dy: i32 = if x != 0 {
            0
        } else {
            y
        };
        if (x, dy) == p.direction {
            MovementAction::MoveTo(x, dy)
        } else {
            MovementAction::FaceTo(x, dy)
        }
    }
}

/// How many items of kind `k` the order lines ask for in all.
pub fn need_of_kind(reqs: &Vec<Requerimiento>, k: u32) -> (r: u128)
    ensures
        r == total_need(reqs@, k),
{
    let mut acc: u128 = 0;
    let mut j: usize = 0;
    while j < reqs.len()
        invariant
            j <= reqs@.len(),
            acc == kind_need(reqs@, k, j as int),
            acc <= 65535 * j,
        decreases reqs@.len() - j,
    {
        if reqs[j].item.kind == k {
            acc = acc + reqs[j].necesidad as u128;
        }
        j = j + 1;
    }
    acc
}

/// A free player that is not walking always reacts to a non-neutral input:
/// it walks only in the direction it already faces, and otherwise turns;
/// either way the direction handed on is the input with a diagonal reduced
/// to its horizontal part. In particular an input against the facing
/// direction makes the player turn, never walk.
pub proof fn lemma_movement_walks_only_where_facing(p: PlayerView, x: i32, y: i32)
    requires
        p.can_move,
        !p.is_moving,
        x != 0 || y != 0,
    ensures
        movement_spec(p, x, y) != MovementAction::Stay,
        movement_spec(p, x, y) matches MovementAction::MoveTo(a, b) ==> {
            &&& a == p.direction.0
            &&& b == p.direction.1
        },
        movement_spec(p, x, y) matches MovementAction::FaceTo(a, b) ==> !(a == p.direction.0
            && b == p.direction.1),
        ({
            let (a, b) = match movement_spec(p, x, y) {
                MovementAction::MoveTo(a, b) => (a, b),
                MovementAction::FaceTo(a, b) => (a, b),
                MovementAction::Stay => (0i32, 0i32),
            };
            &&& a == x
            &&& (x != 0 ==> b == 0)
            &&& (x == 0 ==> b == y)
        }),
        x == -p.direction.0 && y == -p.direction.1 && (x != 0 || y != 0) && (x == 0 || y == 0)
            ==> movement_spec(p, x, y) is FaceTo,
{
}

/// A player that is walking or turning, or that gets a neutral input,
/// ignores the input.
pub proof fn lemma_movement_ignored_when_busy(p: PlayerView, x: i32, y: i32)
    requires
        p.is_moving || !p.can_move || (x == 0 && y == 0),
    ensures
        movement_spec(p, x, y) == MovementAction::Stay,
{
}

/// The state of a player: movement flags, inventory, selected slot,
/// points and statistics.
pub struct Player {
    can_move: bool,
    is_moving: bool,
    active: bool,
    inventory: Vec<Slot>,
    item_actual: usize,
    inventario_maximo: u16,
    puntos: u16,
    direction: (i32, i32),
    points_made: u16,
    orders_made: u16,
}

impl View for Player {
    type V = PlayerView;

    closed spec fn view(&self) -> PlayerView {
        PlayerView {
            can_move: self.can_move,
            is_moving: self.is_moving,
            active: self.active,
            inventory: self.inventory@,
            item_actual: self.item_actual,
            inventario_maximo: self.inventario_maximo,
            puntos: self.puntos,
            direction: self.direction,
            points_made: self.points_made,
            orders_made: self.orders_made,
        }
    }
}

/// What a movement input leads to.
#[derive(PartialEq, Eq, Structural, Debug, Clone, Copy)]
pub enum MovementAction {
    /// The input is ignored.
    Stay,
    /// The player walks one tile in this direction.
    MoveTo(i32, i32),
    /// The player turns to this direction first.
    FaceTo(i32, i32),
}

impl Player {
    pub open spec fn wf(&self) -> bool {
        self@.wf()
    }

    /// A player ready to play: `inventario_maximo` empty slots, the first one
    /// selected, facing right, free to move.
    pub fn new(inventario_maximo: u16, puntos: u16) -> (p: Player)
        ensures
            p.wf(),
            p@ == (PlayerView {
                can_move: true,
                is_moving: false,
                active: true,
                inventory: Seq::new(inventario_maximo as nat, |i: int| None::<(ItemRef, u16)>),
                item_actual: 0,
                inventario_maximo,
                puntos,
                direction: (1, 0),
                points_made: 0,
                orders_made: 0,
            }),
    {
        let mut inventory: Vec<Slot> = Vec::new();
        let mut i: u16 = 0;
        while i < inventario_maximo
            invariant
                i <= inventario_maximo,
                inventory@ == Seq::new(i as nat, |k: int| None::<(ItemRef, u16)>),
            decreases inventario_maximo - i,
        {
            inventory.push(None);
            i = i + 1;
        }
        Player {
            can_move: true,
            is_moving: false,
            active: true,
            inventory,
            item_actual: 0,
            inventario_maximo,
            puntos,
            direction: (1, 0),
            points_made: 0,
            orders_made: 0,
        }
    }

    /// The indices of the slots that hold this very item with room for one
    /// more, in increasing order.
    pub fn available_slots_with_item(&self, item: &ItemRef) -> (r: Vec<usize>)
        ensures
            r@ == stackable_indices(self@.inventory, *item, self@.inventory.len() as int),
    {
        let mut r: Vec<usize> = Vec::new();
        let mut i: usize = 0;
        while i < self.inventory.len()
            invariant
                i <= self@.inventory.len(),
                r@ == stackable_indices(self@.inventory, *item, i as int),
            decreases self@.inventory.len() - i,
        {
            match self.inventory[i] {
                Some((it, c)) => {
                    if it.id == item.id && c < item.max_stack {
                        r.push(i);
                    }
                },
                None => {},
            }
            i = i + 1;
        }
        r
    }

    /// The first empty slot, if there is one.
    pub fn empty_slot_index(&self) -> (r: Option<usize>)
        ensures
            match r {
                Some(i) => is_first_empty(self@.inventory, i as int),
                None => !has_empty(self@.inventory),
            },
    {
        let mut i: usize = 0;
        while i < self.inventory.len()
            invariant
                i <= self@.inventory.len(),
                forall|j: int| 0 <= j < i ==> #[trigger] self@.inventory[j] is Some,
            decreases self@.inventory.len() - i,
        {
            if self.inventory[i].is_none() {
                return Some(i);
            }
            i = i + 1;
        }
        None
    }

    /// Every slot holds something.
    pub fn is_inventory_full(&self) -> (r: bool)
        ensures
            r == is_full(self@.inventory),
    {
        match self.empty_slot_index() {
            Some(_) => false,
            None => true,
        }
    }

    /// Adds one `item`: onto the first stack of the same item that has room,
    /// else into the first empty slot; refused when neither exists.
    pub fn add_item_to_inventory(&mut self, item: &ItemRef) -> (r: Result<String, String>)
        requires
            old(self).wf(),
        ensures
            final(self).wf(),
            match add_spec(old(self)@.inventory, *item) {
                Some(inv) => {
                    &&& r matches Ok(m) && m@ == "Item a\u{f1}adido"@
                    &&& final(self)@ == (PlayerView { inventory: inv, ..old(self)@ })
                },
                None => {
                    &&& r matches Err(m) && m@ == "Can't add to inventory"@
                    &&& final(self)@ == old(self)@
                },
            },
    {
        let indexes = self.available_slots_with_item(item);
        if indexes.len() > 0 {
            let index = indexes[0];
            proof {
                lemma_stackable_indices_valid(self@.inventory, *item, self@.inventory.len() as int);
            }
            self.add_one_item_to_slot(index);
            return Ok("Item a\u{f1}adido".to_owned());
        } else {
            match self.empty_slot_index() {
                Some(empty_slot_index) => {
                    proof {
                        let i = choose|i: int| is_first_empty(old(self)@.inventory, i);
                        lemma_first_empty_unique(old(self)@.inventory, i, empty_slot_index as int);
                    }
                    self.inventory.set(empty_slot_index, Some((*item, 1)));
                    return Ok("Item a\u{f1}adido".to_owned());
                },
                None => {},
            }
        }
        Err("Can't add to inventory".to_owned())
    }

    /// Puts one more item on the stack in slot `index`.
    fn add_one_item_to_slot(&mut self, index: usize)
        requires
            old(self).wf(),
            index < old(self)@.inventory.len(),
            old(self)@.inventory[index as int] matches Some((_, c)) && c < u16::MAX,
        ensures
            final(self).wf(),
            final(self)@ == (PlayerView {
                inventory: old(self)@.inventory.update(
                    index as int,
                    Some(
                        (
                            old(self)@.inventory[index as int].unwrap().0,
                            (old(self)@.inventory[index as int].unwrap().1 + 1) as u16,
                        ),
                    ),
                ),
                ..old(self)@
            }),
    {
        match self.inventory[index] {
            Some((it, c)) => {
                self.inventory.set(index, Some((it, c + 1)));
            },
            None => {},
        }
    }

    /// Takes `number` items out of slot `index`; the slot empties when none
    /// is left. An empty slot, or a stack smaller than `number`, is refused
    /// and left as it is.
    pub fn rest_item_to_inventory(&mut self, index: usize, number: u16) -> (r: Result<(), String>)
        requires
            old(self).wf(),
            index < old(self)@.inventory.len(),
        ensures
            final(self).wf(),
            match old(self)@.inventory[index as int] {
                None => {
                    &&& r matches Err(m) && m@ == "Tratando de restar a un slot vacio"@
                    &&& final(self)@ == old(self)@
                },
                Some((it, c)) => if number > c {
                    &&& r matches Err(m) && m@ == "No puede restar mas de lo que se tiene"@
                    &&& final(self)@ == old(self)@
                } else {
                    &&& r is Ok
                    &&& final(self)@ == (PlayerView {
                        inventory: old(self)@.inventory.update(
                            index as int,
                            slot_after_rest(it, c, number),
                        ),
                        ..old(self)@
                    })
                },
            },
    {
        match self.inventory[index] {
            Some((it, c)) => {
                if number > c {
                    return Err("No puede restar mas de lo que se tiene".to_owned());
                }
                let left = c - number;
                if left == 0 {
                    self.inventory.set(index, None);
                } else {
                    self.inventory.set(index, Some((it, left)));
                }
                assert(self@.inventory =~= old(self)@.inventory.update(
                    index as int,
                    slot_after_rest(it, c, number),
                ));
                Ok(())
            },
            None => Err("Tratando de restar a un slot vacio".to_owned()),
        }
    }

    /// How many items of kind `k` the inventory holds.
    pub fn count_kind(&self, k: u32) -> (r: u64)
        requires
            self.wf(),
        ensures
            r == total_count(self@.inventory, k),
    {
        let mut acc: u64 = 0;
        let mut i: usize = 0;
        while i < self.inventory.len()
            invariant
                self.wf(),
                i <= self@.inventory.len(),
                acc == kind_count(self@.inventory, k, i as int),
                acc <= 65535 * i,
            decreases self@.inventory.len() - i,
        {
            match self.inventory[i] {
                Some((it, c)) => {
                    if it.kind == k {
                        acc = acc + c as u64;
                    }
                },
                None => {},
            }
            i = i + 1;
        }
        acc
    }

    /// Whether `fullfill_order` would serve this order.
    pub fn can_fullfill_order(&self, pedido: &Pedido) -> (r: bool)
        requires
            self.wf(),
        ensures
            r == order_fulfillable(self@.inventory, pedido.requerimientos@),
    {
        let reqs = &pedido.requerimientos;
        let mut j: usize = 0;
        while j < reqs.len()
            invariant
                self.wf(),
                j <= reqs@.len(),
                reqs@ == pedido.requerimientos@,
                forall|j2: int|
                    0 <= j2 < j ==> total_count(self@.inventory, #[trigger] reqs@[j2].item.kind)
                        >= total_need(reqs@, reqs@[j2].item.kind),
            decreases reqs@.len() - j,
        {
            let k = reqs[j].item.kind;
            let have = self.count_kind(k);
            let need = need_of_kind(reqs, k);
            if (have as u128) < need {
                assert(!(total_count(self@.inventory, reqs@[j as int].item.kind) >= total_need(
                    reqs@,
                    reqs@[j as int].item.kind,
                )));
                assert(!order_fulfillable(self@.inventory, pedido.requerimientos@));
                return false;
            }
            j = j + 1;
        }
        true
    }

    /// Serves an order from the inventory when it holds enough of every
    /// kind the order names; the slots of each kind are emptied front to
    /// back. Counts the order as made. Otherwise nothing changes.
    pub fn fullfill_order(&mut self, pedido: &Pedido) -> (r: bool)
        requires
            old(self).wf(),
            order_fulfillable(old(self)@.inventory, pedido.requerimientos@) ==> old(
                self,
            )@.orders_made < u16::MAX,
        ensures
            final(self).wf(),
            r == order_fulfillable(old(self)@.inventory, pedido.requerimientos@),
            r ==> final(self)@ == (PlayerView {
                inventory: after_order(old(self)@.inventory, pedido.requerimientos@),
                orders_made: (old(self)@.orders_made + 1) as u16,
                ..old(self)@
            }),
            !r ==> final(self)@ == old(self)@,
    {
        let ghost inv = self@.inventory;
        let reqs = &pedido.requerimientos;
        let ghost rs = reqs@;
        let n_slots = self.inventory.len();
        let m = reqs.len();
        let mut usos_inventario: Vec<u16> = Vec::new();
        let mut k0: usize = 0;
        while k0 < n_slots
            invariant
                k0 <= n_slots,
                usos_inventario@.len() == k0,
                forall|i: int| 0 <= i < k0 ==> usos_inventario@[i] == 0,
            decreases n_slots - k0,
        {
            usos_inventario.push(0);
            k0 = k0 + 1;
        }
        let mut items_satisfechos: Vec<u16> = Vec::new();
        let mut k1: usize = 0;
        while k1 < m
            invariant
                k1 <= m,
                m == rs.len(),
                items_satisfechos@.len() == k1,
                forall|j: int| 0 <= j < k1 ==> items_satisfechos@[j] == 0,
            decreases m - k1,
        {
            items_satisfechos.push(0);
            k1 = k1 + 1;
        }
        proof {
            assert forall|j: int| 0 <= j < m implies items_satisfechos@[j] == #[trigger] req_fill(
                rs,
                j,
                min(kind_count(inv, rs[j].item.kind, 0), total_need(rs, rs[j].item.kind)),
            ) by {
                lemma_kind_need_mono(rs, rs[j].item.kind, 0, j);
                lemma_kind_need_mono(rs, rs[j].item.kind, 0, m as int);
            }
        }
        let mut i: usize = 0;
        while i < n_slots
            invariant
                i <= n_slots,
                n_slots == inv.len(),
                m == rs.len(),
                rs == reqs@,
                self@.inventory == inv,
                usos_inventario@.len() == n_slots,
                forall|i2: int| 0 <= i2 < i ==> #[trigger] usos_inventario@[i2] == slot_use(inv, rs, i2),
                forall|i2: int| i <= i2 < n_slots ==> #[trigger] usos_inventario@[i2] == 0,
                items_satisfechos@.len() == m,
                forall|j: int|
                    0 <= j < m ==> #[trigger] items_satisfechos@[j] == req_fill(
                        rs,
                        j,
                        min(kind_count(inv, rs[j].item.kind, i as int), total_need(rs, rs[j].item.kind)),
                    ),
            decreases n_slots - i,
        {
            match &self.inventory[i] {
                None => {
                    proof {
                        assert forall|j: int| 0 <= j < m implies #[trigger] kind_count(inv, rs[j].item.kind, i + 1)
                            == kind_count(inv, rs[j].item.kind, i as int) by {}
                    }
                },
                Some((item, count)) => {
                    let k = item.kind;
                    let c = *count;
                    let ghost t = min(kind_count(inv, k, i as int), total_need(rs, k));
                    let ghost sat0 = items_satisfechos@;
                    proof {
                        lemma_kind_count_nonneg(inv, k, i as int);
                        lemma_kind_need_mono(rs, k, 0, m as int);
                    }
                    let mut used: u16 = 0;
                    let mut j: usize = 0;
                    while j < m
                        invariant_except_break
                            j <= m,
                            used as int == min(c as int, max(0, kind_need(rs, k, j as int) - t)),
                            forall|j2: int|
                                0 <= j2 < j && rs[j2].item.kind == k ==> #[trigger] items_satisfechos@[j2]
                                    == req_fill(rs, j2, t + used),
                            forall|j2: int|
                                j <= j2 < m ==> #[trigger] items_satisfechos@[j2] == sat0[j2],
                        invariant
                            m == rs.len(),
                            rs == reqs@,
                            sat0.len() == m,
                            0 <= t <= total_need(rs, k),
                            used <= c,
                            items_satisfechos@.len() == m,
                            forall|j2: int|
                                0 <= j2 < m && rs[j2].item.kind != k ==> #[trigger] items_satisfechos@[j2]
                                    == sat0[j2],
                            forall|j2: int|
                                0 <= j2 < m && rs[j2].item.kind == k ==> #[trigger] sat0[j2]
                                    == req_fill(rs, j2, t),
                        ensures
                            used as int == min(c as int, max(0, total_need(rs, k) - t)),
                            forall|j2: int|
                                0 <= j2 < m && rs[j2].item.kind == k ==> #[trigger] items_satisfechos@[j2]
                                    == req_fill(rs, j2, t + used),
                        decreases m - j,
                    {
                        proof {
                            lemma_kind_need_mono(rs, k, j as int, j + 1);
                            lemma_kind_need_mono(rs, k, j + 1, m as int);
                        }
                        let need = reqs[j].necesidad;
                        if reqs[j].item.kind == k && items_satisfechos[j] < need {
                            let needed = need - items_satisfechos[j];
                            let available = c - used;
                            if needed <= available {
                                used = used + needed;
                                let v = items_satisfechos[j] + needed;
                                items_satisfechos.set(j, v);
                            } else {
                                used = used + available;
                                let v = items_satisfechos[j] + available;
                                items_satisfechos.set(j, v);
                                proof {
                                    assert forall|j2: int|
                                        0 <= j2 < m && rs[j2].item.kind == k implies #[trigger] items_satisfechos@[j2]
                                            == req_fill(rs, j2, t + used) by {
                                        if j2 < j {
                                            lemma_kind_need_mono(rs, k, j2 + 1, j as int);
                                        } else if j2 > j {
                                            lemma_kind_need_mono(rs, k, j + 1, j2);
                                        }
                                    }
                                }
                                break;
                            }
                        }
                        proof {
                            assert forall|j2: int|
                                0 <= j2 < j + 1 && rs[j2].item.kind == k implies #[trigger] items_satisfechos@[j2]
                                    == req_fill(rs, j2, t + used) by {
                                if j2 < j {
                                    lemma_kind_need_mono(rs, k, j2 + 1, j as int);
                                }
                            }
                        }
                        j = j + 1;
                    }
                    usos_inventario.set(i, used);
                    proof {
                        assert forall|j2: int| 0 <= j2 < m implies #[trigger] items_satisfechos@[j2] == req_fill(
                            rs,
                            j2,
                            min(kind_count(inv, rs[j2].item.kind, i + 1), total_need(rs, rs[j2].item.kind)),
                        ) by {
                            assert(kind_count(inv, rs[j2].item.kind, i + 1) == kind_count(inv, rs[j2].item.kind, i as int)
                                + slot_kind_count(inv[i as int], rs[j2].item.kind));
                        }
                    }
                },
            }
            i = i + 1;
        }
        proof {
            assert forall|j2: int| 0 <= j2 < m implies #[trigger] items_satisfechos@[j2] == req_fill(
                rs,
                j2,
                min(total_count(inv, rs[j2].item.kind), total_need(rs, rs[j2].item.kind)),
            ) by {}
        }
        let mut satisfied_needs = true;
        let mut j: usize = 0;
        while j < m
            invariant
                forall|j2: int| 0 <= j2 < m ==> #[trigger] items_satisfechos@[j2] == req_fill(
                    rs,
                    j2,
                    min(total_count(inv, rs[j2].item.kind), total_need(rs, rs[j2].item.kind)),
                ),
                usos_inventario@.len() == n_slots,
                forall|i2: int| 0 <= i2 < n_slots ==> #[trigger] usos_inventario@[i2] == slot_use(inv, rs, i2),
                self@.inventory == inv,
                n_slots == inv.len(),
                j <= m,
                m == rs.len(),
                rs == reqs@,
                items_satisfechos@.len() == m,
                satisfied_needs == forall|j2: int|
                    0 <= j2 < j ==> #[trigger] items_satisfechos@[j2] >= rs[j2].necesidad,
            decreases m - j,
        {
            if reqs[j].necesidad > items_satisfechos[j] {
                satisfied_needs = false;
            }
            j = j + 1;
        }
        proof {
            lemma_all_filled_iff_fulfillable(inv, rs);
            if satisfied_needs {
                assert forall|j2: int| 0 <= j2 < m implies #[trigger] req_fill(
                    rs,
                    j2,
                    min(total_count(inv, rs[j2].item.kind), total_need(rs, rs[j2].item.kind)),
                ) >= rs[j2].necesidad by {
                    assert(items_satisfechos@[j2] >= rs[j2].necesidad);
                }
            } else {
                let jb = choose|j2: int| 0 <= j2 < m && !(#[trigger] items_satisfechos@[j2] >= rs[j2].necesidad);
                assert(items_satisfechos@[jb] == req_fill(
                    rs,
                    jb,
                    min(total_count(inv, rs[jb].item.kind), total_need(rs, rs[jb].item.kind)),
                ));
            }
            assert(satisfied_needs == forall|j2: int|
                0 <= j2 < m ==> #[trigger] req_fill(
                    rs,
                    j2,
                    min(total_count(inv, rs[j2].item.kind), total_need(rs, rs[j2].item.kind)),
                ) >= rs[j2].necesidad);
        }
        if satisfied_needs {
            let mut index: usize = 0;
            while index < n_slots
                invariant
                    index <= n_slots,
                    n_slots == inv.len(),
                    self.wf(),
                    self@ == (PlayerView { inventory: self@.inventory, ..old(self)@ }),
                    self@.inventory.len() == n_slots,
                    usos_inventario@.len() == n_slots,
                    forall|i2: int| 0 <= i2 < n_slots ==> #[trigger] usos_inventario@[i2] == slot_use(inv, rs, i2),
                    forall|i2: int|
                        0 <= i2 < index ==> #[trigger] self@.inventory[i2] == consume(
                            inv[i2],
                            slot_use(inv, rs, i2),
                        ),
                    forall|i2: int| index <= i2 < n_slots ==> #[trigger] self@.inventory[i2] == inv[i2],
                decreases n_slots - index,
            {
                let using = usos_inventario[index];
                if using != 0 {
                    let _ = self.rest_item_to_inventory(index, using);
                }
                index = index + 1;
            }
            assert(self@.inventory =~= after_order(inv, rs));
            self.orders_made = self.orders_made + 1;
            return true;
        }
        false
    }

    /// Adds points earned: both the spendable points and the level total grow.
    pub fn sum_points(&mut self, points: u16)
        requires
            old(self)@.points_made + points <= u16::MAX,
            old(self)@.puntos + points <= u16::MAX,
        ensures
            final(self)@ == (PlayerView {
                points_made: (old(self)@.points_made + points) as u16,
                puntos: (old(self)@.puntos + points) as u16,
                ..old(self)@
            }),
    {
        self.points_made = self.points_made + points;
        self.puntos = self.puntos + points;
    }

    /// Spends points.
    pub fn rest_points(&mut self, points: u16)
        requires
            points <= old(self)@.puntos,
        ensures
            final(self)@ == (PlayerView { puntos: (old(self)@.puntos - points) as u16, ..old(self)@ }),
    {
        self.puntos = self.puntos - points;
    }

    pub fn get_puntos(&self) -> (r: u16)
        ensures
            r == self@.puntos,
    {
        self.puntos
    }

    pub fn get_points_made(&self) -> (r: u16)
        ensures
            r == self@.points_made,
    {
        self.points_made
    }

    pub fn get_orders_made(&self) -> (r: u16)
        ensures
            r == self@.orders_made,
    {
        self.orders_made
    }

    pub fn get_inventario_maximo(&self) -> (r: u16)
        ensures
            r == self@.inventario_maximo,
    {
        self.inventario_maximo
    }

    pub fn get_active(&self) -> (r: bool)
        ensures
            r == self@.active,
    {
        self.active
    }

    pub fn set_active(&mut self, active: bool)
        ensures
            final(self)@ == (PlayerView { active, ..old(self)@ }),
    {
        self.active = active;
    }

    pub fn get_index_current_item(&self) -> (r: usize)
        ensures
            r == self@.item_actual,
    {
        self.item_actual
    }

    /// The content of the selected slot.
    pub fn get_equiped_item(&self) -> (r: Slot)
        requires
            self.wf(),
            self@.inventario_maximo > 0,
        ensures
            r == self@.inventory[self@.item_actual as int],
    {
        self.inventory[self.item_actual]
    }

    /// The content of slot `index`.
    pub fn get_inventory_item(&self, index: usize) -> (r: Slot)
        requires
            index < self@.inventory.len(),
        ensures
            r == self@.inventory[index as int],
    {
        self.inventory[index]
    }

    /// A copy of all slots.
    pub fn get_inventory(&self) -> (r: Vec<Slot>)
        ensures
            r@ == self@.inventory,
    {
        let mut r: Vec<Slot> = Vec::new();
        let mut i: usize = 0;
        while i < self.inventory.len()
            invariant
                i <= self@.inventory.len(),
                r@ == self@.inventory.subrange(0, i as int),
            decreases self@.inventory.len() - i,
        {
            r.push(self.inventory[i]);
            i = i + 1;
        }
        assert(r@ =~= self@.inventory);
        r
    }

    pub fn get_direction(&self) -> (r: (i32, i32))
        ensures
            r == self@.direction,
    {
        self.direction
    }

    pub fn is_moving(&self) -> (r: bool)
        ensures
            r == self@.is_moving,
    {
        self.is_moving
    }

    pub fn can_move(&self) -> (r: bool)
        ensures
            r == self@.can_move,
    {
        self.can_move
    }

    /// What a movement input `(x, y)` (each -1, 0 or 1) leads to. Nothing
    /// happens while the input is neutral, while walking or while turning.
    /// A diagonal input keeps only its horizontal part. The player walks
    /// when already facing that way and turns to it otherwise.
    pub fn movement_decision(&self, x: i32, y: i32) -> (r: MovementAction)
        ensures
            r == movement_spec(self@, x, y),
    {
        if (x == 0 && y == 0) || self.is_moving || !self.can_move {
            return MovementAction::Stay;
        }
        let dy = if x != 0 {
            0
        } else {
            y
        };
        if x == self.direction.0 && dy == self.direction.1 {
            MovementAction::MoveTo(x, dy)
        } else {
            MovementAction::FaceTo(x, dy)
        }
    }

    /// Turns to `direction`; movement waits until the turn ends.
    pub fn face_to(&mut self, direction: (i32, i32))
        ensures
            final(self)@ == (PlayerView { can_move: false, direction, ..old(self)@ }),
    {
        self.can_move = false;
        self.direction = direction;
    }

    /// The turn is over: the player may move again.
    pub fn end_facing(&mut self)
        ensures
            final(self)@ == (PlayerView { can_move: true, ..old(self)@ }),
    {
        self.can_move = true;
    }

    /// The target tile is walkable: the walk starts.
    pub fn start_moving(&mut self)
        ensures
            final(self)@ == (PlayerView { is_moving: true, ..old(self)@ }),
    {
        self.is_moving = true;
    }

    /// The target tile is reached.
    pub fn stop_moving(&mut self)
        ensures
            final(self)@ == (PlayerView { is_moving: false, ..old(self)@ }),
    {
        self.is_moving = false;
    }

    /// Selects slot `index` modulo the number of slots (the index is first
    /// cut to 16 bits).
    pub fn select_item(&mut self, index: usize)
        requires
            old(self).wf(),
            old(self)@.inventario_maximo > 0,
        ensures
            final(self).wf(),
            final(self)@ == (PlayerView {
                item_actual: ((index as int % 65536) % (old(self)@.inventario_maximo as int)) as usize,
                ..old(self)@
            }),
    {
        let short: u16 = (index % 65536) as u16;
        self.item_actual = (short % self.inventario_maximo) as usize;
    }

    /// Selects the next slot, going round to the first.
    pub fn select_next_item(&mut self)
        requires
            old(self).wf(),
            old(self)@.inventario_maximo > 0,
        ensures
            final(self).wf(),
            final(self)@ == (PlayerView {
                item_actual: ((old(self)@.item_actual + 1) % (old(self)@.inventario_maximo as int)) as usize,
                ..old(self)@
            }),
    {
        self.select_item(self.item_actual + 1);
    }

    /// Selects the previous slot, going round to the last (through the same
    /// 16-bit cut as `select_item`).
    pub fn select_previous_item(&mut self)
        requires
            old(self).wf(),
            old(self)@.inventario_maximo > 0,
        ensures
            final(self).wf(),
            final(self)@ == (PlayerView {
                item_actual: (((old(self)@.item_actual + old(self)@.inventario_maximo - 1) % 65536)
                    % (old(self)@.inventario_maximo as int)) as usize,
                ..old(self)@
            }),
    {
        self.select_item((self.item_actual + self.inventario_maximo as usize) - 1);
    }
}

} // verus!
