use vstd::prelude::*;
use crate::item::ItemRef;
use crate::player::{Player, PlayerView};
use crate::fulfillment::{after_order, order_fulfillable};

verus! {

/// One line of an order: so many of an item (matched by name).
#[derive(Clone, Copy, PartialEq, Eq, Structural, Debug)]
pub struct Requerimiento {
    pub item: ItemRef,
    pub necesidad: u16,
}

/// An order: what it asks for, what it pays and how many seconds it lasts.
#[derive(Clone, Debug)]
pub struct Pedido {
    pub requerimientos: Vec<Requerimiento>,
    pub recompensa: u16,
    pub time_for_order: u16,
}

/// The random draws that make up a new order: its reward, its time in
/// seconds, and for each line the index of the item in the level's item
/// list and how many are asked for.
#[derive(Clone, Debug)]
pub struct OrderDraw {
    pub recompensa: u16,
    pub tiempo: u16,
    pub picks: Vec<(usize, u16)>,
}

/// The ranges a level draws its orders from: how many of an item a line
/// asks for, the reward, and the time in seconds. Each range is given by
/// its two ends, in either order.
#[derive(Clone, Copy, PartialEq, Eq, Structural, Debug)]
pub struct OrderBounds {
    pub minimo_a_pedir: u8,
    pub maximo_a_pedir: u8,
    pub puntos_min_por_orden: u16,
    pub puntos_max_por_orden: u16,
    pub tiempo_minimo_de_orden: u16,
    pub tiempo_maximo_de_orden: u16,
}

/// `v` lies between the two ends `a` and `b`.
pub open spec fn between(v: int, a: int, b: int) -> bool {
    (a <= v && v <= b) || (b <= v && v <= a)
}

/// An order has one to three lines, and its reward, its time and the
/// amount of each line lie in the level's ranges.
pub open spec fn order_in_bounds(p: Pedido, b: OrderBounds) -> bool {
    &&& 1 <= p.requerimientos@.len() <= 3
    &&& between(p.recompensa as int, b.puntos_min_por_orden as int, b.puntos_max_por_orden as int)
    &&& between(
        p.time_for_order as int,
        b.tiempo_minimo_de_orden as int,
        b.tiempo_maximo_de_orden as int,
    )
    &&& forall|k: int|
        0 <= k < p.requerimientos@.len() ==> between(
            (#[trigger] p.requerimientos@[k]).necesidad as int,
            b.minimo_a_pedir as int,
            b.maximo_a_pedir as int,
        )
}

/// A draw could have come from the level: one to three lines, each naming
/// an item of the list, with amount, reward and time in their ranges.
pub open spec fn draw_in_bounds(b: OrderBounds, n_items: nat, d: OrderDraw) -> bool {
    &&& 1 <= d.picks@.len() <= 3
    &&& between(d.recompensa as int, b.puntos_min_por_orden as int, b.puntos_max_por_orden as int)
    &&& between(d.tiempo as int, b.tiempo_minimo_de_orden as int, b.tiempo_maximo_de_orden as int)
    &&& forall|k: int|
        0 <= k < d.picks@.len() ==> {
            &&& (#[trigger] d.picks@[k]).0 < n_items
            &&& between(d.picks@[k].1 as int, b.minimo_a_pedir as int, b.maximo_a_pedir as int)
        }
}

/// A range holds both of its ends and everything between them, whichever
/// end is given first, and nothing outside them.
pub proof fn lemma_range_is_inclusive(v: int, a: int, b: int)
    ensures
        between(a, a, b),
        between(b, a, b),
        between(v, a, b) == between(v, b, a),
        between(v, a, b) <==> ((if a <= b {
            a
        } else {
            b
        }) <= v && v <= (if a <= b {
            b
        } else {
            a
        })),
{
}

/// A draw fits the level exactly when it has one, two or three lines,
/// every line names an item of the list with an amount between the ends of
/// the amount range (both ends included), and the reward and the time lie
/// between the ends of their ranges (both ends included).
pub proof fn lemma_draw_fits_exactly(b: OrderBounds, n_items: nat, d: OrderDraw)
    ensures
        draw_in_bounds(b, n_items, d) <==> {
            &&& (d.picks@.len() == 1 || d.picks@.len() == 2 || d.picks@.len() == 3)
            &&& ((b.puntos_min_por_orden <= d.recompensa && d.recompensa <= b.puntos_max_por_orden)
                || (b.puntos_max_por_orden <= d.recompensa && d.recompensa
                <= b.puntos_min_por_orden))
            &&& ((b.tiempo_minimo_de_orden <= d.tiempo && d.tiempo <= b.tiempo_maximo_de_orden)
                || (b.tiempo_maximo_de_orden <= d.tiempo && d.tiempo <= b.tiempo_minimo_de_orden))
            &&& forall|k: int|
                0 <= k < d.picks@.len() ==> {
                    &&& (#[trigger] d.picks@[k]).0 < n_items
                    &&& ((b.minimo_a_pedir <= d.picks@[k].1 && d.picks@[k].1 <= b.maximo_a_pedir)
                        || (b.maximo_a_pedir <= d.picks@[k].1 && d.picks@[k].1
                        <= b.minimo_a_pedir))
                }
        },
{
}

/// The orders left after removing, one after another, the orders at the
/// given indices (each index counted in the list as it is at that moment).
pub open spec fn remove_in_turn(s: Seq<Pedido>, idx: Seq<usize>) -> Seq<Pedido>
    decreases idx.len(),
{
    if idx.len() == 0 {
        s
    } else {
        remove_in_turn(s.remove(idx[0] as int), idx.drop_first())
    }
}

/// Each removal in turn names an order that is there at that moment.
pub open spec fn removals_fit(len: int, idx: Seq<usize>) -> bool {
    forall|k: int| 0 <= k < idx.len() ==> (#[trigger] idx[k]) < len - k
}

/// The lines an order built from `picks` has.
pub open spec fn order_lines(items: Seq<ItemRef>, picks: Seq<(usize, u16)>) -> Seq<Requerimiento> {
    picks.map_values(|p: (usize, u16)| Requerimiento { item: items[p.0 as int], necesidad: p.1 })
}

/// What the rules see of a level: its open orders, the items orders can
/// ask for, and how many orders may be open at once.
pub struct LevelManagerView {
    pub pedidos: Seq<Pedido>,
    pub items_list: Seq<ItemRef>,
    pub pedidos_maximos_actuales: u8,
    pub bounds: OrderBounds,
}

/// The orders of a level.
pub struct LevelManager {
    pedidos: Vec<Pedido>,
    items_list: Vec<ItemRef>,
    pedidos_maximos_actuales: u8,
    bounds: OrderBounds,
}

impl View for LevelManager {
    type V = LevelManagerView;

    closed spec fn view(&self) -> LevelManagerView {
        LevelManagerView {
            pedidos: self.pedidos@,
            items_list: self.items_list@,
            pedidos_maximos_actuales: self.pedidos_maximos_actuales,
            bounds: self.bounds,
        }
    }
}

/// `v` lies between the two ends `a` and `b`.
pub fn in_range(v: u32, a: u32, b: u32) -> (r: bool)
    ensures
        r == between(v as int, a as int, b as int),
{
    (a <= v && v <= b) || (b <= v && v <= a)
}

impl LevelManager {
    /// A level with no open order.
    pub fn new(items_list: Vec<ItemRef>, pedidos_maximos_actuales: u8, bounds: OrderBounds) -> (r:
        LevelManager)
        ensures
            r@ == (LevelManagerView {
                pedidos: Seq::empty(),
                items_list: items_list@,
                pedidos_maximos_actuales,
                bounds,
            }),
    {
        LevelManager { pedidos: Vec::new(), items_list, pedidos_maximos_actuales, bounds }
    }

    pub fn get_bounds(&self) -> (r: OrderBounds)
        ensures
            r == self@.bounds,
    {
        self.bounds
    }

    /// Whether `draw` could have come from this level's ranges and item
    /// list.
    pub fn check_draw(&self, draw: &OrderDraw) -> (r: bool)
        ensures
            r == draw_in_bounds(self@.bounds, self@.items_list.len(), *draw),
    {
        let b = self.bounds;
        let n = draw.picks.len();
        if n < 1 || n > 3 {
            return false;
        }
        if !in_range(draw.recompensa as u32, b.puntos_min_por_orden as u32, b.puntos_max_por_orden as u32) {
            return false;
        }
        if !in_range(draw.tiempo as u32, b.tiempo_minimo_de_orden as u32, b.tiempo_maximo_de_orden as u32) {
            return false;
        }
        let mut k: usize = 0;
        while k < n
            invariant
                k <= n,
                n == draw.picks@.len(),
                b == self@.bounds,
                forall|k2: int|
                    0 <= k2 < k ==> {
                        &&& (#[trigger] draw.picks@[k2]).0 < self@.items_list.len()
                        &&& between(
                            draw.picks@[k2].1 as int,
                            b.minimo_a_pedir as int,
                            b.maximo_a_pedir as int,
                        )
                    },
            decreases n - k,
        {
            let (index_of_item, asked_for) = draw.picks[k];
            if index_of_item >= self.items_list.len() || !in_range(
                asked_for as u32,
                b.minimo_a_pedir as u32,
                b.maximo_a_pedir as u32,
            ) {
                assert(!draw_in_bounds(self@.bounds, self@.items_list.len(), *draw)) by {
                    assert(draw.picks@[k as int] == (index_of_item, asked_for));
                }
                return false;
            }
            k = k + 1;
        }
        true
    }

    pub fn get_orders(&self) -> (r: &Vec<Pedido>)
        ensures
            r@ == self@.pedidos,
    {
        &self.pedidos
    }

    pub fn get_items_list(&self) -> (r: &Vec<ItemRef>)
        ensures
            r@ == self@.items_list,
    {
        &self.items_list
    }

    /// Opens a new order built from `draw`, unless as many orders as
    /// allowed are already open.
    pub fn generate_new_order(&mut self, draw: &OrderDraw) -> (r: bool)
        requires
            old(self)@.pedidos.len() < old(self)@.pedidos_maximos_actuales ==> forall|k: int|
                0 <= k < draw.picks@.len() ==> (#[trigger] draw.picks@[k]).0 < old(
                    self,
                )@.items_list.len(),
        ensures
            r == (old(self)@.pedidos.len() < old(self)@.pedidos_maximos_actuales),
            final(self)@.pedidos.len() <= old(self)@.pedidos.len() + 1,
            final(self)@.pedidos.subrange(0, old(self)@.pedidos.len() as int) == old(self)@.pedidos,
            old(self)@.pedidos.len() <= old(self)@.pedidos_maximos_actuales
                ==> final(self)@.pedidos.len() <= final(self)@.pedidos_maximos_actuales,
            r && draw_in_bounds(old(self)@.bounds, old(self)@.items_list.len(), *draw)
                ==> order_in_bounds(final(self)@.pedidos.last(), final(self)@.bounds),
            r ==> final(self)@ == (LevelManagerView {
                pedidos: old(self)@.pedidos.push(
                    Pedido {
                        requerimientos: final(self)@.pedidos.last().requerimientos,
                        recompensa: draw.recompensa,
                        time_for_order: draw.tiempo,
                    },
                ),
                ..old(self)@
            }),
            r ==> final(self)@.pedidos.last().requerimientos@ == order_lines(
                old(self)@.items_list,
                draw.picks@,
            ),
            !r ==> final(self)@ == old(self)@,
    {
        if self.pedidos.len() >= self.pedidos_maximos_actuales as usize {
            return false;
        }
        let mut requerimientos: Vec<Requerimiento> = Vec::new();
        let mut k: usize = 0;
        while k < draw.picks.len()
            invariant
                k <= draw.picks@.len(),
                forall|k2: int|
                    0 <= k2 < draw.picks@.len() ==> (#[trigger] draw.picks@[k2]).0
                        < self@.items_list.len(),
                requerimientos@ == order_lines(self@.items_list, draw.picks@.subrange(0, k as int)),
            decreases draw.picks@.len() - k,
        {
            let (index_of_item, asked_for) = draw.picks[k];
            let item = self.items_list[index_of_item];
            requerimientos.push(Requerimiento { item, necesidad: asked_for });
            proof {
                assert(draw.picks@.subrange(0, k + 1) =~= draw.picks@.subrange(0, k as int).push(
                    draw.picks@[k as int],
                ));
                assert(requerimientos@ =~= order_lines(
                    self@.items_list,
                    draw.picks@.subrange(0, k + 1),
                ));
            }
            k = k + 1;
        }
        assert(draw.picks@.subrange(0, draw.picks@.len() as int) =~= draw.picks@);
        assert(forall|k2: int|
            0 <= k2 < requerimientos@.len() ==> (#[trigger] requerimientos@[k2]).necesidad
                == draw.picks@[k2].1);
        let pedido = Pedido {
            requerimientos,
            recompensa: draw.recompensa,
            time_for_order: draw.tiempo,
        };
        self.pedidos.push(pedido);
        assert(self@.pedidos.subrange(0, old(self)@.pedidos.len() as int) =~= old(self)@.pedidos);
        true
    }

    /// Closes, one after another, the orders at the given indices; each
    /// index is taken in the list as it stands after the removals before it.
    pub fn remove_orders(&mut self, indexes: &Vec<usize>)
        requires
            removals_fit(old(self)@.pedidos.len() as int, indexes@),
        ensures
            final(self)@ == (LevelManagerView {
                pedidos: remove_in_turn(old(self)@.pedidos, indexes@),
                ..old(self)@
            }),
    {
        let n = indexes.len();
        let mut k: usize = 0;
        assert(indexes@.subrange(0, n as int) =~= indexes@);
        while k < n
            invariant
                k <= n,
                n == indexes@.len(),
                removals_fit(old(self)@.pedidos.len() as int, indexes@),
                self@.pedidos.len() == old(self)@.pedidos.len() - k,
                self@ == (LevelManagerView { pedidos: self@.pedidos, ..old(self)@ }),
                remove_in_turn(old(self)@.pedidos, indexes@) == remove_in_turn(
                    self@.pedidos,
                    indexes@.subrange(k as int, n as int),
                ),
            decreases n - k,
        {
            let index = indexes[k];
            proof {
                assert(indexes@[k as int] < old(self)@.pedidos.len() - k);
                assert(indexes@.subrange(k as int, n as int).drop_first() =~= indexes@.subrange(
                    k + 1,
                    n as int,
                ));
            }
            self.remove_order(index);
            k = k + 1;
        }
        assert(indexes@.subrange(n as int, n as int) =~= Seq::<usize>::empty());
    }

    /// Closes order `index`.
    pub fn remove_order(&mut self, index: usize)
        requires
            index < old(self)@.pedidos.len(),
        ensures
            final(self)@ == (LevelManagerView {
                pedidos: old(self)@.pedidos.remove(index as int),
                ..old(self)@
            }),
    {
        self.pedidos.remove(index);
    }

    /// The player hands in order `index`: when the inventory covers it,
    /// the items are taken, the reward is paid, the order counts as made
    /// and it closes. Otherwise nothing changes.
    pub fn check_order(&mut self, player: &mut Player, index: u16) -> (r: bool)
        requires
            (index as int) < old(self)@.pedidos.len(),
            old(player).wf(),
            order_fulfillable(
                old(player)@.inventory,
                old(self)@.pedidos[index as int].requerimientos@,
            ) ==> {
                &&& old(player)@.orders_made < u16::MAX
                &&& old(player)@.puntos + old(self)@.pedidos[index as int].recompensa <= u16::MAX
                &&& old(player)@.points_made + old(self)@.pedidos[index as int].recompensa
                    <= u16::MAX
            },
        ensures
            final(player).wf(),
            r == order_fulfillable(
                old(player)@.inventory,
                old(self)@.pedidos[index as int].requerimientos@,
            ),
            r ==> {
                let pedido = old(self)@.pedidos[index as int];
                &&& final(player)@ == (PlayerView {
                    inventory: after_order(old(player)@.inventory, pedido.requerimientos@),
                    orders_made: (old(player)@.orders_made + 1) as u16,
                    puntos: (old(player)@.puntos + pedido.recompensa) as u16,
                    points_made: (old(player)@.points_made + pedido.recompensa) as u16,
                    ..old(player)@
                })
                &&& final(self)@ == (LevelManagerView {
                    pedidos: old(self)@.pedidos.remove(index as int),
                    ..old(self)@
                })
            },
            !r ==> final(player)@ == old(player)@ && final(self)@ == old(self)@,
    {
        let i = index as usize;
        let pedido = &self.pedidos[i];
        if player.fullfill_order(pedido) {
            player.sum_points(pedido.recompensa);
            self.remove_order(i);
            return true;
        }
        false
    }
}

} // verus!
