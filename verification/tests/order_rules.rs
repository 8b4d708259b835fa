use rust_farm::item::ItemRef;
use rust_farm::level_manager::{LevelManager, OrderBounds, OrderDraw, Pedido, Requerimiento};
use rust_farm::player::Player;

fn carrot(id: u64) -> ItemRef {
    ItemRef::new(id, 1, 64, 3)
}

fn tomato(id: u64) -> ItemRef {
    ItemRef::new(id, 2, 64, 4)
}

fn bounds() -> OrderBounds {
    OrderBounds {
        minimo_a_pedir: 1,
        maximo_a_pedir: 64,
        puntos_min_por_orden: 5,
        puntos_max_por_orden: 10,
        tiempo_minimo_de_orden: 10,
        tiempo_maximo_de_orden: 30,
    }
}

fn fill(p: &mut Player, item: ItemRef, n: u16) {
    for _ in 0..n {
        p.add_item_to_inventory(&item).unwrap();
    }
}

fn order(lines: Vec<(ItemRef, u16)>, reward: u16) -> Pedido {
    Pedido {
        requerimientos: lines
            .into_iter()
            .map(|(item, necesidad)| Requerimiento { item, necesidad })
            .collect(),
        recompensa: reward,
        time_for_order: 30,
    }
}

#[test]
fn order_served_takes_exactly_what_it_asks() {
    let mut p = Player::new(4, 0);
    fill(&mut p, carrot(1), 3);
    fill(&mut p, tomato(2), 5);
    fill(&mut p, carrot(3), 4);
    let pedido = order(vec![(carrot(99), 5), (tomato(98), 2)], 10);
    assert!(p.fullfill_order(&pedido));
    // carrots are taken front to back: 3 from slot 0, 2 from slot 2
    assert_eq!(p.get_inventory_item(0), None);
    assert_eq!(p.get_inventory_item(1), Some((tomato(2), 3)));
    assert_eq!(p.get_inventory_item(2), Some((carrot(3), 2)));
    assert_eq!(p.get_orders_made(), 1);
}

#[test]
fn order_short_of_one_kind_changes_nothing() {
    let mut p = Player::new(3, 0);
    fill(&mut p, carrot(1), 3);
    fill(&mut p, tomato(2), 5);
    let pedido = order(vec![(carrot(1), 2), (carrot(1), 2)], 10);
    let before = p.get_inventory();
    assert!(!p.fullfill_order(&pedido));
    assert_eq!(p.get_inventory(), before);
    assert_eq!(p.get_orders_made(), 0);
}

#[test]
fn repeated_lines_of_one_kind_are_added_up() {
    let mut p = Player::new(3, 0);
    fill(&mut p, carrot(1), 4);
    let pedido = order(vec![(carrot(1), 2), (tomato(5), 0), (carrot(1), 2)], 1);
    assert!(p.fullfill_order(&pedido));
    assert_eq!(p.get_inventory_item(0), None);
}

#[test]
fn empty_order_is_always_served() {
    let mut p = Player::new(2, 0);
    fill(&mut p, carrot(1), 1);
    assert!(p.fullfill_order(&order(vec![], 0)));
    assert_eq!(p.get_inventory_item(0), Some((carrot(1), 1)));
    assert_eq!(p.get_orders_made(), 1);
}

#[test]
fn level_opens_orders_up_to_its_limit() {
    let mut lm = LevelManager::new(vec![carrot(1), tomato(2)], 2, bounds());
    let draw = OrderDraw { recompensa: 7, tiempo: 12, picks: vec![(1, 3), (0, 1)] };
    assert!(lm.generate_new_order(&draw));
    assert!(lm.generate_new_order(&draw));
    assert!(!lm.generate_new_order(&draw));
    assert_eq!(lm.get_orders().len(), 2);
    let o = &lm.get_orders()[0];
    assert_eq!(o.recompensa, 7);
    assert_eq!(o.time_for_order, 12);
    assert_eq!(
        o.requerimientos,
        vec![
            Requerimiento { item: tomato(2), necesidad: 3 },
            Requerimiento { item: carrot(1), necesidad: 1 }
        ]
    );
}

#[test]
fn checking_an_order_pays_and_closes_it() {
    let mut lm = LevelManager::new(vec![carrot(1), tomato(2)], 5, bounds());
    lm.generate_new_order(&OrderDraw { recompensa: 9, tiempo: 10, picks: vec![(0, 2)] });
    lm.generate_new_order(&OrderDraw { recompensa: 4, tiempo: 10, picks: vec![(1, 9)] });
    let mut p = Player::new(2, 1);
    fill(&mut p, carrot(50), 2);
    assert!(!lm.check_order(&mut p, 1));
    assert_eq!(lm.get_orders().len(), 2);
    assert_eq!(p.get_puntos(), 1);
    assert!(lm.check_order(&mut p, 0));
    assert_eq!(lm.get_orders().len(), 1);
    assert_eq!(lm.get_orders()[0].recompensa, 4);
    assert_eq!(p.get_puntos(), 10);
    assert_eq!(p.get_points_made(), 9);
    assert_eq!(p.get_orders_made(), 1);
    assert_eq!(p.get_inventory_item(0), None);
}

#[test]
fn removing_an_order_keeps_the_others_in_order() {
    let mut lm = LevelManager::new(vec![carrot(1)], 5, bounds());
    for r in 1..4u16 {
        lm.generate_new_order(&OrderDraw { recompensa: r, tiempo: 1, picks: vec![(0, 1)] });
    }
    lm.remove_order(1);
    let rewards: Vec<u16> = lm.get_orders().iter().map(|o| o.recompensa).collect();
    assert_eq!(rewards, vec![1, 3]);
}

#[test]
fn expired_orders_are_removed_one_after_another() {
    let mut lm = LevelManager::new(vec![carrot(1)], 9, bounds());
    for r in 1..6u16 {
        lm.generate_new_order(&OrderDraw { recompensa: r, tiempo: 1, picks: vec![(0, 1)] });
    }
    // removing index 1 shifts the list, so index 2 then names the fourth order
    lm.remove_orders(&vec![1, 2]);
    let rewards: Vec<u16> = lm.get_orders().iter().map(|o| o.recompensa).collect();
    assert_eq!(rewards, vec![1, 3, 5]);
}

#[test]
fn draws_are_checked_against_the_level_ranges() {
    let lm = LevelManager::new(vec![carrot(1), tomato(2)], 3, bounds());
    let ok = OrderDraw { recompensa: 7, tiempo: 12, picks: vec![(1, 3), (0, 64)] };
    assert!(lm.check_draw(&ok));
    assert!(!lm.check_draw(&OrderDraw { picks: vec![], ..ok.clone() }));
    assert!(!lm.check_draw(&OrderDraw { picks: vec![(0, 1); 4], ..ok.clone() }));
    assert!(!lm.check_draw(&OrderDraw { recompensa: 11, ..ok.clone() }));
    assert!(!lm.check_draw(&OrderDraw { tiempo: 9, ..ok.clone() }));
    assert!(!lm.check_draw(&OrderDraw { picks: vec![(2, 3)], ..ok.clone() }));
    assert!(!lm.check_draw(&OrderDraw { picks: vec![(0, 0)], ..ok.clone() }));
    let reversed = LevelManager::new(
        vec![carrot(1)],
        3,
        OrderBounds { puntos_min_por_orden: 10, puntos_max_por_orden: 5, ..bounds() },
    );
    assert!(reversed.check_draw(&OrderDraw { recompensa: 7, tiempo: 12, picks: vec![(0, 3)] }));
}

#[test]
fn a_full_level_ignores_any_draw() {
    let mut lm = LevelManager::new(vec![carrot(1)], 0, bounds());
    let bad = OrderDraw { recompensa: 7, tiempo: 12, picks: vec![(5, 3)] };
    assert!(!lm.generate_new_order(&bad));
    assert_eq!(lm.get_orders().len(), 0);
}

#[test]
fn orders_match_items_by_name_not_instance() {
    let mut a = Player::new(2, 0);
    let mut b = Player::new(2, 0);
    fill(&mut a, carrot(1), 3);
    fill(&mut b, carrot(77), 3);
    let pedido = order(vec![(carrot(500), 2)], 1);
    assert!(a.fullfill_order(&pedido));
    assert!(b.fullfill_order(&pedido));
    assert_eq!(a.get_inventory_item(0).map(|s| s.1), Some(1));
    assert_eq!(b.get_inventory_item(0).map(|s| s.1), Some(1));
}
