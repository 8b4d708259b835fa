use rust_farm::item::ItemRef;
use rust_farm::level_manager::{Pedido, Requerimiento};
use rust_farm::player::{MovementAction, Player};

fn seed() -> ItemRef {
    ItemRef::new(10, 1, 3, 5)
}

fn tool_copy(id: u64) -> ItemRef {
    ItemRef::new(id, 2, 1, 20)
}

#[test]
fn new_player_has_empty_slots() {
    let p = Player::new(8, 7);
    assert_eq!(p.get_inventory().len(), 8);
    assert!(p.get_inventory().iter().all(|s| s.is_none()));
    assert_eq!(p.get_puntos(), 7);
    assert_eq!(p.get_index_current_item(), 0);
    assert_eq!(p.get_direction(), (1, 0));
    assert!(!p.is_inventory_full());
}

#[test]
fn adding_stacks_up_to_the_limit_then_opens_a_new_slot() {
    let mut p = Player::new(3, 0);
    for _ in 0..3 {
        assert_eq!(p.add_item_to_inventory(&seed()), Ok("Item a\u{f1}adido".to_string()));
    }
    assert_eq!(p.get_inventory_item(0), Some((seed(), 3)));
    assert_eq!(p.get_inventory_item(1), None);
    assert!(p.add_item_to_inventory(&seed()).is_ok());
    assert_eq!(p.get_inventory_item(1), Some((seed(), 1)));
}

#[test]
fn different_instances_do_not_stack() {
    let mut p = Player::new(2, 0);
    assert!(p.add_item_to_inventory(&tool_copy(100)).is_ok());
    assert!(p.add_item_to_inventory(&tool_copy(101)).is_ok());
    assert!(p.is_inventory_full());
    assert_eq!(
        p.add_item_to_inventory(&tool_copy(102)),
        Err("Can't add to inventory".to_string())
    );
    assert_eq!(p.get_inventory_item(0), Some((tool_copy(100), 1)));
    assert_eq!(p.get_inventory_item(1), Some((tool_copy(101), 1)));
}

#[test]
fn full_inventory_still_stacks_onto_existing_items() {
    let mut p = Player::new(1, 0);
    assert!(p.add_item_to_inventory(&seed()).is_ok());
    assert!(p.is_inventory_full());
    assert!(p.add_item_to_inventory(&seed()).is_ok());
    assert_eq!(p.get_inventory_item(0), Some((seed(), 2)));
}

#[test]
fn available_slots_and_empty_slot() {
    let mut p = Player::new(4, 0);
    p.add_item_to_inventory(&tool_copy(1)).unwrap();
    p.add_item_to_inventory(&seed()).unwrap();
    assert_eq!(p.available_slots_with_item(&seed()), vec![1]);
    assert_eq!(p.available_slots_with_item(&tool_copy(1)), Vec::<usize>::new());
    assert_eq!(p.empty_slot_index(), Some(2));
}

#[test]
fn resting_items_empties_the_slot_at_zero() {
    let mut p = Player::new(2, 0);
    for _ in 0..3 {
        p.add_item_to_inventory(&seed()).unwrap();
    }
    assert_eq!(p.rest_item_to_inventory(0, 2), Ok(()));
    assert_eq!(p.get_inventory_item(0), Some((seed(), 1)));
    assert_eq!(
        p.rest_item_to_inventory(0, 2),
        Err("No puede restar mas de lo que se tiene".to_string())
    );
    assert_eq!(p.get_inventory_item(0), Some((seed(), 1)));
    assert_eq!(p.rest_item_to_inventory(0, 1), Ok(()));
    assert_eq!(p.get_inventory_item(0), None);
    assert_eq!(
        p.rest_item_to_inventory(1, 1),
        Err("Tratando de restar a un slot vacio".to_string())
    );
}

#[test]
fn selection_wraps_around() {
    let mut p = Player::new(8, 0);
    p.select_previous_item();
    assert_eq!(p.get_index_current_item(), 7);
    p.select_next_item();
    assert_eq!(p.get_index_current_item(), 0);
    p.select_item(13);
    assert_eq!(p.get_index_current_item(), 5);
    p.select_item(65536 + 3);
    assert_eq!(p.get_index_current_item(), 3);
}

#[test]
fn points_are_earned_and_spent() {
    let mut p = Player::new(1, 10);
    p.sum_points(5);
    assert_eq!(p.get_puntos(), 15);
    assert_eq!(p.get_points_made(), 5);
    p.rest_points(15);
    assert_eq!(p.get_puntos(), 0);
    assert_eq!(p.get_points_made(), 5);
}

#[test]
fn movement_turns_before_walking() {
    let mut p = Player::new(1, 0);
    assert_eq!(p.movement_decision(0, 0), MovementAction::Stay);
    assert_eq!(p.movement_decision(1, 1), MovementAction::MoveTo(1, 0));
    assert_eq!(p.movement_decision(0, -1), MovementAction::FaceTo(0, -1));
    p.face_to((0, -1));
    assert_eq!(p.movement_decision(0, -1), MovementAction::Stay);
    p.end_facing();
    assert_eq!(p.movement_decision(0, -1), MovementAction::MoveTo(0, -1));
    p.start_moving();
    assert_eq!(p.movement_decision(0, -1), MovementAction::Stay);
    p.stop_moving();
    assert_eq!(p.movement_decision(-1, 0), MovementAction::FaceTo(-1, 0));
}

#[test]
fn equipped_item_follows_selection() {
    let mut p = Player::new(3, 0);
    p.add_item_to_inventory(&seed()).unwrap();
    p.add_item_to_inventory(&tool_copy(7)).unwrap();
    assert_eq!(p.get_equiped_item(), Some((seed(), 1)));
    p.select_item(1);
    assert_eq!(p.get_equiped_item(), Some((tool_copy(7), 1)));
    p.select_item(2);
    assert_eq!(p.get_equiped_item(), None);
}

#[test]
fn adding_then_taking_one_back_restores_the_inventory() {
    let mut p = Player::new(3, 0);
    p.add_item_to_inventory(&seed()).unwrap();
    let before = p.get_inventory();
    // onto the existing stack
    p.add_item_to_inventory(&seed()).unwrap();
    p.rest_item_to_inventory(0, 1).unwrap();
    assert_eq!(p.get_inventory(), before);
    // into a fresh slot
    p.add_item_to_inventory(&tool_copy(3)).unwrap();
    p.rest_item_to_inventory(1, 1).unwrap();
    assert_eq!(p.get_inventory(), before);
}

#[test]
fn counting_items_and_order_checks_agree() {
    let mut p = Player::new(3, 0);
    for _ in 0..3 {
        p.add_item_to_inventory(&seed()).unwrap();
    }
    p.add_item_to_inventory(&ItemRef::new(11, 1, 3, 5)).unwrap();
    assert_eq!(p.count_kind(1), 4);
    let ask = |n: u16| Pedido {
        requerimientos: vec![Requerimiento { item: seed(), necesidad: n }],
        recompensa: 1,
        time_for_order: 5,
    };
    assert!(p.can_fullfill_order(&ask(4)));
    assert!(!p.can_fullfill_order(&ask(5)));
}
