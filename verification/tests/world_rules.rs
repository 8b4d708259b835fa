use rust_farm::game_manager::GameManager;
use rust_farm::herramientas::{terrain_after_use, Efecto, Herramienta, ToolUse};
use rust_farm::item::ItemRef;
use rust_farm::mercado::Mercado;
use rust_farm::plant::{FasesPlantas, Planta};
use rust_farm::player::Player;
use rust_farm::seeds::{produce_seeds, SeedItemResource};

fn hoe(id: u64) -> ItemRef {
    ItemRef::new(id, 7, 1, 30)
}

fn seed() -> ItemRef {
    ItemRef::new(5, 3, 4, 2)
}

#[test]
fn market_sells_until_stock_runs_out() {
    let mut m = Mercado::new(vec![hoe(1), seed()], vec![1, 2]).unwrap();
    let mut p = Player::new(3, 100);
    assert!(m.buy_something(&mut p, 1, &seed()));
    assert_eq!(p.get_puntos(), 98);
    assert_eq!(m.get_stock(), &vec![1, 1]);
    assert!(m.buy_something(&mut p, 0, &hoe(40)));
    assert_eq!(p.get_puntos(), 68);
    assert_eq!(m.get_items(), &vec![seed()]);
    assert_eq!(m.get_stock(), &vec![1]);
    assert_eq!(p.get_inventory_item(0), Some((seed(), 1)));
    assert_eq!(p.get_inventory_item(1), Some((hoe(40), 1)));
}

#[test]
fn market_refuses_without_points_or_room() {
    let mut m = Mercado::new(vec![hoe(1)], vec![3]).unwrap();
    let mut poor = Player::new(3, 10);
    assert!(!m.buy_something(&mut poor, 0, &hoe(2)));
    assert_eq!(poor.get_puntos(), 10);
    let mut full = Player::new(1, 100);
    full.add_item_to_inventory(&seed()).unwrap();
    assert!(!m.buy_something(&mut full, 0, &hoe(3)));
    assert_eq!(m.get_stock(), &vec![3]);
}

#[test]
fn market_needs_one_stock_per_item() {
    assert_eq!(
        Mercado::new(vec![hoe(1)], vec![]).err(),
        Some("Stock y items no son del mismo tamano".to_string())
    );
}

#[test]
fn selling_pays_and_removes_one() {
    let mut p = Player::new(2, 0);
    p.add_item_to_inventory(&seed()).unwrap();
    p.add_item_to_inventory(&seed()).unwrap();
    Mercado::sell_item(&mut p, 0, 2);
    assert_eq!(p.get_inventory_item(0), Some((seed(), 1)));
    assert_eq!(p.get_puntos(), 2);
    assert_eq!(p.get_points_made(), 2);
}

#[test]
fn plants_grow_one_phase_per_threshold() {
    let mut plant = Planta::new(Some(seed()));
    assert_eq!(Planta::grow_increment(17, 2, 7), 4);
    assert_eq!(plant.grow_tick(17, 2, 7, 10), None);
    assert_eq!(plant.get_grow_points(), 4);
    assert_eq!(plant.grow_tick(3, 2, 7, 10), None);
    assert_eq!(plant.grow_tick(4, 2, 7, 10), Some(1));
    assert_eq!(plant.get_fase_actual(), FasesPlantas::Infancia);
    assert_eq!(plant.get_grow_points(), 0);
    assert_eq!(plant.harvest(), None);
    assert_eq!(plant.grow_by(10, 10), Some(2));
    assert_eq!(plant.grow_by(10, 10), Some(3));
    assert_eq!(plant.grow_by(10, 10), Some(4));
    assert_eq!(plant.get_fase_actual(), FasesPlantas::Madura);
    assert_eq!(plant.grow_by(10, 10), Some(4));
    assert_eq!(plant.get_fase_actual(), FasesPlantas::Madura);
    assert_eq!(plant.harvest(), Some(seed()));
    assert_eq!(plant.pick(), Some(seed()));
}

#[test]
fn tools_change_terrain_and_wear_out() {
    assert_eq!(terrain_after_use(Efecto::AumentarFertilidad, 3), Some(2));
    assert_eq!(terrain_after_use(Efecto::AumentarFertilidad, 2), Some(1));
    assert_eq!(terrain_after_use(Efecto::AumentarFertilidad, 1), None);
    assert_eq!(terrain_after_use(Efecto::ConstruirPuente, 5), Some(6));
    assert_eq!(terrain_after_use(Efecto::QuitarPasto, 4), Some(3));
    assert_eq!(terrain_after_use(Efecto::RevivirTierra, 0), Some(3));
    assert_eq!(terrain_after_use(Efecto::RecogerFruto, 0), None);
    let mut t = Herramienta { efecto: Efecto::QuitarPasto, usos: 2, max_stack: 1, precio: 9 };
    assert_eq!(t.interact(1), Err("No fue usada".to_string()));
    assert_eq!(t.usos, 2);
    assert_eq!(t.interact(4), Ok(ToolUse { new_terrain: 3, consumed: false }));
    assert_eq!(t.interact(4), Ok(ToolUse { new_terrain: 3, consumed: true }));
    assert_eq!(t.usos, 0);
}

#[test]
fn seeds_plant_only_on_free_plantable_tiles() {
    let s = SeedItemResource { max_stack: 4, precio: 2 };
    assert!(s.can_plant(Some(true)));
    assert!(!s.can_plant(Some(false)));
    assert!(!s.can_plant(None));
    assert_eq!(s.try_plant(Some(true)), Ok(()));
    assert_eq!(
        s.try_plant(None),
        Err("No se puede plantar en esta posici\u{f3}n".to_string())
    );
    assert_eq!(s.interact(true, true), Err("Algo en frente".to_string()));
    assert_eq!(s.interact(false, false), Err("No puede plantar aca".to_string()));
    assert_eq!(s.interact(false, true), Ok(true));
}

#[test]
fn fruit_becomes_seeds_until_the_inventory_is_full() {
    let fruit = ItemRef::new(8, 9, 10, 3);
    let mut p = Player::new(2, 0);
    p.add_item_to_inventory(&fruit).unwrap();
    p.add_item_to_inventory(&fruit).unwrap();
    // one fruit gives up to 6 seeds, but only 4 fit in the free slot (limit 4)
    assert_eq!(produce_seeds(&mut p, 0, &seed(), 6), 4);
    assert_eq!(p.get_inventory_item(0), Some((fruit, 1)));
    assert_eq!(p.get_inventory_item(1), Some((seed(), 4)));
    // the last fruit leaves its slot free for the seeds
    assert_eq!(produce_seeds(&mut p, 0, &seed(), 3), 3);
    assert_eq!(p.get_inventory_item(0), Some((seed(), 3)));
}

#[test]
fn game_pauses_and_resumes() {
    let mut g = GameManager::new();
    assert!(g.get_game_active());
    g.pause_game();
    assert!(!g.get_game_active());
    g.pause_game();
    assert!(g.get_game_active());
}
