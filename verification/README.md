# rust_farm

The rules of a small farming game, verified with Verus: an inventory with
stacks and a selected slot, orders that are served from the inventory,
a market, plant growth, tools that change the terrain, and seeds.

- `src/` holds the rules. Each public function states what it returns and
  how it changes the state; `src/fulfillment.rs` also proves what serving an
  order takes from the inventory.
- `app/` is the Godot extension around the rules: nodes, resources, menus,
  input, timers and random draws. It converts item resources into the plain
  `ItemRef` handles the rules work on.
- `tests/` runs the rules on concrete games.

The market keeps its listings and stocks in `Vec`s, and orders and
inventories hold `ItemRef` handles. Engine arrays and item resources exist
only inside a running Godot, so the rules, their proofs and the tests could
not hold them; `app/` converts between the two.
