//! Game rules of a small farming game: inventory, orders, market,
//! plant growth, tools and seeds. Engine work (scenes, input, timers,
//! random numbers, sprites) stays outside this crate; the functions here
//! take plain values and state what they compute.
pub mod item;
pub mod player;
pub mod level_manager;
pub mod fulfillment;
pub mod mercado;
pub mod plant;
pub mod herramientas;
pub mod seeds;
pub mod game_manager;
