use vstd::prelude::*;

verus! {

/// Whether the game runs or is paused.
pub struct GameManager {
    game_active: bool,
}

impl GameManager {
    /// A running game.
    pub fn new() -> (r: GameManager)
        ensures
            r.is_active_spec(),
    {
        GameManager { game_active: true }
    }

    pub closed spec fn is_active_spec(&self) -> bool {
        self.game_active
    }

    pub fn get_game_active(&self) -> (r: bool)
        ensures
            r == self.is_active_spec(),
    {
        self.game_active
    }

    /// Pauses a running game, or resumes a paused one.
    pub fn pause_game(&mut self)
        ensures
            final(self).is_active_spec() == !old(self).is_active_spec(),
    {
        self.game_active = !self.game_active;
    }
}

} // verus!
