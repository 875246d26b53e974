use crate::game::game_state::{starting_state, GameState};
use vstd::prelude::*;

verus! {

/// What a player at the board works with: the square picked up for the next
/// move, if any, and the state of the game.
pub struct AppState {
    pub selected_square: Option<usize>,
    pub game_state: GameState,
}

impl AppState {
    /// Nothing selected, and a game about to start.
    pub fn new() -> (state: Self)
        ensures
            state.selected_square is None,
            state.game_state@ == starting_state(),
    {
        Self { selected_square: None, game_state: GameState::new() }
    }
}

impl Clone for AppState {
    fn clone(&self) -> (copy: Self)
        ensures
            copy.selected_square == self.selected_square,
            copy.game_state@ == self.game_state@,
    {
        Self { selected_square: self.selected_square, game_state: self.game_state.clone() }
    }
}

} // verus!
