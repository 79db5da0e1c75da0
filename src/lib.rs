pub mod canvas;
pub mod game_state;
