pub mod game;
pub mod laws;
pub mod model;
pub mod scoring;

pub use game::{Farkle, Roll, Seat};
pub use model::{Error, Outcome};
pub use scoring::score_turn;
