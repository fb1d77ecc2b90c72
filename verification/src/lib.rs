//! A verified Minesweeper core: board generation with randomized mine
//! placement, adjacency counting, flood-fill reveal, flagging, chording,
//! and win/loss detection. Rendering and input handling live outside the
//! library and drive it through the public session operations.

pub mod board;
pub mod counting;
pub mod difficulty;
pub mod geometry;
pub mod rng;
pub mod session;

pub use board::Cell;
pub use board::MinesweeperBoard;
pub use difficulty::Difficulty;
pub use geometry::Pos;
pub use session::BoardView;
pub use session::Direction;
pub use session::Outcome;
pub use session::OverlayCell;
