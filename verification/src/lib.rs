//! Core of a grid-world colony simulation: a spatial occupancy grid, an A*
//! pathfinding query/answer protocol on top of it, and the per-agent task
//! state machine that consumes path answers to drive work orders.

pub mod combat;
pub mod grid;
pub mod grid_pos;
pub mod path;
pub mod pawn;
pub mod placement;
pub mod util;
pub mod work;

pub use grid::SpatialEntity;
pub use grid::SpatialGrid;
pub use grid_pos::GridPos;
pub use path::PathfindAnswer;
pub use path::PathfindRequest;
pub use pawn::CarriedResources;
pub use pawn::GameResources;
pub use pawn::Pawn;
pub use pawn::PawnStatus;
pub use pawn::Stone;
pub use pawn::WorkOrder;
pub use pawn::WorkQueue;
pub use util::variant_eq;
