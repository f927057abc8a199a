//! Agents ("pawns"), their execution status, their work orders, and the
//! shared simulation resources the task state machine works against.

use vstd::prelude::*;

use std::collections::VecDeque;

use crate::grid_pos::GridPos;

verus! {

/// How many resource units an agent can carry before it must return home.
pub const MAX_RESOURCES: usize = 15;

/// Resource units gained per completed mining swing.
pub const RESOURCE_GAIN_RATE: usize = 1;

/// Stockpile cost of spawning one new agent.
pub const PAWN_COST: usize = 100;

/// Damage dealt per landed strike by a defender.
pub const PAWN_ATTACK_STRENGTH: usize = 7;

/// Damage dealt per landed strike by a hostile agent.
pub const ENEMY_ATTACK_STRENGTH: usize = 10;

/// Engagement range, in cells, for seeking combat targets.
pub const ENEMY_TILE_RANGE: usize = 10;

/// Resource search gives up past this range, leaving the agent idle.
pub const RESOURCE_MAX_SEARCH_RANGE: usize = 25;

/// Initial radius of the expanding resource search.
pub const RESOURCE_SEARCH_START_RANGE: usize = 5;

/// Ring increment of the expanding resource search.
pub const RESOURCE_SEARCH_RANGE_STEP: usize = 10;

/// The low-level execution state of an agent's work-order pursuit. Exactly
/// one is active per agent.
#[derive(Debug, Copy, Clone, PartialEq, Eq, Structural)]
pub enum PawnStatus {
    Idle,
    Pathfinding,
    PathfindingError,
    Moving,
    Repathing,
    Mining,
    Attacking,
    Building,
}

/// The high-level task assigned to an agent. At most one at a time;
/// assigning a new one replaces the previous.
#[derive(Debug, Copy, Clone, PartialEq, Eq, Structural)]
pub enum WorkOrder {
    MineStone { stone_entity: u64 },
    ReturnToFactory,
    PickupStoneFromFactory { for_entity: u64 },
    BuildItem { item_entity: u64 },
    AttackPawn { pawn_entity: u64 },
    AttackFactory,
}

/// The resource units an agent currently carries.
#[derive(Debug, Copy, Clone, PartialEq, Eq, Structural)]
pub struct CarriedResources(pub usize);

/// Per-agent movement and vitality state. Timers live with the scheduler;
/// the tick functions receive their elapsed flags as arguments.
pub struct Pawn {
    /// The cached route: the cells still to be stepped onto, front first.
    pub move_path: VecDeque<GridPos>,
    /// The waypoint currently being approached, if any.
    pub move_to: Option<GridPos>,
    pub health: usize,
    pub max_health: usize,
    /// Whether the agent made progress along its route this tick.
    pub moving: bool,
}

/// A mineable resource node's remaining content.
#[derive(Debug, Copy, Clone, PartialEq, Eq, Structural)]
pub struct Stone {
    pub remaining_resources: usize,
}

/// The shared build queue: structures waiting for an agent to take them on.
pub struct WorkQueue {
    pub build_queue: VecDeque<u64>,
}

impl WorkQueue {
    pub fn new() -> (r: Self)
        ensures
            r.build_queue@ == Seq::<u64>::empty(),
    {
        WorkQueue { build_queue: VecDeque::new() }
    }
}

/// Aggregate counters: the shared stockpile and the defender population.
#[derive(Debug, Copy, Clone, PartialEq, Eq, Structural)]
pub struct GameResources {
    pub stone: usize,
    pub pawns: usize,
}

/// Hostile-wave bookkeeping. The spawn timer lives with the scheduler.
#[derive(Debug, Copy, Clone, PartialEq, Eq, Structural)]
pub struct EnemyWave {
    pub wave: usize,
    pub enemy_count_multiplier: usize,
    pub enemies: usize,
}

/// What kind of structure a placeable is.
#[derive(Debug, Copy, Clone, PartialEq, Eq, Structural)]
pub enum PlaceableKind {
    Wall,
    Turret,
}

/// A structure under construction or built: its kind and its resource
/// progress.
#[derive(Debug, Copy, Clone, PartialEq, Eq, Structural)]
pub struct PlaceableType {
    pub kind: PlaceableKind,
    pub max_resources: usize,
    pub current_resources: usize,
}

impl PlaceableType {
    /// Whether dragging a placement line lays one of these per cell.
    pub fn is_tileable(&self) -> (r: bool)
        ensures
            r == (self.kind == PlaceableKind::Wall),
    {
        match self.kind {
            PlaceableKind::Wall => true,
            PlaceableKind::Turret => false,
        }
    }

    /// Whether this structure may be placed on top of a wall.
    pub fn placeable_on_wall(&self) -> (r: bool)
        ensures
            r == (self.kind == PlaceableKind::Turret),
    {
        match self.kind {
            PlaceableKind::Wall => false,
            PlaceableKind::Turret => true,
        }
    }

    pub fn get_current_resources(&self) -> (r: usize)
        ensures
            r == self.current_resources,
    {
        self.current_resources
    }

    pub fn set_current_resources(&mut self, amount: usize)
        ensures
            *final(self) == (PlaceableType { current_resources: amount, ..*old(self) }),
    {
        self.current_resources = amount;
    }

    /// How many resource units are still missing before the structure is
    /// finished.
    pub fn get_missing_resource_count(&self) -> (r: usize)
        requires
            self.current_resources <= self.max_resources,
        ensures
            r == self.max_resources - self.current_resources,
    {
        self.max_resources - self.current_resources
    }
}

} // verus!
