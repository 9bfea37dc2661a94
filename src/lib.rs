//! Simulation core of a tick-based autobattler: units, formations of
//! columns, the combat tick, snapshots for readers and the service state
//! machine that drives a battle.

pub mod unit;
pub mod formation;
pub mod battle;
pub mod snapshot;
pub mod service;
pub mod laws;
pub mod history;
pub mod res;

pub use battle::{battle_run, Army, AttackPlan, BattleEvent, Faction, TickOutcome, TickReport};
pub use formation::Formation;
pub use history::EventHistory;
pub use res::{Res, ResType};
pub use service::{GameCommand, GameService};
pub use snapshot::{ArmySnapshot, BattleOutput, DoubleBuffer};
pub use unit::{determine_columns, IdAllocator, Unit};
