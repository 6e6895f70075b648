//! A turn-based, card-driven combat resolution engine for two teams of
//! characters, with a timed stat-modifier system, a weighted card-selection
//! heuristic, an attack/defense/effect interpreter, and a batch simulation
//! runner that aggregates outcomes over many combats.

mod rng;

pub mod ai;
pub mod cards;
pub mod character;
pub mod dice;
pub mod engine;
pub mod equipment;
pub mod modifiers;
pub mod resolve;
pub mod roster;
pub mod rounds;
pub mod sim;
pub mod stats;
pub mod text;

pub use cards::Card;
pub use cards::CardType;
pub use cards::SpecialEffect;
pub use character::Character;
pub use character::DefenseGrant;
pub use engine::CombatEngine;
pub use engine::ConfigError;
pub use dice::DiceRoll;
pub use equipment::Equipment;
pub use equipment::EquipmentSlot;
pub use modifiers::CombatModifier;
pub use modifiers::ModifierDuration;
pub use sim::run_simulation;
pub use sim::SimulationResults;
pub use stats::CardStats;
pub use stats::CombatStats;
