//! Mon: the battle logic, resource code generation and rules of a creature battling game.
pub mod types;
pub mod statmod;

pub mod effect;
pub mod lingering;
pub mod attack;
pub mod monster;
pub mod party;
pub mod command;
pub mod queue;
pub mod replay;
pub mod battle;
pub mod runner;
pub mod messages;
pub mod calculate;
pub mod build;
