//! The rules of a campaign that an AI Dungeon Master runs: dice, checks, combat,
//! inventory, trade, travel, encounters, rests, characters and the event log.
//!
//! Every operation works on a [`campaign::Campaign`], the in-memory form of the campaign
//! database. Its mathematical form is a [`campaign::World`]; the contract of an operation
//! says which world it leaves behind, what it returns and when it refuses.

pub mod barter;
pub mod campaign;
pub mod characters;
pub mod checks;
pub mod combat;
pub mod conditions;
pub mod config;
pub mod content;
pub mod dice;
pub mod doubles;
pub mod effects;
pub mod encounters;
pub mod error;
pub mod events;
pub mod handler;
pub mod history;
pub mod hit_points;
pub mod http;
pub mod integrity;
pub mod inventory;
pub mod laws;
pub mod npcs;
pub mod proficiencies;
pub mod random;
pub mod recall;
pub mod rests;
pub mod rows;
pub mod setup;
pub mod survey;
pub mod templates;
pub mod terrain;
pub mod text;
pub mod world;
