//! A turn-based combat engine for a small dungeon crawler.
//!
//! A battle is a roster of combatants (one player, one or more enemies), a
//! per-round initiative order, and a seeded generator that every roll is drawn
//! from. The host drives it through `BattleState`: it adds combatants, begins the
//! combat, submits the player's actions and steps the machine, and reads what
//! happened from the event stream.
pub mod dice;
pub mod character;
pub mod rules;
pub mod events;
pub mod turn_order;
pub mod battle;
pub mod laws;
pub mod world;
