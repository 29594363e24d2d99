//! Spell-scripting engine for a grid-based, turn-taking game.
//!
//! A small assembly language ("spells") is compiled into linear bytecode
//! and run on a register machine that moves actors, targets cells and
//! applies damage.  The crate provides:
//!
//! * the assembler: parsing of spell source text and label resolution
//!   into an immutable, linked [`spells::Spellbook`];
//! * the register machine: [`spells::SpellEngine`], a bounded-stack
//!   bytecode interpreter with call/return semantics, specified by a
//!   small-step machine model in [`machine`];
//! * the world binding: [`level::Level`], actor roster and terrain,
//!   with energy, passability and occupancy queries;
//! * the turn scheduler: [`spells::SpellEngine::do_turn`], the player's
//!   cast followed by every monster's cast in ascending roster order.

pub mod compiler;
pub mod level;
pub mod machine;
pub mod monster;
pub mod spells;
pub mod tile;
pub mod utils;
