//! Actors on the grid: the player and the monsters of the roster.

use vstd::prelude::*;

use crate::spells::Caster;
use crate::utils::AbsoluteLocation;

verus! {

/// An actor: combat statistics, casting state, and display data.
#[derive(Clone, Copy, Debug, PartialEq, Eq)]
pub struct Monster {
    pub stats: StatBlock,
    pub caster: Caster,
    pub sprite_index: usize,
    pub mtype: MonsterType,
}

/// Combat statistics of an actor.
#[derive(Clone, Copy, Debug, PartialEq, Eq, Structural)]
pub struct StatBlock {
    pub max_hp: u32,
    pub current_hp: u32,
    pub ac: u8,
}

/// The kind of an actor.
#[derive(Clone, Copy, Debug, PartialEq, Eq, Structural)]
pub enum MonsterType {
    Player,
    Ant,
}

/// The player actor as constructed by [`Monster::player`].
pub open spec fn player_spec(location: (usize, usize)) -> Monster {
    Monster {
        stats: StatBlock { max_hp: 20u32, current_hp: 20u32, ac: 10u8 },
        caster: Caster {
            location,
            energy: 10u32,
            max_energy: 10u32,
            energy_regen: 10u32,
        },
        sprite_index: 348usize,
        mtype: MonsterType::Player,
    }
}

/// The ant actor as constructed by [`Monster::ant`].
pub open spec fn ant_spec(location: (usize, usize)) -> Monster {
    Monster {
        stats: StatBlock { max_hp: 10u32, current_hp: 10u32, ac: 10u8 },
        caster: Caster {
            location,
            energy: 10u32,
            max_energy: 10u32,
            energy_regen: 10u32,
        },
        sprite_index: 0usize,
        mtype: MonsterType::Ant,
    }
}

impl Monster {
    /// The player, placed at `location` with full health and energy.
    pub fn player(location: AbsoluteLocation) -> (r: Monster)
        ensures
            r == player_spec(location),
    {
        Monster {
            stats: StatBlock { max_hp: 20, current_hp: 20, ac: 10 },
            caster: Caster::simple(location, 10),
            sprite_index: 348,
            mtype: MonsterType::Player,
        }
    }

    /// An ant, placed at `location` with full health and energy.
    pub fn ant(location: AbsoluteLocation) -> (r: Monster)
        ensures
            r == ant_spec(location),
    {
        Monster {
            stats: StatBlock { max_hp: 10, current_hp: 10, ac: 10 },
            caster: Caster::simple(location, 10),
            sprite_index: 0,
            mtype: MonsterType::Ant,
        }
    }

    /// Where this actor stands.
    pub fn location(&self) -> (r: AbsoluteLocation)
        ensures
            r == self.caster.location,
    {
        self.caster.location
    }
}

} // verus!
