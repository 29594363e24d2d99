//! The world binding: terrain grid and actor roster, with the queries
//! and mutators that system-call instructions use.

use vstd::prelude::*;

use crate::monster::{Monster, MonsterType};
use crate::spells::{caster_index, spend_spec, regen_spec, Caster, CasterRef};
use crate::tile::{bot_left_wall_tile, bot_right_wall_tile, floor_tile, horiz_wall_tile,
    nothing_tile, top_left_wall_tile, top_right_wall_tile, vert_wall_tile, Tile};
use crate::utils::{AbsoluteLocation, RelativeLocation};

verus! {

/// The grid is `LEVEL_SIZE` columns by `LEVEL_SIZE` rows.
pub const LEVEL_SIZE: usize = 20;

/// What a level is mathematically: the terrain grid and the roster.
/// Roster slot 0 is the player.
#[verifier::ext_equal]
pub struct LevelM {
    pub terrain: Seq<Seq<Tile>>,
    pub monsters: Seq<Monster>,
}

impl LevelM {
    /// The terrain is a full `LEVEL_SIZE` by `LEVEL_SIZE` grid and every
    /// actor stands on it.
    pub open spec fn wf(self) -> bool {
        &&& self.terrain.len() == LEVEL_SIZE
        &&& forall|c: int| 0 <= c < LEVEL_SIZE ==> (#[trigger] self.terrain[c]).len() == LEVEL_SIZE
        &&& forall|i: int|
            0 <= i < self.monsters.len() ==> (#[trigger] self.monsters[i]).caster.location.0
                < LEVEL_SIZE && self.monsters[i].caster.location.1 < LEVEL_SIZE
    }
}

/// Where the actor in roster slot `i` stands.
pub open spec fn lv_location(lv: LevelM, i: int) -> (usize, usize) {
    lv.monsters[i].caster.location
}

/// The energy pool of the actor in roster slot `i`.
pub open spec fn lv_energy(lv: LevelM, i: int) -> u32 {
    lv.monsters[i].caster.energy
}

/// The level after actor `i` pays `cost` energy.
pub open spec fn lv_spend(lv: LevelM, i: int, cost: u32) -> LevelM {
    LevelM {
        monsters: lv.monsters.update(
            i,
            Monster { caster: spend_spec(lv.monsters[i].caster, cost), ..lv.monsters[i] },
        ),
        ..lv
    }
}

/// The level after actor `i` moves to `location`.
pub open spec fn lv_move_to(lv: LevelM, i: int, location: (usize, usize)) -> LevelM {
    LevelM {
        monsters: lv.monsters.update(
            i,
            Monster {
                caster: Caster { location, ..lv.monsters[i].caster },
                ..lv.monsters[i]
            },
        ),
        ..lv
    }
}

/// The level after actor `i` regenerates energy.
pub open spec fn lv_regen(lv: LevelM, i: int) -> LevelM {
    LevelM {
        monsters: lv.monsters.update(
            i,
            Monster { caster: regen_spec(lv.monsters[i].caster), ..lv.monsters[i] },
        ),
        ..lv
    }
}

/// Whether the cell at `loc` can be walked on.
pub open spec fn lv_is_passable(lv: LevelM, loc: (usize, usize)) -> bool {
    !lv.terrain[loc.0 as int][loc.1 as int].is_wall
}

/// Whether some actor stands at `loc`.
pub open spec fn lv_is_monster(lv: LevelM, loc: (usize, usize)) -> bool {
    exists|i: int|
        0 <= i < lv.monsters.len() && (#[trigger] lv.monsters[i]).caster.location == loc
}

/// The lowest roster index at or after `k` of an actor standing at
/// `loc`, if any.
pub open spec fn first_monster_from(ms: Seq<Monster>, loc: (usize, usize), k: int) -> Option<int>
    decreases ms.len() - k,
{
    if k < 0 || k >= ms.len() {
        None
    } else if ms[k].caster.location == loc {
        Some(k)
    } else {
        first_monster_from(ms, loc, k + 1)
    }
}

/// The level after `damage` hit points are dealt to the first actor
/// standing at `loc`: the actor is removed from the roster when its
/// remaining hit points do not exceed the damage, and is hurt otherwise.
/// An empty cell takes no damage.
pub open spec fn lv_damage(lv: LevelM, loc: (usize, usize), damage: u32) -> LevelM {
    match first_monster_from(lv.monsters, loc, 0) {
        None => lv,
        Some(i) => {
            if damage >= lv.monsters[i].stats.current_hp {
                LevelM { monsters: lv.monsters.remove(i), ..lv }
            } else {
                LevelM {
                    monsters: lv.monsters.update(
                        i,
                        Monster {
                            stats: crate::monster::StatBlock {
                                current_hp: (lv.monsters[i].stats.current_hp - damage) as u32,
                                ..lv.monsters[i].stats
                            },
                            ..lv.monsters[i]
                        },
                    ),
                    ..lv
                }
            }
        },
    }
}

/// A relative offset applied to an absolute origin, bounds-checked
/// against the grid.
pub open spec fn reify_spec(rel: (int, int), src: (int, int)) -> Option<(usize, usize)> {
    let c = rel.0 + src.0;
    let r = rel.1 + src.1;
    if 0 <= c < LEVEL_SIZE && 0 <= r < LEVEL_SIZE {
        Some((c as usize, r as usize))
    } else {
        None
    }
}

/// The spell the roster entry chooses for its turn: one straight-line
/// step toward the player when exactly aligned on one axis, else wait.
/// The player always waits (a chosen spell is supplied externally).
pub open spec fn lv_get_spell(lv: LevelM, caster_ref: CasterRef) -> Seq<char> {
    match caster_ref {
        CasterRef::Player => "wait"@,
        CasterRef::Monster(i) => {
            let me = lv_location(lv, i as int);
            let player = lv_location(lv, 0);
            if player.0 > me.0 {
                if player.1 > me.1 {
                    "wait"@
                } else if player.1 < me.1 {
                    "wait"@
                } else {
                    "right"@
                }
            } else if player.0 < me.0 {
                if player.1 > me.1 {
                    "wait"@
                } else if player.1 < me.1 {
                    "wait"@
                } else {
                    "left"@
                }
            } else {
                if player.1 > me.1 {
                    "down"@
                } else if player.1 < me.1 {
                    "up"@
                } else {
                    "wait"@
                }
            }
        },
    }
}

/// The tile of the fixed example map at `(c, r)`: a rectangular room
/// with walls on its border, floor inside, and blank tiles around it.
pub open spec fn stupid_tile(c: int, r: int) -> Tile {
    if 2 <= c <= 17 && 2 <= r <= 17 {
        if c == 2 {
            if r == 2 {
                top_left_wall_tile()
            } else if r == 17 {
                bot_left_wall_tile()
            } else {
                vert_wall_tile()
            }
        } else if c == 17 {
            if r == 2 {
                top_right_wall_tile()
            } else if r == 17 {
                bot_right_wall_tile()
            } else {
                vert_wall_tile()
            }
        } else {
            if r == 2 || r == 17 {
                horiz_wall_tile()
            } else {
                floor_tile()
            }
        }
    } else {
        nothing_tile()
    }
}

/// The tile of the fixed example map at `(c, r)`.
fn stupid_tile_at(c: usize, r: usize) -> (t: Tile)
    ensures
        t == stupid_tile(c as int, r as int),
{
    if 2 <= c && c <= 17 && 2 <= r && r <= 17 {
        if c == 2 {
            if r == 2 {
                Tile::top_left_wall()
            } else if r == 17 {
                Tile::bot_left_wall()
            } else {
                Tile::vert_wall()
            }
        } else if c == 17 {
            if r == 2 {
                Tile::top_right_wall()
            } else if r == 17 {
                Tile::bot_right_wall()
            } else {
                Tile::vert_wall()
            }
        } else {
            if r == 2 || r == 17 {
                Tile::horiz_wall()
            } else {
                Tile::floor()
            }
        }
    } else {
        Tile::nothing()
    }
}

/// The world: a terrain grid indexed `terrain[column][row]` and the
/// actor roster, slot 0 being the player.
pub struct Level {
    pub terrain: Vec<Vec<Tile>>,
    pub monsters: Vec<Monster>,
}

impl View for Level {
    type V = LevelM;

    open spec fn view(&self) -> LevelM {
        LevelM {
            terrain: self.terrain@.map_values(|row: Vec<Tile>| row@),
            monsters: self.monsters@,
        }
    }
}

impl Level {
    /// Actor `caster_ref` pays `cost` energy; returns `false`, changing
    /// nothing, when its pool is too small.
    pub fn cast(&mut self, caster_ref: &CasterRef, cost: u32) -> (r: bool)
        requires
            0 <= caster_index(*caster_ref) < old(self)@.monsters.len(),
        ensures
            r == (cost <= lv_energy(old(self)@, caster_index(*caster_ref))),
            r ==> final(self)@ == lv_spend(old(self)@, caster_index(*caster_ref), cost),
            !r ==> final(self)@ == old(self)@,
            old(self)@.wf() ==> final(self)@.wf(),
    {
        let i = self.caster_slot(caster_ref);
        let mut m = self.monsters[i];
        let ok = m.caster.cast(cost);
        self.monsters[i] = m;
        proof {
            if !ok {
                assert(self.monsters@ =~= old(self).monsters@);
            }
        }
        ok
    }

    /// The energy pool of actor `caster_ref`.
    pub fn get_energy(&self, caster_ref: &CasterRef) -> (r: u32)
        requires
            0 <= caster_index(*caster_ref) < self@.monsters.len(),
        ensures
            r == lv_energy(self@, caster_index(*caster_ref)),
    {
        let i = self.caster_slot(caster_ref);
        self.monsters[i].caster.energy
    }

    /// Relocate actor `caster_ref` to `location`.
    pub fn move_to(&mut self, caster_ref: &CasterRef, location: AbsoluteLocation)
        requires
            0 <= caster_index(*caster_ref) < old(self)@.monsters.len(),
        ensures
            final(self)@ == lv_move_to(old(self)@, caster_index(*caster_ref), location),
            old(self)@.wf() && location.0 < LEVEL_SIZE && location.1 < LEVEL_SIZE
                ==> final(self)@.wf(),
    {
        let i = self.caster_slot(caster_ref);
        let mut m = self.monsters[i];
        m.caster.move_to(location);
        self.monsters[i] = m;
    }

    /// One round of energy regeneration for actor `caster_ref`.
    pub fn regen(&mut self, caster_ref: &CasterRef)
        requires
            0 <= caster_index(*caster_ref) < old(self)@.monsters.len(),
        ensures
            final(self)@ == lv_regen(old(self)@, caster_index(*caster_ref)),
            old(self)@.wf() ==> final(self)@.wf(),
    {
        let i = self.caster_slot(caster_ref);
        let mut m = self.monsters[i];
        m.caster.regen();
        self.monsters[i] = m;
    }

    /// Where actor `caster_ref` stands.
    pub fn location(&self, caster_ref: &CasterRef) -> (r: AbsoluteLocation)
        requires
            0 <= caster_index(*caster_ref) < self@.monsters.len(),
        ensures
            r == lv_location(self@, caster_index(*caster_ref)),
    {
        let i = self.caster_slot(caster_ref);
        self.monsters[i].caster.location
    }

    /// The spell actor `caster_ref` chooses for its turn (the monster
    /// heuristic; the player always waits).
    pub fn get_spell(&self, caster_ref: &CasterRef) -> (r: &'static str)
        requires
            0 < self@.monsters.len(),
            0 <= caster_index(*caster_ref) < self@.monsters.len(),
        ensures
            r@ == lv_get_spell(self@, *caster_ref),
    {
        match caster_ref {
            CasterRef::Player => "wait",
            CasterRef::Monster(_) => {
                let (my_x, my_y) = self.location(caster_ref);
                let (player_x, player_y) = self.location(&CasterRef::Player);
                if player_x > my_x {
                    if player_y > my_y {
                        "wait"
                    } else if player_y < my_y {
                        "wait"
                    } else {
                        "right"
                    }
                } else if player_x < my_x {
                    if player_y > my_y {
                        "wait"
                    } else if player_y < my_y {
                        "wait"
                    } else {
                        "left"
                    }
                } else {
                    if player_y > my_y {
                        "down"
                    } else if player_y < my_y {
                        "up"
                    } else {
                        "wait"
                    }
                }
            },
        }
    }

    /// The roster slot that `caster_ref` names.
    fn caster_slot(&self, caster_ref: &CasterRef) -> (i: usize)
        requires
            0 <= caster_index(*caster_ref) < self@.monsters.len(),
        ensures
            i as int == caster_index(*caster_ref),
    {
        match caster_ref {
            CasterRef::Player => 0,
            CasterRef::Monster(index) => *index,
        }
    }

    /// The casting state of actor `caster_ref`.
    fn caster(&self, caster_ref: &CasterRef) -> (c: &Caster)
        requires
            0 <= caster_index(*caster_ref) < self@.monsters.len(),
        ensures
            *c == self@.monsters[caster_index(*caster_ref)].caster,
    {
        let i = self.caster_slot(caster_ref);
        &self.monsters[i].caster
    }

    /// Apply `location` as an offset from `source` and bounds-check the
    /// result against the grid.
    pub fn reify_location(&self, location: RelativeLocation, source: &AbsoluteLocation) -> (r:
        Option<AbsoluteLocation>)
        requires
            -0x8000_0000 <= location.0 <= 0x7fff_ffff,
            -0x8000_0000 <= location.1 <= 0x7fff_ffff,
            source.0 <= 0x7fff_ffff,
            source.1 <= 0x7fff_ffff,
        ensures
            r == reify_spec(
                (location.0 as int, location.1 as int),
                (source.0 as int, source.1 as int),
            ),
    {
        let col: i64 = (location.0 as i64) + (source.0 as i64);
        let row: i64 = (location.1 as i64) + (source.1 as i64);
        if !(col < 0 || row < 0 || col >= LEVEL_SIZE as i64 || row >= LEVEL_SIZE as i64) {
            Some((col as usize, row as usize))
        } else {
            None
        }
    }

    /// Whether the cell at `location` can be walked on.
    pub fn is_passable(&self, location: &AbsoluteLocation) -> (r: bool)
        requires
            self@.wf(),
            location.0 < LEVEL_SIZE,
            location.1 < LEVEL_SIZE,
        ensures
            r == lv_is_passable(self@, *location),
    {
        let (col, row) = *location;
        proof {
            assert(self@.terrain[col as int] == self.terrain@[col as int]@);
        }
        !self.terrain[col][row].is_wall
    }

    /// Whether some actor stands at `location`.
    pub fn is_monster(&self, location: &AbsoluteLocation) -> (r: bool)
        ensures
            r == lv_is_monster(self@, *location),
    {
        let mut k: usize = 0;
        while k < self.monsters.len()
            invariant
                k <= self.monsters.len(),
                forall|j: int|
                    0 <= j < k ==> (#[trigger] self@.monsters[j]).caster.location != *location,
            decreases self.monsters.len() - k,
        {
            let loc = self.monsters[k].caster.location;
            if loc.0 == location.0 && loc.1 == location.1 {
                return true;
            }
            k = k + 1;
        }
        false
    }

    /// Deal `damage` hit points to the first actor standing at
    /// `location`, removing it from the roster when its remaining hit
    /// points do not exceed the damage.  An empty cell takes no damage.
    pub fn damage(&mut self, location: &AbsoluteLocation, damage: u32)
        ensures
            final(self)@ == lv_damage(old(self)@, *location, damage),
            old(self)@.wf() ==> final(self)@.wf(),
            final(self)@.monsters.len() <= old(self)@.monsters.len(),
    {
        let mut k: usize = 0;
        while k < self.monsters.len()
            invariant
                k <= self.monsters.len(),
                self == old(self),
                first_monster_from(self@.monsters, *location, 0) == first_monster_from(
                    self@.monsters,
                    *location,
                    k as int,
                ),
            decreases self.monsters.len() - k,
        {
            let loc = self.monsters[k].caster.location;
            if loc.0 == location.0 && loc.1 == location.1 {
                if damage >= self.monsters[k].stats.current_hp {
                    self.monsters.remove(k);
                } else {
                    let mut m = self.monsters[k];
                    m.stats.current_hp = m.stats.current_hp - damage;
                    self.monsters[k] = m;
                }
                return ;
            }
            k = k + 1;
        }
    }

    /// The fixed example level: a walled rectangular room with the
    /// player at (7, 7) and one ant at (12, 12).
    pub fn stupid() -> (r: Level)
        ensures
            r@.wf(),
            r@.monsters =~= seq![
                crate::monster::player_spec((7usize, 7usize)),
                crate::monster::ant_spec((12usize, 12usize)),
            ],
            forall|c: int, r2: int|
                0 <= c < LEVEL_SIZE && 0 <= r2 < LEVEL_SIZE ==> r@.terrain[c][r2] == stupid_tile(
                    c,
                    r2,
                ),
    {
        let mut terrain: Vec<Vec<Tile>> = Vec::new();
        let mut c: usize = 0;
        while c < LEVEL_SIZE
            invariant
                c <= LEVEL_SIZE,
                terrain@.len() == c,
                forall|ci: int|
                    0 <= ci < c ==> (#[trigger] terrain@[ci])@.len() == LEVEL_SIZE,
                forall|ci: int, ri: int|
                    0 <= ci < c && 0 <= ri < LEVEL_SIZE ==> terrain@[ci]@[ri] == stupid_tile(
                        ci,
                        ri,
                    ),
            decreases LEVEL_SIZE - c,
        {
            let mut row: Vec<Tile> = Vec::new();
            let mut r2: usize = 0;
            while r2 < LEVEL_SIZE
                invariant
                    r2 <= LEVEL_SIZE,
                    row@.len() == r2,
                    forall|ri: int| 0 <= ri < r2 ==> row@[ri] == stupid_tile(c as int, ri),
                decreases LEVEL_SIZE - r2,
            {
                row.push(stupid_tile_at(c, r2));
                r2 = r2 + 1;
            }
            terrain.push(row);
            c = c + 1;
        }
        let mut monsters: Vec<Monster> = Vec::new();
        monsters.push(Monster::player((7, 7)));
        monsters.push(Monster::ant((12, 12)));
        Level { terrain, monsters }
    }
}


/// The example map's open cells are exactly the interior of the room:
/// columns and rows 3 through 16.
pub proof fn lemma_stupid_interior(c: int, r: int)
    ensures
        !stupid_tile(c, r).is_wall <==> (3 <= c <= 16 && 3 <= r <= 16),
{
}

/// A monster standing directly to the right of the player on the same
/// row is told to step left, toward the player, for as long as that
/// alignment holds.
pub proof fn lemma_heuristic_steps_left(lv: LevelM, i: usize)
    requires
        lv_location(lv, 0).0 < lv_location(lv, i as int).0,
        lv_location(lv, 0).1 == lv_location(lv, i as int).1,
    ensures
        lv_get_spell(lv, CasterRef::Monster(i)) == "left"@,
{
}

} // verus!
