//! The world binding: terrain, roster, energy, damage, and the
//! movement helpers.

use arlogue::level::Level;
use arlogue::monster::Monster;
use arlogue::spells::{Caster, CasterRef};
use arlogue::utils::Direction;

#[test]
fn the_example_map_is_a_walled_room() {
    let level = Level::stupid();
    // Interior floor.
    assert!(level.is_passable(&(3, 3)));
    assert!(level.is_passable(&(16, 16)));
    assert!(level.is_passable(&(7, 7)));
    // Border walls and the void outside.
    assert!(!level.is_passable(&(2, 7)));
    assert!(!level.is_passable(&(17, 8)));
    assert!(!level.is_passable(&(8, 2)));
    assert!(!level.is_passable(&(8, 17)));
    assert!(!level.is_passable(&(0, 0)));
    assert!(!level.is_passable(&(19, 19)));
}

#[test]
fn the_example_map_rosters_player_and_ant() {
    let level = Level::stupid();
    assert_eq!(level.monsters.len(), 2);
    assert_eq!(level.location(&CasterRef::Player), (7, 7));
    assert_eq!(level.location(&CasterRef::Monster(1)), (12, 12));
    assert_eq!(level.get_energy(&CasterRef::Player), 10);
    assert_eq!(level.monsters[0].stats.current_hp, 20);
    assert_eq!(level.monsters[1].stats.current_hp, 10);
}

#[test]
fn occupancy_follows_the_roster() {
    let level = Level::stupid();
    assert!(level.is_monster(&(7, 7)));
    assert!(level.is_monster(&(12, 12)));
    assert!(!level.is_monster(&(8, 8)));
}

#[test]
fn partial_damage_hurts_without_removing() {
    let mut level = Level::stupid();
    level.damage(&(12, 12), 5);
    assert_eq!(level.monsters.len(), 2);
    assert_eq!(level.monsters[1].stats.current_hp, 5);
}

#[test]
fn exact_damage_removes_the_occupant() {
    let mut level = Level::stupid();
    level.damage(&(12, 12), 10);
    assert_eq!(level.monsters.len(), 1);
    assert!(!level.is_monster(&(12, 12)));
}

#[test]
fn overkill_damage_also_removes() {
    let mut level = Level::stupid();
    level.damage(&(12, 12), 99);
    assert_eq!(level.monsters.len(), 1);
}

#[test]
fn damage_on_an_empty_cell_changes_nothing() {
    let mut level = Level::stupid();
    level.damage(&(3, 3), 99);
    assert_eq!(level.monsters.len(), 2);
    assert_eq!(level.monsters[0].stats.current_hp, 20);
}

#[test]
fn reify_location_bounds_checks() {
    let level = Level::stupid();
    assert_eq!(level.reify_location((-1, 0), &(0, 5)), None);
    assert_eq!(level.reify_location((0, -6), &(3, 5)), None);
    assert_eq!(level.reify_location((1, 0), &(19, 5)), None);
    assert_eq!(level.reify_location((0, 15), &(3, 5)), None);
    assert_eq!(level.reify_location((-1, 1), &(7, 7)), Some((6, 8)));
    assert_eq!(level.reify_location((0, 0), &(0, 0)), Some((0, 0)));
    assert_eq!(level.reify_location((19, 19), &(0, 0)), Some((19, 19)));
}

#[test]
fn caster_spends_only_what_it_has() {
    let mut c = Caster::simple((0, 0), 5);
    assert!(!c.cast(10));
    assert_eq!(c.energy, 5);
    assert!(c.cast(3));
    assert_eq!(c.energy, 2);
}

#[test]
fn regeneration_is_clamped_to_the_maximum() {
    let mut c = Caster::simple((0, 0), 5);
    assert!(c.cast(3));
    c.regen();
    assert_eq!(c.energy, 5);
    let mut d = Caster {
        location: (0, 0),
        energy: 1,
        max_energy: 10,
        energy_regen: 4,
    };
    d.regen();
    assert_eq!(d.energy, 5);
}

#[test]
fn monster_constructors_fill_the_stat_blocks() {
    let p = Monster::player((3, 4));
    assert_eq!(p.location(), (3, 4));
    assert_eq!(p.stats.max_hp, 20);
    assert_eq!(p.caster.energy, 10);
    let a = Monster::ant((5, 6));
    assert_eq!(a.location(), (5, 6));
    assert_eq!(a.stats.max_hp, 10);
}

#[test]
fn direction_codes_round_trip() {
    for n in 0..8 {
        let d = Direction::from_num(n).unwrap();
        assert_eq!(d.to_num(), n);
    }
    assert!(Direction::from_num(8).is_none());
    assert!(Direction::from_num(-1).is_none());
}

#[test]
fn direction_offsets_point_one_cell_away() {
    assert_eq!(Direction::Left.location(), (-1, 0));
    assert_eq!(Direction::Right.location(), (1, 0));
    assert_eq!(Direction::Up.location(), (0, -1));
    assert_eq!(Direction::Down.location(), (0, 1));
    assert_eq!(Direction::UpLeft.location(), (-1, -1));
    assert_eq!(Direction::DownRight.location(), (1, 1));
}

#[test]
fn the_heuristic_steps_along_the_aligned_axis() {
    let mut level = Level::stupid();
    // Monster directly right of the player on the same row: step left.
    level.move_to(&CasterRef::Monster(1), (8, 7));
    assert_eq!(level.get_spell(&CasterRef::Monster(1)), "left");
    // Farther right, still aligned: still left.
    level.move_to(&CasterRef::Monster(1), (15, 7));
    assert_eq!(level.get_spell(&CasterRef::Monster(1)), "left");
    // Left of the player: step right.
    level.move_to(&CasterRef::Monster(1), (4, 7));
    assert_eq!(level.get_spell(&CasterRef::Monster(1)), "right");
    // Below on the same column: step up.
    level.move_to(&CasterRef::Monster(1), (7, 10));
    assert_eq!(level.get_spell(&CasterRef::Monster(1)), "up");
    // Above on the same column: step down.
    level.move_to(&CasterRef::Monster(1), (7, 4));
    assert_eq!(level.get_spell(&CasterRef::Monster(1)), "down");
    // Diagonal: wait.
    level.move_to(&CasterRef::Monster(1), (9, 9));
    assert_eq!(level.get_spell(&CasterRef::Monster(1)), "wait");
    // Same cell: wait.
    level.move_to(&CasterRef::Monster(1), (7, 7));
    assert_eq!(level.get_spell(&CasterRef::Monster(1)), "wait");
    // The player itself always waits.
    assert_eq!(level.get_spell(&CasterRef::Player), "wait");
}
