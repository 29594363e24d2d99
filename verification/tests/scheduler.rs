//! Full turns: player first, then every monster in ascending roster
//! order, with regeneration gated on cast success and the first fault
//! short-circuiting the turn.

use arlogue::compiler::compile;
use arlogue::level::Level;
use arlogue::monster::{Monster, MonsterType, StatBlock};
use arlogue::spells::{Caster, CasterRef, RuntimeFault, SpellEngine, Spellbook};
use arlogue::tile::Tile;

fn open_level(monsters: Vec<Monster>) -> Level {
    let mut terrain = Vec::new();
    for _ in 0..20 {
        let mut row = Vec::new();
        for _ in 0..20 {
            row.push(Tile::floor());
        }
        terrain.push(row);
    }
    Level { terrain, monsters }
}

fn ant_at(loc: (usize, usize)) -> Monster {
    Monster {
        stats: StatBlock { max_hp: 10, current_hp: 10, ac: 10 },
        caster: Caster::simple(loc, 10),
        sprite_index: 0,
        mtype: MonsterType::Ant,
    }
}

#[test]
fn left_then_right_returns_to_the_original_cell() {
    let mut engine = SpellEngine::new(Level::stupid());
    let basic = Spellbook::basic();
    assert_eq!(engine.do_turn("left", &basic, &basic), None);
    assert_eq!(engine.level.location(&CasterRef::Player), (6, 7));
    assert_eq!(engine.do_turn("right", &basic, &basic), None);
    assert_eq!(engine.level.location(&CasterRef::Player), (7, 7));
    // Regeneration restored the move's cost after each turn.
    assert_eq!(engine.level.get_energy(&CasterRef::Player), 10);
}

#[test]
fn waiting_costs_nothing_at_any_energy() {
    let mut engine = SpellEngine::new(Level::stupid());
    let basic = Spellbook::basic();
    for _ in 0..5 {
        assert_eq!(engine.do_turn("wait", &basic, &basic), None);
    }
    assert_eq!(engine.level.location(&CasterRef::Player), (7, 7));
}

#[test]
fn a_player_fault_aborts_the_whole_turn() {
    // The player's spell pays for a cursor move and then faults; the
    // turn aborts: no regeneration for the player, no monster casts.
    let pbook = compile("s: move_cursor left; prompt_direction;").unwrap();
    let basic = Spellbook::basic();
    let level = open_level(vec![Monster::player((7, 7)), ant_at((12, 7))]);
    let mut engine = SpellEngine::new(level);
    let r = engine.do_turn("s", &pbook, &basic);
    assert_eq!(r, Some(RuntimeFault::UnsupportedOperation));
    // Partial cost persists and was not regenerated.
    assert_eq!(engine.level.get_energy(&CasterRef::Player), 5);
    // The aligned ant did not get to act.
    assert_eq!(engine.level.location(&CasterRef::Monster(1)), (12, 7));
}

#[test]
fn an_unknown_player_spell_leaves_the_world_untouched() {
    let basic = Spellbook::basic();
    let level = open_level(vec![Monster::player((7, 7)), ant_at((12, 7))]);
    let mut engine = SpellEngine::new(level);
    let r = engine.do_turn("no_such_spell", &basic, &basic);
    assert_eq!(r, Some(RuntimeFault::UnknownSpellName));
    assert_eq!(engine.level.get_energy(&CasterRef::Player), 10);
    assert_eq!(engine.level.location(&CasterRef::Monster(1)), (12, 7));
}

#[test]
fn monsters_walk_toward_the_player_turn_by_turn() {
    let basic = Spellbook::basic();
    let level = open_level(vec![Monster::player((7, 7)), ant_at((12, 7))]);
    let mut engine = SpellEngine::new(level);
    for expected in [11, 10, 9, 8] {
        assert_eq!(engine.do_turn("wait", &basic, &basic), None);
        assert_eq!(engine.level.location(&CasterRef::Monster(1)), (expected, 7));
        // Each successful cast was followed by regeneration.
        assert_eq!(engine.level.get_energy(&CasterRef::Monster(1)), 10);
    }
    // Adjacent now: the next step left is the player's own cell.
    assert_eq!(
        engine.do_turn("wait", &basic, &basic),
        Some(RuntimeFault::Blocked)
    );
    assert_eq!(engine.level.location(&CasterRef::Monster(1)), (8, 7));
}

#[test]
fn the_first_monster_fault_short_circuits_the_turn() {
    // Roster: player, a blocked ant directly right of the player, and
    // a second ant below the player that would otherwise step up.
    let basic = Spellbook::basic();
    let level = open_level(vec![
        Monster::player((7, 7)),
        ant_at((8, 7)),
        ant_at((7, 12)),
    ]);
    let mut engine = SpellEngine::new(level);
    let r = engine.do_turn("wait", &basic, &basic);
    assert_eq!(r, Some(RuntimeFault::Blocked));
    // The faulting ant neither moved nor regenerated (its failed move
    // cost nothing, so its pool still shows no drain).
    assert_eq!(engine.level.location(&CasterRef::Monster(1)), (8, 7));
    // The second ant never acted.
    assert_eq!(engine.level.location(&CasterRef::Monster(2)), (7, 12));
}

#[test]
fn monsters_act_in_ascending_roster_order() {
    // Two ants in the same column as the player, stacked below it; the
    // nearer one (lower index) steps up first, freeing the cell the
    // farther one then steps into.
    let basic = Spellbook::basic();
    let level = open_level(vec![
        Monster::player((7, 3)),
        ant_at((7, 10)),
        ant_at((7, 11)),
    ]);
    let mut engine = SpellEngine::new(level);
    assert_eq!(engine.do_turn("wait", &basic, &basic), None);
    assert_eq!(engine.level.location(&CasterRef::Monster(1)), (7, 9));
    assert_eq!(engine.level.location(&CasterRef::Monster(2)), (7, 10));
}

#[test]
fn blocked_player_move_keeps_location_and_energy() {
    // Walk the player into the west wall of the example room.
    let basic = Spellbook::basic();
    let mut engine = SpellEngine::new(Level::stupid());
    for expected in [6, 5, 4, 3] {
        assert_eq!(engine.do_turn("left", &basic, &basic), None);
        assert_eq!(engine.level.location(&CasterRef::Player), (expected, 7));
    }
    let r = engine.do_turn("left", &basic, &basic);
    assert_eq!(r, Some(RuntimeFault::Blocked));
    assert_eq!(engine.level.location(&CasterRef::Player), (3, 7));
    // A blocked move deducts no energy, and the aborted turn skipped
    // regeneration, so the pool still shows the full 10.
    assert_eq!(engine.level.get_energy(&CasterRef::Player), 10);
}
