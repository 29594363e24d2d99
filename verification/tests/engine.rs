//! Casts on the register machine: termination paths, faults, and the
//! reset of engine state between casts.

use arlogue::compiler::compile;
use arlogue::level::Level;
use arlogue::monster::{Monster, MonsterType, StatBlock};
use arlogue::spells::{Caster, CasterRef, RuntimeFault, SpellEngine, Spellbook};
use arlogue::tile::Tile;

fn open_level(monsters: Vec<Monster>) -> Level {
    let mut terrain = Vec::new();
    for _ in 0..20 {
        let mut row = Vec::new();
        for _ in 0..20 {
            row.push(Tile::floor());
        }
        terrain.push(row);
    }
    Level { terrain, monsters }
}

fn ant_at(loc: (usize, usize)) -> Monster {
    Monster {
        stats: StatBlock { max_hp: 10, current_hp: 10, ac: 10 },
        caster: Caster::simple(loc, 10),
        sprite_index: 0,
        mtype: MonsterType::Ant,
    }
}

#[test]
fn wait_never_fails_and_costs_none() {
    let mut engine = SpellEngine::new(Level::stupid());
    let basic = Spellbook::basic();
    let r = engine.cast(&CasterRef::Player, &basic, "wait");
    assert_eq!(r, None);
    assert_eq!(engine.level.get_energy(&CasterRef::Player), 10);
    assert_eq!(engine.level.location(&CasterRef::Player), (7, 7));
}

#[test]
fn unknown_spell_is_rejected() {
    let mut engine = SpellEngine::new(Level::stupid());
    let basic = Spellbook::basic();
    let r = engine.cast(&CasterRef::Player, &basic, "fireball");
    assert_eq!(r, Some(RuntimeFault::UnknownSpellName));
}

#[test]
fn empty_spellbook_knows_no_spells() {
    let mut engine = SpellEngine::new(Level::stupid());
    let empty = Spellbook::empty();
    assert_eq!(empty.len(), 0);
    let r = engine.cast(&CasterRef::Player, &empty, "wait");
    assert_eq!(r, Some(RuntimeFault::UnknownSpellName));
}

#[test]
fn missing_caster_is_rejected() {
    let mut engine = SpellEngine::new(Level::stupid());
    let basic = Spellbook::basic();
    let r = engine.cast(&CasterRef::Monster(5), &basic, "wait");
    assert_eq!(r, Some(RuntimeFault::InvalidCaster));
}

#[test]
fn running_off_the_end_faults_pc_out_of_range() {
    let book = compile("s: noop;").unwrap();
    let mut engine = SpellEngine::new(Level::stupid());
    let r = engine.cast(&CasterRef::Player, &book, "s");
    assert_eq!(r, Some(RuntimeFault::ProgramCounterOutOfRange));
}

#[test]
fn pop_on_empty_stack_underflows() {
    let book = compile("s: pop a;").unwrap();
    let mut engine = SpellEngine::new(Level::stupid());
    let r = engine.cast(&CasterRef::Player, &book, "s");
    assert_eq!(r, Some(RuntimeFault::StackUnderflow));
}

#[test]
fn unbounded_pushing_overflows_the_stack() {
    let book = compile("s: push 1; jump s;").unwrap();
    let mut engine = SpellEngine::new(Level::stupid());
    let r = engine.cast(&CasterRef::Player, &book, "s");
    assert_eq!(r, Some(RuntimeFault::StackOverflow));
}

#[test]
fn unbounded_recursion_overflows_the_call_stack() {
    let book = compile("s: call s;").unwrap();
    let mut engine = SpellEngine::new(Level::stupid());
    let r = engine.cast(&CasterRef::Player, &book, "s");
    assert_eq!(r, Some(RuntimeFault::CallStackOverflow));
}

#[test]
fn call_and_return_nest() {
    let book = compile("s: call helper; return; helper: return;").unwrap();
    let mut engine = SpellEngine::new(Level::stupid());
    let r = engine.cast(&CasterRef::Player, &book, "s");
    assert_eq!(r, None);
}

#[test]
fn addition_overflow_is_an_arithmetic_fault() {
    let book = compile("s: push 2147483647; pop a; push 1; pop b; add a b c; return;").unwrap();
    let mut engine = SpellEngine::new(Level::stupid());
    let r = engine.cast(&CasterRef::Player, &book, "s");
    assert_eq!(r, Some(RuntimeFault::ArithmeticFault));
}

#[test]
fn division_by_zero_is_an_arithmetic_fault() {
    let book = compile("s: store 5 a; store 0 b; div a b c; return;").unwrap();
    let mut engine = SpellEngine::new(Level::stupid());
    let r = engine.cast(&CasterRef::Player, &book, "s");
    assert_eq!(r, Some(RuntimeFault::ArithmeticFault));
}

#[test]
fn arithmetic_in_range_succeeds() {
    let book = compile("s: store 6 a; store 7 b; mul a b c; return;").unwrap();
    let mut engine = SpellEngine::new(Level::stupid());
    let r = engine.cast(&CasterRef::Player, &book, "s");
    assert_eq!(r, None);
}

#[test]
fn prompting_is_unsupported() {
    let book = compile("s: prompt_direction;").unwrap();
    let mut engine = SpellEngine::new(Level::stupid());
    let r = engine.cast(&CasterRef::Player, &book, "s");
    assert_eq!(r, Some(RuntimeFault::UnsupportedOperation));
}

#[test]
fn operand_stack_is_reset_after_a_faulted_cast() {
    // The first spell pushes two values and then runs off the end; if
    // the stack survived the cast boundary, the second spell's pop
    // would succeed.
    let book = compile("a: push 1; push 2; noop; b: pop c;").unwrap();
    let mut engine = SpellEngine::new(Level::stupid());
    assert_eq!(
        engine.cast(&CasterRef::Player, &book, "a"),
        Some(RuntimeFault::ProgramCounterOutOfRange)
    );
    assert_eq!(
        engine.cast(&CasterRef::Player, &book, "b"),
        Some(RuntimeFault::StackUnderflow)
    );
}

#[test]
fn registers_are_reset_between_casts() {
    // The first spell leaves 30 in register c; if registers survived,
    // the second spell's damage would need 30 energy and fault.  After
    // the reset it deals 0 damage to the caster's own cell and
    // succeeds.
    let book = compile("a: store 30 c; return; b: damage c; return;").unwrap();
    let mut engine = SpellEngine::new(Level::stupid());
    assert_eq!(engine.cast(&CasterRef::Player, &book, "a"), None);
    assert_eq!(engine.cast(&CasterRef::Player, &book, "b"), None);
}

#[test]
fn move_costs_ten_energy_and_then_runs_dry() {
    let book = compile("s: move left; move left; return;").unwrap();
    let mut engine = SpellEngine::new(Level::stupid());
    let r = engine.cast(&CasterRef::Player, &book, "s");
    assert_eq!(r, Some(RuntimeFault::InsufficientEnergy));
    // The first move was applied and paid for; the fault is not rolled
    // back.
    assert_eq!(engine.level.location(&CasterRef::Player), (6, 7));
    assert_eq!(engine.level.get_energy(&CasterRef::Player), 0);
}

#[test]
fn move_off_the_grid_is_an_invalid_location() {
    let book = compile("s: move left; return;").unwrap();
    let mut engine = SpellEngine::new(open_level(vec![Monster::player((0, 5))]));
    let r = engine.cast(&CasterRef::Player, &book, "s");
    assert_eq!(r, Some(RuntimeFault::InvalidLocation));
    assert_eq!(engine.level.location(&CasterRef::Player), (0, 5));
}

#[test]
fn blocked_move_changes_nothing() {
    // The cell left of the player holds another actor.
    let level = open_level(vec![Monster::player((5, 5)), ant_at((4, 5))]);
    let book = compile("s: move left; return;").unwrap();
    let mut engine = SpellEngine::new(level);
    let r = engine.cast(&CasterRef::Player, &book, "s");
    assert_eq!(r, Some(RuntimeFault::Blocked));
    assert_eq!(engine.level.location(&CasterRef::Player), (5, 5));
    assert_eq!(engine.level.get_energy(&CasterRef::Player), 10);
}

#[test]
fn damage_at_an_empty_cursor_cell_finds_no_target() {
    let book = compile("s: move_cursor left; store 1 a; damage a; return;").unwrap();
    let mut engine = SpellEngine::new(Level::stupid());
    let r = engine.cast(&CasterRef::Player, &book, "s");
    assert_eq!(r, Some(RuntimeFault::NoTargetAtCursor));
}

#[test]
fn lethal_damage_removes_the_occupant() {
    let mut player = Monster::player((7, 7));
    player.caster = Caster::simple((7, 7), 20);
    let victim = Monster {
        stats: StatBlock { max_hp: 5, current_hp: 5, ac: 10 },
        caster: Caster::simple((8, 7), 10),
        sprite_index: 0,
        mtype: MonsterType::Ant,
    };
    let level = open_level(vec![player, victim]);
    let book = compile("kill: move_cursor right; store 5 a; damage a; return;").unwrap();
    let mut engine = SpellEngine::new(level);
    let r = engine.cast(&CasterRef::Player, &book, "kill");
    assert_eq!(r, None);
    assert_eq!(engine.level.monsters.len(), 1);
    assert!(!engine.level.is_monster(&(8, 7)));
}

#[test]
fn nonlethal_damage_only_hurts() {
    let mut player = Monster::player((7, 7));
    player.caster = Caster::simple((7, 7), 20);
    let level = open_level(vec![player, ant_at((8, 7))]);
    let book = compile("s: move_cursor right; store 4 a; damage a; return;").unwrap();
    let mut engine = SpellEngine::new(level);
    let r = engine.cast(&CasterRef::Player, &book, "s");
    assert_eq!(r, None);
    assert_eq!(engine.level.monsters.len(), 2);
    assert_eq!(engine.level.monsters[1].stats.current_hp, 6);
}

#[test]
fn damage_without_energy_is_insufficient() {
    // The cursor starts at the caster's own cell, which is occupied by
    // the caster itself, so the energy check is reached.
    let book = compile("s: store 99 a; damage a; return;").unwrap();
    let mut engine = SpellEngine::new(Level::stupid());
    let r = engine.cast(&CasterRef::Player, &book, "s");
    assert_eq!(r, Some(RuntimeFault::InsufficientEnergy));
}

#[test]
fn queries_fill_the_well_known_registers() {
    // Query the player's energy into register e (4), push it, and pop
    // it into a damage amount: damaging the own cell with 10 energy
    // available costs exactly the queried 10.
    let book = compile("s: query_energy; damage e; return;").unwrap();
    let mut engine = SpellEngine::new(Level::stupid());
    let r = engine.cast(&CasterRef::Player, &book, "s");
    assert_eq!(r, None);
    assert_eq!(engine.level.get_energy(&CasterRef::Player), 0);
    // The player hurt itself for 10: max 20 hit points, 10 left.
    assert_eq!(engine.level.monsters[0].stats.current_hp, 10);
}

#[test]
fn fault_messages_are_human_readable() {
    assert_eq!(RuntimeFault::UnknownSpellName.message(), "Unknown spell");
    assert_eq!(RuntimeFault::StackOverflow.message(), "Stack overflow");
    assert_eq!(
        RuntimeFault::ProgramCounterOutOfRange.message(),
        "Unexpected end of execution"
    );
}

#[test]
fn jumpifgt_compares_the_operand_indices_themselves() {
    // The conditional jump compares its two operand index values, not
    // the contents of the registers they name.  Both registers hold 0
    // at cast start; were the contents compared, neither spell would
    // jump.  With index comparison, `b a` (1 > 0) jumps over the move
    // and `a b` (0 > 1) falls through into it.
    let book = compile(
        "jumps: jumpifgt b a skip_one; move left; skip_one: return;          stays: jumpifgt a b skip_two; move left; skip_two: return;",
    )
    .unwrap();
    let mut engine = SpellEngine::new(Level::stupid());
    assert_eq!(engine.cast(&CasterRef::Player, &book, "jumps"), None);
    assert_eq!(engine.level.location(&CasterRef::Player), (7, 7));
    assert_eq!(engine.cast(&CasterRef::Player, &book, "stays"), None);
    assert_eq!(engine.level.location(&CasterRef::Player), (6, 7));
}

#[test]
fn location_queries_answer_in_register_r() {
    // query_passable_location writes its boolean into register r (17);
    // reading that register as a damage amount makes the answer
    // observable: a passable cell costs the caster one hit point, an
    // impassable one costs nothing.
    let book = compile(
        "s: store 3 a; store 3 b; query_passable_location a b; damage r; return;",
    )
    .unwrap();
    let mut engine = SpellEngine::new(Level::stupid());
    assert_eq!(engine.cast(&CasterRef::Player, &book, "s"), None);
    assert_eq!(engine.level.monsters[0].stats.current_hp, 19);

    let wall = compile(
        "s: store 2 a; store 2 b; query_passable_location a b; damage r; return;",
    )
    .unwrap();
    assert_eq!(engine.cast(&CasterRef::Player, &wall, "s"), None);
    assert_eq!(engine.level.monsters[0].stats.current_hp, 19);
}

#[test]
fn monster_queries_answer_in_register_r() {
    let book = compile(
        "s: store 12 a; store 12 b; query_monster_location a b; damage r; return;",
    )
    .unwrap();
    let mut engine = SpellEngine::new(Level::stupid());
    assert_eq!(engine.cast(&CasterRef::Player, &book, "s"), None);
    // The ant stands at (12, 12): the query answered 1.
    assert_eq!(engine.level.monsters[0].stats.current_hp, 19);
}
