//! The small-step model of the register machine.
//!
//! A cast is one run of this machine: from an initial configuration at
//! the spell's entry address, [`step`] is applied until it halts — with
//! `None` for a successful `return` on an empty call stack, or with a
//! [`RuntimeFault`].  The executable interpreter,
//! [`crate::spells::SpellEngine::cast`], is proved to produce exactly a
//! halting run of this machine.

use vstd::prelude::*;

use crate::level::{
    first_monster_from, lv_damage, lv_energy, lv_is_monster, lv_is_passable, lv_location,
    lv_move_to, lv_spend, reify_spec, LevelM,
};
use crate::spells::{Command, RuntimeFault, STACK_SIZE};
use crate::utils::dir_delta;

verus! {

/// One configuration of the register machine during a cast: program
/// counter, register bank, the two bounded stacks, the cursor, and the
/// world.
#[verifier::ext_equal]
pub struct Config {
    pub pc: int,
    pub regs: Seq<i32>,
    pub stack: Seq<i32>,
    pub call_stack: Seq<int>,
    pub cursor: (usize, usize),
    pub level: LevelM,
}

/// The outcome of one step: still running, or halted with an optional
/// fault and the final world.
#[verifier::ext_equal]
pub enum StepOut {
    Running(Config),
    Halted(Option<RuntimeFault>, LevelM),
}

/// The value of a 32-bit register holding the two's-complement image of
/// the mathematical value `v`.
pub open spec fn wrap32(v: int) -> i32 {
    let m = v % 0x1_0000_0000;
    if m <= 0x7fff_ffff {
        m as i32
    } else {
        (m - 0x1_0000_0000) as i32
    }
}

/// The unsigned 32-bit reading of a register value (two's complement).
pub open spec fn u32_of_i32(v: i32) -> u32 {
    if v >= 0 {
        v as u32
    } else {
        (v + 0x1_0000_0000) as u32
    }
}

/// The initial configuration of a cast: entry address, zeroed
/// registers, empty stacks, cursor at the caster's own location.
pub open spec fn init_config(entry: int, caster: int, lv: LevelM) -> Config {
    Config {
        pc: entry,
        regs: Seq::new(26, |i: int| 0i32),
        stack: Seq::empty(),
        call_stack: Seq::empty(),
        cursor: lv_location(lv, caster),
        level: lv,
    }
}

/// Whether roster slot `caster` exists in `lv`.
pub open spec fn caster_ok(caster: int, lv: LevelM) -> bool {
    0 <= caster < lv.monsters.len()
}

/// One step of the register machine: bounds-check the program counter,
/// fetch, advance, dispatch.
pub open spec fn step(book: Seq<Command>, caster: int, cfg: Config) -> StepOut {
    if !(0 <= cfg.pc < book.len()) {
        StepOut::Halted(Some(RuntimeFault::ProgramCounterOutOfRange), cfg.level)
    } else {
        let next = Config { pc: cfg.pc + 1, ..cfg };
        match book[cfg.pc] {
            Command::PushVal(val) => {
                if cfg.stack.len() >= STACK_SIZE {
                    StepOut::Halted(Some(RuntimeFault::StackOverflow), cfg.level)
                } else {
                    StepOut::Running(Config { stack: cfg.stack.push(val), ..next })
                }
            },
            Command::PushReg(reg) => {
                if cfg.stack.len() >= STACK_SIZE {
                    StepOut::Halted(Some(RuntimeFault::StackOverflow), cfg.level)
                } else {
                    StepOut::Running(
                        Config { stack: cfg.stack.push(cfg.regs[reg as int]), ..next },
                    )
                }
            },
            Command::Pop(reg) => {
                if cfg.stack.len() == 0 {
                    StepOut::Halted(Some(RuntimeFault::StackUnderflow), cfg.level)
                } else {
                    StepOut::Running(
                        Config {
                            regs: cfg.regs.update(reg as int, cfg.stack.last()),
                            stack: cfg.stack.drop_last(),
                            ..next
                        },
                    )
                }
            },
            Command::Copy(src, dest) => {
                StepOut::Running(
                    Config { regs: cfg.regs.update(dest as int, cfg.regs[src as int]), ..next },
                )
            },
            Command::Store(val, reg) => {
                StepOut::Running(Config { regs: cfg.regs.update(reg as int, val), ..next })
            },
            Command::Call(target) => {
                if cfg.call_stack.len() >= STACK_SIZE {
                    StepOut::Halted(Some(RuntimeFault::CallStackOverflow), cfg.level)
                } else {
                    StepOut::Running(
                        Config {
                            pc: target as int,
                            call_stack: cfg.call_stack.push(cfg.pc + 1),
                            ..cfg
                        },
                    )
                }
            },
            Command::Return => {
                if cfg.call_stack.len() == 0 {
                    StepOut::Halted(None, cfg.level)
                } else {
                    StepOut::Running(
                        Config {
                            pc: cfg.call_stack.last(),
                            call_stack: cfg.call_stack.drop_last(),
                            ..cfg
                        },
                    )
                }
            },
            Command::Noop => StepOut::Running(next),
            Command::Jump(dest) => {
                if (dest as int) < book.len() {
                    StepOut::Running(Config { pc: dest as int, ..cfg })
                } else {
                    StepOut::Halted(Some(RuntimeFault::InvalidJumpTarget), cfg.level)
                }
            },
            Command::JumpIfGt(a, b, dest) => {
                if (dest as int) < book.len() {
                    // Compares the two operand index values, not the
                    // registers they name; kept deliberately.
                    if a > b {
                        StepOut::Running(Config { pc: dest as int, ..cfg })
                    } else {
                        StepOut::Running(next)
                    }
                } else {
                    StepOut::Halted(Some(RuntimeFault::InvalidJumpTarget), cfg.level)
                }
            },
            Command::Add(a, b, dest) => {
                match cfg.regs[a as int].checked_add(cfg.regs[b as int]) {
                    Some(v) => StepOut::Running(
                        Config { regs: cfg.regs.update(dest as int, v), ..next },
                    ),
                    None => StepOut::Halted(Some(RuntimeFault::ArithmeticFault), cfg.level),
                }
            },
            Command::Mul(a, b, dest) => {
                match cfg.regs[a as int].checked_mul(cfg.regs[b as int]) {
                    Some(v) => StepOut::Running(
                        Config { regs: cfg.regs.update(dest as int, v), ..next },
                    ),
                    None => StepOut::Halted(Some(RuntimeFault::ArithmeticFault), cfg.level),
                }
            },
            Command::Sub(a, b, dest) => {
                match cfg.regs[a as int].checked_sub(cfg.regs[b as int]) {
                    Some(v) => StepOut::Running(
                        Config { regs: cfg.regs.update(dest as int, v), ..next },
                    ),
                    None => StepOut::Halted(Some(RuntimeFault::ArithmeticFault), cfg.level),
                }
            },
            Command::Div(a, b, dest) => {
                match cfg.regs[a as int].checked_div(cfg.regs[b as int]) {
                    Some(v) => StepOut::Running(
                        Config { regs: cfg.regs.update(dest as int, v), ..next },
                    ),
                    None => StepOut::Halted(Some(RuntimeFault::ArithmeticFault), cfg.level),
                }
            },
            Command::Mod(a, b, dest) => {
                match cfg.regs[a as int].checked_rem(cfg.regs[b as int]) {
                    Some(v) => StepOut::Running(
                        Config { regs: cfg.regs.update(dest as int, v), ..next },
                    ),
                    None => StepOut::Halted(Some(RuntimeFault::ArithmeticFault), cfg.level),
                }
            },
            Command::And(a, b, dest) => {
                StepOut::Running(
                    Config {
                        regs: cfg.regs.update(dest as int, cfg.regs[a as int] & cfg.regs[b as int]),
                        ..next
                    },
                )
            },
            Command::Or(a, b, dest) => {
                StepOut::Running(
                    Config {
                        regs: cfg.regs.update(dest as int, cfg.regs[a as int] | cfg.regs[b as int]),
                        ..next
                    },
                )
            },
            Command::Xor(a, b, dest) => {
                StepOut::Running(
                    Config {
                        regs: cfg.regs.update(dest as int, cfg.regs[a as int] ^ cfg.regs[b as int]),
                        ..next
                    },
                )
            },
            Command::Not(a, dest) => {
                StepOut::Running(
                    Config { regs: cfg.regs.update(dest as int, !cfg.regs[a as int]), ..next },
                )
            },
            Command::PromptDirection => StepOut::Halted(
                Some(RuntimeFault::UnsupportedOperation),
                cfg.level,
            ),
            Command::PromptLocation => StepOut::Halted(
                Some(RuntimeFault::UnsupportedOperation),
                cfg.level,
            ),
            Command::MoveCursor(direction) => {
                if !caster_ok(caster, cfg.level) {
                    StepOut::Halted(Some(RuntimeFault::InvalidCaster), cfg.level)
                } else {
                    let me = lv_location(cfg.level, caster);
                    match reify_spec(dir_delta(direction), (me.0 as int, me.1 as int)) {
                        Some(loc) => {
                            if 5 <= lv_energy(cfg.level, caster) {
                                StepOut::Running(
                                    Config {
                                        cursor: loc,
                                        level: lv_spend(cfg.level, caster, 5),
                                        ..next
                                    },
                                )
                            } else {
                                StepOut::Halted(
                                    Some(RuntimeFault::InsufficientEnergy),
                                    cfg.level,
                                )
                            }
                        },
                        None => StepOut::Halted(Some(RuntimeFault::InvalidLocation), cfg.level),
                    }
                }
            },
            Command::Damage(register) => {
                if !caster_ok(caster, cfg.level) {
                    StepOut::Halted(Some(RuntimeFault::InvalidCaster), cfg.level)
                } else {
                    let energy = u32_of_i32(cfg.regs[register as int]);
                    if lv_is_monster(cfg.level, cfg.cursor) {
                        if energy <= lv_energy(cfg.level, caster) {
                            StepOut::Running(
                                Config {
                                    level: lv_damage(
                                        lv_spend(cfg.level, caster, energy),
                                        cfg.cursor,
                                        energy,
                                    ),
                                    ..next
                                },
                            )
                        } else {
                            StepOut::Halted(Some(RuntimeFault::InsufficientEnergy), cfg.level)
                        }
                    } else {
                        StepOut::Halted(Some(RuntimeFault::NoTargetAtCursor), cfg.level)
                    }
                }
            },
            Command::Move(direction) => {
                if !caster_ok(caster, cfg.level) {
                    StepOut::Halted(Some(RuntimeFault::InvalidCaster), cfg.level)
                } else {
                    let me = lv_location(cfg.level, caster);
                    match reify_spec(dir_delta(direction), (me.0 as int, me.1 as int)) {
                        Some(loc) => {
                            if lv_is_passable(cfg.level, loc) && !lv_is_monster(cfg.level, loc) {
                                if 10 <= lv_energy(cfg.level, caster) {
                                    StepOut::Running(
                                        Config {
                                            level: lv_move_to(
                                                lv_spend(cfg.level, caster, 10),
                                                caster,
                                                loc,
                                            ),
                                            ..next
                                        },
                                    )
                                } else {
                                    StepOut::Halted(
                                        Some(RuntimeFault::InsufficientEnergy),
                                        cfg.level,
                                    )
                                }
                            } else {
                                StepOut::Halted(Some(RuntimeFault::Blocked), cfg.level)
                            }
                        },
                        None => StepOut::Halted(Some(RuntimeFault::InvalidLocation), cfg.level),
                    }
                }
            },
            Command::QueryEnergy => {
                if !caster_ok(caster, cfg.level) {
                    StepOut::Halted(Some(RuntimeFault::InvalidCaster), cfg.level)
                } else {
                    StepOut::Running(
                        Config {
                            regs: cfg.regs.update(
                                4,
                                wrap32(lv_energy(cfg.level, caster) as int),
                            ),
                            ..next
                        },
                    )
                }
            },
            Command::QueryLocationSelf => {
                if !caster_ok(caster, cfg.level) {
                    StepOut::Halted(Some(RuntimeFault::InvalidCaster), cfg.level)
                } else {
                    let me = lv_location(cfg.level, caster);
                    StepOut::Running(
                        Config {
                            regs: cfg.regs.update(23, wrap32(me.0 as int)).update(
                                24,
                                wrap32(me.1 as int),
                            ),
                            ..next
                        },
                    )
                }
            },
            Command::QueryLocationCursor => {
                StepOut::Running(
                    Config {
                        regs: cfg.regs.update(23, wrap32(cfg.cursor.0 as int)).update(
                            24,
                            wrap32(cfg.cursor.1 as int),
                        ),
                        ..next
                    },
                )
            },
            Command::QueryValidLocation(x_reg, y_reg) => {
                let loc = (cfg.regs[x_reg as int] as int, cfg.regs[y_reg as int] as int);
                let flag: i32 = if reify_spec(loc, (0, 0)) is Some {
                    1
                } else {
                    0
                };
                StepOut::Running(Config { regs: cfg.regs.update(17, flag), ..next })
            },
            Command::QueryPassableLocation(x_reg, y_reg) => {
                let loc = (cfg.regs[x_reg as int] as int, cfg.regs[y_reg as int] as int);
                let flag: i32 = match reify_spec(loc, (0, 0)) {
                    Some(l) => if lv_is_passable(cfg.level, l) {
                        1
                    } else {
                        0
                    },
                    None => 0,
                };
                StepOut::Running(Config { regs: cfg.regs.update(17, flag), ..next })
            },
            Command::QueryMonsterLocation(x_reg, y_reg) => {
                let loc = (cfg.regs[x_reg as int] as int, cfg.regs[y_reg as int] as int);
                let flag: i32 = match reify_spec(loc, (0, 0)) {
                    Some(l) => if lv_is_monster(cfg.level, l) {
                        1
                    } else {
                        0
                    },
                    None => 0,
                };
                StepOut::Running(Config { regs: cfg.regs.update(17, flag), ..next })
            },
        }
    }
}

/// The machine after `n` steps from `cfg`; once halted it stays halted.
pub open spec fn iterate(book: Seq<Command>, caster: int, cfg: Config, n: nat) -> StepOut
    decreases n,
{
    if n == 0 {
        StepOut::Running(cfg)
    } else {
        match iterate(book, caster, cfg, (n - 1) as nat) {
            StepOut::Running(c) => step(book, caster, c),
            StepOut::Halted(r, lv) => StepOut::Halted(r, lv),
        }
    }
}

/// A run that has halted stays halted, with the same outcome, under any
/// further steps.
pub proof fn lemma_iterate_mono(book: Seq<Command>, caster: int, cfg: Config, n: nat, m: nat)
    requires
        n <= m,
        iterate(book, caster, cfg, n) is Halted,
    ensures
        iterate(book, caster, cfg, m) == iterate(book, caster, cfg, n),
    decreases m,
{
    if m > n {
        lemma_iterate_mono(book, caster, cfg, n, (m - 1) as nat);
    }
}

/// The halting outcome of a run is unique: however many steps two
/// halting runs take, they agree on the fault and on the final world.
pub proof fn lemma_halt_unique(book: Seq<Command>, caster: int, cfg: Config, n1: nat, n2: nat)
    requires
        iterate(book, caster, cfg, n1) is Halted,
        iterate(book, caster, cfg, n2) is Halted,
    ensures
        iterate(book, caster, cfg, n1) == iterate(book, caster, cfg, n2),
{
    if n1 <= n2 {
        lemma_iterate_mono(book, caster, cfg, n1, n2);
    } else {
        lemma_iterate_mono(book, caster, cfg, n2, n1);
    }
}

/// Executing with a program counter outside `[0, len)` always faults
/// with `ProgramCounterOutOfRange` and leaves the world untouched.
pub proof fn lemma_pc_out_of_range(book: Seq<Command>, caster: int, cfg: Config)
    requires
        !(0 <= cfg.pc < book.len()),
    ensures
        step(book, caster, cfg) == StepOut::Halted(
            Some(RuntimeFault::ProgramCounterOutOfRange),
            cfg.level,
        ),
{
}

/// A `move` into an impassable or occupied cell faults with `Blocked`,
/// leaves the caster's location unchanged, and deducts no energy: the
/// whole world is left untouched.
pub proof fn lemma_move_blocked(book: Seq<Command>, caster: int, cfg: Config, loc: (usize, usize))
    requires
        0 <= cfg.pc < book.len(),
        book[cfg.pc] matches Command::Move(direction) && reify_spec(
            dir_delta(direction),
            (lv_location(cfg.level, caster).0 as int, lv_location(cfg.level, caster).1 as int),
        ) == Some(loc),
        caster_ok(caster, cfg.level),
        !(lv_is_passable(cfg.level, loc) && !lv_is_monster(cfg.level, loc)),
    ensures
        step(book, caster, cfg) == StepOut::Halted(Some(RuntimeFault::Blocked), cfg.level),
{
}

/// A `damage` aimed at an empty cursor cell faults with
/// `NoTargetAtCursor` and leaves the world untouched.
pub proof fn lemma_damage_no_target(book: Seq<Command>, caster: int, cfg: Config)
    requires
        0 <= cfg.pc < book.len(),
        book[cfg.pc] is Damage,
        caster_ok(caster, cfg.level),
        !lv_is_monster(cfg.level, cfg.cursor),
    ensures
        step(book, caster, cfg) == StepOut::Halted(
            Some(RuntimeFault::NoTargetAtCursor),
            cfg.level,
        ),
{
}

/// Two rosters whose actors stand in the same places have the same
/// first occupant at any cell.
pub proof fn lemma_first_monster_same_locations(
    ms1: Seq<crate::monster::Monster>,
    ms2: Seq<crate::monster::Monster>,
    loc: (usize, usize),
    k: int,
)
    requires
        ms1.len() == ms2.len(),
        forall|j: int|
            0 <= j < ms1.len() ==> (#[trigger] ms1[j]).caster.location
                == ms2[j].caster.location,
    ensures
        first_monster_from(ms1, loc, k) == first_monster_from(ms2, loc, k),
    decreases ms1.len() - k,
{
    if 0 <= k < ms1.len() {
        lemma_first_monster_same_locations(ms1, ms2, loc, k + 1);
    }
}

/// A `damage` whose energy is covered, aimed at an occupant whose
/// remaining hit points do not exceed the damage, removes that occupant
/// from the world: afterward the roster is the energy-paid roster with
/// the occupant's slot deleted.
pub proof fn lemma_damage_lethal(
    book: Seq<Command>,
    caster: int,
    cfg: Config,
    register: usize,
    target: int,
)
    requires
        0 <= cfg.pc < book.len(),
        book[cfg.pc] == Command::Damage(register),
        caster_ok(caster, cfg.level),
        first_monster_from(cfg.level.monsters, cfg.cursor, 0) == Some(target),
        u32_of_i32(cfg.regs[register as int]) <= lv_energy(cfg.level, caster),
        cfg.level.monsters[target].stats.current_hp <= u32_of_i32(cfg.regs[register as int]),
    ensures
        step(book, caster, cfg) matches StepOut::Running(c2) && c2.level.monsters == lv_spend(
            cfg.level,
            caster,
            u32_of_i32(cfg.regs[register as int]),
        ).monsters.remove(target) && c2.level.monsters.len() == cfg.level.monsters.len() - 1,
{
    let energy = u32_of_i32(cfg.regs[register as int]);
    let spent = lv_spend(cfg.level, caster, energy);
    assert(first_monster_from(cfg.level.monsters, cfg.cursor, 0) is Some);
    lemma_first_monster_exists(cfg.level.monsters, cfg.cursor, 0, target);
    lemma_first_monster_same_locations(cfg.level.monsters, spent.monsters, cfg.cursor, 0);
    assert(spent.monsters[target].stats.current_hp == cfg.level.monsters[target].stats.current_hp);
}

/// Where `first_monster_from` finds an occupant, some actor stands at
/// the cell, and conversely.
pub proof fn lemma_first_monster_exists(
    ms: Seq<crate::monster::Monster>,
    loc: (usize, usize),
    k: int,
    found: int,
)
    requires
        first_monster_from(ms, loc, k) == Some(found),
    ensures
        k <= found < ms.len(),
        ms[found].caster.location == loc,
    decreases ms.len() - k,
{
    if 0 <= k < ms.len() {
        if ms[k].caster.location != loc {
            lemma_first_monster_exists(ms, loc, k + 1, found);
        }
    }
}

} // verus!
