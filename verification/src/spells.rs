//! Casting state, the linked instruction set, spellbooks, and the engine.

use vstd::prelude::*;

use crate::level::{lv_energy, lv_get_spell, lv_is_monster, lv_is_passable, lv_location,
    lv_move_to, lv_regen, lv_spend, reify_spec, Level, LevelM};
use crate::machine::{caster_ok, init_config, iterate, step, u32_of_i32, wrap32, Config, StepOut};
use crate::utils::{AbsoluteLocation, Direction};

verus! {

broadcast use vstd::string::group_string_axioms;

/// Per-actor casting state: where the actor stands and its energy pool.
#[derive(Clone, Copy, Debug, PartialEq, Eq)]
pub struct Caster {
    pub location: AbsoluteLocation,
    pub energy: u32,
    pub max_energy: u32,
    pub energy_regen: u32,
}

/// `c` after paying `cost` energy; meaningful when `cost <= c.energy`.
pub open spec fn spend_spec(c: Caster, cost: u32) -> Caster {
    Caster { energy: (c.energy - cost) as u32, ..c }
}

/// `c` after one round of energy regeneration: energy rises by
/// `energy_regen`, clamped to `max_energy`.
pub open spec fn regen_spec(c: Caster) -> Caster {
    Caster {
        energy: if c.energy + c.energy_regen > c.max_energy {
            c.max_energy
        } else {
            (c.energy + c.energy_regen) as u32
        },
        ..c
    }
}

impl Caster {
    /// A caster at `location` whose current, maximum and per-turn
    /// regenerated energy all equal `energy`.
    pub fn simple(location: AbsoluteLocation, energy: u32) -> (r: Caster)
        ensures
            r == (Caster { location, energy, max_energy: energy, energy_regen: energy }),
    {
        Caster { location, energy, max_energy: energy, energy_regen: energy }
    }

    /// Pay `cost` energy; returns `false`, changing nothing, when the
    /// pool is too small.
    pub fn cast(&mut self, cost: u32) -> (r: bool)
        ensures
            r == (cost <= old(self).energy),
            r ==> *final(self) == spend_spec(*old(self), cost),
            !r ==> *final(self) == *old(self),
    {
        if cost > self.energy {
            false
        } else {
            self.energy = self.energy - cost;
            true
        }
    }

    /// Relocate the caster.
    pub fn move_to(&mut self, location: AbsoluteLocation)
        ensures
            *final(self) == (Caster { location, ..*old(self) }),
    {
        self.location = location;
    }

    /// One round of energy regeneration.
    pub fn regen(&mut self)
        ensures
            *final(self) == regen_spec(*old(self)),
    {
        match self.energy.checked_add(self.energy_regen) {
            Some(sum) => {
                if sum > self.max_energy {
                    self.energy = self.max_energy;
                } else {
                    self.energy = sum;
                }
            },
            None => {
                self.energy = self.max_energy;
            },
        }
    }
}

/// Capacity of the operand stack and of the call stack.
pub const STACK_SIZE: usize = 1000;

/// How many machine steps one cast may take before it is stopped with
/// [`RuntimeFault::BudgetExhausted`].
pub const STEP_BUDGET: u64 = 0x1_0000_0000;

/// Which actor is "self" for a cast: the player (roster slot 0) or a
/// monster by roster index.
#[derive(Clone, Copy, Debug, PartialEq, Eq, Structural)]
pub enum CasterRef {
    Player,
    Monster(usize),
}

/// The roster index that a caster reference names.
pub open spec fn caster_index(r: CasterRef) -> int {
    match r {
        CasterRef::Player => 0,
        CasterRef::Monster(i) => i as int,
    }
}

/// One linked instruction.  Every call and jump target is an absolute
/// instruction index; symbolic labels exist only in the unlinked form,
/// [`crate::compiler::SourceCommand`], and are rewritten away at link
/// time, so a linked spellbook can never hold one.
#[derive(Clone, Copy, Debug, PartialEq, Eq, Structural)]
pub enum Command {
    PushVal(i32),
    PushReg(usize),
    Pop(usize),
    Copy(usize, usize),
    Store(i32, usize),
    Call(usize),
    Return,
    Noop,
    Jump(usize),
    /// Compares its two operand index values, not the registers they
    /// name; this literal behaviour is kept deliberately.
    JumpIfGt(usize, usize, usize),
    Add(usize, usize, usize),
    Mul(usize, usize, usize),
    Sub(usize, usize, usize),
    Div(usize, usize, usize),
    Mod(usize, usize, usize),
    And(usize, usize, usize),
    Or(usize, usize, usize),
    Xor(usize, usize, usize),
    Not(usize, usize),
    PromptDirection,
    PromptLocation,
    MoveCursor(Direction),
    Damage(usize),
    Move(Direction),
    QueryEnergy,
    QueryLocationSelf,
    QueryLocationCursor,
    QueryValidLocation(usize, usize),
    QueryPassableLocation(usize, usize),
    QueryMonsterLocation(usize, usize),
}

/// Every register operand of the instruction names one of the 26
/// registers.
pub open spec fn cmd_wf(c: Command) -> bool {
    match c {
        Command::PushReg(r) => r < 26,
        Command::Pop(r) => r < 26,
        Command::Copy(src, dest) => src < 26 && dest < 26,
        Command::Store(_, r) => r < 26,
        Command::JumpIfGt(a, b, _) => a < 26 && b < 26,
        Command::Add(a, b, d) => a < 26 && b < 26 && d < 26,
        Command::Mul(a, b, d) => a < 26 && b < 26 && d < 26,
        Command::Sub(a, b, d) => a < 26 && b < 26 && d < 26,
        Command::Div(a, b, d) => a < 26 && b < 26 && d < 26,
        Command::Mod(a, b, d) => a < 26 && b < 26 && d < 26,
        Command::And(a, b, d) => a < 26 && b < 26 && d < 26,
        Command::Or(a, b, d) => a < 26 && b < 26 && d < 26,
        Command::Xor(a, b, d) => a < 26 && b < 26 && d < 26,
        Command::Not(a, d) => a < 26 && d < 26,
        Command::Damage(r) => r < 26,
        Command::QueryValidLocation(x, y) => x < 26 && y < 26,
        Command::QueryPassableLocation(x, y) => x < 26 && y < 26,
        Command::QueryMonsterLocation(x, y) => x < 26 && y < 26,
        _ => true,
    }
}

/// Every instruction of the sequence is well formed.
pub open spec fn book_wf(cmds: Seq<Command>) -> bool {
    forall|k: int| 0 <= k < cmds.len() ==> cmd_wf(#[trigger] cmds[k])
}

/// How a cast can fail at run time.  Any fault halts the cast at once;
/// world mutations already applied stay applied.
#[derive(Clone, Copy, Debug, PartialEq, Eq, Structural)]
pub enum RuntimeFault {
    /// The program counter left `[0, len)`; also raised by running past
    /// the final instruction without a `return`.
    ProgramCounterOutOfRange,
    /// A push onto the full operand stack.
    StackOverflow,
    /// A pop from the empty operand stack.
    StackUnderflow,
    /// A call with the call stack full.
    CallStackOverflow,
    /// A jump whose target lies outside the instruction sequence.
    InvalidJumpTarget,
    /// An action whose energy cost exceeds the caster's pool.
    InsufficientEnergy,
    /// A move into an impassable or occupied cell.
    Blocked,
    /// A step or cursor move that leaves the grid.
    InvalidLocation,
    /// A damage effect aimed at an empty cursor cell.
    NoTargetAtCursor,
    /// The requested spell name is not in the spellbook.
    UnknownSpellName,
    /// An instruction that needs interactive input.
    UnsupportedOperation,
    /// Integer overflow, or division or remainder by zero.
    ArithmeticFault,
    /// The per-cast step budget ran out: the script neither returned
    /// nor faulted within [`STEP_BUDGET`] machine steps.
    BudgetExhausted,
    /// The roster entry named by the caster reference does not exist.
    InvalidCaster,
}

impl RuntimeFault {
    /// A human-readable description, for display by a front end.
    pub fn message(&self) -> &'static str {
        match self {
            RuntimeFault::ProgramCounterOutOfRange => "Unexpected end of execution",
            RuntimeFault::StackOverflow => "Stack overflow",
            RuntimeFault::StackUnderflow => "Called pop on empty stack",
            RuntimeFault::CallStackOverflow => "Call stack overflow",
            RuntimeFault::InvalidJumpTarget => "Called jump to invalid location",
            RuntimeFault::InsufficientEnergy => "Not enough energy",
            RuntimeFault::Blocked => "That space is occupied",
            RuntimeFault::InvalidLocation => "Invalid location",
            RuntimeFault::NoTargetAtCursor => "Nobody there to attack",
            RuntimeFault::UnknownSpellName => "Unknown spell",
            RuntimeFault::UnsupportedOperation => "Prompting not yet supported",
            RuntimeFault::ArithmeticFault => "Arithmetic fault",
            RuntimeFault::BudgetExhausted => "Spell ran too long",
            RuntimeFault::InvalidCaster => "No such caster",
        }
    }
}

/// What a spellbook is mathematically: its linked instruction sequence
/// and its name-to-entry-address table.
pub struct SpellbookView {
    pub commands: Seq<Command>,
    pub table: Seq<(Seq<char>, usize)>,
}

/// A spell table read mathematically: each entry's name as a character
/// sequence.
pub open spec fn table_view(t: Seq<(String, usize)>) -> Seq<(Seq<char>, usize)> {
    t.map_values(|e: (String, usize)| (e.0@, e.1))
}

/// First-match lookup of `name` in a spell table.
pub open spec fn lookup(table: Seq<(Seq<char>, usize)>, name: Seq<char>) -> Option<usize>
    decreases table.len(),
{
    if table.len() == 0 {
        None
    } else if table[0].0 == name {
        Some(table[0].1)
    } else {
        lookup(table.drop_first(), name)
    }
}

/// The linked, executable form of a named set of spells: an instruction
/// sequence plus a name-to-address table.  Immutable after construction;
/// address space equals sequence position.
pub struct Spellbook {
    commands: Vec<Command>,
    spell_table: Vec<(String, usize)>,
}

impl View for Spellbook {
    type V = SpellbookView;

    closed spec fn view(&self) -> SpellbookView {
        SpellbookView { commands: self.commands@, table: table_view(self.spell_table@) }
    }
}

impl Spellbook {
    #[verifier::type_invariant]
    spec fn inv(&self) -> bool {
        book_wf(self.commands@)
    }

    /// A spellbook from its linked parts; the assembler's constructor.
    pub(crate) fn from_parts(commands: Vec<Command>, spell_table: Vec<(String, usize)>) -> (r:
        Spellbook)
        requires
            book_wf(commands@),
        ensures
            r@.commands == commands@,
            r@.table == table_view(spell_table@),
    {
        Spellbook { commands, spell_table }
    }

    /// A spellbook with no spells.
    pub fn empty() -> (r: Spellbook)
        ensures
            r@.commands == Seq::<Command>::empty(),
            r@.table == Seq::<(Seq<char>, usize)>::empty(),
    {
        let r = Spellbook { commands: Vec::new(), spell_table: Vec::new() };
        proof {
            assert(r@.table =~= Seq::<(Seq<char>, usize)>::empty());
        }
        r
    }

    /// How many linked instructions the book holds.
    pub fn len(&self) -> (r: usize)
        ensures
            r == self@.commands.len(),
    {
        self.commands.len()
    }

    /// The linked instruction at address `i`.
    pub fn command_at(&self, i: usize) -> (r: Command)
        requires
            i < self@.commands.len(),
        ensures
            r == self@.commands[i as int],
    {
        self.commands[i]
    }

    /// The entry address of `spell`, by first-match lookup.
    pub fn find_spell(&self, spell: &str) -> (r: Option<usize>)
        ensures
            r == lookup(self@.table, spell@),
    {
        let mut k: usize = 0;
        proof {
            assert(self@.table.skip(0) =~= self@.table);
        }
        while k < self.spell_table.len()
            invariant
                k <= self.spell_table.len(),
                lookup(self@.table, spell@) == lookup(self@.table.skip(k as int), spell@),
            decreases self.spell_table.len() - k,
        {
            proof {
                assert(self@.table.skip(k as int).drop_first() =~= self@.table.skip(k + 1));
            }
            if str_eq(self.spell_table[k].0.as_str(), spell) {
                return Some(self.spell_table[k].1);
            }
            k = k + 1;
        }
        None
    }
}

/// Character-for-character equality of two string slices.
pub fn str_eq(a: &str, b: &str) -> (r: bool)
    ensures
        r == (a@ == b@),
{
    let a_len = a.unicode_len();
    let b_len = b.unicode_len();
    if a_len != b_len {
        proof {
            assert(a@ != b@) by {
                if a@ == b@ {
                    assert(a@.len() == b@.len());
                }
            }
        }
        return false;
    }
    let mut i: usize = 0;
    while i < a_len
        invariant
            i <= a_len,
            a_len == a@.len(),
            b_len == b@.len(),
            a_len == b_len,
            forall|j: int| 0 <= j < i ==> a@[j] == b@[j],
        decreases a_len - i,
    {
        if a.get_char(i) != b.get_char(i) {
            return false;
        }
        i = i + 1;
    }
    proof {
        assert(a@ =~= b@);
    }
    true
}


/// The commands of the built-in spellbook, in address order.
pub open spec fn basic_commands() -> Seq<Command> {
    seq![
        Command::Move(Direction::Left),
        Command::Return,
        Command::Move(Direction::Right),
        Command::Return,
        Command::Move(Direction::Up),
        Command::Return,
        Command::Move(Direction::Down),
        Command::Return,
        Command::Return,
        Command::MoveCursor(Direction::Left),
        Command::Damage(5),
        Command::Return,
        Command::MoveCursor(Direction::Right),
        Command::Damage(5),
        Command::Return,
        Command::MoveCursor(Direction::Up),
        Command::Damage(5),
        Command::Return,
        Command::MoveCursor(Direction::Down),
        Command::Damage(5),
        Command::Return,
    ]
}

/// The spell table of the built-in spellbook.
pub open spec fn basic_table() -> Seq<(Seq<char>, usize)> {
    seq![
        ("left"@, 0usize),
        ("right"@, 2usize),
        ("up"@, 4usize),
        ("down"@, 6usize),
        ("wait"@, 8usize),
        ("attack_left"@, 9usize),
        ("attack_right"@, 12usize),
        ("attack_up"@, 15usize),
        ("attack_down"@, 18usize),
    ]
}

/// Push one well-formed instruction, keeping the whole sequence well
/// formed.
fn push_cmd(cmds: &mut Vec<Command>, c: Command)
    requires
        cmd_wf(c),
        book_wf(old(cmds)@),
    ensures
        final(cmds)@ == old(cmds)@.push(c),
        book_wf(final(cmds)@),
{
    cmds.push(c);
    proof {
        assert forall|k: int| 0 <= k < cmds@.len() implies cmd_wf(#[trigger] cmds@[k]) by {
            if k < old(cmds)@.len() {
                assert(cmds@[k] == old(cmds)@[k]);
            }
        }
    }
}

impl Spellbook {
    /// The built-in spellbook: one-step moves, wait, and the four
    /// adjacent attacks.  Each attack aims the cursor one cell out and
    /// casts `damage` with register `f` as the amount — which a fresh
    /// cast holds at zero, since the bank is reset at every cast
    /// boundary.
    pub fn basic() -> (r: Spellbook)
        ensures
            r@.commands == basic_commands(),
            r@.table == basic_table(),
    {
        let mut spell_table: Vec<(String, usize)> = Vec::new();
        spell_table.push(("left".to_owned(), 0));
        spell_table.push(("right".to_owned(), 2));
        spell_table.push(("up".to_owned(), 4));
        spell_table.push(("down".to_owned(), 6));
        spell_table.push(("wait".to_owned(), 8));
        spell_table.push(("attack_left".to_owned(), 9));
        spell_table.push(("attack_right".to_owned(), 12));
        spell_table.push(("attack_up".to_owned(), 15));
        spell_table.push(("attack_down".to_owned(), 18));
        let mut commands: Vec<Command> = Vec::new();
        push_cmd(&mut commands, Command::Move(Direction::Left));
        push_cmd(&mut commands, Command::Return);
        push_cmd(&mut commands, Command::Move(Direction::Right));
        push_cmd(&mut commands, Command::Return);
        push_cmd(&mut commands, Command::Move(Direction::Up));
        push_cmd(&mut commands, Command::Return);
        push_cmd(&mut commands, Command::Move(Direction::Down));
        push_cmd(&mut commands, Command::Return);
        push_cmd(&mut commands, Command::Return);
        push_cmd(&mut commands, Command::MoveCursor(Direction::Left));
        push_cmd(&mut commands, Command::Damage(5));
        push_cmd(&mut commands, Command::Return);
        push_cmd(&mut commands, Command::MoveCursor(Direction::Right));
        push_cmd(&mut commands, Command::Damage(5));
        push_cmd(&mut commands, Command::Return);
        push_cmd(&mut commands, Command::MoveCursor(Direction::Up));
        push_cmd(&mut commands, Command::Damage(5));
        push_cmd(&mut commands, Command::Return);
        push_cmd(&mut commands, Command::MoveCursor(Direction::Down));
        push_cmd(&mut commands, Command::Damage(5));
        push_cmd(&mut commands, Command::Return);
        let r = Spellbook { commands, spell_table };
        proof {
            assert(r@.commands =~= basic_commands());
            assert(r@.table =~= basic_table());
        }
        r
    }
}

/// The sequence of call-stack entries read as mathematical integers.
pub open spec fn usize_seq(s: Seq<usize>) -> Seq<int> {
    s.map_values(|u: usize| u as int)
}

/// The register bank is all zero and both stacks are empty.
pub open spec fn engine_clean(e: SpellEngine) -> bool {
    &&& e.registers@ == Seq::new(26, |i: int| 0i32)
    &&& e.stack@ == Seq::<i32>::empty()
    &&& e.call_stack@ == Seq::<usize>::empty()
}

/// Whether a run of the machine from `cfg` halts within `budget` steps.
pub open spec fn halts_within(book: Seq<Command>, caster: int, cfg: Config, budget: nat) -> bool {
    exists|n: nat| n <= budget && (#[trigger] iterate(book, caster, cfg, n)) is Halted
}

/// What one cast does to the world and reports back: an unknown name or
/// a missing caster is rejected without touching the world; otherwise
/// the result and the final world are exactly those of the halting run
/// of the register machine from the spell's entry address.  A script
/// that neither returns nor faults within [`STEP_BUDGET`] steps is
/// stopped with `BudgetExhausted`, the world being as the machine left
/// it then.
#[verifier::opaque]
pub open spec fn cast_post(
    book: SpellbookView,
    caster_ref: CasterRef,
    spell: Seq<char>,
    lv0: LevelM,
    r: Option<RuntimeFault>,
    lv1: LevelM,
) -> bool {
    match lookup(book.table, spell) {
        None => r == Some(RuntimeFault::UnknownSpellName) && lv1 == lv0,
        Some(entry) => {
            if !caster_ok(caster_index(caster_ref), lv0) {
                r == Some(RuntimeFault::InvalidCaster) && lv1 == lv0
            } else {
                let caster = caster_index(caster_ref);
                let cfg0 = init_config(entry as int, caster, lv0);
                if halts_within(book.commands, caster, cfg0, STEP_BUDGET as nat) {
                    exists|n: nat|
                        n <= STEP_BUDGET && iterate(book.commands, caster, cfg0, n)
                            == StepOut::Halted(r, lv1)
                } else {
                    &&& r == Some(RuntimeFault::BudgetExhausted)
                    &&& iterate(book.commands, caster, cfg0, STEP_BUDGET as nat) matches
                        StepOut::Running(c) && c.level == lv1
                }
            }
        },
    }
}

/// One successful monster cast followed by its energy regeneration:
/// from world `lv`, roster entry `i` casts the spell the heuristic
/// chooses for it, the cast succeeds leaving world `lv2`, and `i` then
/// regenerates — unless its slot no longer exists.
pub open spec fn monster_turn_step(
    mbook: SpellbookView,
    lv: LevelM,
    i: usize,
    lv_next: LevelM,
) -> bool {
    exists|lv2: LevelM|
        {
            &&& #[trigger] cast_post(
                mbook,
                CasterRef::Monster(i),
                lv_get_spell(lv, CasterRef::Monster(i)),
                lv,
                None,
                lv2,
            )
            &&& lv_next == if (i as int) < lv2.monsters.len() {
                lv_regen(lv2, i as int)
            } else {
                lv2
            }
        }
}

/// The monster phase of a turn, witnessed by the worlds `lvs[k]` seen
/// before each monster's cast: roster entries act in ascending index
/// order starting at 1; each successful cast is followed by that
/// actor's regeneration; the phase stops at the first fault, whose
/// partial world mutations persist, or when the roster runs out.
pub open spec fn monsters_phase(
    mbook: SpellbookView,
    lvs: Seq<LevelM>,
    r: Option<RuntimeFault>,
    lv_end: LevelM,
) -> bool {
    &&& lvs.len() >= 1
    &&& forall|k: int|
        0 <= k < lvs.len() - 1 ==> (k + 1) < (#[trigger] lvs[k]).monsters.len()
            && monster_turn_step(mbook, lvs[k], (k + 1) as usize, lvs[k + 1])
    &&& {
        let last_k = lvs.len() - 1;
        let i = last_k + 1;
        let lv = lvs[last_k as int];
        if i < lv.monsters.len() {
            r is Some && cast_post(
                mbook,
                CasterRef::Monster(i as usize),
                lv_get_spell(lv, CasterRef::Monster(i as usize)),
                lv,
                r,
                lv_end,
            )
        } else {
            r is None && lv_end == lv
        }
    }
}

/// What one full turn does: the player's cast, and if it succeeds, the
/// player's regeneration and then every other roster entry's cast in
/// ascending index order.  A player fault aborts the whole turn — no
/// regeneration, no monster casts.  The first monster fault ends the
/// phase; later monsters do not act.
pub open spec fn turn_post(
    pbook: SpellbookView,
    mbook: SpellbookView,
    spell: Seq<char>,
    lv0: LevelM,
    r: Option<RuntimeFault>,
    lv_end: LevelM,
) -> bool {
    ||| (r is Some && cast_post(pbook, CasterRef::Player, spell, lv0, r, lv_end))
    ||| (exists|lv1: LevelM|
        {
            &&& #[trigger] cast_post(pbook, CasterRef::Player, spell, lv0, None, lv1)
            &&& lv1.monsters.len() == 0
            &&& r is None
            &&& lv_end == lv1
        })
    ||| (exists|lv1: LevelM, lvs: Seq<LevelM>|
        #![trigger cast_post(pbook, CasterRef::Player, spell, lv0, None, lv1),
            monsters_phase(mbook, lvs, r, lv_end)]
        {
            &&& cast_post(pbook, CasterRef::Player, spell, lv0, None, lv1)
            &&& lv1.monsters.len() > 0
            &&& monsters_phase(mbook, lvs, r, lv_end)
            &&& lvs[0] == lv_regen(lv1, 0)
        })
}

/// The register machine: a register bank, the two bounded stacks, and
/// the level it acts on.  Exclusively owned by one engine instance;
/// bank and stacks are reset on every cast boundary, so no state leaks
/// between casts.
pub struct SpellEngine {
    pub registers: Vec<i32>,
    pub stack: Vec<i32>,
    pub call_stack: Vec<usize>,
    pub level: Level,
}

impl SpellEngine {
    /// A fresh engine around `level`, with clean state.
    pub fn new(level: Level) -> (r: SpellEngine)
        ensures
            engine_clean(r),
            r.level == level,
    {
        let mut registers: Vec<i32> = Vec::new();
        let mut i: usize = 0;
        while i < 26
            invariant
                i <= 26,
                registers@.len() == i,
                forall|j: int| 0 <= j < i ==> registers@[j] == 0i32,
            decreases 26 - i,
        {
            registers.push(0);
            i = i + 1;
        }
        let r = SpellEngine { registers, stack: Vec::new(), call_stack: Vec::new(), level };
        proof {
            assert(r.registers@ =~= Seq::new(26, |j: int| 0i32));
        }
        r
    }

    /// Reset the register bank to all zero and empty both stacks.
    fn clear(&mut self)
        ensures
            engine_clean(*final(self)),
            final(self).level == old(self).level,
    {
        let mut registers: Vec<i32> = Vec::new();
        let mut i: usize = 0;
        while i < 26
            invariant
                i <= 26,
                registers@.len() == i,
                forall|j: int| 0 <= j < i ==> registers@[j] == 0i32,
            decreases 26 - i,
        {
            registers.push(0);
            i = i + 1;
        }
        self.registers = registers;
        self.stack.clear();
        self.call_stack.clear();
        proof {
            assert(self.registers@ =~= Seq::new(26, |j: int| 0i32));
        }
    }

    /// One full turn: cast the player's chosen spell; if it faults,
    /// abort the turn and report the fault.  Otherwise regenerate the
    /// player's energy, then let every other roster entry cast the
    /// spell its heuristic chooses, in ascending index order,
    /// regenerating each one's energy only on success, and stop at the
    /// first monster fault.
    #[verifier::rlimit(100)]
    #[verifier::spinoff_prover]
    pub fn do_turn(
        &mut self,
        spell: &str,
        player_spellbook: &Spellbook,
        monster_spellbook: &Spellbook,
    ) -> (r: Option<RuntimeFault>)
        requires
            old(self).level@.wf(),
        ensures
            engine_clean(*final(self)),
            final(self).level@.wf(),
            final(self).level@.terrain == old(self).level@.terrain,
            turn_post(
                player_spellbook@,
                monster_spellbook@,
                spell@,
                old(self).level@,
                r,
                final(self).level@,
            ),
    {
        let ghost lv0: LevelM = self.level@;
        let player_error = self.cast(&CasterRef::Player, player_spellbook, spell);
        if player_error.is_some() {
            return player_error;
        }
        let ghost lv1: LevelM = self.level@;
        if self.level.monsters.len() == 0 {
            proof {
                assert(cast_post(
                    player_spellbook@,
                    CasterRef::Player,
                    spell@,
                    lv0,
                    None,
                    lv1,
                ));
            }
            return None;
        }
        self.level.regen(&CasterRef::Player);
        let ghost phase_start: LevelM = self.level@;
        let ghost mut lvs: Seq<LevelM> = Seq::<LevelM>::empty().push(phase_start);
        let mut index: usize = 1;
        #[verifier::loop_isolation(false)]
        while index < self.level.monsters.len()
            invariant
                1 <= index,
                index as int <= old(self).level@.monsters.len(),
                self.level@.monsters.len() <= old(self).level@.monsters.len(),
                self.level@.wf(),
                self.level@.terrain == lv0.terrain,
                engine_clean(*self),
                lvs.len() == index as int,
                lvs[0] == phase_start,
                lvs.last() == self.level@,
                forall|k: int|
                    0 <= k < lvs.len() - 1 ==> (k + 1) < (#[trigger] lvs[k]).monsters.len()
                        && monster_turn_step(
                        monster_spellbook@,
                        lvs[k],
                        (k + 1) as usize,
                        lvs[k + 1],
                    ),
            decreases old(self).level@.monsters.len() - index,
        {
            let caster_ref = CasterRef::Monster(index);
            let spell_name = self.level.get_spell(&caster_ref);
            let ghost lv_before: LevelM = self.level@;
            let result = self.cast(&caster_ref, monster_spellbook, spell_name);
            match result {
                Some(f) => {
                    proof {
                        assert(cast_post(
                            player_spellbook@,
                            CasterRef::Player,
                            spell@,
                            lv0,
                            None,
                            lv1,
                        ));
                        assert(monsters_phase(
                            monster_spellbook@,
                            lvs,
                            Some(f),
                            self.level@,
                        ));
                    }
                    return Some(f);
                },
                None => {
                    let ghost lv2: LevelM = self.level@;
                    if index < self.level.monsters.len() {
                        self.level.regen(&caster_ref);
                    }
                    proof {
                        assert(monster_turn_step(
                            monster_spellbook@,
                            lv_before,
                            index,
                            self.level@,
                        )) by {
                            assert(cast_post(
                                monster_spellbook@,
                                CasterRef::Monster(index),
                                lv_get_spell(lv_before, CasterRef::Monster(index)),
                                lv_before,
                                None,
                                lv2,
                            ));
                        }
                        lvs = lvs.push(self.level@);
                    }
                    index = index + 1;
                },
            }
        }
        proof {
            assert(cast_post(player_spellbook@, CasterRef::Player, spell@, lv0, None, lv1));
            assert(monsters_phase(monster_spellbook@, lvs, None, self.level@));
        }
        None
    }

    /// Execute the spell named `spell` from `spellbook` for the actor
    /// `caster_ref`.  Register bank and stacks are reset at both cast
    /// boundaries, whatever the outcome; world mutations applied before
    /// a fault persist.
    pub fn cast(&mut self, caster_ref: &CasterRef, spellbook: &Spellbook, spell: &str) -> (r:
        Option<RuntimeFault>)
        requires
            old(self).level@.wf(),
        ensures
            engine_clean(*final(self)),
            final(self).level@.wf(),
            final(self).level@.terrain == old(self).level@.terrain,
            final(self).level@.monsters.len() <= old(self).level@.monsters.len(),
            cast_post(
                spellbook@,
                *caster_ref,
                spell@,
                old(self).level@,
                r,
                final(self).level@,
            ),
    {
        proof {
            reveal(cast_post);
        }
        self.clear();
        proof {
            use_type_invariant(spellbook);
        }
        let entry_opt = spellbook.find_spell(spell);
        let result: Option<RuntimeFault> = match entry_opt {
            None => Some(RuntimeFault::UnknownSpellName),
            Some(entry) => {
                let ok: bool = match caster_ref {
                    CasterRef::Player => self.level.monsters.len() > 0,
                    CasterRef::Monster(i) => *i < self.level.monsters.len(),
                };
                if !ok {
                    Some(RuntimeFault::InvalidCaster)
                } else {
                    self.run(caster_ref, spellbook, entry)
                }
            },
        };
        self.clear();
        result
    }

    /// The dispatch loop: run the machine from `entry` until it halts,
    /// or until the step budget runs out.
    #[verifier::loop_isolation(false)]
    #[verifier::rlimit(100)]
    fn run(&mut self, caster_ref: &CasterRef, spellbook: &Spellbook, entry: usize) -> (r: Option<
        RuntimeFault,
    >)
        requires
            old(self).level@.wf(),
            engine_clean(*old(self)),
            book_wf(spellbook@.commands),
            caster_ok(caster_index(*caster_ref), old(self).level@),
        ensures
            final(self).level@.wf(),
            final(self).level@.terrain == old(self).level@.terrain,
            final(self).level@.monsters.len() <= old(self).level@.monsters.len(),
            ({
                let caster = caster_index(*caster_ref);
                let cfg0 = init_config(entry as int, caster, old(self).level@);
                if halts_within(spellbook@.commands, caster, cfg0, STEP_BUDGET as nat) {
                    exists|n: nat|
                        n <= STEP_BUDGET && iterate(spellbook@.commands, caster, cfg0, n)
                            == StepOut::Halted(r, final(self).level@)
                } else {
                    &&& r == Some(RuntimeFault::BudgetExhausted)
                    &&& iterate(spellbook@.commands, caster, cfg0, STEP_BUDGET as nat) matches
                        StepOut::Running(c) && c.level == final(self).level@
                }
            }),
    {
        let ghost caster: int = caster_index(*caster_ref);
        let ghost cmds: Seq<Command> = spellbook@.commands;
        let ghost init: Config = init_config(entry as int, caster, self.level@);
        let mut ip: usize = entry;
        let mut cursor: AbsoluteLocation = self.level.location(caster_ref);
        let mut outcome: Option<Option<RuntimeFault>> = None;
        let mut fuel: u64 = STEP_BUDGET;
        let ghost mut n: nat = 0;
        proof {
            assert(usize_seq(self.call_stack@) =~= Seq::<int>::empty());
            assert(init =~= (Config {
                pc: ip as int,
                regs: self.registers@,
                stack: self.stack@,
                call_stack: usize_seq(self.call_stack@),
                cursor: cursor,
                level: self.level@,
            }));
        }
        while outcome.is_none() && fuel > 0
            invariant
                self.level@.wf(),
                self.level@.terrain == old(self).level@.terrain,
                self.level@.monsters.len() <= old(self).level@.monsters.len(),
                self.registers@.len() == 26,
                n + fuel == STEP_BUDGET,
                match outcome {
                    None => iterate(cmds, caster, init, n) == StepOut::Running(
                        Config {
                            pc: ip as int,
                            regs: self.registers@,
                            stack: self.stack@,
                            call_stack: usize_seq(self.call_stack@),
                            cursor: cursor,
                            level: self.level@,
                        },
                    ),
                    Some(res) => iterate(cmds, caster, init, n) == StepOut::Halted(
                        res,
                        self.level@,
                    ),
                },
            decreases fuel,
        {
            let ghost prev: Config = Config {
                pc: ip as int,
                regs: self.registers@,
                stack: self.stack@,
                call_stack: usize_seq(self.call_stack@),
                cursor: cursor,
                level: self.level@,
            };
            if ip >= spellbook.len() {
                outcome = Some(Some(RuntimeFault::ProgramCounterOutOfRange));
            } else {
                let cmd = spellbook.command_at(ip);
                proof {
                    assert(cmd_wf(cmds[ip as int]));
                }
                ip = ip + 1;
                match cmd {
                    Command::PushVal(val) => {
                        if self.stack.len() >= STACK_SIZE {
                            outcome = Some(Some(RuntimeFault::StackOverflow));
                        } else {
                            self.stack.push(val);
                        }
                    },
                    Command::PushReg(reg) => {
                        if self.stack.len() >= STACK_SIZE {
                            outcome = Some(Some(RuntimeFault::StackOverflow));
                        } else {
                            let v = self.registers[reg];
                            self.stack.push(v);
                        }
                    },
                    Command::Pop(reg) => {
                        match self.stack.pop() {
                            Some(val) => {
                                self.registers[reg] = val;
                            },
                            None => {
                                outcome = Some(Some(RuntimeFault::StackUnderflow));
                            },
                        }
                    },
                    Command::Copy(src, dest) => {
                        let v = self.registers[src];
                        self.registers[dest] = v;
                    },
                    Command::Store(val, reg) => {
                        self.registers[reg] = val;
                    },
                    Command::Call(target) => {
                        if self.call_stack.len() >= STACK_SIZE {
                            outcome = Some(Some(RuntimeFault::CallStackOverflow));
                        } else {
                            self.call_stack.push(ip);
                            ip = target;
                            proof {
                                assert(usize_seq(self.call_stack@) =~= prev.call_stack.push(
                                    prev.pc + 1,
                                ));
                            }
                        }
                    },
                    Command::Return => {
                        match self.call_stack.pop() {
                            Some(val) => {
                                ip = val;
                                proof {
                                    assert(usize_seq(self.call_stack@) =~= prev.call_stack
                                        .drop_last());
                                    assert(prev.call_stack.last() == val as int);
                                }
                            },
                            None => {
                                outcome = Some(None);
                            },
                        }
                    },
                    Command::Noop => {},
                    Command::Jump(dest) => {
                        if dest < spellbook.len() {
                            ip = dest;
                        } else {
                            outcome = Some(Some(RuntimeFault::InvalidJumpTarget));
                        }
                    },
                    Command::JumpIfGt(a, b, dest) => {
                        if dest < spellbook.len() {
                            // Compares the two operand index values, not
                            // the registers they name; kept deliberately.
                            if a > b {
                                ip = dest;
                            }
                        } else {
                            outcome = Some(Some(RuntimeFault::InvalidJumpTarget));
                        }
                    },
                    Command::Add(a, b, dest) => {
                        let x = self.registers[a];
                        let y = self.registers[b];
                        match x.checked_add(y) {
                            Some(v) => {
                                self.registers[dest] = v;
                            },
                            None => {
                                outcome = Some(Some(RuntimeFault::ArithmeticFault));
                            },
                        }
                    },
                    Command::Mul(a, b, dest) => {
                        let x = self.registers[a];
                        let y = self.registers[b];
                        match x.checked_mul(y) {
                            Some(v) => {
                                self.registers[dest] = v;
                            },
                            None => {
                                outcome = Some(Some(RuntimeFault::ArithmeticFault));
                            },
                        }
                    },
                    Command::Sub(a, b, dest) => {
                        let x = self.registers[a];
                        let y = self.registers[b];
                        match x.checked_sub(y) {
                            Some(v) => {
                                self.registers[dest] = v;
                            },
                            None => {
                                outcome = Some(Some(RuntimeFault::ArithmeticFault));
                            },
                        }
                    },
                    Command::Div(a, b, dest) => {
                        let x = self.registers[a];
                        let y = self.registers[b];
                        match x.checked_div(y) {
                            Some(v) => {
                                self.registers[dest] = v;
                            },
                            None => {
                                outcome = Some(Some(RuntimeFault::ArithmeticFault));
                            },
                        }
                    },
                    Command::Mod(a, b, dest) => {
                        let x = self.registers[a];
                        let y = self.registers[b];
                        match x.checked_rem(y) {
                            Some(v) => {
                                self.registers[dest] = v;
                            },
                            None => {
                                outcome = Some(Some(RuntimeFault::ArithmeticFault));
                            },
                        }
                    },
                    Command::And(a, b, dest) => {
                        let x = self.registers[a];
                        let y = self.registers[b];
                        self.registers[dest] = x & y;
                    },
                    Command::Or(a, b, dest) => {
                        let x = self.registers[a];
                        let y = self.registers[b];
                        self.registers[dest] = x | y;
                    },
                    Command::Xor(a, b, dest) => {
                        let x = self.registers[a];
                        let y = self.registers[b];
                        self.registers[dest] = x ^ y;
                    },
                    Command::Not(a, dest) => {
                        let x = self.registers[a];
                        self.registers[dest] = !x;
                    },
                    Command::PromptDirection => {
                        outcome = Some(Some(RuntimeFault::UnsupportedOperation));
                    },
                    Command::PromptLocation => {
                        outcome = Some(Some(RuntimeFault::UnsupportedOperation));
                    },
                    Command::MoveCursor(direction) => {
                        if !self.caster_exists(caster_ref) {
                            outcome = Some(Some(RuntimeFault::InvalidCaster));
                        } else {
                            let me = self.level.location(caster_ref);
                            match self.level.reify_location(direction.location(), &me) {
                                Some(loc) => {
                                    if self.level.cast(caster_ref, 5) {
                                        cursor = loc;
                                    } else {
                                        outcome = Some(Some(RuntimeFault::InsufficientEnergy));
                                    }
                                },
                                None => {
                                    outcome = Some(Some(RuntimeFault::InvalidLocation));
                                },
                            }
                        }
                    },
                    Command::Damage(register) => {
                        if !self.caster_exists(caster_ref) {
                            outcome = Some(Some(RuntimeFault::InvalidCaster));
                        } else {
                            let energy = i32_to_u32(self.registers[register]);
                            if self.level.is_monster(&cursor) {
                                if self.level.cast(caster_ref, energy) {
                                    self.level.damage(&cursor, energy);
                                } else {
                                    outcome = Some(Some(RuntimeFault::InsufficientEnergy));
                                }
                            } else {
                                outcome = Some(Some(RuntimeFault::NoTargetAtCursor));
                            }
                        }
                    },
                    Command::Move(direction) => {
                        if !self.caster_exists(caster_ref) {
                            outcome = Some(Some(RuntimeFault::InvalidCaster));
                        } else {
                            let me = self.level.location(caster_ref);
                            match self.level.reify_location(direction.location(), &me) {
                                Some(loc) => {
                                    if self.level.is_passable(&loc) && !self.level.is_monster(
                                        &loc,
                                    ) {
                                        if self.level.cast(caster_ref, 10) {
                                            self.level.move_to(caster_ref, loc);
                                        } else {
                                            outcome = Some(
                                                Some(RuntimeFault::InsufficientEnergy),
                                            );
                                        }
                                    } else {
                                        outcome = Some(Some(RuntimeFault::Blocked));
                                    }
                                },
                                None => {
                                    outcome = Some(Some(RuntimeFault::InvalidLocation));
                                },
                            }
                        }
                    },
                    Command::QueryEnergy => {
                        if !self.caster_exists(caster_ref) {
                            outcome = Some(Some(RuntimeFault::InvalidCaster));
                        } else {
                            let e = self.level.get_energy(caster_ref);
                            self.registers[4] = u32_to_i32(e);
                        }
                    },
                    Command::QueryLocationSelf => {
                        if !self.caster_exists(caster_ref) {
                            outcome = Some(Some(RuntimeFault::InvalidCaster));
                        } else {
                            let me = self.level.location(caster_ref);
                            self.registers[23] = usize_to_i32(me.0);
                            self.registers[24] = usize_to_i32(me.1);
                        }
                    },
                    Command::QueryLocationCursor => {
                        self.registers[23] = usize_to_i32(cursor.0);
                        self.registers[24] = usize_to_i32(cursor.1);
                    },
                    Command::QueryValidLocation(x_reg, y_reg) => {
                        let rel = (self.registers[x_reg] as isize, self.registers[y_reg] as isize);
                        let loc = self.level.reify_location(rel, &(0, 0));
                        self.registers[17] = if loc.is_some() {
                            1
                        } else {
                            0
                        };
                    },
                    Command::QueryPassableLocation(x_reg, y_reg) => {
                        let rel = (self.registers[x_reg] as isize, self.registers[y_reg] as isize);
                        let loc = self.level.reify_location(rel, &(0, 0));
                        match loc {
                            Some(l) => {
                                self.registers[17] = if self.level.is_passable(&l) {
                                    1
                                } else {
                                    0
                                };
                            },
                            None => {
                                self.registers[17] = 0;
                            },
                        }
                    },
                    Command::QueryMonsterLocation(x_reg, y_reg) => {
                        let rel = (self.registers[x_reg] as isize, self.registers[y_reg] as isize);
                        let loc = self.level.reify_location(rel, &(0, 0));
                        match loc {
                            Some(l) => {
                                self.registers[17] = if self.level.is_monster(&l) {
                                    1
                                } else {
                                    0
                                };
                            },
                            None => {
                                self.registers[17] = 0;
                            },
                        }
                    },
                }
            }
            fuel = fuel - 1;
            proof {
                n = n + 1;
            }
        }
        match outcome {
            Some(r) => {
                proof {
                    assert(iterate(cmds, caster, init, n) == StepOut::Halted(r, self.level@));
                    assert(halts_within(cmds, caster, init, STEP_BUDGET as nat));
                }
                r
            },
            None => {
                proof {
                    assert(n == STEP_BUDGET);
                    assert(iterate(cmds, caster, init, STEP_BUDGET as nat) is Running);
                    assert(!halts_within(cmds, caster, init, STEP_BUDGET as nat)) by {
                        if halts_within(cmds, caster, init, STEP_BUDGET as nat) {
                            let m = choose|m: nat|
                                m <= STEP_BUDGET && (#[trigger] iterate(cmds, caster, init, m))
                                    is Halted;
                            crate::machine::lemma_iterate_mono(
                                cmds,
                                caster,
                                init,
                                m,
                                STEP_BUDGET as nat,
                            );
                        }
                    }
                }
                Some(RuntimeFault::BudgetExhausted)
            },
        }
    }

    /// Whether the roster entry that `caster_ref` names exists.
    fn caster_exists(&self, caster_ref: &CasterRef) -> (r: bool)
        ensures
            r == caster_ok(caster_index(*caster_ref), self.level@),
    {
        match caster_ref {
            CasterRef::Player => self.level.monsters.len() > 0,
            CasterRef::Monster(i) => *i < self.level.monsters.len(),
        }
    }
}

/// The unsigned 32-bit reading of a register value.
fn i32_to_u32(v: i32) -> (r: u32)
    ensures
        r == u32_of_i32(v),
{
    if v >= 0 {
        v as u32
    } else {
        ((v as i64) + 0x1_0000_0000i64) as u32
    }
}

/// The register image of an energy value.
fn u32_to_i32(v: u32) -> (r: i32)
    ensures
        r == wrap32(v as int),
{
    if v <= 0x7fff_ffff {
        v as i32
    } else {
        ((v as i64) - 0x1_0000_0000i64) as i32
    }
}

/// The register image of a grid coordinate.
fn usize_to_i32(v: usize) -> (r: i32)
    ensures
        r == wrap32(v as int),
{
    let m: u64 = (v as u64) % 0x1_0000_0000u64;
    if m <= 0x7fff_ffff {
        m as i32
    } else {
        ((m as i64) - 0x1_0000_0000i64) as i32
    }
}


/// The built-in spell table sends each of its nine names to its entry
/// address.
pub proof fn lemma_basic_table_lookup()
    ensures
        lookup(basic_table(), "left"@) == Some(0usize),
        lookup(basic_table(), "right"@) == Some(2usize),
        lookup(basic_table(), "up"@) == Some(4usize),
        lookup(basic_table(), "down"@) == Some(6usize),
        lookup(basic_table(), "wait"@) == Some(8usize),
        lookup(basic_table(), "attack_left"@) == Some(9usize),
        lookup(basic_table(), "attack_right"@) == Some(12usize),
        lookup(basic_table(), "attack_up"@) == Some(15usize),
        lookup(basic_table(), "attack_down"@) == Some(18usize),
{
    reveal_strlit("left");
    reveal_strlit("right");
    reveal_strlit("up");
    reveal_strlit("down");
    reveal_strlit("wait");
    reveal_strlit("attack_left");
    reveal_strlit("attack_right");
    reveal_strlit("attack_up");
    reveal_strlit("attack_down");
    let t0 = basic_table();
    let t1 = seq![
        ("right"@, 2usize),
        ("up"@, 4usize),
        ("down"@, 6usize),
        ("wait"@, 8usize),
        ("attack_left"@, 9usize),
        ("attack_right"@, 12usize),
        ("attack_up"@, 15usize),
        ("attack_down"@, 18usize),
    ];
    let t2 = t1.drop_first();
    let t3 = t2.drop_first();
    let t4 = t3.drop_first();
    let t5 = t4.drop_first();
    let t6 = t5.drop_first();
    let t7 = t6.drop_first();
    let t8 = t7.drop_first();
    let t9 = t8.drop_first();
    assert(t0.drop_first() =~= t1);
    assert(t9 =~= Seq::<(Seq<char>, usize)>::empty());
    assert(t1[0] == ("right"@, 2usize));
    assert(t2[0] == ("up"@, 4usize));
    assert(t3[0] == ("down"@, 6usize));
    assert(t4[0] == ("wait"@, 8usize));
    assert(t5[0] == ("attack_left"@, 9usize));
    assert(t6[0] == ("attack_right"@, 12usize));
    assert(t7[0] == ("attack_up"@, 15usize));
    assert(t8[0] == ("attack_down"@, 18usize));
    assert("left"@.len() == 4);
    assert("right"@.len() == 5);
    assert("up"@.len() == 2);
    assert("down"@.len() == 4);
    assert("wait"@.len() == 4);
    assert("attack_left"@.len() == 11);
    assert("attack_right"@.len() == 12);
    assert("attack_up"@.len() == 9);
    assert("attack_down"@.len() == 11);
    assert("left"@[0] == 'l' && "down"@[0] == 'd' && "wait"@[0] == 'w');
    assert("attack_left"@[7] == 'l' && "attack_down"@[7] == 'd');
    assert(t0[0] == ("left"@, 0usize));
    assert(lookup(t0, "left"@) == Some(0usize));
    assert(lookup(t1, "right"@) == Some(2usize));
    assert(lookup(t0, "right"@) == Some(2usize));
    assert(lookup(t2, "up"@) == Some(4usize));
    assert(lookup(t1, "up"@) == Some(4usize));
    assert(lookup(t0, "up"@) == Some(4usize));
    assert(lookup(t3, "down"@) == Some(6usize));
    assert(lookup(t2, "down"@) == Some(6usize));
    assert(lookup(t1, "down"@) == Some(6usize));
    assert(lookup(t0, "down"@) == Some(6usize));
    assert(lookup(t4, "wait"@) == Some(8usize));
    assert(lookup(t3, "wait"@) == Some(8usize));
    assert(lookup(t2, "wait"@) == Some(8usize));
    assert(lookup(t1, "wait"@) == Some(8usize));
    assert(lookup(t0, "wait"@) == Some(8usize));
    assert(lookup(t5, "attack_left"@) == Some(9usize));
    assert(lookup(t4, "attack_left"@) == Some(9usize));
    assert(lookup(t3, "attack_left"@) == Some(9usize));
    assert(lookup(t2, "attack_left"@) == Some(9usize));
    assert(lookup(t1, "attack_left"@) == Some(9usize));
    assert(lookup(t0, "attack_left"@) == Some(9usize));
    assert(lookup(t6, "attack_right"@) == Some(12usize));
    assert(lookup(t5, "attack_right"@) == Some(12usize));
    assert(lookup(t4, "attack_right"@) == Some(12usize));
    assert(lookup(t3, "attack_right"@) == Some(12usize));
    assert(lookup(t2, "attack_right"@) == Some(12usize));
    assert(lookup(t1, "attack_right"@) == Some(12usize));
    assert(lookup(t0, "attack_right"@) == Some(12usize));
    assert(lookup(t7, "attack_up"@) == Some(15usize));
    assert(lookup(t6, "attack_up"@) == Some(15usize));
    assert(lookup(t5, "attack_up"@) == Some(15usize));
    assert(lookup(t4, "attack_up"@) == Some(15usize));
    assert(lookup(t3, "attack_up"@) == Some(15usize));
    assert(lookup(t2, "attack_up"@) == Some(15usize));
    assert(lookup(t1, "attack_up"@) == Some(15usize));
    assert(lookup(t0, "attack_up"@) == Some(15usize));
    assert(lookup(t8, "attack_down"@) == Some(18usize));
    assert(lookup(t7, "attack_down"@) == Some(18usize));
    assert(lookup(t6, "attack_down"@) == Some(18usize));
    assert(lookup(t5, "attack_down"@) == Some(18usize));
    assert(lookup(t4, "attack_down"@) == Some(18usize));
    assert(lookup(t3, "attack_down"@) == Some(18usize));
    assert(lookup(t2, "attack_down"@) == Some(18usize));
    assert(lookup(t1, "attack_down"@) == Some(18usize));
    assert(lookup(t0, "attack_down"@) == Some(18usize));
}

/// Casting `wait` never fails and costs nothing: the machine halts
/// successfully after one step from the `wait` entry of the built-in
/// spellbook, whatever the world and whatever energy anyone has, and
/// leaves the world exactly as it was.
pub proof fn lemma_wait_never_fails(caster: int, lv: LevelM)
    ensures
        lookup(basic_table(), "wait"@) == Some(8usize),
        iterate(basic_commands(), caster, init_config(8, caster, lv), 1) == StepOut::Halted(
            None,
            lv,
        ),
{
    lemma_basic_table_lookup();
    assert(basic_commands().len() == 21);
    assert(basic_commands()[8] == Command::Return);
    let cfg = init_config(8, caster, lv);
    assert(iterate(basic_commands(), caster, cfg, 0) == StepOut::Running(cfg));
    assert(step(basic_commands(), caster, cfg) == StepOut::Halted(None, lv));
    assert(iterate(basic_commands(), caster, cfg, 1) == StepOut::Halted(None, lv));
}

/// From an open interior cell, casting `left` and then `right` from
/// the built-in spellbook returns the actor to its original cell with
/// zero net position change; only its energy pool has paid for the two
/// moves.
#[verifier::rlimit(100)]
pub proof fn lemma_left_right_round_trip(i: int, lv: LevelM)
    requires
        lv.wf(),
        0 <= i < lv.monsters.len(),
        1 <= lv_location(lv, i).0,
        !lv.terrain[lv_location(lv, i).0 - 1][lv_location(lv, i).1 as int].is_wall,
        !lv.terrain[lv_location(lv, i).0 as int][lv_location(lv, i).1 as int].is_wall,
        forall|j: int|
            0 <= j < lv.monsters.len() && j != i ==> (#[trigger] lv.monsters[j]).caster.location
                != ((lv_location(lv, i).0 - 1) as usize, lv_location(lv, i).1)
                && lv.monsters[j].caster.location != lv_location(lv, i),
        20 <= lv_energy(lv, i),
    ensures
        ({
            let there = lv_move_to(
                lv_spend(lv, i, 10),
                i,
                ((lv_location(lv, i).0 - 1) as usize, lv_location(lv, i).1),
            );
            let back = lv_move_to(lv_spend(there, i, 10), i, lv_location(lv, i));
            &&& iterate(basic_commands(), i, init_config(0, i, lv), 2) == StepOut::Halted(
                None,
                there,
            )
            &&& iterate(basic_commands(), i, init_config(2, i, there), 2) == StepOut::Halted(
                None,
                back,
            )
            &&& lv_location(back, i) == lv_location(lv, i)
            &&& lv_energy(back, i) == lv_energy(lv, i) - 20
            &&& back.monsters.len() == lv.monsters.len()
            &&& back.terrain == lv.terrain
        }),
{
    let me = lv_location(lv, i);
    let target = (((me.0 - 1) as usize), me.1);
    let there = lv_move_to(lv_spend(lv, i, 10), i, target);
    let back = lv_move_to(lv_spend(there, i, 10), i, me);
    assert(basic_commands()[0] == Command::Move(Direction::Left));
    assert(basic_commands()[1] == Command::Return);
    assert(basic_commands()[2] == Command::Move(Direction::Right));
    assert(basic_commands()[3] == Command::Return);

    let cfg0 = init_config(0, i, lv);
    assert(basic_commands().len() == 21);
    assert(iterate(basic_commands(), i, cfg0, 0) == StepOut::Running(cfg0));
    assert(reify_spec(crate::utils::dir_delta(Direction::Left), (me.0 as int, me.1 as int))
        == Some(target));
    assert(!lv_is_monster(lv, target)) by {
        if lv_is_monster(lv, target) {
            let j = choose|j: int|
                0 <= j < lv.monsters.len() && (#[trigger] lv.monsters[j]).caster.location
                    == target;
            assert(lv.monsters[j].caster.location == target);
        }
    }
    let c1 = Config { pc: 1, level: there, ..cfg0 };
    assert(step(basic_commands(), i, cfg0) == StepOut::Running(c1));
    assert(iterate(basic_commands(), i, cfg0, 1) == StepOut::Running(c1));
    assert(step(basic_commands(), i, c1) == StepOut::Halted(None, there));
    assert(iterate(basic_commands(), i, cfg0, 2) == StepOut::Halted(None, there));

    let cfg2 = init_config(2, i, there);
    assert(iterate(basic_commands(), i, cfg2, 0) == StepOut::Running(cfg2));
    assert(lv_location(there, i) == target);
    assert(lv_energy(there, i) == lv_energy(lv, i) - 10);
    assert(reify_spec(
        crate::utils::dir_delta(Direction::Right),
        (target.0 as int, target.1 as int),
    ) == Some(me));
    assert(!lv_is_monster(there, me)) by {
        if lv_is_monster(there, me) {
            let j = choose|j: int|
                0 <= j < there.monsters.len() && (#[trigger] there.monsters[j]).caster.location
                    == me;
            assert(there.monsters[j].caster.location == me);
            if j != i {
                assert(there.monsters[j] == lv.monsters[j]);
            }
        }
    }
    assert(lv_is_passable(there, me));
    let c3 = Config { pc: 3, level: back, ..cfg2 };
    assert(step(basic_commands(), i, cfg2) == StepOut::Running(c3));
    assert(iterate(basic_commands(), i, cfg2, 1) == StepOut::Running(c3));
    assert(step(basic_commands(), i, c3) == StepOut::Halted(None, back));
    assert(iterate(basic_commands(), i, cfg2, 2) == StepOut::Halted(None, back));
}

} // verus!
