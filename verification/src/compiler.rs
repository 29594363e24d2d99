//! The assembler: parsing of spell source text and label resolution.
//!
//! Source text is line-oriented: an item is an optional label
//! (`name:`) followed by a statement — a mnemonic with its operands,
//! terminated by `;`.  Operands are registers (single letters `a`–`z`
//! naming registers 0–25), 32-bit signed integer literals, direction
//! names, and `#`-prefixed direction literals (their numeric codes).
//! Whitespace and commas separate tokens.
//!
//! Parsing yields the unlinked form, [`SourceCommand`], whose call and
//! jump targets are symbolic label names.  Label resolution rewrites
//! every target into an absolute instruction index (a label names the
//! instruction it precedes; the first definition of a label wins) and
//! produces a linked [`Spellbook`], which can never hold a symbolic
//! operand.  A label absent from the table is a fatal compile error.

use vstd::prelude::*;

use crate::spells::{book_wf, cmd_wf, lookup, str_eq, table_view, Command, Spellbook};
use crate::utils::{dir_num, Direction};

verus! {

/// How compilation can fail.
#[derive(Clone, Copy, Debug, PartialEq, Eq, Structural)]
pub enum CompileFault {
    /// The source text does not follow the grammar.
    SyntaxError,
    /// A call or jump names a label that is never defined.
    UnresolvedLabel,
}

/// One unlinked instruction: as [`Command`], but call and jump targets
/// are symbolic label names, to be resolved at link time.
#[derive(Clone, Debug, PartialEq, Eq)]
pub enum SourceCommand {
    PushVal(i32),
    PushReg(usize),
    Pop(usize),
    Copy(usize, usize),
    Store(i32, usize),
    Call(String),
    Return,
    Noop,
    Jump(String),
    JumpIfGt(usize, usize, String),
    Add(usize, usize, usize),
    Mul(usize, usize, usize),
    Sub(usize, usize, usize),
    Div(usize, usize, usize),
    Mod(usize, usize, usize),
    And(usize, usize, usize),
    Or(usize, usize, usize),
    Xor(usize, usize, usize),
    Not(usize, usize),
    PromptDirection,
    PromptLocation,
    MoveCursor(Direction),
    Damage(usize),
    Move(Direction),
    QueryEnergy,
    QueryLocationSelf,
    QueryLocationCursor,
    QueryValidLocation(usize, usize),
    QueryPassableLocation(usize, usize),
    QueryMonsterLocation(usize, usize),
}

/// The mathematical form of an unlinked instruction.
pub enum SrcCmd {
    PushVal(int),
    PushReg(int),
    Pop(int),
    Copy(int, int),
    Store(int, int),
    Call(Seq<char>),
    Return,
    Noop,
    Jump(Seq<char>),
    JumpIfGt(int, int, Seq<char>),
    Add(int, int, int),
    Mul(int, int, int),
    Sub(int, int, int),
    Div(int, int, int),
    Mod(int, int, int),
    And(int, int, int),
    Or(int, int, int),
    Xor(int, int, int),
    Not(int, int),
    PromptDirection,
    PromptLocation,
    MoveCursor(Direction),
    Damage(int),
    Move(Direction),
    QueryEnergy,
    QueryLocationSelf,
    QueryLocationCursor,
    QueryValidLocation(int, int),
    QueryPassableLocation(int, int),
    QueryMonsterLocation(int, int),
}

impl View for SourceCommand {
    type V = SrcCmd;

    open spec fn view(&self) -> SrcCmd {
        match self {
            SourceCommand::PushVal(v) => SrcCmd::PushVal(*v as int),
            SourceCommand::PushReg(r) => SrcCmd::PushReg(*r as int),
            SourceCommand::Pop(r) => SrcCmd::Pop(*r as int),
            SourceCommand::Copy(a, b) => SrcCmd::Copy(*a as int, *b as int),
            SourceCommand::Store(v, r) => SrcCmd::Store(*v as int, *r as int),
            SourceCommand::Call(l) => SrcCmd::Call(l@),
            SourceCommand::Return => SrcCmd::Return,
            SourceCommand::Noop => SrcCmd::Noop,
            SourceCommand::Jump(l) => SrcCmd::Jump(l@),
            SourceCommand::JumpIfGt(a, b, l) => SrcCmd::JumpIfGt(*a as int, *b as int, l@),
            SourceCommand::Add(a, b, d) => SrcCmd::Add(*a as int, *b as int, *d as int),
            SourceCommand::Mul(a, b, d) => SrcCmd::Mul(*a as int, *b as int, *d as int),
            SourceCommand::Sub(a, b, d) => SrcCmd::Sub(*a as int, *b as int, *d as int),
            SourceCommand::Div(a, b, d) => SrcCmd::Div(*a as int, *b as int, *d as int),
            SourceCommand::Mod(a, b, d) => SrcCmd::Mod(*a as int, *b as int, *d as int),
            SourceCommand::And(a, b, d) => SrcCmd::And(*a as int, *b as int, *d as int),
            SourceCommand::Or(a, b, d) => SrcCmd::Or(*a as int, *b as int, *d as int),
            SourceCommand::Xor(a, b, d) => SrcCmd::Xor(*a as int, *b as int, *d as int),
            SourceCommand::Not(a, d) => SrcCmd::Not(*a as int, *d as int),
            SourceCommand::PromptDirection => SrcCmd::PromptDirection,
            SourceCommand::PromptLocation => SrcCmd::PromptLocation,
            SourceCommand::MoveCursor(d) => SrcCmd::MoveCursor(*d),
            SourceCommand::Damage(r) => SrcCmd::Damage(*r as int),
            SourceCommand::Move(d) => SrcCmd::Move(*d),
            SourceCommand::QueryEnergy => SrcCmd::QueryEnergy,
            SourceCommand::QueryLocationSelf => SrcCmd::QueryLocationSelf,
            SourceCommand::QueryLocationCursor => SrcCmd::QueryLocationCursor,
            SourceCommand::QueryValidLocation(x, y) => SrcCmd::QueryValidLocation(
                *x as int,
                *y as int,
            ),
            SourceCommand::QueryPassableLocation(x, y) => SrcCmd::QueryPassableLocation(
                *x as int,
                *y as int,
            ),
            SourceCommand::QueryMonsterLocation(x, y) => SrcCmd::QueryMonsterLocation(
                *x as int,
                *y as int,
            ),
        }
    }
}

/// One parsed item: an optional label bound to the instruction that
/// follows it.
#[derive(Clone, Debug, PartialEq, Eq)]
pub struct SourceItem {
    pub label: Option<String>,
    pub cmd: SourceCommand,
}

/// The mathematical form of a parsed item.
pub struct SrcItem {
    pub label: Option<Seq<char>>,
    pub cmd: SrcCmd,
}

impl View for SourceItem {
    type V = SrcItem;

    open spec fn view(&self) -> SrcItem {
        SrcItem {
            label: match &self.label {
                Some(l) => Some(l@),
                None => None,
            },
            cmd: self.cmd@,
        }
    }
}

/// The mathematical form of a parsed program.
pub open spec fn items_view(items: Seq<SourceItem>) -> Seq<SrcItem> {
    items.map_values(|it: SourceItem| it@)
}

/// Every register operand of the unlinked instruction names one of the
/// 26 registers.
pub open spec fn src_cmd_wf(c: SrcCmd) -> bool {
    match c {
        SrcCmd::PushReg(r) => 0 <= r < 26,
        SrcCmd::Pop(r) => 0 <= r < 26,
        SrcCmd::Copy(a, b) => 0 <= a < 26 && 0 <= b < 26,
        SrcCmd::Store(_, r) => 0 <= r < 26,
        SrcCmd::JumpIfGt(a, b, _) => 0 <= a < 26 && 0 <= b < 26,
        SrcCmd::Add(a, b, d) => 0 <= a < 26 && 0 <= b < 26 && 0 <= d < 26,
        SrcCmd::Mul(a, b, d) => 0 <= a < 26 && 0 <= b < 26 && 0 <= d < 26,
        SrcCmd::Sub(a, b, d) => 0 <= a < 26 && 0 <= b < 26 && 0 <= d < 26,
        SrcCmd::Div(a, b, d) => 0 <= a < 26 && 0 <= b < 26 && 0 <= d < 26,
        SrcCmd::Mod(a, b, d) => 0 <= a < 26 && 0 <= b < 26 && 0 <= d < 26,
        SrcCmd::And(a, b, d) => 0 <= a < 26 && 0 <= b < 26 && 0 <= d < 26,
        SrcCmd::Or(a, b, d) => 0 <= a < 26 && 0 <= b < 26 && 0 <= d < 26,
        SrcCmd::Xor(a, b, d) => 0 <= a < 26 && 0 <= b < 26 && 0 <= d < 26,
        SrcCmd::Not(a, d) => 0 <= a < 26 && 0 <= d < 26,
        SrcCmd::Damage(r) => 0 <= r < 26,
        SrcCmd::QueryValidLocation(x, y) => 0 <= x < 26 && 0 <= y < 26,
        SrcCmd::QueryPassableLocation(x, y) => 0 <= x < 26 && 0 <= y < 26,
        SrcCmd::QueryMonsterLocation(x, y) => 0 <= x < 26 && 0 <= y < 26,
        _ => true,
    }
}

/// Every instruction of the unlinked program is well formed.
pub open spec fn src_wf(items: Seq<SrcItem>) -> bool {
    forall|k: int| 0 <= k < items.len() ==> src_cmd_wf((#[trigger] items[k]).cmd)
}

// ---------------------------------------------------------------------
// Label resolution
// ---------------------------------------------------------------------

/// The lowest index at or after `k`, below `upto`, whose item defines
/// label `name` — the first definition wins.
pub open spec fn label_addr_from(
    items: Seq<SrcItem>,
    name: Seq<char>,
    k: int,
    upto: int,
) -> Option<int>
    decreases upto - k,
{
    if k < 0 || k >= upto || k >= items.len() {
        None
    } else if items[k].label == Some(name) {
        Some(k)
    } else {
        label_addr_from(items, name, k + 1, upto)
    }
}

/// The address that label `name` resolves to: the index of the first
/// item that defines it.
pub open spec fn label_addr(items: Seq<SrcItem>, name: Seq<char>) -> Option<int> {
    label_addr_from(items, name, 0, items.len() as int)
}

/// Rewrite one unlinked instruction into its linked form; `None` when a
/// symbolic target is not defined by any item.
pub open spec fn resolve_cmd(c: SrcCmd, items: Seq<SrcItem>) -> Option<Command> {
    match c {
        SrcCmd::PushVal(v) => Some(Command::PushVal(v as i32)),
        SrcCmd::PushReg(r) => Some(Command::PushReg(r as usize)),
        SrcCmd::Pop(r) => Some(Command::Pop(r as usize)),
        SrcCmd::Copy(a, b) => Some(Command::Copy(a as usize, b as usize)),
        SrcCmd::Store(v, r) => Some(Command::Store(v as i32, r as usize)),
        SrcCmd::Call(name) => match label_addr(items, name) {
            Some(a) => Some(Command::Call(a as usize)),
            None => None,
        },
        SrcCmd::Return => Some(Command::Return),
        SrcCmd::Noop => Some(Command::Noop),
        SrcCmd::Jump(name) => match label_addr(items, name) {
            Some(a) => Some(Command::Jump(a as usize)),
            None => None,
        },
        SrcCmd::JumpIfGt(a, b, name) => match label_addr(items, name) {
            Some(t) => Some(Command::JumpIfGt(a as usize, b as usize, t as usize)),
            None => None,
        },
        SrcCmd::Add(a, b, d) => Some(Command::Add(a as usize, b as usize, d as usize)),
        SrcCmd::Mul(a, b, d) => Some(Command::Mul(a as usize, b as usize, d as usize)),
        SrcCmd::Sub(a, b, d) => Some(Command::Sub(a as usize, b as usize, d as usize)),
        SrcCmd::Div(a, b, d) => Some(Command::Div(a as usize, b as usize, d as usize)),
        SrcCmd::Mod(a, b, d) => Some(Command::Mod(a as usize, b as usize, d as usize)),
        SrcCmd::And(a, b, d) => Some(Command::And(a as usize, b as usize, d as usize)),
        SrcCmd::Or(a, b, d) => Some(Command::Or(a as usize, b as usize, d as usize)),
        SrcCmd::Xor(a, b, d) => Some(Command::Xor(a as usize, b as usize, d as usize)),
        SrcCmd::Not(a, d) => Some(Command::Not(a as usize, d as usize)),
        SrcCmd::PromptDirection => Some(Command::PromptDirection),
        SrcCmd::PromptLocation => Some(Command::PromptLocation),
        SrcCmd::MoveCursor(d) => Some(Command::MoveCursor(d)),
        SrcCmd::Damage(r) => Some(Command::Damage(r as usize)),
        SrcCmd::Move(d) => Some(Command::Move(d)),
        SrcCmd::QueryEnergy => Some(Command::QueryEnergy),
        SrcCmd::QueryLocationSelf => Some(Command::QueryLocationSelf),
        SrcCmd::QueryLocationCursor => Some(Command::QueryLocationCursor),
        SrcCmd::QueryValidLocation(x, y) => Some(
            Command::QueryValidLocation(x as usize, y as usize),
        ),
        SrcCmd::QueryPassableLocation(x, y) => Some(
            Command::QueryPassableLocation(x as usize, y as usize),
        ),
        SrcCmd::QueryMonsterLocation(x, y) => Some(
            Command::QueryMonsterLocation(x as usize, y as usize),
        ),
    }
}

/// Label resolution is total: linking succeeds exactly when every
/// symbolic target resolves.
pub open spec fn all_resolve(items: Seq<SrcItem>) -> bool {
    forall|k: int| 0 <= k < items.len() ==> resolve_cmd((#[trigger] items[k]).cmd, items) is Some
}

/// Label resolution is order-independent: the linked form of a program
/// is a function of its instruction sequence and of what address each
/// label name resolves to — not of where the labels stand relative to
/// their uses.  Two programs with the same instructions whose label
/// tables agree (as when labels are moved from after their uses to
/// before them) link to the same instructions.
pub proof fn lemma_link_order_independent(a: Seq<SrcItem>, b: Seq<SrcItem>)
    requires
        a.len() == b.len(),
        forall|k: int| 0 <= k < a.len() ==> (#[trigger] a[k]).cmd == b[k].cmd,
        forall|name: Seq<char>| #[trigger] label_addr(a, name) == label_addr(b, name),
    ensures
        forall|k: int|
            0 <= k < a.len() ==> resolve_cmd((#[trigger] a[k]).cmd, a) == resolve_cmd(
                b[k].cmd,
                b,
            ),
        all_resolve(a) == all_resolve(b),
{
    assert forall|k: int| 0 <= k < a.len() implies resolve_cmd((#[trigger] a[k]).cmd, a)
        == resolve_cmd(b[k].cmd, b) by {
        let c = a[k].cmd;
        match c {
            SrcCmd::Call(name) => {
                assert(label_addr(a, name) == label_addr(b, name));
            },
            SrcCmd::Jump(name) => {
                assert(label_addr(a, name) == label_addr(b, name));
            },
            SrcCmd::JumpIfGt(_, _, name) => {
                assert(label_addr(a, name) == label_addr(b, name));
            },
            _ => {},
        }
    }
    if all_resolve(a) {
        assert forall|k: int| 0 <= k < b.len() implies resolve_cmd(
            (#[trigger] b[k]).cmd,
            b,
        ) is Some by {
            assert(resolve_cmd(a[k].cmd, a) is Some);
        }
    }
    if all_resolve(b) {
        assert forall|k: int| 0 <= k < a.len() implies resolve_cmd(
            (#[trigger] a[k]).cmd,
            a,
        ) is Some by {
            assert(resolve_cmd(b[k].cmd, b) is Some);
        }
    }
}


// ---------------------------------------------------------------------
// The grammar, as functions on character sequences
// ---------------------------------------------------------------------

/// Whitespace, and the comma, separate tokens.
pub open spec fn is_ws_char(c: char) -> bool {
    c == ' ' || c == '\n' || c == '\t' || c == '\r' || c == ','
}

/// A lower-case letter.
pub open spec fn is_lower_char(c: char) -> bool {
    97 <= c as u32 <= 122
}

/// A character that may appear in an identifier.
pub open spec fn is_ident_char(c: char) -> bool {
    is_lower_char(c) || c == '_'
}

/// A decimal digit.
pub open spec fn is_digit_char(c: char) -> bool {
    48 <= c as u32 <= 57
}

/// The first position at or after `i` holding a non-separator.
pub open spec fn skip_ws(s: Seq<char>, i: int) -> int
    decreases s.len() - i,
{
    if i < 0 || i >= s.len() {
        i
    } else if is_ws_char(s[i]) {
        skip_ws(s, i + 1)
    } else {
        i
    }
}

/// The end of the identifier starting at `i`.
pub open spec fn scan_ident(s: Seq<char>, i: int) -> int
    decreases s.len() - i,
{
    if i < 0 || i >= s.len() {
        i
    } else if is_ident_char(s[i]) {
        scan_ident(s, i + 1)
    } else {
        i
    }
}

/// The end of the digit run starting at `i`.
pub open spec fn scan_digits(s: Seq<char>, i: int) -> int
    decreases s.len() - i,
{
    if i < 0 || i >= s.len() {
        i
    } else if is_digit_char(s[i]) {
        scan_digits(s, i + 1)
    } else {
        i
    }
}

/// The decimal value of the digits `s[i..j]`.
pub open spec fn digits_val(s: Seq<char>, i: int, j: int) -> int
    decreases j - i,
{
    if j <= i {
        0
    } else {
        digits_val(s, i, j - 1) * 10 + (s[j - 1] as u32 - 48)
    }
}

/// A register operand: one lower-case letter, `a` naming register 0.
pub open spec fn parse_reg(s: Seq<char>, i: int) -> Option<(int, int)> {
    let j = scan_ident(s, i);
    if 0 <= i < s.len() && j == i + 1 && is_lower_char(s[i]) {
        Some((s[i] as u32 - 97, j))
    } else {
        None
    }
}

/// The direction a name stands for.
pub open spec fn dir_of_name(name: Seq<char>) -> Option<Direction> {
    if name == "left"@ {
        Some(Direction::Left)
    } else if name == "right"@ {
        Some(Direction::Right)
    } else if name == "up"@ {
        Some(Direction::Up)
    } else if name == "down"@ {
        Some(Direction::Down)
    } else if name == "up_left"@ {
        Some(Direction::UpLeft)
    } else if name == "up_right"@ {
        Some(Direction::UpRight)
    } else if name == "down_left"@ {
        Some(Direction::DownLeft)
    } else if name == "down_right"@ {
        Some(Direction::DownRight)
    } else {
        None
    }
}

/// A direction operand: a direction name, optionally prefixed by `#`.
pub open spec fn parse_dir(s: Seq<char>, i: int) -> Option<(Direction, int)> {
    if 0 <= i < s.len() && s[i] == '#' {
        let j = scan_ident(s, i + 1);
        match dir_of_name(s.subrange(i + 1, j)) {
            Some(d) => Some((d, j)),
            None => None,
        }
    } else {
        let j = scan_ident(s, i);
        if 0 <= i && j > i {
            match dir_of_name(s.subrange(i, j)) {
                Some(d) => Some((d, j)),
                None => None,
            }
        } else {
            None
        }
    }
}

/// A 32-bit signed integer literal: an optional minus sign and at
/// least one digit; a value outside the 32-bit range is refused.
pub open spec fn parse_int(s: Seq<char>, i: int) -> Option<(int, int)> {
    let neg = 0 <= i < s.len() && s[i] == '-';
    let k = if neg {
        i + 1
    } else {
        i
    };
    let j = scan_digits(s, k);
    if j == k {
        None
    } else {
        let m = digits_val(s, k, j);
        let v = if neg {
            -m
        } else {
            m
        };
        if -0x8000_0000 <= v <= 0x7fff_ffff {
            Some((v, j))
        } else {
            None
        }
    }
}

/// A value operand: an integer literal, or a `#`-prefixed direction
/// literal standing for its numeric code.
pub open spec fn parse_val(s: Seq<char>, i: int) -> Option<(int, int)> {
    if 0 <= i < s.len() && s[i] == '#' {
        let j = scan_ident(s, i + 1);
        match dir_of_name(s.subrange(i + 1, j)) {
            Some(d) => Some((dir_num(d) as int, j)),
            None => None,
        }
    } else {
        parse_int(s, i)
    }
}

/// The statement terminator `;`, after optional separators.
pub open spec fn expect_semi(s: Seq<char>, i: int) -> Option<int> {
    let k = skip_ws(s, i);
    if k < s.len() && s[k] == ';' {
        Some(k + 1)
    } else {
        None
    }
}

/// A register operand after separators.
pub open spec fn parse_r(s: Seq<char>, i: int) -> Option<(int, int)> {
    parse_reg(s, skip_ws(s, i))
}

/// Two register operands.
pub open spec fn parse_rr(s: Seq<char>, i: int) -> Option<((int, int), int)> {
    match parse_r(s, i) {
        Some((a, j)) => match parse_r(s, j) {
            Some((b, l)) => Some(((a, b), l)),
            None => None,
        },
        None => None,
    }
}

/// Three register operands.
pub open spec fn parse_rrr(s: Seq<char>, i: int) -> Option<((int, int, int), int)> {
    match parse_rr(s, i) {
        Some(((a, b), j)) => match parse_r(s, j) {
            Some((d, l)) => Some(((a, b, d), l)),
            None => None,
        },
        None => None,
    }
}

/// A label operand: an identifier after separators.
pub open spec fn parse_label(s: Seq<char>, i: int) -> Option<(Seq<char>, int)> {
    let k = skip_ws(s, i);
    let j = scan_ident(s, k);
    if j > k {
        Some((s.subrange(k, j), j))
    } else {
        None
    }
}

/// A direction operand after separators.
pub open spec fn parse_d(s: Seq<char>, i: int) -> Option<(Direction, int)> {
    parse_dir(s, skip_ws(s, i))
}

/// A value operand after separators.
pub open spec fn parse_v(s: Seq<char>, i: int) -> Option<(int, int)> {
    parse_val(s, skip_ws(s, i))
}

/// The operands and terminator of the statement whose mnemonic is
/// `name`, starting at `i`; yields the unlinked instruction and the
/// position after the `;`.
pub open spec fn parse_stmt_tail(s: Seq<char>, name: Seq<char>, i: int) -> Option<(SrcCmd, int)> {
    if name == "push"@ {
        let k = skip_ws(s, i);
        if k < s.len() && (s[k] == '#' || s[k] == '-' || is_digit_char(s[k])) {
            match parse_val(s, k) {
                Some((v, j)) => match expect_semi(s, j) {
                    Some(e) => Some((SrcCmd::PushVal(v), e)),
                    None => None,
                },
                None => None,
            }
        } else {
            match parse_reg(s, k) {
                Some((r, j)) => match expect_semi(s, j) {
                    Some(e) => Some((SrcCmd::PushReg(r), e)),
                    None => None,
                },
                None => None,
            }
        }
    } else if name == "pop"@ {
        match parse_r(s, i) {
            Some((r, j)) => match expect_semi(s, j) {
                Some(e) => Some((SrcCmd::Pop(r), e)),
                None => None,
            },
            None => None,
        }
    } else if name == "copy"@ {
        match parse_rr(s, i) {
            Some(((a, b), j)) => match expect_semi(s, j) {
                Some(e) => Some((SrcCmd::Copy(a, b), e)),
                None => None,
            },
            None => None,
        }
    } else if name == "store"@ {
        match parse_v(s, i) {
            Some((v, j)) => match parse_r(s, j) {
                Some((r, l)) => match expect_semi(s, l) {
                    Some(e) => Some((SrcCmd::Store(v, r), e)),
                    None => None,
                },
                None => None,
            },
            None => None,
        }
    } else if name == "call"@ {
        match parse_label(s, i) {
            Some((l, j)) => match expect_semi(s, j) {
                Some(e) => Some((SrcCmd::Call(l), e)),
                None => None,
            },
            None => None,
        }
    } else if name == "return"@ {
        match expect_semi(s, i) {
            Some(e) => Some((SrcCmd::Return, e)),
            None => None,
        }
    } else if name == "noop"@ {
        match expect_semi(s, i) {
            Some(e) => Some((SrcCmd::Noop, e)),
            None => None,
        }
    } else if name == "jump"@ {
        match parse_label(s, i) {
            Some((l, j)) => match expect_semi(s, j) {
                Some(e) => Some((SrcCmd::Jump(l), e)),
                None => None,
            },
            None => None,
        }
    } else if name == "jumpifgt"@ {
        match parse_rr(s, i) {
            Some(((a, b), j)) => match parse_label(s, j) {
                Some((l, m)) => match expect_semi(s, m) {
                    Some(e) => Some((SrcCmd::JumpIfGt(a, b, l), e)),
                    None => None,
                },
                None => None,
            },
            None => None,
        }
    } else if name == "add"@ {
        match parse_rrr(s, i) {
            Some(((a, b, d), j)) => match expect_semi(s, j) {
                Some(e) => Some((SrcCmd::Add(a, b, d), e)),
                None => None,
            },
            None => None,
        }
    } else if name == "mul"@ {
        match parse_rrr(s, i) {
            Some(((a, b, d), j)) => match expect_semi(s, j) {
                Some(e) => Some((SrcCmd::Mul(a, b, d), e)),
                None => None,
            },
            None => None,
        }
    } else if name == "sub"@ {
        match parse_rrr(s, i) {
            Some(((a, b, d), j)) => match expect_semi(s, j) {
                Some(e) => Some((SrcCmd::Sub(a, b, d), e)),
                None => None,
            },
            None => None,
        }
    } else if name == "div"@ {
        match parse_rrr(s, i) {
            Some(((a, b, d), j)) => match expect_semi(s, j) {
                Some(e) => Some((SrcCmd::Div(a, b, d), e)),
                None => None,
            },
            None => None,
        }
    } else if name == "mod"@ {
        match parse_rrr(s, i) {
            Some(((a, b, d), j)) => match expect_semi(s, j) {
                Some(e) => Some((SrcCmd::Mod(a, b, d), e)),
                None => None,
            },
            None => None,
        }
    } else if name == "and"@ {
        match parse_rrr(s, i) {
            Some(((a, b, d), j)) => match expect_semi(s, j) {
                Some(e) => Some((SrcCmd::And(a, b, d), e)),
                None => None,
            },
            None => None,
        }
    } else if name == "or"@ {
        match parse_rrr(s, i) {
            Some(((a, b, d), j)) => match expect_semi(s, j) {
                Some(e) => Some((SrcCmd::Or(a, b, d), e)),
                None => None,
            },
            None => None,
        }
    } else if name == "xor"@ {
        match parse_rrr(s, i) {
            Some(((a, b, d), j)) => match expect_semi(s, j) {
                Some(e) => Some((SrcCmd::Xor(a, b, d), e)),
                None => None,
            },
            None => None,
        }
    } else if name == "not"@ {
        match parse_rr(s, i) {
            Some(((a, d), j)) => match expect_semi(s, j) {
                Some(e) => Some((SrcCmd::Not(a, d), e)),
                None => None,
            },
            None => None,
        }
    } else if name == "prompt_direction"@ {
        match expect_semi(s, i) {
            Some(e) => Some((SrcCmd::PromptDirection, e)),
            None => None,
        }
    } else if name == "prompt_location"@ {
        match expect_semi(s, i) {
            Some(e) => Some((SrcCmd::PromptLocation, e)),
            None => None,
        }
    } else if name == "move_cursor"@ {
        match parse_d(s, i) {
            Some((d, j)) => match expect_semi(s, j) {
                Some(e) => Some((SrcCmd::MoveCursor(d), e)),
                None => None,
            },
            None => None,
        }
    } else if name == "damage"@ {
        match parse_r(s, i) {
            Some((r, j)) => match expect_semi(s, j) {
                Some(e) => Some((SrcCmd::Damage(r), e)),
                None => None,
            },
            None => None,
        }
    } else if name == "move"@ {
        match parse_d(s, i) {
            Some((d, j)) => match expect_semi(s, j) {
                Some(e) => Some((SrcCmd::Move(d), e)),
                None => None,
            },
            None => None,
        }
    } else if name == "query_energy"@ {
        match expect_semi(s, i) {
            Some(e) => Some((SrcCmd::QueryEnergy, e)),
            None => None,
        }
    } else if name == "query_location_self"@ {
        match expect_semi(s, i) {
            Some(e) => Some((SrcCmd::QueryLocationSelf, e)),
            None => None,
        }
    } else if name == "query_location_cursor"@ {
        match expect_semi(s, i) {
            Some(e) => Some((SrcCmd::QueryLocationCursor, e)),
            None => None,
        }
    } else if name == "query_valid_location"@ {
        match parse_rr(s, i) {
            Some(((x, y), j)) => match expect_semi(s, j) {
                Some(e) => Some((SrcCmd::QueryValidLocation(x, y), e)),
                None => None,
            },
            None => None,
        }
    } else if name == "query_passable_location"@ {
        match parse_rr(s, i) {
            Some(((x, y), j)) => match expect_semi(s, j) {
                Some(e) => Some((SrcCmd::QueryPassableLocation(x, y), e)),
                None => None,
            },
            None => None,
        }
    } else if name == "query_monster_location"@ {
        match parse_rr(s, i) {
            Some(((x, y), j)) => match expect_semi(s, j) {
                Some(e) => Some((SrcCmd::QueryMonsterLocation(x, y), e)),
                None => None,
            },
            None => None,
        }
    } else {
        None
    }
}

/// One item, starting at the non-separator position `i`: an optional
/// label (an identifier followed by `:`) and a statement.
pub open spec fn parse_item(s: Seq<char>, i: int) -> Option<(SrcItem, int)> {
    let j = scan_ident(s, i);
    if j == i {
        None
    } else {
        let name = s.subrange(i, j);
        let k = skip_ws(s, j);
        if k < s.len() && s[k] == ':' {
            let m = skip_ws(s, k + 1);
            let j2 = scan_ident(s, m);
            if j2 == m {
                None
            } else {
                match parse_stmt_tail(s, s.subrange(m, j2), j2) {
                    Some((cmd, e)) => Some((SrcItem { label: Some(name), cmd }, e)),
                    None => None,
                }
            }
        } else {
            match parse_stmt_tail(s, name, j) {
                Some((cmd, e)) => Some((SrcItem { label: None, cmd }, e)),
                None => None,
            }
        }
    }
}

/// The items of the program from position `i` on, with at most `fuel`
/// items remaining; `s.len() + 1` fuel always suffices, every item
/// consuming at least one character.
pub open spec fn parse_program_from(s: Seq<char>, i: int, fuel: nat) -> Option<Seq<SrcItem>>
    decreases fuel,
{
    if fuel == 0 {
        None
    } else {
        let k = skip_ws(s, i);
        if k >= s.len() {
            Some(Seq::empty())
        } else {
            match parse_item(s, k) {
                Some((item, j)) => match parse_program_from(s, j, (fuel - 1) as nat) {
                    Some(rest) => Some(seq![item] + rest),
                    None => None,
                },
                None => None,
            }
        }
    }
}

/// The parse of a whole source text: its items in order, or `None`
/// when the text does not follow the grammar.
pub open spec fn parse_program(s: Seq<char>) -> Option<Seq<SrcItem>> {
    parse_program_from(s, 0, (s.len() + 1) as nat)
}


// ---------------------------------------------------------------------
// The executable parser
// ---------------------------------------------------------------------

/// Whitespace or comma.
fn is_ws_exec(c: char) -> (b: bool)
    ensures
        b == is_ws_char(c),
{
    c == ' ' || c == '\n' || c == '\t' || c == '\r' || c == ','
}

/// Identifier character.
fn is_ident_exec(c: char) -> (b: bool)
    ensures
        b == is_ident_char(c),
{
    let u = c as u32;
    (97 <= u && u <= 122) || c == '_'
}

/// Decimal digit.
fn is_digit_exec(c: char) -> (b: bool)
    ensures
        b == is_digit_char(c),
{
    let u = c as u32;
    48 <= u && u <= 57
}

/// First non-separator position at or after `i`.
fn skip_ws_exec(s: &str, i: usize) -> (r: usize)
    requires
        i <= s@.len(),
    ensures
        r as int == skip_ws(s@, i as int),
        i <= r <= s@.len(),
{
    let len = s.unicode_len();
    let mut p = i;
    while p < len && is_ws_exec(s.get_char(p))
        invariant
            i <= p <= len,
            len == s@.len(),
            skip_ws(s@, i as int) == skip_ws(s@, p as int),
        decreases len - p,
    {
        p = p + 1;
    }
    p
}

/// End of the identifier starting at `i`.
fn scan_ident_exec(s: &str, i: usize) -> (r: usize)
    requires
        i <= s@.len(),
    ensures
        r as int == scan_ident(s@, i as int),
        i <= r <= s@.len(),
{
    let len = s.unicode_len();
    let mut p = i;
    while p < len && is_ident_exec(s.get_char(p))
        invariant
            i <= p <= len,
            len == s@.len(),
            scan_ident(s@, i as int) == scan_ident(s@, p as int),
        decreases len - p,
    {
        p = p + 1;
    }
    p
}

/// End of the digit run starting at `i`.
fn scan_digits_exec(s: &str, i: usize) -> (r: usize)
    requires
        i <= s@.len(),
    ensures
        r as int == scan_digits(s@, i as int),
        i <= r <= s@.len(),
{
    let len = s.unicode_len();
    let mut p = i;
    while p < len && is_digit_exec(s.get_char(p))
        invariant
            i <= p <= len,
            len == s@.len(),
            scan_digits(s@, i as int) == scan_digits(s@, p as int),
        decreases len - p,
    {
        p = p + 1;
    }
    p
}

/// Every character of the digit run is a digit.
proof fn lemma_scan_digits_chars(s: Seq<char>, i: int, m: int)
    requires
        0 <= i <= m < scan_digits(s, i),
    ensures
        is_digit_char(s[m]),
    decreases m - i,
{
    if i < m {
        lemma_scan_digits_chars(s, i + 1, m);
    }
}

/// The digit run ends within the sequence.
proof fn lemma_scan_digits_le(s: Seq<char>, i: int)
    requires
        0 <= i <= s.len(),
    ensures
        i <= scan_digits(s, i) <= s.len(),
    decreases s.len() - i,
{
    if i < s.len() && is_digit_char(s[i]) {
        lemma_scan_digits_le(s, i + 1);
    }
}

/// A decimal reading is never negative.
proof fn lemma_digits_val_nonneg(s: Seq<char>, i: int, j: int)
    requires
        forall|m: int| i <= m < j ==> is_digit_char(s[m]),
    ensures
        digits_val(s, i, j) >= 0,
    decreases j - i,
{
    if j > i {
        lemma_digits_val_nonneg(s, i, j - 1);
    }
}

/// A register operand.
fn parse_reg_exec(s: &str, i: usize) -> (r: Option<(usize, usize)>)
    requires
        i <= s@.len(),
    ensures
        match r {
            Some((reg, j)) => parse_reg(s@, i as int) == Some((reg as int, j as int)) && reg < 26
                && i < j <= s@.len(),
            None => parse_reg(s@, i as int) is None,
        },
{
    let j = scan_ident_exec(s, i);
    if i < j && j == i + 1 {
        let u = s.get_char(i) as u32;
        if 97 <= u && u <= 122 {
            Some(((u - 97) as usize, j))
        } else {
            None
        }
    } else {
        None
    }
}

/// The direction a name stands for.
fn dir_of_name_exec(name: &str) -> (r: Option<Direction>)
    ensures
        r == dir_of_name(name@),
{
    if str_eq(name, "left") {
        Some(Direction::Left)
    } else if str_eq(name, "right") {
        Some(Direction::Right)
    } else if str_eq(name, "up") {
        Some(Direction::Up)
    } else if str_eq(name, "down") {
        Some(Direction::Down)
    } else if str_eq(name, "up_left") {
        Some(Direction::UpLeft)
    } else if str_eq(name, "up_right") {
        Some(Direction::UpRight)
    } else if str_eq(name, "down_left") {
        Some(Direction::DownLeft)
    } else if str_eq(name, "down_right") {
        Some(Direction::DownRight)
    } else {
        None
    }
}

/// A direction operand.
fn parse_dir_exec(s: &str, i: usize) -> (r: Option<(Direction, usize)>)
    requires
        i <= s@.len(),
    ensures
        match r {
            Some((d, j)) => parse_dir(s@, i as int) == Some((d, j as int)) && i < j <= s@.len(),
            None => parse_dir(s@, i as int) is None,
        },
{
    let len = s.unicode_len();
    if i < len && s.get_char(i) == '#' {
        let j = scan_ident_exec(s, i + 1);
        let name = s.substring_char(i + 1, j);
        match dir_of_name_exec(name) {
            Some(d) => Some((d, j)),
            None => None,
        }
    } else {
        let j = scan_ident_exec(s, i);
        if j > i {
            let name = s.substring_char(i, j);
            match dir_of_name_exec(name) {
                Some(d) => Some((d, j)),
                None => None,
            }
        } else {
            None
        }
    }
}

/// A 32-bit signed integer literal.
#[verifier::loop_isolation(false)]
fn parse_int_exec(s: &str, i: usize) -> (r: Option<(i32, usize)>)
    requires
        i <= s@.len(),
    ensures
        match r {
            Some((v, j)) => parse_int(s@, i as int) == Some((v as int, j as int)) && i < j
                <= s@.len(),
            None => parse_int(s@, i as int) is None,
        },
{
    let len = s.unicode_len();
    let neg = i < len && s.get_char(i) == '-';
    let k = if neg {
        i + 1
    } else {
        i
    };
    let j = scan_digits_exec(s, k);
    if j == k {
        return None;
    }
    proof {
        assert forall|m: int| k <= m < j implies is_digit_char(s@[m]) by {
            lemma_scan_digits_chars(s@, k as int, m);
        }
        lemma_digits_val_nonneg(s@, k as int, j as int);
    }
    let mut acc: u64 = 0;
    let mut p = k;
    while p < j
        invariant
            k <= p <= j,
            (acc as int == digits_val(s@, k as int, p as int) && digits_val(
                s@,
                k as int,
                p as int,
            ) < 0x1_0000_0000) || (acc == 0x1_0000_0000u64 && digits_val(s@, k as int, p as int)
                >= 0x1_0000_0000),
        decreases j - p,
    {
        let d = (s.get_char(p) as u32 - 48) as u64;
        proof {
            lemma_digits_val_nonneg(s@, k as int, p as int);
            assert(digits_val(s@, k as int, p as int + 1) == digits_val(s@, k as int, p as int)
                * 10 + d);
            if digits_val(s@, k as int, p as int) >= 0x1_0000_0000 {
                assert(digits_val(s@, k as int, p as int) * 10 + d >= 0x1_0000_0000) by (
                nonlinear_arith)
                    requires
                        digits_val(s@, k as int, p as int) >= 0x1_0000_0000,
                        d >= 0,
                ;
            }
        }
        let sum = acc * 10 + d;
        acc = if sum > 0x1_0000_0000u64 {
            0x1_0000_0000u64
        } else {
            sum
        };
        p = p + 1;
    }
    let limit: u64 = if neg {
        0x8000_0000
    } else {
        0x7fff_ffff
    };
    if acc > limit {
        return None;
    }
    let v: i32 = if neg {
        (-(acc as i64)) as i32
    } else {
        acc as i32
    };
    Some((v, j))
}

/// A value operand: integer literal or `#`-direction literal.
fn parse_val_exec(s: &str, i: usize) -> (r: Option<(i32, usize)>)
    requires
        i <= s@.len(),
    ensures
        match r {
            Some((v, j)) => parse_val(s@, i as int) == Some((v as int, j as int)) && i < j
                <= s@.len(),
            None => parse_val(s@, i as int) is None,
        },
{
    let len = s.unicode_len();
    if i < len && s.get_char(i) == '#' {
        let j = scan_ident_exec(s, i + 1);
        let name = s.substring_char(i + 1, j);
        match dir_of_name_exec(name) {
            Some(d) => Some((d.to_num(), j)),
            None => None,
        }
    } else {
        parse_int_exec(s, i)
    }
}

/// The statement terminator.
fn expect_semi_exec(s: &str, i: usize) -> (r: Option<usize>)
    requires
        i <= s@.len(),
    ensures
        match r {
            Some(e) => expect_semi(s@, i as int) == Some(e as int) && i < e <= s@.len(),
            None => expect_semi(s@, i as int) is None,
        },
{
    let k = skip_ws_exec(s, i);
    let len = s.unicode_len();
    if k < len && s.get_char(k) == ';' {
        Some(k + 1)
    } else {
        None
    }
}

/// A register operand after separators.
fn parse_r_exec(s: &str, i: usize) -> (r: Option<(usize, usize)>)
    requires
        i <= s@.len(),
    ensures
        match r {
            Some((reg, j)) => parse_r(s@, i as int) == Some((reg as int, j as int)) && reg < 26
                && i <= j <= s@.len(),
            None => parse_r(s@, i as int) is None,
        },
{
    let k = skip_ws_exec(s, i);
    parse_reg_exec(s, k)
}

/// Two register operands.
fn parse_rr_exec(s: &str, i: usize) -> (r: Option<((usize, usize), usize)>)
    requires
        i <= s@.len(),
    ensures
        match r {
            Some(((a, b), j)) => parse_rr(s@, i as int) == Some(((a as int, b as int), j as int))
                && a < 26 && b < 26 && i <= j <= s@.len(),
            None => parse_rr(s@, i as int) is None,
        },
{
    match parse_r_exec(s, i) {
        Some((a, j)) => match parse_r_exec(s, j) {
            Some((b, l)) => Some(((a, b), l)),
            None => None,
        },
        None => None,
    }
}

/// Three register operands.
fn parse_rrr_exec(s: &str, i: usize) -> (r: Option<((usize, usize, usize), usize)>)
    requires
        i <= s@.len(),
    ensures
        match r {
            Some(((a, b, d), j)) => parse_rrr(s@, i as int) == Some(
                ((a as int, b as int, d as int), j as int),
            ) && a < 26 && b < 26 && d < 26 && i <= j <= s@.len(),
            None => parse_rrr(s@, i as int) is None,
        },
{
    match parse_rr_exec(s, i) {
        Some(((a, b), j)) => match parse_r_exec(s, j) {
            Some((d, l)) => Some(((a, b, d), l)),
            None => None,
        },
        None => None,
    }
}

/// A label operand.
fn parse_label_exec(s: &str, i: usize) -> (r: Option<(String, usize)>)
    requires
        i <= s@.len(),
    ensures
        match r {
            Some((l, j)) => parse_label(s@, i as int) == Some((l@, j as int)) && i <= j
                <= s@.len(),
            None => parse_label(s@, i as int) is None,
        },
{
    let k = skip_ws_exec(s, i);
    let j = scan_ident_exec(s, k);
    if j > k {
        Some((s.substring_char(k, j).to_owned(), j))
    } else {
        None
    }
}

/// A direction operand after separators.
fn parse_d_exec(s: &str, i: usize) -> (r: Option<(Direction, usize)>)
    requires
        i <= s@.len(),
    ensures
        match r {
            Some((d, j)) => parse_d(s@, i as int) == Some((d, j as int)) && i <= j <= s@.len(),
            None => parse_d(s@, i as int) is None,
        },
{
    let k = skip_ws_exec(s, i);
    parse_dir_exec(s, k)
}

/// A value operand after separators.
fn parse_v_exec(s: &str, i: usize) -> (r: Option<(i32, usize)>)
    requires
        i <= s@.len(),
    ensures
        match r {
            Some((v, j)) => parse_v(s@, i as int) == Some((v as int, j as int)) && i <= j
                <= s@.len(),
            None => parse_v(s@, i as int) is None,
        },
{
    let k = skip_ws_exec(s, i);
    parse_val_exec(s, k)
}


/// The operands and terminator of the statement whose mnemonic is
/// `name`.
#[verifier::rlimit(60)]
fn parse_stmt_tail_exec(s: &str, name: &str, i: usize) -> (r: Option<(SourceCommand, usize)>)
    requires
        i <= s@.len(),
    ensures
        match r {
            Some((c, j)) => parse_stmt_tail(s@, name@, i as int) == Some((c@, j as int)) && j
                <= s@.len(),
            None => parse_stmt_tail(s@, name@, i as int) is None,
        },
{
    if str_eq(name, "push") {
        let k = skip_ws_exec(s, i);
        let len = s.unicode_len();
        let headed = k < len && {
            let c = s.get_char(k);
            c == '#' || c == '-' || is_digit_exec(c)
        };
        if headed {
            match parse_val_exec(s, k) {
                Some((v, j)) => match expect_semi_exec(s, j) {
                    Some(e) => Some((SourceCommand::PushVal(v), e)),
                    None => None,
                },
                None => None,
            }
        } else {
            match parse_reg_exec(s, k) {
                Some((r, j)) => match expect_semi_exec(s, j) {
                    Some(e) => Some((SourceCommand::PushReg(r), e)),
                    None => None,
                },
                None => None,
            }
        }
    } else if str_eq(name, "pop") {
        match parse_r_exec(s, i) {
            Some((r, j)) => match expect_semi_exec(s, j) {
                Some(e) => Some((SourceCommand::Pop(r), e)),
                None => None,
            },
            None => None,
        }
    } else if str_eq(name, "copy") {
        match parse_rr_exec(s, i) {
            Some(((a, b), j)) => match expect_semi_exec(s, j) {
                Some(e) => Some((SourceCommand::Copy(a, b), e)),
                None => None,
            },
            None => None,
        }
    } else if str_eq(name, "store") {
        match parse_v_exec(s, i) {
            Some((v, j)) => match parse_r_exec(s, j) {
                Some((r, l)) => match expect_semi_exec(s, l) {
                    Some(e) => Some((SourceCommand::Store(v, r), e)),
                    None => None,
                },
                None => None,
            },
            None => None,
        }
    } else if str_eq(name, "call") {
        match parse_label_exec(s, i) {
            Some((l, j)) => match expect_semi_exec(s, j) {
                Some(e) => Some((SourceCommand::Call(l), e)),
                None => None,
            },
            None => None,
        }
    } else if str_eq(name, "return") {
        match expect_semi_exec(s, i) {
            Some(e) => Some((SourceCommand::Return, e)),
            None => None,
        }
    } else if str_eq(name, "noop") {
        match expect_semi_exec(s, i) {
            Some(e) => Some((SourceCommand::Noop, e)),
            None => None,
        }
    } else if str_eq(name, "jump") {
        match parse_label_exec(s, i) {
            Some((l, j)) => match expect_semi_exec(s, j) {
                Some(e) => Some((SourceCommand::Jump(l), e)),
                None => None,
            },
            None => None,
        }
    } else if str_eq(name, "jumpifgt") {
        match parse_rr_exec(s, i) {
            Some(((a, b), j)) => match parse_label_exec(s, j) {
                Some((l, m)) => match expect_semi_exec(s, m) {
                    Some(e) => Some((SourceCommand::JumpIfGt(a, b, l), e)),
                    None => None,
                },
                None => None,
            },
            None => None,
        }
    } else if str_eq(name, "add") {
        match parse_rrr_exec(s, i) {
            Some(((a, b, d), j)) => match expect_semi_exec(s, j) {
                Some(e) => Some((SourceCommand::Add(a, b, d), e)),
                None => None,
            },
            None => None,
        }
    } else if str_eq(name, "mul") {
        match parse_rrr_exec(s, i) {
            Some(((a, b, d), j)) => match expect_semi_exec(s, j) {
                Some(e) => Some((SourceCommand::Mul(a, b, d), e)),
                None => None,
            },
            None => None,
        }
    } else if str_eq(name, "sub") {
        match parse_rrr_exec(s, i) {
            Some(((a, b, d), j)) => match expect_semi_exec(s, j) {
                Some(e) => Some((SourceCommand::Sub(a, b, d), e)),
                None => None,
            },
            None => None,
        }
    } else if str_eq(name, "div") {
        match parse_rrr_exec(s, i) {
            Some(((a, b, d), j)) => match expect_semi_exec(s, j) {
                Some(e) => Some((SourceCommand::Div(a, b, d), e)),
                None => None,
            },
            None => None,
        }
    } else if str_eq(name, "mod") {
        match parse_rrr_exec(s, i) {
            Some(((a, b, d), j)) => match expect_semi_exec(s, j) {
                Some(e) => Some((SourceCommand::Mod(a, b, d), e)),
                None => None,
            },
            None => None,
        }
    } else if str_eq(name, "and") {
        match parse_rrr_exec(s, i) {
            Some(((a, b, d), j)) => match expect_semi_exec(s, j) {
                Some(e) => Some((SourceCommand::And(a, b, d), e)),
                None => None,
            },
            None => None,
        }
    } else if str_eq(name, "or") {
        match parse_rrr_exec(s, i) {
            Some(((a, b, d), j)) => match expect_semi_exec(s, j) {
                Some(e) => Some((SourceCommand::Or(a, b, d), e)),
                None => None,
            },
            None => None,
        }
    } else if str_eq(name, "xor") {
        match parse_rrr_exec(s, i) {
            Some(((a, b, d), j)) => match expect_semi_exec(s, j) {
                Some(e) => Some((SourceCommand::Xor(a, b, d), e)),
                None => None,
            },
            None => None,
        }
    } else if str_eq(name, "not") {
        match parse_rr_exec(s, i) {
            Some(((a, d), j)) => match expect_semi_exec(s, j) {
                Some(e) => Some((SourceCommand::Not(a, d), e)),
                None => None,
            },
            None => None,
        }
    } else if str_eq(name, "prompt_direction") {
        match expect_semi_exec(s, i) {
            Some(e) => Some((SourceCommand::PromptDirection, e)),
            None => None,
        }
    } else if str_eq(name, "prompt_location") {
        match expect_semi_exec(s, i) {
            Some(e) => Some((SourceCommand::PromptLocation, e)),
            None => None,
        }
    } else if str_eq(name, "move_cursor") {
        match parse_d_exec(s, i) {
            Some((d, j)) => match expect_semi_exec(s, j) {
                Some(e) => Some((SourceCommand::MoveCursor(d), e)),
                None => None,
            },
            None => None,
        }
    } else if str_eq(name, "damage") {
        match parse_r_exec(s, i) {
            Some((r, j)) => match expect_semi_exec(s, j) {
                Some(e) => Some((SourceCommand::Damage(r), e)),
                None => None,
            },
            None => None,
        }
    } else if str_eq(name, "move") {
        match parse_d_exec(s, i) {
            Some((d, j)) => match expect_semi_exec(s, j) {
                Some(e) => Some((SourceCommand::Move(d), e)),
                None => None,
            },
            None => None,
        }
    } else if str_eq(name, "query_energy") {
        match expect_semi_exec(s, i) {
            Some(e) => Some((SourceCommand::QueryEnergy, e)),
            None => None,
        }
    } else if str_eq(name, "query_location_self") {
        match expect_semi_exec(s, i) {
            Some(e) => Some((SourceCommand::QueryLocationSelf, e)),
            None => None,
        }
    } else if str_eq(name, "query_location_cursor") {
        match expect_semi_exec(s, i) {
            Some(e) => Some((SourceCommand::QueryLocationCursor, e)),
            None => None,
        }
    } else if str_eq(name, "query_valid_location") {
        match parse_rr_exec(s, i) {
            Some(((x, y), j)) => match expect_semi_exec(s, j) {
                Some(e) => Some((SourceCommand::QueryValidLocation(x, y), e)),
                None => None,
            },
            None => None,
        }
    } else if str_eq(name, "query_passable_location") {
        match parse_rr_exec(s, i) {
            Some(((x, y), j)) => match expect_semi_exec(s, j) {
                Some(e) => Some((SourceCommand::QueryPassableLocation(x, y), e)),
                None => None,
            },
            None => None,
        }
    } else if str_eq(name, "query_monster_location") {
        match parse_rr_exec(s, i) {
            Some(((x, y), j)) => match expect_semi_exec(s, j) {
                Some(e) => Some((SourceCommand::QueryMonsterLocation(x, y), e)),
                None => None,
            },
            None => None,
        }
    } else {
        None
    }
}

/// One item: an optional label and a statement.
fn parse_item_exec(s: &str, i: usize) -> (r: Option<(SourceItem, usize)>)
    requires
        i <= s@.len(),
    ensures
        match r {
            Some((item, j)) => parse_item(s@, i as int) == Some((item@, j as int)) && j
                <= s@.len(),
            None => parse_item(s@, i as int) is None,
        },
{
    let j = scan_ident_exec(s, i);
    if j == i {
        return None;
    }
    let name = s.substring_char(i, j);
    let k = skip_ws_exec(s, j);
    let len = s.unicode_len();
    if k < len && s.get_char(k) == ':' {
        let m = skip_ws_exec(s, k + 1);
        let j2 = scan_ident_exec(s, m);
        if j2 == m {
            return None;
        }
        let mnemonic = s.substring_char(m, j2);
        match parse_stmt_tail_exec(s, mnemonic, j2) {
            Some((cmd, e)) => Some((SourceItem { label: Some(name.to_owned()), cmd }, e)),
            None => None,
        }
    } else {
        match parse_stmt_tail_exec(s, name, j) {
            Some((cmd, e)) => Some((SourceItem { label: None, cmd }, e)),
            None => None,
        }
    }
}

/// Parse a whole source text into its items, or `None` when the text
/// does not follow the grammar.
#[verifier::loop_isolation(false)]
pub fn parse_program_exec(s: &str) -> (r: Option<Vec<SourceItem>>)
    ensures
        match r {
            Some(items) => parse_program(s@) == Some(items_view(items@)),
            None => parse_program(s@) is None,
        },
{
    let len = s.unicode_len();
    let mut items: Vec<SourceItem> = Vec::new();
    let mut pos: usize = 0;
    let mut fuel: u128 = (len as u128) + 1;
    proof {
        assert(items_view(items@) =~= Seq::<SrcItem>::empty());
    }
    loop
        invariant
            pos <= s@.len(),
            fuel <= s@.len() + 1,
            match parse_program_from(s@, pos as int, fuel as nat) {
                Some(rest) => parse_program(s@) == Some(items_view(items@) + rest),
                None => parse_program(s@) is None,
            },
        decreases fuel,
    {
        if fuel == 0 {
            return None;
        }
        let k = skip_ws_exec(s, pos);
        if k >= len {
            proof {
                assert(items_view(items@) + Seq::<SrcItem>::empty() =~= items_view(items@));
            }
            return Some(items);
        }
        match parse_item_exec(s, k) {
            Some((item, j)) => {
                let ghost old_items = items@;
                items.push(item);
                pos = j;
                fuel = fuel - 1;
                proof {
                    assert(items_view(items@) =~= items_view(old_items).push(item@));
                    match parse_program_from(s@, pos as int, fuel as nat) {
                        Some(rest) => {
                            assert(items_view(old_items) + (seq![item@] + rest) =~= items_view(
                                items@,
                            ) + rest);
                        },
                        None => {},
                    }
                }
            },
            None => {
                return None;
            },
        }
    }
}


// ---------------------------------------------------------------------
// Linking
// ---------------------------------------------------------------------

/// Looking a name up in a table extended by one entry: an earlier entry
/// still wins; otherwise the new entry answers.
proof fn lemma_lookup_push(t: Seq<(Seq<char>, usize)>, e: (Seq<char>, usize), name: Seq<char>)
    ensures
        lookup(t.push(e), name) == match lookup(t, name) {
            Some(a) => Some(a),
            None => if e.0 == name {
                Some(e.1)
            } else {
                None
            },
        },
    decreases t.len(),
{
    if t.len() == 0 {
        assert(t.push(e).drop_first() =~= Seq::<(Seq<char>, usize)>::empty());
        assert(t.push(e)[0] == e);
    } else {
        assert(t.push(e)[0] == t[0]);
        assert(t.push(e).drop_first() =~= t.drop_first().push(e));
        lemma_lookup_push(t.drop_first(), e, name);
    }
}

/// Extending the scanned prefix by one item: an earlier definition
/// still wins; otherwise the new item may define the label.
proof fn lemma_label_addr_snoc(items: Seq<SrcItem>, name: Seq<char>, j: int, k: int)
    requires
        0 <= j <= k,
    ensures
        label_addr_from(items, name, j, k + 1) == match label_addr_from(items, name, j, k) {
            Some(a) => Some(a),
            None => if k < items.len() && items[k].label == Some(name) {
                Some(k)
            } else {
                None
            },
        },
    decreases k - j,
{
    if j == k {
        assert(label_addr_from(items, name, j + 1, k + 1) is None);
    }
    if j < k && j < items.len() {
        if items[j].label != Some(name) {
            lemma_label_addr_snoc(items, name, j + 1, k);
        }
    }
}

/// A found label address lies within the scanned range.
proof fn lemma_label_addr_range(items: Seq<SrcItem>, name: Seq<char>, j: int, k: int, a: int)
    requires
        label_addr_from(items, name, j, k) == Some(a),
    ensures
        j <= a < k && a < items.len(),
    decreases k - j,
{
    if 0 <= j && j < k && j < items.len() {
        if items[j].label != Some(name) {
            lemma_label_addr_range(items, name, j + 1, k, a);
        }
    }
}

/// Every statement the grammar accepts is well formed.
proof fn lemma_parse_stmt_tail_wf(s: Seq<char>, name: Seq<char>, i: int)
    ensures
        parse_stmt_tail(s, name, i) matches Some(ce) ==> src_cmd_wf(ce.0),
{
}

/// Every item the grammar accepts holds a well-formed instruction.
proof fn lemma_parse_item_wf(s: Seq<char>, i: int)
    ensures
        parse_item(s, i) matches Some(ie) ==> src_cmd_wf(ie.0.cmd),
{
    let j = scan_ident(s, i);
    if j != i {
        let k = skip_ws(s, j);
        if k < s.len() && s[k] == ':' {
            let m = skip_ws(s, k + 1);
            let j2 = scan_ident(s, m);
            lemma_parse_stmt_tail_wf(s, s.subrange(m, j2), j2);
        } else {
            lemma_parse_stmt_tail_wf(s, s.subrange(i, j), j);
        }
    }
}

/// Every program the grammar accepts is well formed.
proof fn lemma_parse_program_from_wf(s: Seq<char>, i: int, fuel: nat)
    ensures
        parse_program_from(s, i, fuel) matches Some(items) ==> src_wf(items),
    decreases fuel,
{
    if fuel > 0 {
        let k = skip_ws(s, i);
        if k < s.len() {
            lemma_parse_item_wf(s, k);
            if parse_item(s, k) is Some {
                let (item, j) = parse_item(s, k)->Some_0;
                lemma_parse_program_from_wf(s, j, (fuel - 1) as nat);
                if parse_program_from(s, j, (fuel - 1) as nat) is Some {
                    let rest = parse_program_from(s, j, (fuel - 1) as nat)->Some_0;
                    let items = seq![item] + rest;
                    assert forall|q: int| 0 <= q < items.len() implies src_cmd_wf(
                        (#[trigger] items[q]).cmd,
                    ) by {
                        if q == 0 {
                            assert(items[0] == item);
                        } else {
                            assert(items[q] == rest[q - 1]);
                        }
                    }
                }
            }
        }
    }
}

/// Find `name` in a spell table under construction.
fn table_find(table: &Vec<(String, usize)>, name: &str) -> (r: Option<usize>)
    ensures
        r == lookup(table_view(table@), name@),
{
    let ghost tv = table_view(table@);
    let mut k: usize = 0;
    proof {
        assert(tv.skip(0) =~= tv);
    }
    while k < table.len()
        invariant
            k <= table.len(),
            tv == table_view(table@),
            lookup(tv, name@) == lookup(tv.skip(k as int), name@),
        decreases table.len() - k,
    {
        proof {
            assert(tv.skip(k as int).drop_first() =~= tv.skip(k + 1));
        }
        if str_eq(table[k].0.as_str(), name) {
            return Some(table[k].1);
        }
        k = k + 1;
    }
    None
}

/// Resolve every symbolic target of the parsed program and produce the
/// linked spellbook: instruction `k` of the book is item `k` resolved,
/// and the spell table sends each label name to the address of its
/// first definition.  Fails with `UnresolvedLabel` exactly when some
/// target label is never defined.
#[verifier::rlimit(60)]
#[verifier::loop_isolation(false)]
pub fn link(items: &Vec<SourceItem>) -> (r: Result<Spellbook, CompileFault>)
    requires
        src_wf(items_view(items@)),
    ensures
        ({
            let itemsm = items_view(items@);
            match r {
                Ok(book) => {
                    &&& all_resolve(itemsm)
                    &&& book@.commands.len() == itemsm.len()
                    &&& forall|k: int|
                        0 <= k < itemsm.len() ==> Some(#[trigger] book@.commands[k])
                            == resolve_cmd(itemsm[k].cmd, itemsm)
                    &&& forall|name: Seq<char>|
                        #[trigger] lookup(book@.table, name) == match label_addr(itemsm, name) {
                            Some(a) => Some(a as usize),
                            None => None::<usize>,
                        }
                },
                Err(f) => f == CompileFault::UnresolvedLabel && !all_resolve(itemsm),
            }
        }),
{
    let ghost itemsm = items_view(items@);
    let mut table: Vec<(String, usize)> = Vec::new();
    let mut k: usize = 0;
    proof {
        assert(table_view(table@) =~= Seq::<(Seq<char>, usize)>::empty());
    }
    while k < items.len()
        invariant
            k <= items.len(),
            itemsm == items_view(items@),
            itemsm.len() == items@.len(),
            forall|name: Seq<char>|
                #[trigger] lookup(table_view(table@), name) == match
                    label_addr_from(itemsm, name, 0, k as int) {
                    Some(a) => Some(a as usize),
                    None => None::<usize>,
                },
        decreases items.len() - k,
    {
        let ghost old_tv = table_view(table@);
        proof {
            assert(itemsm[k as int] == items@[k as int]@);
        }
        match &items[k].label {
            Some(l) => {
                match table_find(&table, l.as_str()) {
                    None => {
                        let entry = ((*l).clone(), k);
                        proof {
                            assert(entry.0@ == l@);
                        }
                        table.push(entry);
                        proof {
                            assert(table_view(table@) =~= old_tv.push(
                                (entry.0@, k),
                            ));
                        }
                    },
                    Some(_) => {},
                }
            },
            None => {},
        }
        proof {
            assert forall|name: Seq<char>|
                #[trigger] lookup(table_view(table@), name) == match
                    label_addr_from(itemsm, name, 0, k + 1) {
                    Some(a) => Some(a as usize),
                    None => None::<usize>,
                } by {
                lemma_label_addr_snoc(itemsm, name, 0, k as int);
                if let Some(a) = label_addr_from(itemsm, name, 0, k + 1) {
                    lemma_label_addr_range(itemsm, name, 0, k + 1, a);
                }
                match &items@[k as int].label {
                    Some(l) => {
                        if lookup(old_tv, l@) is None {
                            lemma_lookup_push(old_tv, (l@, k), name);
                        }
                    },
                    None => {},
                }
            }
        }
        k = k + 1;
    }
    let ghost tv = table_view(table@);
    let mut commands: Vec<Command> = Vec::new();
    let mut k: usize = 0;
    while k < items.len()
        invariant
            k <= items.len(),
            itemsm == items_view(items@),
            itemsm.len() == items@.len(),
            tv == table_view(table@),
            forall|name: Seq<char>|
                #[trigger] lookup(tv, name) == match label_addr(itemsm, name) {
                    Some(a) => Some(a as usize),
                    None => None::<usize>,
                },
            commands@.len() == k,
            book_wf(commands@),
            forall|j: int|
                0 <= j < k ==> Some(#[trigger] commands@[j]) == resolve_cmd(
                    itemsm[j].cmd,
                    itemsm,
                ),
        decreases items.len() - k,
    {
        proof {
            assert(itemsm[k as int] == items@[k as int]@);
            assert(src_cmd_wf(itemsm[k as int].cmd));
        }
        let cmd: Command = match &items[k].cmd {
            SourceCommand::PushVal(v) => Command::PushVal(*v),
            SourceCommand::PushReg(r) => Command::PushReg(*r),
            SourceCommand::Pop(r) => Command::Pop(*r),
            SourceCommand::Copy(a, b) => Command::Copy(*a, *b),
            SourceCommand::Store(v, r) => Command::Store(*v, *r),
            SourceCommand::Call(l) => match table_find(&table, l.as_str()) {
                Some(a) => Command::Call(a),
                None => {
                    proof {
                        assert(resolve_cmd(itemsm[k as int].cmd, itemsm) is None);
                    }
                    return Err(CompileFault::UnresolvedLabel);
                },
            },
            SourceCommand::Return => Command::Return,
            SourceCommand::Noop => Command::Noop,
            SourceCommand::Jump(l) => match table_find(&table, l.as_str()) {
                Some(a) => Command::Jump(a),
                None => {
                    proof {
                        assert(resolve_cmd(itemsm[k as int].cmd, itemsm) is None);
                    }
                    return Err(CompileFault::UnresolvedLabel);
                },
            },
            SourceCommand::JumpIfGt(a, b, l) => match table_find(&table, l.as_str()) {
                Some(t2) => Command::JumpIfGt(*a, *b, t2),
                None => {
                    proof {
                        assert(resolve_cmd(itemsm[k as int].cmd, itemsm) is None);
                    }
                    return Err(CompileFault::UnresolvedLabel);
                },
            },
            SourceCommand::Add(a, b, d) => Command::Add(*a, *b, *d),
            SourceCommand::Mul(a, b, d) => Command::Mul(*a, *b, *d),
            SourceCommand::Sub(a, b, d) => Command::Sub(*a, *b, *d),
            SourceCommand::Div(a, b, d) => Command::Div(*a, *b, *d),
            SourceCommand::Mod(a, b, d) => Command::Mod(*a, *b, *d),
            SourceCommand::And(a, b, d) => Command::And(*a, *b, *d),
            SourceCommand::Or(a, b, d) => Command::Or(*a, *b, *d),
            SourceCommand::Xor(a, b, d) => Command::Xor(*a, *b, *d),
            SourceCommand::Not(a, d) => Command::Not(*a, *d),
            SourceCommand::PromptDirection => Command::PromptDirection,
            SourceCommand::PromptLocation => Command::PromptLocation,
            SourceCommand::MoveCursor(d) => Command::MoveCursor(*d),
            SourceCommand::Damage(r) => Command::Damage(*r),
            SourceCommand::Move(d) => Command::Move(*d),
            SourceCommand::QueryEnergy => Command::QueryEnergy,
            SourceCommand::QueryLocationSelf => Command::QueryLocationSelf,
            SourceCommand::QueryLocationCursor => Command::QueryLocationCursor,
            SourceCommand::QueryValidLocation(x, y) => Command::QueryValidLocation(*x, *y),
            SourceCommand::QueryPassableLocation(x, y) => Command::QueryPassableLocation(*x, *y),
            SourceCommand::QueryMonsterLocation(x, y) => Command::QueryMonsterLocation(*x, *y),
        };
        proof {
            assert(Some(cmd) == resolve_cmd(itemsm[k as int].cmd, itemsm));
            assert(cmd_wf(cmd));
            assert forall|j: int| 0 <= j < commands@.len() + 1 implies cmd_wf(
                #[trigger] commands@.push(cmd)[j],
            ) by {
                if j < commands@.len() {
                    assert(commands@.push(cmd)[j] == commands@[j]);
                }
            }
        }
        commands.push(cmd);
        k = k + 1;
    }
    let book = Spellbook::from_parts(commands, table);
    proof {
        assert forall|j: int| 0 <= j < itemsm.len() implies resolve_cmd(
            (#[trigger] itemsm[j]).cmd,
            itemsm,
        ) is Some by {
            assert(Some(book@.commands[j]) == resolve_cmd(itemsm[j].cmd, itemsm));
        }
    }
    Ok(book)
}

/// Compile spell-assembly source text into a linked spellbook: parse
/// it, then resolve every label.  Fails with `SyntaxError` when the
/// text does not follow the grammar, and with `UnresolvedLabel` when a
/// call or jump names a label that is never defined.
pub fn compile(source: &str) -> (r: Result<Spellbook, CompileFault>)
    ensures
        ({
            match parse_program(source@) {
                None => r matches Err(f) && f == CompileFault::SyntaxError,
                Some(itemsm) => match r {
                    Ok(book) => {
                        &&& all_resolve(itemsm)
                        &&& book@.commands.len() == itemsm.len()
                        &&& forall|k: int|
                            0 <= k < itemsm.len() ==> Some(#[trigger] book@.commands[k])
                                == resolve_cmd(itemsm[k].cmd, itemsm)
                        &&& forall|name: Seq<char>|
                            #[trigger] lookup(book@.table, name) == match label_addr(
                                itemsm,
                                name,
                            ) {
                                Some(a) => Some(a as usize),
                                None => None::<usize>,
                            }
                    },
                    Err(f) => f == CompileFault::UnresolvedLabel && !all_resolve(itemsm),
                },
            }
        }),
{
    match parse_program_exec(source) {
        None => Err(CompileFault::SyntaxError),
        Some(items) => {
            proof {
                lemma_parse_program_from_wf(source@, 0, (source@.len() + 1) as nat);
            }
            link(&items)
        },
    }
}

} // verus!
