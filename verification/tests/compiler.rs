//! The assembler: grammar, label resolution, and the linked form.

use arlogue::compiler::{compile, CompileFault};
use arlogue::spells::Command;
use arlogue::utils::Direction;

#[test]
fn forward_and_backward_references_resolve() {
    let book = compile("a: jump b; b: noop; jump a;").unwrap();
    assert_eq!(book.len(), 3);
    assert_eq!(book.command_at(0), Command::Jump(1));
    assert_eq!(book.command_at(1), Command::Noop);
    assert_eq!(book.command_at(2), Command::Jump(0));
}

#[test]
fn linking_depends_only_on_the_label_bindings() {
    // Two sources with the same instruction sequence whose used labels
    // bind the same addresses link to the same instructions, label
    // placement notwithstanding.
    let plain = compile("s: jump end; noop; end: return;").unwrap();
    let relabelled = compile("s: jump end; unused: noop; end: return;").unwrap();
    assert_eq!(plain.len(), relabelled.len());
    for i in 0..plain.len() {
        assert_eq!(plain.command_at(i), relabelled.command_at(i));
    }
    assert_eq!(plain.command_at(0), Command::Jump(2));
}

#[test]
fn first_label_definition_wins() {
    let book = compile("x: noop; x: return; s: jump x;").unwrap();
    assert_eq!(book.command_at(2), Command::Jump(0));
}

#[test]
fn unresolved_label_is_fatal() {
    assert!(matches!(compile("s: call nowhere;"), Err(CompileFault::UnresolvedLabel)));
    assert!(matches!(compile("s: jump nowhere;"), Err(CompileFault::UnresolvedLabel)));
    assert!(matches!(compile("s: jumpifgt a b nowhere;"), Err(CompileFault::UnresolvedLabel)));
}

#[test]
fn malformed_text_is_a_syntax_error() {
    assert!(matches!(compile("s: bogus x;"), Err(CompileFault::SyntaxError)));
    assert!(matches!(compile("s: damage;"), Err(CompileFault::SyntaxError)));
    assert!(matches!(compile("noop"), Err(CompileFault::SyntaxError)));
    assert!(matches!(compile("s: move nowhere;"), Err(CompileFault::SyntaxError)));
    assert!(matches!(compile("7: noop;"), Err(CompileFault::SyntaxError)));
}

#[test]
fn empty_source_is_an_empty_book() {
    let book = compile("").unwrap();
    assert_eq!(book.len(), 0);
    let book = compile("  \n\t ").unwrap();
    assert_eq!(book.len(), 0);
}

#[test]
fn direction_literals_store_their_codes() {
    let book = compile("s: store #left d; store #down_right a; return;").unwrap();
    assert_eq!(book.command_at(0), Command::Store(0, 3));
    assert_eq!(book.command_at(1), Command::Store(7, 0));
}

#[test]
fn integer_literals_cover_the_32_bit_range() {
    let book = compile("s: store -5 a; store 2147483647 b; store -2147483648 c; return;").unwrap();
    assert_eq!(book.command_at(0), Command::Store(-5, 0));
    assert_eq!(book.command_at(1), Command::Store(2147483647, 1));
    assert_eq!(book.command_at(2), Command::Store(-2147483648, 2));
}

#[test]
fn out_of_range_integers_are_refused() {
    assert!(matches!(compile("s: store 2147483648 a;"), Err(CompileFault::SyntaxError)));
    assert!(matches!(compile("s: store -2147483649 a;"), Err(CompileFault::SyntaxError)));
}

#[test]
fn push_takes_a_value_or_a_register() {
    let book = compile("s: push 5; push a; push #up; return;").unwrap();
    assert_eq!(book.command_at(0), Command::PushVal(5));
    assert_eq!(book.command_at(1), Command::PushReg(0));
    assert_eq!(book.command_at(2), Command::PushVal(2));
}

#[test]
fn registers_are_single_letters() {
    let book = compile("s: copy a z; return;").unwrap();
    assert_eq!(book.command_at(0), Command::Copy(0, 25));
    assert!(matches!(compile("s: pop ab;"), Err(CompileFault::SyntaxError)));
}

#[test]
fn commas_and_whitespace_separate_operands() {
    let book = compile("s: add a, b, c;\n   sub x y z;\nreturn;").unwrap();
    assert_eq!(book.command_at(0), Command::Add(0, 1, 2));
    assert_eq!(book.command_at(1), Command::Sub(23, 24, 25));
}

#[test]
fn the_whole_instruction_set_parses() {
    let src = "all: push 1; pop a; copy a b; store 3 c; call all; return; noop; \
               jump all; jumpifgt a b all; add a b c; mul a b c; sub a b c; \
               div a b c; mod a b c; and a b c; or a b c; xor a b c; not a b; \
               prompt_direction; prompt_location; move_cursor up; damage a; \
               move down; query_energy; query_location_self; query_location_cursor; \
               query_valid_location a b; query_passable_location a b; \
               query_monster_location a b;";
    let book = compile(src).unwrap();
    assert_eq!(book.len(), 29);
    assert_eq!(book.command_at(4), Command::Call(0));
    assert_eq!(book.command_at(8), Command::JumpIfGt(0, 1, 0));
    assert_eq!(book.command_at(20), Command::MoveCursor(Direction::Up));
    assert_eq!(book.command_at(22), Command::Move(Direction::Down));
    assert_eq!(book.command_at(28), Command::QueryMonsterLocation(0, 1));
}

#[test]
fn a_label_needs_a_statement() {
    assert!(matches!(compile("dangling:"), Err(CompileFault::SyntaxError)));
}

#[test]
fn labels_spell_the_basic_book() {
    // The built-in movement spells written as source text compile to
    // the same shapes the built-in book carries.
    let src = "left: move left; return; right: move right; return; wait: return;";
    let book = compile(src).unwrap();
    assert_eq!(book.command_at(0), Command::Move(Direction::Left));
    assert_eq!(book.command_at(1), Command::Return);
    assert_eq!(book.command_at(2), Command::Move(Direction::Right));
    assert_eq!(book.command_at(4), Command::Return);
}
