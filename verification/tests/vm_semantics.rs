//! End-to-end scenarios of the interpreter's observable behavior.

use wordvm::assembler::Parser;
use wordvm::builder::BytecodeBuilder;
use wordvm::exec::{Executor, VmErrorKind};

const FUEL: u64 = 1_000_000;

fn run_program(src: &str) -> String {
    Parser::new(String::from(src)).run(FUEL, Vec::new()).unwrap()
}

#[test]
fn adding_integer_literals_renders_their_sum() {
    let out = run_program(
        "
        START
            NUM a 7
            NUM b 2
            ADD c a b
            STDOUT c
        ",
    );
    assert_eq!(out, "9");
}

#[test]
fn adding_string_literals_concatenates() {
    let out = run_program(
        "
        START
            STR a \"foo\"
            STR b \"bar\"
            ADD c a b
            STDOUT c
        ",
    );
    assert_eq!(out, "foobar");
}

#[test]
fn forward_declared_block_loop_sums_to_499500() {
    let out = run_program(
        "
        NUM ind 0
        NUM sum 0
        NUM inc 1
        NUM limit 1000
        BLOCK loop
            ADD sum sum ind
        ADD ind ind inc
        LT more ind limit
        COND_JUMP more loop
        JUMP finished
        START
            LT more ind limit
            COND_JUMP more loop
            BLOCK finished
            STDOUT sum
        ",
    );
    assert_eq!(out, "499500");
}

#[test]
fn template_format_splices_arguments_in_order() {
    let out = run_program(
        "
        START
            STR tpl \"Hi {}, you are {} years old\"
            STR who \"Sam\"
            STR age \"9\"
            FMT msg tpl who age
            STDOUT msg
        ",
    );
    assert_eq!(out, "Hi Sam, you are 9 years old");
}

#[test]
fn template_format_with_missing_argument_is_an_arity_fault() {
    let mut lex = Parser::new(String::from(
        "
        START
            STR tpl \"Hi {}, you are {} years old\"
            STR who \"Sam\"
            FMT msg tpl who
            STDOUT msg
        ",
    ));
    let err = lex.run(FUEL, Vec::new()).unwrap_err();
    assert!(err.contains("Incorrect number of arguments"));
}

#[test]
fn comparing_number_and_string_yields_false_not_an_error() {
    let out = run_program(
        "
        START
            NUM a 7
            STR b \"7\"
            EQ r1 a b
            LT r2 a b
            GTE r3 a b
            NEQ r4 a b
            STDOUT r1
            STDOUT r2
            STDOUT r3
            STDOUT r4
        ",
    );
    assert_eq!(out, "falsefalsefalsefalse");
}

#[test]
fn subtraction_removes_first_occurrence_only() {
    let out = run_program(
        "
        START
            STR a \"one two one\"
            STR b \"one\"
            SUB c a b
            STDOUT c
        ",
    );
    assert_eq!(out, " two one");
}

#[test]
fn scope_shadowing_restores_the_outer_binding() {
    let mut bb = BytecodeBuilder::new();
    bb.write_start();
    let x = bb.write_num(1, None).unwrap();
    bb.write_begin_scope();
    bb.write_num(2, Some(x)).unwrap();
    bb.write_end_scope();
    bb.write_stdout(x);
    let mut exec = Executor::new(bb.src);
    exec.run(FUEL).unwrap();
    assert_eq!(exec.output(), "1");
}

#[test]
fn prescan_twice_builds_identical_registries() {
    let mut bb = BytecodeBuilder::new();
    let b1 = bb.write_block(None).unwrap();
    bb.write_start();
    let b2 = bb.write_block(None).unwrap();
    let mut exec = Executor::new(bb.src);
    exec.prescan();
    let first = (exec.block_position(b1), exec.block_position(b2));
    exec.prescan();
    let second = (exec.block_position(b1), exec.block_position(b2));
    assert_eq!(first, second);
    assert!(first.0.is_some());
    assert!(first.1.is_some());
}

#[test]
fn float_division_renders_fraction() {
    let out = run_program(
        "
        START
            NUM a 7
            NUM b 2
            DIV c a b
            STDOUT c
        ",
    );
    assert_eq!(out, "3.5");
}

#[test]
fn exponentiation_always_yields_a_float() {
    let out = run_program(
        "
        START
            NUM a 7
            NUM b 2
            EXP c a b
            STDOUT c
        ",
    );
    assert_eq!(out, "49");
}

#[test]
fn boolean_literal_renders_true_and_false() {
    let out = run_program(
        "
        START
            BOOL a true
            BOOL b false
            STDOUT a
            STDOUT b
        ",
    );
    assert_eq!(out, "truefalse");
}

#[test]
fn cast_string_to_number_and_back() {
    let out = run_program(
        "
        START
            STR s \"42\"
            CAST_NUM n s
            STDOUT n
        ",
    );
    assert_eq!(out, "42");
}

#[test]
fn cast_number_to_string_is_its_rendering() {
    let out = run_program(
        "
        START
            NUM n 7
            CAST_STR s n
            STDOUT s
        ",
    );
    assert_eq!(out, "7");
}

#[test]
fn cast_string_to_string_is_identity() {
    let out = run_program(
        "
        START
            STR s \"already text\"
            CAST_STR t s
            STDOUT t
        ",
    );
    assert_eq!(out, "already text");
}

#[test]
fn cast_num_of_malformed_text_is_a_fault() {
    let mut lex = Parser::new(String::from(
        "
        START
            STR s \"4x2\"
            CAST_NUM n s
        ",
    ));
    let err = lex.run(FUEL, Vec::new()).unwrap_err();
    assert!(err.contains("Malformed numeric literal"));
}

#[test]
fn numeric_format_with_precision_pads_decimals() {
    let out = run_program(
        "
        START
            NUM a 7
            NUM p 2
            FMT_NUM s a p
            STDOUT s
        ",
    );
    assert_eq!(out, "7.00");
}

#[test]
fn numeric_format_with_precision_zero_truncates() {
    let out = run_program(
        "
        START
            NUM a 7
            NUM b 2
            DIV c a b
            NUM p 0
            FMT_NUM s c p
            STDOUT s
        ",
    );
    assert_eq!(out, "3");
}

#[test]
fn console_input_binds_the_next_line_as_a_string() {
    let mut lex = Parser::new(String::from(
        "
        START
            STDIN x
            STDOUT x
        ",
    ));
    let out = lex.run(FUEL, vec![String::from("hello")]).unwrap();
    assert_eq!(out, "hello");
}

#[test]
fn console_input_with_no_line_left_is_a_fault() {
    let mut lex = Parser::new(String::from(
        "
        START
            STDIN x
        ",
    ));
    let err = lex.run(FUEL, Vec::new()).unwrap_err();
    assert!(err.contains("No input line is available"));
}

#[test]
fn reading_an_unknown_binding_is_a_fault() {
    let mut bb = BytecodeBuilder::new();
    bb.write_start();
    bb.write_stdout(9999);
    let mut exec = Executor::new(bb.src);
    let err = exec.run(FUEL).unwrap_err();
    assert!(matches!(err.kind, VmErrorKind::UnknownBinding(9999)));
    assert!(err.message().contains("Unknown memory 9999 referenced."));
}

#[test]
fn jump_to_an_unregistered_block_is_a_fault() {
    let mut lex = Parser::new(String::from(
        "
        START
            STR a \"skipped\"
            STR b \"done\"
            JUMP fin
            STDOUT a
            BLOCK fin
            STDOUT b
        ",
    ));
    assert_eq!(lex.run(FUEL, Vec::new()).unwrap(), "done");
    let mut bb = BytecodeBuilder::new();
    bb.write_start();
    bb.write_jump(77);
    let mut exec = Executor::new(bb.src);
    let err = exec.run(FUEL).unwrap_err();
    assert!(matches!(err.kind, VmErrorKind::UnknownBlock(77)));
}

#[test]
fn conditional_jump_on_a_non_boolean_is_a_fault() {
    let mut lex = Parser::new(String::from(
        "
        BLOCK target
        START
            NUM a 1
            COND_JUMP a target
        ",
    ));
    let err = lex.run(FUEL, Vec::new()).unwrap_err();
    assert!(err.contains("wrong kind"));
}

#[test]
fn multiplying_two_strings_is_an_illegal_operation() {
    let mut lex = Parser::new(String::from(
        "
        START
            STR a \"x\"
            STR b \"y\"
            MUL c a b
        ",
    ));
    let err = lex.run(FUEL, Vec::new()).unwrap_err();
    assert!(err.contains("Illegal operation"));
}

#[test]
fn a_run_that_never_halts_exhausts_its_step_budget() {
    let mut lex = Parser::new(String::from(
        "
        BLOCK forever
        JUMP forever
        START
            JUMP forever
        ",
    ));
    let err = lex.run(1000, Vec::new()).unwrap_err();
    assert!(err.contains("step budget"));
}

#[test]
fn rebinding_copies_the_value() {
    let out = run_program(
        "
        START
            NUM a 5
            NUM b 6
            ADD a b b
            STDOUT a
        ",
    );
    assert_eq!(out, "12");
}

#[test]
fn float_subtraction_multiplication_and_remainder_are_exact_on_integers() {
    let out = run_program(
        "
        START
            NUM a 7
            NUM b 2
            SUB s a b
            MUL m a b
            MOD r a b
            STDOUT s
            STDOUT m
            STDOUT r
        ",
    );
    assert_eq!(out, "5141");
}

#[test]
fn float_comparisons_follow_the_numeric_order() {
    let out = run_program(
        "
        START
            NUM a 7
            NUM b 2
            LT l a b
            GT g a b
            EQ e a a
            LTE le a a
            STDOUT l
            STDOUT g
            STDOUT e
            STDOUT le
        ",
    );
    assert_eq!(out, "falsetruetruetrue");
}

#[test]
fn deleting_a_binding_destroys_it() {
    let mut bb = BytecodeBuilder::new();
    bb.write_start();
    let x = bb.write_num(4, None).unwrap();
    bb.write_del(x);
    bb.write_stdout(x);
    let mut exec = Executor::new(bb.src);
    let err = exec.run(FUEL).unwrap_err();
    assert!(matches!(err.kind, VmErrorKind::UnknownBinding(_)));
}

#[test]
fn store_copies_the_source_value() {
    let mut bb = BytecodeBuilder::new();
    bb.write_start();
    let a = bb.write_num(4, None).unwrap();
    let b = bb.write_num(9, None).unwrap();
    bb.write_store(a, b);
    bb.write_stdout(a);
    bb.write_stdout(b);
    let mut exec = Executor::new(bb.src);
    exec.run(FUEL).unwrap();
    assert_eq!(exec.output(), "99");
}

#[test]
fn console_input_strips_one_newline_and_one_carriage_return() {
    let mut lex = Parser::new(String::from(
        "
        START
            STDIN x
            STDIN y
            STDOUT x
            STDOUT y
        ",
    ));
    let out = lex
        .run(FUEL, vec![String::from("hi\r\n"), String::from("a\n\n")])
        .unwrap();
    assert_eq!(out, "hia\n");
}

#[test]
fn deleting_releases_the_id_and_a_second_delete_is_a_fault() {
    let mut bb = BytecodeBuilder::new();
    bb.write_start();
    let x = bb.write_num(4, None).unwrap();
    bb.write_del(x);
    bb.write_del(x);
    let mut exec = Executor::new(bb.src);
    let err = exec.run(FUEL).unwrap_err();
    assert!(matches!(err.kind, VmErrorKind::DeleteUnknown(_)));
}

#[test]
fn deleting_a_binding_whose_id_was_never_registered_is_a_release_fault() {
    let mut bb = BytecodeBuilder::new();
    bb.write_start();
    bb.write_alloca(Some(5000)).unwrap();
    bb.write_del(5000);
    let mut exec = Executor::new(bb.src);
    let err = exec.run(FUEL).unwrap_err();
    assert!(matches!(err.kind, VmErrorKind::DoubleRelease(5000)));
    assert!(err.message().contains("The dynamic id 5000 was deleted twice."));
}
