//! Assembly programs driven end to end through the parser, the builder and
//! the interpreter.

use std::time::Instant;
use wordvm::assembler::Parser;

const FUEL: u64 = 1_000_000;

#[test]
fn asm_test_hello_world() {
    let mut lex = Parser::new(String::from(
        "
            START
                STR hello \"Hello world!\\n\"
                STDOUT hello
            ",
    ));
    let now = Instant::now();
    lex.run(FUEL, Vec::new()).unwrap();
    let elapsed = now.elapsed();
    println!("runtime: {:.4?}", elapsed);
}

#[test]
fn asm_test_add() {
    let mut lex = Parser::new(String::from(
        "
            START
                NUM num1 7
                NUM num2 2
                ADD num3 num1 num2
                STDOUT num3
                STR nl \"\\n\"
                STDOUT nl
            ",
    ));
    let now = Instant::now();
    lex.run(FUEL, Vec::new()).unwrap();
    let elapsed = now.elapsed();
    println!("runtime: {:.4?}", elapsed);
}

#[test]
fn asm_test_bool() {
    let mut lex = Parser::new(String::from(
        "
            START
                BOOL mybool true
                STDOUT mybool
                STR nl \"\\n\"
                STDOUT nl
            ",
    ));
    let now = Instant::now();
    lex.run(FUEL, Vec::new()).unwrap();
    let elapsed = now.elapsed();
    println!("runtime: {:.4?}", elapsed);
}

#[test]
fn asm_test_sub() {
    let mut lex = Parser::new(String::from(
        "
            START
                NUM num1 7
                NUM num2 2
                SUB num3 num1 num2
                STDOUT num3
                STR nl \"\\n\"
                STDOUT nl
            ",
    ));
    let now = Instant::now();
    lex.run(FUEL, Vec::new()).unwrap();
    let elapsed = now.elapsed();
    println!("runtime: {:.4?}", elapsed);
}

#[test]
fn asm_test_mul() {
    let mut lex = Parser::new(String::from(
        "
            START
                NUM num1 7
                NUM num2 2
                MUL num3 num1 num2
                STDOUT num3
                STR nl \"\\n\"
                STDOUT nl
            ",
    ));
    let now = Instant::now();
    lex.run(FUEL, Vec::new()).unwrap();
    let elapsed = now.elapsed();
    println!("runtime: {:.4?}", elapsed);
}

#[test]
fn asm_test_div() {
    let mut lex = Parser::new(String::from(
        "
            START
                NUM num1 7
                NUM num2 2
                DIV num3 num1 num2
                STDOUT num3
                STR nl \"\\n\"
                STDOUT nl
            ",
    ));
    let now = Instant::now();
    lex.run(FUEL, Vec::new()).unwrap();
    let elapsed = now.elapsed();
    println!("runtime: {:.4?}", elapsed);
}

#[test]
fn asm_test_mod() {
    let mut lex = Parser::new(String::from(
        "
            START
                NUM num1 7
                NUM num2 2
                MOD num3 num1 num2
                STDOUT num3
                STR nl \"\\n\"
                STDOUT nl
            ",
    ));
    let now = Instant::now();
    lex.run(FUEL, Vec::new()).unwrap();
    let elapsed = now.elapsed();
    println!("runtime: {:.4?}", elapsed);
}

#[test]
fn asm_test_exp() {
    let mut lex = Parser::new(String::from(
        "
            START
                NUM num1 7
                NUM num2 2
                EXP num3 num1 num2
                STDOUT num3
                STR nl \"\\n\"
                STDOUT nl
            ",
    ));
    let now = Instant::now();
    lex.run(FUEL, Vec::new()).unwrap();
    let elapsed = now.elapsed();
    println!("runtime: {:.4?}", elapsed);
}

#[test]
fn asm_test_eq() {
    let mut lex = Parser::new(String::from(
        "
            START
                NUM num1 7
                NUM num2 2
                EQ num3 num1 num2
                STDOUT num3
                STR nl \"\\n\"
                STDOUT nl
            ",
    ));
    let now = Instant::now();
    lex.run(FUEL, Vec::new()).unwrap();
    let elapsed = now.elapsed();
    println!("runtime: {:.4?}", elapsed);
}

#[test]
fn asm_test_neq() {
    let mut lex = Parser::new(String::from(
        "
            START
                NUM num1 7
                NUM num2 2
                NEQ num3 num1 num2
                STDOUT num3
                STR nl \"\\n\"
                STDOUT nl
            ",
    ));
    let now = Instant::now();
    lex.run(FUEL, Vec::new()).unwrap();
    let elapsed = now.elapsed();
    println!("runtime: {:.4?}", elapsed);
}

#[test]
fn asm_test_gt() {
    let mut lex = Parser::new(String::from(
        "
            START
                NUM num1 7
                NUM num2 2
                GT num3 num1 num2
                STDOUT num3
                STR nl \"\\n\"
                STDOUT nl
            ",
    ));
    let now = Instant::now();
    lex.run(FUEL, Vec::new()).unwrap();
    let elapsed = now.elapsed();
    println!("runtime: {:.4?}", elapsed);
}

#[test]
fn asm_test_lt() {
    let mut lex = Parser::new(String::from(
        "
            START
                NUM num1 7
                NUM num2 2
                LT num3 num1 num2
                STDOUT num3
                STR nl \"\\n\"
                STDOUT nl
            ",
    ));
    let now = Instant::now();
    lex.run(FUEL, Vec::new()).unwrap();
    let elapsed = now.elapsed();
    println!("runtime: {:.4?}", elapsed);
}

#[test]
fn asm_test_gte() {
    let mut lex = Parser::new(String::from(
        "
            START
                NUM num1 7
                NUM num2 2
                GTE num3 num1 num2
                STDOUT num3
                STR nl \"\\n\"
                STDOUT nl
            ",
    ));
    let now = Instant::now();
    lex.run(FUEL, Vec::new()).unwrap();
    let elapsed = now.elapsed();
    println!("runtime: {:.4?}", elapsed);
}

#[test]
fn asm_test_lte() {
    let mut lex = Parser::new(String::from(
        "
            START
                NUM num1 7
                NUM num2 2
                LTE num3 num1 num2
                STDOUT num3
                STR nl \"\\n\"
                STDOUT nl
            ",
    ));
    let now = Instant::now();
    lex.run(FUEL, Vec::new()).unwrap();
    let elapsed = now.elapsed();
    println!("runtime: {:.4?}", elapsed);
}

#[test]
fn asm_test_cond_jump_prerender() {
    let mut lex = Parser::new(String::from(
        "
            NUM ind 0
            NUM sum 0
            NUM inc 1
            NUM itterations 1000
            STR nl \"\\n\"

            BLOCK loop

                ADD sum sum ind

            ADD ind ind inc
            LT loopcond ind itterations
            COND_JUMP loopcond loop
            JUMP finished

            START
                LT loopcond ind itterations
                COND_JUMP loopcond loop
                BLOCK finished
                STDOUT sum
                STDOUT nl
            ",
    ));
    let now = Instant::now();
    lex.run(FUEL, Vec::new()).unwrap();
    let elapsed = now.elapsed();
    println!("runtime: {:.4?}", elapsed);
}

#[test]
fn asm_test_cond_jump() {
    let mut lex = Parser::new(String::from(
        "
            NUM ind 0
            NUM sum 0
            NUM inc 1
            NUM itterations 10

            BLOCK loop

                ADD sum sum ind

            LT loopcond ind itterations
            ADD ind ind inc
            COND_JUMP loopcond loop

            START
                LT loopcond ind itterations
                COND_JUMP loopcond loop
                STDOUT sum
                STR nl \"\\n\"
                STDOUT nl
            ",
    ));
    let now = Instant::now();
    lex.run(FUEL, Vec::new()).unwrap();
    let elapsed = now.elapsed();
    println!("runtime: {:.4?}", elapsed);
}
