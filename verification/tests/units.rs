//! Unit tests of the value model, the text utilities, the allocator, the
//! stream and the template formatter.

use wordvm::builder::BytecodeBuilder;
use wordvm::fmt::dyn_format;
use wordvm::idalloc::{IDManager, IdError};
use wordvm::opcodes::{ByteType, MAX_INSTR_INT};
use wordvm::scope::ScopeStack;
use wordvm::stream::ByteCode;
use wordvm::text::{i32_to_string, parse_u32, remove_first_occurrence, str_compare, Order};
use wordvm::value::ScalarType;

#[test]
fn integer_addition_wraps_and_renders() {
    let v = ScalarType::Int(7).add(&ScalarType::Int(2)).unwrap();
    assert_eq!(v.render_text(), "9");
    let w = ScalarType::Int(i32::MAX).add(&ScalarType::Int(1)).unwrap();
    assert_eq!(w.render_text(), i32::MIN.to_string());
}

#[test]
fn mixed_numeric_addition_yields_a_float() {
    // 0.5 as a binary32 bit pattern.
    let v = ScalarType::Int(3).add(&ScalarType::Float(0x3F00_0000)).unwrap();
    assert_eq!(v.render_text(), "3.5");
}

#[test]
fn boolean_operands_coerce_to_numbers_and_combine_as_floats() {
    let v = ScalarType::Bool(true).add(&ScalarType::Bool(true)).unwrap();
    assert_eq!(v.render_text(), "2");
    let w = ScalarType::Int(5).add(&ScalarType::Bool(true)).unwrap();
    assert!(matches!(w, ScalarType::Float(_)));
    assert_eq!(w.render_text(), "6");
    let q = ScalarType::Bool(true).sub(&ScalarType::Int(5)).unwrap();
    assert!(matches!(q, ScalarType::Float(_)));
    assert_eq!(q.render_text(), "-4");
    // dividing by a false boolean is float division by zero, not a fault
    let d = ScalarType::Int(1).div(&ScalarType::Bool(false)).unwrap();
    assert_eq!(d.render_text(), "+Inf");
}

#[test]
fn string_plus_anything_concatenates_renderings() {
    let v = ScalarType::Str(String::from("n=")).add(&ScalarType::Int(-3)).unwrap();
    assert_eq!(v.render_text(), "n=-3");
    let w = ScalarType::Null.add(&ScalarType::Str(String::from("!"))).unwrap();
    assert_eq!(w.render_text(), "Null!");
}

#[test]
fn string_minus_removes_first_occurrence_of_rendering() {
    let v = ScalarType::Str(String::from("a1b1c")).sub(&ScalarType::Int(1)).unwrap();
    assert_eq!(v.render_text(), "ab1c");
}

#[test]
fn integer_division_by_zero_is_unsupported() {
    assert!(ScalarType::Int(1).div(&ScalarType::Int(0)).is_none());
    assert!(ScalarType::Int(1).rem(&ScalarType::Int(0)).is_none());
    let q = ScalarType::Int(-7).div(&ScalarType::Int(2)).unwrap();
    assert_eq!(q.render_text(), "-3");
    let r = ScalarType::Int(-7).rem(&ScalarType::Int(2)).unwrap();
    assert_eq!(r.render_text(), "-1");
}

#[test]
fn string_multiplication_is_unsupported() {
    let a = ScalarType::Str(String::from("x"));
    let b = ScalarType::Str(String::from("y"));
    assert!(a.mul(&b).is_none());
    assert!(a.div(&b).is_none());
    assert!(a.rem(&b).is_none());
}

#[test]
fn comparisons_between_kinds_are_always_false() {
    let i = ScalarType::Int(7);
    let s = ScalarType::Str(String::from("7"));
    assert!(!i.eq_value(&s));
    assert!(!i.ne_value(&s));
    assert!(!i.lt(&s));
    assert!(!i.le(&s));
    assert!(!i.gt(&s));
    assert!(!i.ge(&s));
    assert!(!s.eq_value(&i));
    assert!(!s.ne_value(&i));
    assert!(!s.lt(&i));
    assert!(!s.le(&i));
    assert!(!s.gt(&i));
    assert!(!s.ge(&i));
    assert!(i.partial_cmp(&s).is_none());
}

#[test]
fn string_comparison_is_lexicographic() {
    let a = ScalarType::Str(String::from("abc"));
    let b = ScalarType::Str(String::from("abd"));
    assert!(a.lt(&b));
    assert!(a.le(&b));
    assert!(b.gt(&a));
    assert!(!a.eq_value(&b));
    assert_eq!(str_compare("ab", "abc"), Order::Less);
    assert_eq!(str_compare("abc", "abc"), Order::Equal);
    assert_eq!(str_compare("b", "abc"), Order::Greater);
}

#[test]
fn null_renders_as_the_null_text() {
    assert_eq!(ScalarType::Null.render_text(), "Null");
    assert_eq!(ScalarType::Bool(false).render_text(), "false");
}

#[test]
fn decimal_text_round_trips() {
    assert_eq!(i32_to_string(-123), "-123");
    assert_eq!(i32_to_string(0), "0");
    assert_eq!(parse_u32("123"), Some(123));
    assert_eq!(parse_u32(""), None);
    assert_eq!(parse_u32("12a"), None);
    assert_eq!(parse_u32("4294967295"), Some(u32::MAX));
    assert_eq!(parse_u32("4294967296"), None);
}

#[test]
fn first_occurrence_removal_leaves_later_matches() {
    assert_eq!(remove_first_occurrence("one two one", "one"), " two one");
    assert_eq!(remove_first_occurrence("abc", "xyz"), "abc");
    assert_eq!(remove_first_occurrence("abc", ""), "abc");
}

#[test]
fn template_formatting_matches_the_placeholder_rules() {
    let args = vec![String::from("Sam"), String::from("9")];
    assert_eq!(
        dyn_format("Hi {}, you are {} years old", &args).unwrap(),
        "Hi Sam, you are 9 years old"
    );
    let one = vec![String::from("Sam")];
    assert!(dyn_format("Hi {}, you are {} years old", &one).is_none());
    assert!(dyn_format("no placeholders", &one).is_none());
    let none: Vec<String> = Vec::new();
    assert_eq!(dyn_format("{{ literal }", &none).unwrap(), "{ literal }");
}

#[test]
fn minted_ids_start_above_the_opcode_range_and_never_repeat() {
    let mut ids = IDManager::new();
    let a = ids.current_id().unwrap();
    let b = ids.current_id().unwrap();
    assert!(a > MAX_INSTR_INT);
    assert!(b > a);
}

#[test]
fn double_register_and_double_release_are_faults() {
    let mut ids = IDManager::new();
    ids.add_id(500).unwrap();
    let twice = ids.add_id(500).unwrap_err();
    assert_eq!(twice, IdError::DoubleRegister(500));
    assert_eq!(twice.message(), "The dynamic id 500 was instantiated twice.");
    ids.remove_id(500).unwrap();
    let gone = ids.remove_id(500).unwrap_err();
    assert_eq!(gone, IdError::DoubleRelease(500));
    assert_eq!(gone.message(), "The dynamic id 500 was deleted twice.");
}

#[test]
fn minting_skips_explicitly_registered_ids() {
    let mut ids = IDManager::new();
    ids.add_id(MAX_INSTR_INT + 1).unwrap();
    let minted = ids.current_id().unwrap();
    assert_eq!(minted, MAX_INSTR_INT + 2);
}

#[test]
fn interned_strings_resolve_through_the_side_table() {
    let mut code = ByteCode::new(IDManager::new());
    code.append(ByteType::Num(5)).unwrap();
    code.append(ByteType::Str(String::from("hello"))).unwrap();
    assert_eq!(code.len(), 2);
    assert!(matches!(code.at(0), ByteType::Num(5)));
    match code.at(1) {
        ByteType::Str(s) => assert_eq!(s, "hello"),
        ByteType::Num(_) => panic!("expected the interned text"),
    }
    code.set(0, 6);
    assert!(matches!(code.at(0), ByteType::Num(6)));
}

#[test]
fn scope_lookup_searches_innermost_first() {
    let mut scopes = ScopeStack::new();
    scopes.set(100, ScalarType::Int(1));
    scopes.new_scope();
    scopes.set(100, ScalarType::Int(2));
    assert_eq!(scopes.get(100).unwrap().render_text(), "2");
    scopes.pop_scope();
    assert_eq!(scopes.get(100).unwrap().render_text(), "1");
    scopes.remove(100).unwrap();
    let missing = scopes.get(100).unwrap_err();
    assert_eq!(missing.message(), "Unknown memory 100 referenced.");
    let gone = scopes.remove(100).unwrap_err();
    assert_eq!(gone.message(), "Tried to delete memory 100 which does not exist.");
}

#[test]
fn builder_emits_one_instruction_per_operation() {
    let mut bb = BytecodeBuilder::new();
    let dest = bb.write_add(60, 61, None).unwrap();
    assert!(dest > MAX_INSTR_INT);
    // opcode, destination, left, right, sentinel
    assert_eq!(bb.src.len(), 5);
    let again = bb.write_add(60, 61, Some(dest)).unwrap();
    assert_eq!(again, dest);
    assert_eq!(bb.src.len(), 10);
    bb.write_jump(dest);
    // an unconditional jump carries no sentinel
    assert_eq!(bb.src.len(), 12);
}

#[test]
fn exponentiation_with_negative_exponent_is_the_reciprocal() {
    // 2.0 and -1.0 as binary32 bit patterns.
    let v = ScalarType::Float(0x4000_0000).pow(&ScalarType::Int(-1)).unwrap();
    assert_eq!(v.render_text(), "0.5");
}

#[test]
fn exponentiation_with_fractional_exponent_is_unsupported() {
    // 0.5 as a binary32 bit pattern.
    assert!(ScalarType::Int(2).pow(&ScalarType::Float(0x3F00_0000)).is_none());
    assert!(ScalarType::Bool(true).pow(&ScalarType::Int(2)).is_none());
}

#[test]
fn integer_exponentiation_is_exact() {
    let v = ScalarType::Int(3).pow(&ScalarType::Int(4)).unwrap();
    assert_eq!(v.render_text(), "81");
    let w = ScalarType::Int(-2).pow(&ScalarType::Int(31)).unwrap();
    assert_eq!(w.render_text(), "-2147483648");
    // an out-of-range integer power is unsupported
    assert!(ScalarType::Int(2).pow(&ScalarType::Int(40)).is_none());
    // a negative exponent wraps around 32 bits, as the word encoding takes it
    assert!(ScalarType::Int(2).pow(&ScalarType::Int(-1)).is_none());
    let one = ScalarType::Int(1).pow(&ScalarType::Int(-1)).unwrap();
    assert_eq!(one.render_text(), "1");
    let alt = ScalarType::Int(-1).pow(&ScalarType::Int(3)).unwrap();
    assert_eq!(alt.render_text(), "-1");
}
