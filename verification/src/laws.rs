//! Laws of the machine, stated and proved over the models that the
//! executable functions' contracts use.

use vstd::prelude::*;

verus! {

use crate::value::{
    AbsVal, eval_add, render, same_kind, val_eq, val_neq, val_lt, val_le, val_gt, val_ge,
};
use crate::text::int_text;
use crate::scope::scope_lookup;
use crate::stream::StreamModel;
use crate::exec::{frames_set, registry_spec, block_registry, same_code, plain_at};

/// Adding two integer scalars and rendering the sum yields the same text as
/// ordinary integer addition of the two values, wherever that sum stays in
/// the 32-bit range (beyond it, integer addition wraps).
pub proof fn lemma_int_add_renders_sum(a: i32, b: i32)
    requires
        i32::MIN <= a + b <= i32::MAX,
    ensures
        eval_add(AbsVal::Int(a), AbsVal::Int(b)) matches Some(v) && render(v) == int_text(a + b),
{
}

/// Comparing two scalars of different kinds yields false under every
/// relational operator, equality and inequality included; it is never an
/// error.
pub proof fn lemma_mixed_kind_comparisons_false(l: AbsVal, r: AbsVal)
    requires
        !same_kind(l, r),
    ensures
        !val_eq(l, r),
        !val_neq(l, r),
        !val_lt(l, r),
        !val_le(l, r),
        !val_gt(l, r),
        !val_ge(l, r),
{
}

/// Scope shadowing: bind an id in the innermost frame, push a frame,
/// declare the same id again with another value, pop the frame — a
/// subsequent read of the id yields the outer value, unchanged.
pub proof fn lemma_scope_shadowing(
    frames: Seq<Map<u32, AbsVal>>,
    x: u32,
    v1: AbsVal,
    v2: AbsVal,
)
    requires
        frames.len() > 0,
    ensures
        ({
            let outer = frames_set(frames, x, v1);
            let pushed = outer.push(Map::<u32, AbsVal>::empty());
            let inner = frames_set(pushed, x, v2);
            let popped = inner.drop_last();
            scope_lookup(popped, x) == Some(v1)
        }),
{
    let outer = frames_set(frames, x, v1);
    let pushed = outer.push(Map::<u32, AbsVal>::empty());
    let inner = frames_set(pushed, x, v2);
    let popped = inner.drop_last();
    assert(pushed.drop_last() =~= outer);
    assert(popped =~= outer);
    assert(outer.last() == frames.last().insert(x, v1));
    assert(scope_lookup(outer, x) == Some(v1));
}

proof fn lemma_registry_spec_same_code(a: StreamModel, b: StreamModel, i: int, acc: Map<u32, u32>)
    requires
        same_code(a, b),
    ensures
        registry_spec(a, i, acc) == registry_spec(b, i, acc),
    decreases a.words.len() - i,
{
    if 0 <= i < a.words.len() {
        assert(plain_at(a, i) == plain_at(b, i));
        assert(plain_at(a, i + 1) == plain_at(b, i + 1));
        if plain_at(a, i) && a.words[i] == crate::opcodes::BLOCK && plain_at(a, i + 1) {
            let nxt = if i + 3 <= a.words.len() {
                i + 3
            } else {
                a.words.len() as int
            };
            lemma_registry_spec_same_code(a, b, nxt, acc.insert(a.words[i + 1], (i + 1) as u32));
        } else {
            lemma_registry_spec_same_code(a, b, i + 1, acc);
        }
    }
}

/// The block pre-scan is a pure function of the stream's contents: over two
/// streams holding the same words and the same string side table — in
/// particular, over one unmodified stream scanned twice — it builds the
/// same registry.
pub proof fn lemma_prescan_pure(a: StreamModel, b: StreamModel)
    requires
        same_code(a, b),
    ensures
        block_registry(a) == block_registry(b),
{
    lemma_registry_spec_same_code(a, b, 0, Map::empty());
}

} // verus!
