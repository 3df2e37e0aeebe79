//! Properties that relate several operations of the type stack, stated over
//! the models that the operations' contracts use.

use vstd::prelude::*;
use crate::types::{block_results, BlockType, ValType};
use crate::type_stack::{
    after_end_block, after_op, after_pop, end_block_result, innermost_block, lemma_op_accepts_iff_inputs_on_top, op_result,
    pop_result, vals, StackInvariantViolation, TypeStackElement,
};

verus! {

/// Values pushed above the marker of a block never hide that marker: it
/// stays the innermost open block.
pub proof fn lemma_innermost_block_below_values(s: Seq<TypeStackElement>, bt: BlockType, inner: Seq<ValType>)
    ensures
        innermost_block(s.push(TypeStackElement::BlockBegin(bt)) + vals(inner)) == s.len(),
    decreases inner.len(),
{
    let t = s.push(TypeStackElement::BlockBegin(bt));
    if inner.len() == 0 {
        assert(t + vals(inner) =~= t);
    } else {
        lemma_innermost_block_below_values(s, bt, inner.drop_last());
        assert((t + vals(inner)).drop_last() =~= t + vals(inner.drop_last()));
        assert((t + vals(inner)).last() == TypeStackElement::Val(inner.last()));
    }
}

/// Pushing a value and popping it again gives the value back and leaves a
/// fresh stack empty again.
pub proof fn lemma_push_pop_round_trip(v: ValType)
    ensures
        pop_result(Seq::empty().push(TypeStackElement::Val(v))) == Ok::<ValType, StackInvariantViolation>(v),
        after_pop(Seq::empty().push(TypeStackElement::Val(v))) == Seq::<TypeStackElement>::empty(),
{
    assert(Seq::<TypeStackElement>::empty().push(TypeStackElement::Val(v)).drop_last() =~= Seq::<TypeStackElement>::empty());
}

/// A binary operation on two 32-bit integers replaces the two on top by one
/// 32-bit integer and leaves everything below as it was.
pub proof fn lemma_binary_i32_op(s: Seq<TypeStackElement>)
    ensures
        op_result(s.push(TypeStackElement::Val(ValType::I32)).push(TypeStackElement::Val(ValType::I32)), seq![ValType::I32, ValType::I32]) is Ok,
        after_op(s.push(TypeStackElement::Val(ValType::I32)).push(TypeStackElement::Val(ValType::I32)), seq![ValType::I32, ValType::I32], seq![ValType::I32])
            == s.push(TypeStackElement::Val(ValType::I32)),
{
    let t = s.push(TypeStackElement::Val(ValType::I32)).push(TypeStackElement::Val(ValType::I32));
    let ins = seq![ValType::I32, ValType::I32];
    lemma_op_accepts_iff_inputs_on_top(t, ins);
    assert(t.skip(t.len() - 2) =~= vals(ins));
    assert(t.take(t.len() - 2) =~= s);
    assert(vals(seq![ValType::I32]) =~= seq![TypeStackElement::Val(ValType::I32)]);
}

/// Popping right after opening a block is refused and changes nothing: the
/// top is the block's marker, not a value.
pub proof fn lemma_pop_after_begin_block_refused(s: Seq<TypeStackElement>)
    ensures
        pop_result(s.push(TypeStackElement::BlockBegin(BlockType(None)))) == Err::<ValType, StackInvariantViolation>(StackInvariantViolation::BlockBeginOnTop),
        after_pop(s.push(TypeStackElement::BlockBegin(BlockType(None)))) == s.push(TypeStackElement::BlockBegin(BlockType(None))),
{
}

/// Closing a block drops the values pushed inside it and its marker, pushes
/// its declared result, and returns its type.
pub proof fn lemma_end_block_discards_inner_values(s: Seq<TypeStackElement>, bt: BlockType, inner: Seq<ValType>)
    ensures
        end_block_result(s.push(TypeStackElement::BlockBegin(bt)) + vals(inner)) == Ok::<BlockType, StackInvariantViolation>(bt),
        after_end_block(s.push(TypeStackElement::BlockBegin(bt)) + vals(inner)) == s + vals(block_results(bt)),
{
    let t = s.push(TypeStackElement::BlockBegin(bt)) + vals(inner);
    lemma_innermost_block_below_values(s, bt, inner);
    assert(t[s.len() as int] == TypeStackElement::BlockBegin(bt));
    assert(t.take(s.len() as int) =~= s);
}

/// Opening a block without result and closing it at once returns that block
/// type and leaves the stack exactly as before.
pub proof fn lemma_empty_block_leaves_stack(s: Seq<TypeStackElement>)
    ensures
        end_block_result(s.push(TypeStackElement::BlockBegin(BlockType(None)))) == Ok::<BlockType, StackInvariantViolation>(BlockType(None)),
        after_end_block(s.push(TypeStackElement::BlockBegin(BlockType(None)))) == s,
{
    let t = s.push(TypeStackElement::BlockBegin(BlockType(None)));
    lemma_end_block_discards_inner_values(s, BlockType(None), Seq::empty());
    assert(t + vals(Seq::empty()) =~= t);
    assert(s + vals(block_results(BlockType(None))) =~= s);
}

/// With block `b` opened inside block `a`, closing once ends only `b`,
/// leaving its result above what was pushed inside `a`; closing again ends
/// `a` and leaves its result above what was there before `a`.
pub proof fn lemma_nested_blocks(
    s: Seq<TypeStackElement>,
    a: BlockType,
    inner_a: Seq<ValType>,
    b: BlockType,
    inner_b: Seq<ValType>,
)
    ensures
        ({
            let before_b = s.push(TypeStackElement::BlockBegin(a)) + vals(inner_a);
            let t = before_b.push(TypeStackElement::BlockBegin(b)) + vals(inner_b);
            let after_b = after_end_block(t);
            &&& end_block_result(t) == Ok::<BlockType, StackInvariantViolation>(b)
            &&& after_b == before_b + vals(block_results(b))
            &&& end_block_result(after_b) == Ok::<BlockType, StackInvariantViolation>(a)
            &&& after_end_block(after_b) == s + vals(block_results(a))
        }),
{
    let before_b = s.push(TypeStackElement::BlockBegin(a)) + vals(inner_a);
    lemma_end_block_discards_inner_values(before_b, b, inner_b);
    let inner = inner_a + block_results(b);
    assert(vals(inner) =~= vals(inner_a) + vals(block_results(b)));
    assert(before_b + vals(block_results(b)) =~= s.push(TypeStackElement::BlockBegin(a)) + vals(inner));
    lemma_end_block_discards_inner_values(s, a, inner);
}

/// An instruction whose last input differs from the value type on top is
/// refused with both types named, and the stack is left as it was.
pub proof fn lemma_op_mismatch_refused(
    s: Seq<TypeStackElement>,
    actual: ValType,
    inputs: Seq<ValType>,
    outputs: Seq<ValType>,
)
    requires
        inputs.len() > 0,
        inputs.last() != actual,
    ensures
        op_result(s.push(TypeStackElement::Val(actual)), inputs) == Err::<(), StackInvariantViolation>(
            StackInvariantViolation::TypeMismatch { expected: inputs.last(), actual },
        ),
        after_op(s.push(TypeStackElement::Val(actual)), inputs, outputs) == s.push(TypeStackElement::Val(actual)),
{
}

} // verus!
