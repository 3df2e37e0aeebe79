use vstd::prelude::*;
use crate::types::{block_results, BlockType, ValType};

verus! {

/// One slot of the abstract stack: a value, or the start of an open block.
#[derive(Clone, Copy, Debug, PartialEq, Eq, Structural)]
pub enum TypeStackElement {
    Val(ValType),
    BlockBegin(BlockType),
}

/// Why an operation on the stack was refused; each one means the caller
/// drove the stack with an ill-formed instruction sequence.
#[derive(Clone, Copy, Debug, PartialEq, Eq, Structural)]
pub enum StackInvariantViolation {
    /// A value was wanted but the stack is empty.
    EmptyStack,
    /// A value was wanted but the top is the marker of an open block.
    BlockBeginOnTop,
    /// The value on top is not of the type the instruction consumes.
    TypeMismatch { expected: ValType, actual: ValType },
    /// A block was closed but no block is open.
    NoOpenBlock,
}

/// The abstract operand stack, bottom first.
#[derive(Debug)]
pub struct TypeStack(Vec<TypeStackElement>);

impl View for TypeStack {
    type V = Seq<TypeStackElement>;

    closed spec fn view(&self) -> Seq<TypeStackElement> {
        self.0@
    }
}

/// Values as stack elements, in the same order.
pub open spec fn vals(tys: Seq<ValType>) -> Seq<TypeStackElement> {
    tys.map_values(|t: ValType| TypeStackElement::Val(t))
}

/// What `pop` returns on stack `s`.
pub open spec fn pop_result(s: Seq<TypeStackElement>) -> Result<ValType, StackInvariantViolation> {
    if s.len() == 0 {
        Err(StackInvariantViolation::EmptyStack)
    } else {
        match s.last() {
            TypeStackElement::Val(ty) => Ok(ty),
            TypeStackElement::BlockBegin(_) => Err(StackInvariantViolation::BlockBeginOnTop),
        }
    }
}

/// The stack after `pop` on `s`: one element shorter on success, else unchanged.
pub open spec fn after_pop(s: Seq<TypeStackElement>) -> Seq<TypeStackElement> {
    if pop_result(s) is Ok {
        s.drop_last()
    } else {
        s
    }
}

/// Index in `s` of the marker of the innermost open block, or -1 when no
/// block is open.
pub open spec fn innermost_block(s: Seq<TypeStackElement>) -> int
    decreases s.len(),
{
    if s.len() == 0 {
        -1
    } else if s.last() is BlockBegin {
        s.len() - 1
    } else {
        innermost_block(s.drop_last())
    }
}

/// What `end_block` returns on stack `s`: the type of the innermost open block.
pub open spec fn end_block_result(s: Seq<TypeStackElement>) -> Result<BlockType, StackInvariantViolation> {
    let k = innermost_block(s);
    if 0 <= k < s.len() && s[k] is BlockBegin {
        Ok(s[k]->BlockBegin_0)
    } else {
        Err(StackInvariantViolation::NoOpenBlock)
    }
}

/// The stack after `end_block` on `s`: everything from the innermost marker up
/// is removed and the block's declared result is pushed; unchanged when no
/// block is open.
pub open spec fn after_end_block(s: Seq<TypeStackElement>) -> Seq<TypeStackElement> {
    match end_block_result(s) {
        Ok(bt) => s.take(innermost_block(s)) + vals(block_results(bt)),
        Err(_) => s,
    }
}

/// `innermost_block` points at a marker with only values above it, or says
/// that `s` holds no marker at all.
pub proof fn lemma_innermost_block(s: Seq<TypeStackElement>)
    ensures
        -1 <= innermost_block(s) < s.len(),
        innermost_block(s) >= 0 ==> s[innermost_block(s)] is BlockBegin,
        forall|j: int| innermost_block(s) < j < s.len() ==> s[j] is Val,
    decreases s.len(),
{
    if s.len() > 0 && !(s.last() is BlockBegin) {
        lemma_innermost_block(s.drop_last());
        assert forall|j: int| innermost_block(s) < j < s.len() implies s[j] is Val by {
            if j < s.len() - 1 {
                assert(s[j] == s.drop_last()[j]);
            }
        }
    }
}

/// What `op` returns on stack `s` for an instruction that consumes `inputs`:
/// the inputs are matched from the last one down against the values on top,
/// and the first element that is missing, a marker or of another type
/// decides the refusal.
pub open spec fn op_result(s: Seq<TypeStackElement>, inputs: Seq<ValType>) -> Result<(), StackInvariantViolation>
    decreases inputs.len(),
{
    if inputs.len() == 0 {
        Ok(())
    } else {
        match pop_result(s) {
            Err(e) => Err(e),
            Ok(ty) => if ty != inputs.last() {
                Err(StackInvariantViolation::TypeMismatch { expected: inputs.last(), actual: ty })
            } else {
                op_result(s.drop_last(), inputs.drop_last())
            },
        }
    }
}

/// The stack after `op` on `s`: the inputs are replaced by the outputs on
/// success; unchanged when refused.
pub open spec fn after_op(s: Seq<TypeStackElement>, inputs: Seq<ValType>, outputs: Seq<ValType>) -> Seq<TypeStackElement> {
    if op_result(s, inputs) is Ok {
        s.take(s.len() - inputs.len()) + vals(outputs)
    } else {
        s
    }
}

/// An instruction is accepted exactly when its inputs, in declaration order,
/// are the values on top of the stack.
pub proof fn lemma_op_accepts_iff_inputs_on_top(s: Seq<TypeStackElement>, inputs: Seq<ValType>)
    ensures
        op_result(s, inputs) is Ok <==> inputs.len() <= s.len() && s.skip(s.len() - inputs.len()) == vals(inputs),
    decreases inputs.len(),
{
    if inputs.len() > 0 && s.len() > 0 {
        lemma_op_accepts_iff_inputs_on_top(s.drop_last(), inputs.drop_last());
        let k = s.len() - inputs.len();
        if inputs.len() <= s.len() {
            assert(vals(inputs) =~= vals(inputs.drop_last()).push(TypeStackElement::Val(inputs.last())));
            assert(s.skip(k) =~= s.drop_last().skip(k).push(s.last()));
            if s.skip(k) == vals(inputs) {
                assert(s.skip(k).last() == vals(inputs).last());
                assert(s.drop_last().skip(k) =~= s.skip(k).drop_last());
                assert(vals(inputs.drop_last()) =~= vals(inputs).drop_last());
            }
        }
    } else if inputs.len() > 0 {
        assert(!(inputs.len() <= s.len()));
    } else {
        assert(s.skip(s.len() as int) =~= vals(inputs));
    }
}

impl TypeStack {
    /// An empty stack: no values, no open block.
    pub fn new() -> (r: TypeStack)
        ensures
            r@ == Seq::<TypeStackElement>::empty(),
    {
        TypeStack(Vec::new())
    }

    /// Pushes a value of type `ty`.
    pub fn push(&mut self, ty: ValType)
        ensures
            final(self)@ == old(self)@.push(TypeStackElement::Val(ty)),
    {
        self.0.push(TypeStackElement::Val(ty))
    }

    /// Removes the value on top and returns its type; refused, leaving the
    /// stack as it was, when the stack is empty or its top is a block marker.
    pub fn pop(&mut self) -> (r: Result<ValType, StackInvariantViolation>)
        ensures
            r == pop_result(old(self)@),
            final(self)@ == after_pop(old(self)@),
    {
        let n = self.0.len();
        if n == 0 {
            return Err(StackInvariantViolation::EmptyStack);
        }
        match self.0[n - 1] {
            TypeStackElement::BlockBegin(_) => Err(StackInvariantViolation::BlockBeginOnTop),
            TypeStackElement::Val(ty) => {
                self.0.pop();
                Ok(ty)
            },
        }
    }

    /// Opens a block of type `block_ty`.
    pub fn begin_block(&mut self, block_ty: BlockType)
        ensures
            final(self)@ == old(self)@.push(TypeStackElement::BlockBegin(block_ty)),
    {
        self.0.push(TypeStackElement::BlockBegin(block_ty))
    }

    /// Closes the innermost open block: drops every value above its marker
    /// (without checking them), drops the marker, pushes the block's declared
    /// result if it has one, and returns the block's type. Refused, leaving
    /// the stack as it was, when no block is open.
    pub fn end_block(&mut self) -> (r: Result<BlockType, StackInvariantViolation>)
        ensures
            r == end_block_result(old(self)@),
            final(self)@ == after_end_block(old(self)@),
    {
        let ghost s = self@;
        let n = self.0.len();
        let mut i: usize = n;
        assert(s.take(n as int) =~= s);
        while i > 0
            invariant
                i <= n,
                n == s.len(),
                s == old(self)@,
                self@ == s,
                innermost_block(s) == innermost_block(s.take(i as int)),
            decreases i,
        {
            proof {
                assert(s.take(i as int).drop_last() =~= s.take(i - 1));
                assert(s.take(i as int).last() == s[i - 1]);
            }
            match self.0[i - 1] {
                TypeStackElement::BlockBegin(block_ty) => {
                    self.0.truncate(i - 1);
                    if let Some(ty) = block_ty.0 {
                        self.0.push(TypeStackElement::Val(ty));
                        assert(self@ =~= s.take(i - 1) + vals(block_results(block_ty)));
                    } else {
                        assert(self@ =~= s.take(i - 1) + vals(block_results(block_ty)));
                    }
                    return Ok(block_ty);
                },
                TypeStackElement::Val(_) => {},
            }
            i = i - 1;
        }
        Err(StackInvariantViolation::NoOpenBlock)
    }
    /// Applies one instruction's stack effect: consumes `input_tys` (the last
    /// one from the top) and then pushes `result_tys` in order. Refused,
    /// leaving the stack as it was, at the first input that is not on top.
    pub fn op(&mut self, input_tys: &[ValType], result_tys: &[ValType]) -> (r: Result<(), StackInvariantViolation>)
        ensures
            r == op_result(old(self)@, input_tys@),
            final(self)@ == after_op(old(self)@, input_tys@, result_tys@),
    {
        let ghost s = self@;
        let ghost ins = input_tys@;
        let n = self.0.len();
        let m = input_tys.len();
        let mut i: usize = 0;
        assert(s.take(n as int) =~= s);
        assert(ins.take(m as int) =~= ins);
        while i < m
            invariant
                i <= m,
                i <= n,
                n == s.len(),
                m == ins.len(),
                ins == input_tys@,
                s == old(self)@,
                self@ == s,
                op_result(s, ins) == op_result(s.take(n - i), ins.take(m - i)),
            decreases m - i,
        {
            if i == n {
                return Err(StackInvariantViolation::EmptyStack);
            }
            proof {
                assert(s.take(n - i).drop_last() =~= s.take(n - i - 1));
                assert(ins.take(m - i).drop_last() =~= ins.take(m - i - 1));
            }
            assert(s.take(n - i).last() == s[n - 1 - i]);
            match self.0[n - 1 - i] {
                TypeStackElement::BlockBegin(_) => {
                    return Err(StackInvariantViolation::BlockBeginOnTop);
                },
                TypeStackElement::Val(ty) => {
                    if ty != input_tys[m - 1 - i] {
                        return Err(StackInvariantViolation::TypeMismatch { expected: input_tys[m - 1 - i], actual: ty });
                    }
                },
            }
            i = i + 1;
        }
        self.0.truncate(n - m);
        let mut j: usize = 0;
        while j < result_tys.len()
            invariant
                j <= result_tys.len(),
                n == s.len(),
                m == ins.len(),
                m <= n,
                self@ == s.take(n - m) + vals(result_tys@.take(j as int)),
            decreases result_tys.len() - j,
        {
            self.0.push(TypeStackElement::Val(result_tys[j]));
            assert(result_tys@.take(j + 1) =~= result_tys@.take(j as int).push(result_tys@[j as int]));
            assert(vals(result_tys@.take(j + 1)) =~= vals(result_tys@.take(j as int)).push(TypeStackElement::Val(result_tys@[j as int])));
            j = j + 1;
        }
        assert(result_tys@.take(j as int) =~= result_tys@);
        Ok(())
    }
}

} // verus!
