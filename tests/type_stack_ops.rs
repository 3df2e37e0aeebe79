use type_stack::type_stack::{StackInvariantViolation, TypeStack};
use type_stack::types::{BlockType, ValType};

const ALL: [ValType; 4] = [ValType::I32, ValType::I64, ValType::F32, ValType::F64];

#[test]
fn push_then_pop_round_trips_every_type() {
    for v in ALL {
        let mut st = TypeStack::new();
        st.push(v);
        assert_eq!(st.pop(), Ok(v));
        assert_eq!(st.pop(), Err(StackInvariantViolation::EmptyStack));
    }
}

#[test]
fn binary_op_on_two_i32_leaves_one_i32() {
    let mut st = TypeStack::new();
    st.push(ValType::F64);
    st.push(ValType::I32);
    st.push(ValType::I32);
    assert_eq!(st.op(&[ValType::I32, ValType::I32], &[ValType::I32]), Ok(()));
    assert_eq!(st.pop(), Ok(ValType::I32));
    assert_eq!(st.pop(), Ok(ValType::F64));
    assert_eq!(st.pop(), Err(StackInvariantViolation::EmptyStack));
}

#[test]
fn op_consumes_last_input_from_top() {
    let mut st = TypeStack::new();
    st.push(ValType::I32);
    st.push(ValType::I64);
    assert_eq!(st.op(&[ValType::I32, ValType::I64], &[ValType::F32, ValType::F64]), Ok(()));
    assert_eq!(st.pop(), Ok(ValType::F64));
    assert_eq!(st.pop(), Ok(ValType::F32));
    assert_eq!(st.pop(), Err(StackInvariantViolation::EmptyStack));
}

#[test]
fn op_with_no_inputs_only_pushes() {
    let mut st = TypeStack::new();
    assert_eq!(st.op(&[], &[ValType::I64]), Ok(()));
    assert_eq!(st.pop(), Ok(ValType::I64));
}

#[test]
fn pop_on_fresh_stack_is_refused() {
    let mut st = TypeStack::new();
    assert_eq!(st.pop(), Err(StackInvariantViolation::EmptyStack));
}

#[test]
fn pop_right_after_begin_block_is_refused() {
    let mut st = TypeStack::new();
    st.begin_block(BlockType(None));
    assert_eq!(st.pop(), Err(StackInvariantViolation::BlockBeginOnTop));
    // the marker is still there
    assert_eq!(st.end_block(), Ok(BlockType(None)));
}

#[test]
fn empty_block_leaves_stack_as_before() {
    let mut st = TypeStack::new();
    st.push(ValType::I64);
    st.begin_block(BlockType(None));
    assert_eq!(st.end_block(), Ok(BlockType(None)));
    assert_eq!(st.pop(), Ok(ValType::I64));
    assert_eq!(st.pop(), Err(StackInvariantViolation::EmptyStack));
}

#[test]
fn end_block_discards_inner_values_and_pushes_result() {
    let mut st = TypeStack::new();
    st.begin_block(BlockType(Some(ValType::I32)));
    st.push(ValType::F64);
    st.push(ValType::I32);
    assert_eq!(st.end_block(), Ok(BlockType(Some(ValType::I32))));
    assert_eq!(st.pop(), Ok(ValType::I32));
    assert_eq!(st.pop(), Err(StackInvariantViolation::EmptyStack));
}

#[test]
fn nested_blocks_close_innermost_first() {
    let mut st = TypeStack::new();
    st.begin_block(BlockType(Some(ValType::I64)));
    st.push(ValType::F32);
    st.begin_block(BlockType(Some(ValType::I32)));
    st.push(ValType::F64);
    assert_eq!(st.end_block(), Ok(BlockType(Some(ValType::I32))));
    assert_eq!(st.pop(), Ok(ValType::I32));
    assert_eq!(st.pop(), Ok(ValType::F32));
    st.push(ValType::I32);
    assert_eq!(st.end_block(), Ok(BlockType(Some(ValType::I64))));
    assert_eq!(st.pop(), Ok(ValType::I64));
    assert_eq!(st.pop(), Err(StackInvariantViolation::EmptyStack));
}

#[test]
fn nested_blocks_without_results() {
    let mut st = TypeStack::new();
    st.begin_block(BlockType(None));
    st.begin_block(BlockType(None));
    assert_eq!(st.end_block(), Ok(BlockType(None)));
    assert_eq!(st.pop(), Err(StackInvariantViolation::BlockBeginOnTop));
    assert_eq!(st.end_block(), Ok(BlockType(None)));
    assert_eq!(st.pop(), Err(StackInvariantViolation::EmptyStack));
}

#[test]
fn end_block_with_no_open_block_is_refused() {
    let mut st = TypeStack::new();
    st.push(ValType::I32);
    assert_eq!(st.end_block(), Err(StackInvariantViolation::NoOpenBlock));
    // the stack is left as it was
    assert_eq!(st.pop(), Ok(ValType::I32));
    assert_eq!(TypeStack::new().end_block(), Err(StackInvariantViolation::NoOpenBlock));
}

#[test]
fn op_type_mismatch_is_refused_without_change() {
    let mut st = TypeStack::new();
    st.push(ValType::I32);
    st.push(ValType::I64);
    assert_eq!(
        st.op(&[ValType::I32, ValType::I32], &[ValType::I32]),
        Err(StackInvariantViolation::TypeMismatch { expected: ValType::I32, actual: ValType::I64 })
    );
    assert_eq!(st.pop(), Ok(ValType::I64));
    assert_eq!(st.pop(), Ok(ValType::I32));
    assert_eq!(st.pop(), Err(StackInvariantViolation::EmptyStack));
}

#[test]
fn op_mismatch_below_top_consumes_nothing() {
    let mut st = TypeStack::new();
    st.push(ValType::F32);
    st.push(ValType::I32);
    assert_eq!(
        st.op(&[ValType::I64, ValType::I32], &[ValType::I32]),
        Err(StackInvariantViolation::TypeMismatch { expected: ValType::I64, actual: ValType::F32 })
    );
    assert_eq!(st.pop(), Ok(ValType::I32));
    assert_eq!(st.pop(), Ok(ValType::F32));
}

#[test]
fn op_on_too_short_stack_is_refused() {
    let mut st = TypeStack::new();
    st.push(ValType::I32);
    assert_eq!(
        st.op(&[ValType::I32, ValType::I32], &[ValType::I32]),
        Err(StackInvariantViolation::EmptyStack)
    );
    assert_eq!(st.pop(), Ok(ValType::I32));
}

#[test]
fn op_stopped_by_block_marker() {
    let mut st = TypeStack::new();
    st.push(ValType::I32);
    st.begin_block(BlockType(None));
    st.push(ValType::I32);
    assert_eq!(
        st.op(&[ValType::I32, ValType::I32], &[ValType::I32]),
        Err(StackInvariantViolation::BlockBeginOnTop)
    );
    assert_eq!(st.pop(), Ok(ValType::I32));
}
