use vstd::prelude::*;

verus! {

/// A primitive value category of the instruction format.
#[derive(Clone, Copy, Debug, PartialEq, Eq, Structural)]
pub enum ValType {
    I32,
    I64,
    F32,
    F64,
}

/// The declared result shape of a block: no result, or exactly one value.
#[derive(Clone, Copy, Debug, PartialEq, Eq, Structural)]
pub struct BlockType(pub Option<ValType>);

/// The values that closing a block of type `bt` leaves on the stack.
pub open spec fn block_results(bt: BlockType) -> Seq<ValType> {
    match bt.0 {
        Some(ty) => seq![ty],
        None => Seq::empty(),
    }
}

} // verus!
