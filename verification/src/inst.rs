use vstd::prelude::*;

verus! {

/// One instruction of the intermediate language. Payloads are signed:
/// `Add` and `Move` carry a delta, the offset forms carry a constant
/// pointer offset, and `Mult` carries an offset and a factor.
#[derive(Clone, Copy, Debug, PartialEq, Eq, Structural)]
pub enum Instruction {
    /// Add `delta` to the cell at the pointer.
    Add(i64),
    /// Add `delta` to the cell at `pointer + offset`; the pointer is unchanged.
    AddOffset(i64, i64),
    /// Set the cell at the pointer to zero.
    Zero,
    /// Set the cell at `pointer + offset` to zero.
    ZeroOffset(i64),
    /// Advance the pointer by `delta`.
    Move(i64),
    /// Add `factor * current cell` to the cell at `pointer + offset`.
    Mult(i64, i64),
    /// Read one byte into the current cell, per the configured policy.
    In,
    /// Write the current cell as one byte.
    Out,
    /// Open a loop that runs while the current cell is nonzero.
    BeginLoop,
    /// Close the innermost open loop.
    EndLoop,
}

/// Every integer payload of the instruction lies within `bound` in magnitude.
/// The peephole optimizer adds two payloads of matched instructions, so its
/// callers keep payloads small enough that such sums cannot overflow.
pub open spec fn payload_within(ins: Instruction, bound: int) -> bool {
    match ins {
        Instruction::Add(x) => -bound <= x <= bound,
        Instruction::AddOffset(x, o) => -bound <= x <= bound && -bound <= o <= bound,
        Instruction::ZeroOffset(o) => -bound <= o <= bound,
        Instruction::Move(x) => -bound <= x <= bound,
        Instruction::Mult(o, f) => -bound <= o <= bound && -bound <= f <= bound,
        _ => true,
    }
}

/// The instruction is neither `Add(0)` nor `Move(0)`: zero-valued folds are
/// pruned by the tokenizer and never reintroduced.
pub open spec fn nonzero_payload(ins: Instruction) -> bool {
    ins != Instruction::Add(0) && ins != Instruction::Move(0)
}

} // verus!
