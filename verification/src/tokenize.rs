use vstd::prelude::*;
use crate::inst::Instruction;
use crate::inst::nonzero_payload;
use crate::inst::payload_within;

verus! {

/// Flush a pending instruction to the output. Pending `Add(0)` and `Move(0)`
/// are discarded: zero-valued folds never reach the instruction sequence.
pub open spec fn spec_flush(pend: Option<Instruction>) -> Seq<Instruction> {
    match pend {
        None => Seq::empty(),
        Some(p) => if p == Instruction::Add(0i64) || p == Instruction::Move(0i64) {
            Seq::empty()
        } else {
            seq![p]
        },
    }
}

/// Whether, with clumping enabled, symbol `c` extends the pending instruction
/// instead of closing it.
pub open spec fn spec_extends(pend: Option<Instruction>, c: u8) -> bool {
    match pend {
        Some(Instruction::Add(_)) => c == 43 || c == 45 || c == 48,
        Some(Instruction::Zero) => c == 48,
        Some(Instruction::Move(_)) => c == 62 || c == 60,
        _ => false,
    }
}

/// The pending instruction after symbol `c` extends it.
pub open spec fn spec_extend(pend: Option<Instruction>, c: u8) -> Option<Instruction> {
    match pend {
        Some(Instruction::Add(x)) => if c == 43 {
            Some(Instruction::Add((x + 1) as i64))
        } else if c == 45 {
            Some(Instruction::Add((x - 1) as i64))
        } else {
            Some(Instruction::Zero)
        },
        Some(Instruction::Zero) => Some(Instruction::Zero),
        Some(Instruction::Move(x)) => if c == 62 {
            Some(Instruction::Move((x + 1) as i64))
        } else {
            Some(Instruction::Move((x - 1) as i64))
        },
        _ => pend,
    }
}

/// Whether symbol `c` opens a new pending instruction (an accumulating add,
/// move or zero).
pub open spec fn spec_opens(c: u8) -> bool {
    c == 43 || c == 45 || c == 48 || c == 62 || c == 60
}

/// The fresh pending instruction opened by symbol `c`.
pub open spec fn spec_open(c: u8) -> Option<Instruction> {
    if c == 43 {
        Some(Instruction::Add(1i64))
    } else if c == 45 {
        Some(Instruction::Add(-1i64))
    } else if c == 48 {
        Some(Instruction::Zero)
    } else if c == 62 {
        Some(Instruction::Move(1i64))
    } else {
        Some(Instruction::Move(-1i64))
    }
}

/// Whether symbol `c` maps directly to a non-accumulating instruction.
pub open spec fn spec_direct(c: u8) -> bool {
    c == 46 || c == 44 || c == 91 || c == 93
}

/// The instruction for a non-accumulating symbol.
pub open spec fn spec_direct_inst(c: u8) -> Instruction {
    if c == 46 {
        Instruction::Out
    } else if c == 44 {
        Instruction::In
    } else if c == 91 {
        Instruction::BeginLoop
    } else {
        Instruction::EndLoop
    }
}

/// Tokenize the rest of the text, given the pending instruction so far.
/// With clumping on, a symbol that can extend the pending instruction does so;
/// any other recognized symbol closes it. Unrecognized bytes are ignored, and
/// the final pending instruction is flushed at end of text.
pub open spec fn spec_tok(code: Seq<u8>, clump: bool, pend: Option<Instruction>) -> Seq<
    Instruction,
>
    decreases code.len(),
{
    if code.len() == 0 {
        spec_flush(pend)
    } else {
        let c = code[0];
        let rest = code.drop_first();
        if clump && spec_extends(pend, c) {
            spec_tok(rest, clump, spec_extend(pend, c))
        } else if spec_opens(c) {
            spec_flush(pend) + spec_tok(rest, clump, spec_open(c))
        } else if spec_direct(c) {
            spec_flush(pend) + seq![spec_direct_inst(c)] + spec_tok(rest, clump, None)
        } else {
            spec_tok(rest, clump, pend)
        }
    }
}

/// The instruction sequence for a filtered text.
pub open spec fn spec_tokenize(code: Seq<u8>, clump: bool) -> Seq<Instruction> {
    spec_tok(code, clump, None)
}

/// The magnitude of a pending instruction's payload; zero when nothing is
/// pending.
pub open spec fn pend_mag(pend: Option<Instruction>) -> int {
    match pend {
        Some(Instruction::Add(x)) => if x >= 0 {
            x as int
        } else {
            -(x as int)
        },
        Some(Instruction::Move(x)) => if x >= 0 {
            x as int
        } else {
            -(x as int)
        },
        _ => 0,
    }
}

/// Only an accumulating instruction (or nothing) can be pending.
pub open spec fn pend_wf(pend: Option<Instruction>) -> bool {
    match pend {
        None => true,
        Some(Instruction::Add(_)) => true,
        Some(Instruction::Move(_)) => true,
        Some(Instruction::Zero) => true,
        _ => false,
    }
}

/// Every payload of the tokenized sequence is bounded by the pending
/// magnitude plus the number of bytes still to scan.
proof fn lemma_tok_bounded(code: Seq<u8>, clump: bool, pend: Option<Instruction>)
    requires
        pend_wf(pend),
        pend_mag(pend) + code.len() <= i64::MAX,
    ensures
        forall|j: int|
            0 <= j < spec_tok(code, clump, pend).len() ==> payload_within(
                #[trigger] spec_tok(code, clump, pend)[j],
                pend_mag(pend) + code.len(),
            ),
    decreases code.len(),
{
    if code.len() == 0 {
    } else {
        let c = code[0];
        let rest = code.drop_first();
        let res = spec_tok(code, clump, pend);
        let b = pend_mag(pend) + code.len();
        if clump && spec_extends(pend, c) {
            assert(pend_mag(spec_extend(pend, c)) <= pend_mag(pend) + 1);
            lemma_tok_bounded(rest, clump, spec_extend(pend, c));
            assert(res == spec_tok(rest, clump, spec_extend(pend, c)));
            assert(pend_mag(spec_extend(pend, c)) + rest.len() <= b);
            assert forall|j: int| 0 <= j < res.len() implies payload_within(res[j], b) by {
                assert(payload_within(
                    spec_tok(rest, clump, spec_extend(pend, c))[j],
                    pend_mag(spec_extend(pend, c)) + rest.len(),
                ));
            }
        } else if spec_opens(c) {
            lemma_tok_bounded(rest, clump, spec_open(c));
            let sub = spec_tok(rest, clump, spec_open(c));
            assert(res == spec_flush(pend) + sub);
            assert(pend_mag(spec_open(c)) + rest.len() <= b);
            assert forall|j: int| 0 <= j < res.len() implies payload_within(res[j], b) by {
                if j < spec_flush(pend).len() {
                    assert(res[j] == spec_flush(pend)[j]);
                } else {
                    assert(res[j] == sub[j - spec_flush(pend).len()]);
                    assert(payload_within(
                        sub[j - spec_flush(pend).len()],
                        pend_mag(spec_open(c)) + rest.len(),
                    ));
                }
            }
        } else if spec_direct(c) {
            lemma_tok_bounded(rest, clump, None);
            let sub = spec_tok(rest, clump, None);
            let front = spec_flush(pend) + seq![spec_direct_inst(c)];
            assert(res == front + sub);
            assert(pend_mag(None) + rest.len() <= b);
            assert forall|j: int| 0 <= j < res.len() implies payload_within(res[j], b) by {
                if j < spec_flush(pend).len() {
                    assert(res[j] == spec_flush(pend)[j]);
                } else if j < front.len() {
                    assert(res[j] == spec_direct_inst(c));
                } else {
                    assert(res[j] == sub[j - front.len()]);
                    assert(payload_within(sub[j - front.len()], pend_mag(None) + rest.len()));
                }
            }
        } else {
            lemma_tok_bounded(rest, clump, pend);
            assert(res == spec_tok(rest, clump, pend));
            assert forall|j: int| 0 <= j < res.len() implies payload_within(res[j], b) by {
                assert(payload_within(
                    spec_tok(rest, clump, pend)[j],
                    pend_mag(pend) + rest.len(),
                ));
            }
        }
    }
}

/// Every payload of the tokenized sequence is bounded by the text length.
pub proof fn lemma_tokenize_bounded(code: Seq<u8>, clump: bool)
    requires
        code.len() <= i64::MAX,
    ensures
        forall|j: int|
            0 <= j < spec_tokenize(code, clump).len() ==> payload_within(
                #[trigger] spec_tokenize(code, clump)[j],
                code.len() as int,
            ),
{
    lemma_tok_bounded(code, clump, None);
}

/// No `Add(0)` or `Move(0)` ever appears in a tokenized sequence.
pub proof fn lemma_tok_pruned(code: Seq<u8>, clump: bool, pend: Option<Instruction>)
    ensures
        forall|j: int|
            0 <= j < spec_tok(code, clump, pend).len() ==> nonzero_payload(
                #[trigger] spec_tok(code, clump, pend)[j],
            ),
    decreases code.len(),
{
    if code.len() == 0 {
    } else {
        let c = code[0];
        let rest = code.drop_first();
        let res = spec_tok(code, clump, pend);
        if clump && spec_extends(pend, c) {
            lemma_tok_pruned(rest, clump, spec_extend(pend, c));
            assert(res == spec_tok(rest, clump, spec_extend(pend, c)));
        } else if spec_opens(c) {
            lemma_tok_pruned(rest, clump, spec_open(c));
            let sub = spec_tok(rest, clump, spec_open(c));
            assert forall|j: int| 0 <= j < res.len() implies nonzero_payload(res[j]) by {
                if j < spec_flush(pend).len() {
                    assert(res[j] == spec_flush(pend)[j]);
                } else {
                    assert(res[j] == sub[j - spec_flush(pend).len()]);
                }
            }
        } else if spec_direct(c) {
            lemma_tok_pruned(rest, clump, None);
            let sub = spec_tok(rest, clump, None);
            let front = spec_flush(pend) + seq![spec_direct_inst(c)];
            assert forall|j: int| 0 <= j < res.len() implies nonzero_payload(res[j]) by {
                if j < spec_flush(pend).len() {
                    assert(res[j] == spec_flush(pend)[j]);
                } else if j < front.len() {
                    assert(res[j] == spec_direct_inst(c));
                } else {
                    assert(res[j] == sub[j - front.len()]);
                }
            }
        } else {
            lemma_tok_pruned(rest, clump, pend);
            assert(res == spec_tok(rest, clump, pend));
        }
    }
}

/// The literal one-symbol-one-instruction translation: with clumping off,
/// each recognized symbol maps to its own instruction and nothing is folded.
pub open spec fn spec_literal(code: Seq<u8>) -> Seq<Instruction>
    decreases code.len(),
{
    if code.len() == 0 {
        Seq::empty()
    } else if spec_opens(code[0]) {
        seq![spec_open(code[0]).unwrap()] + spec_literal(code.drop_first())
    } else if spec_direct(code[0]) {
        seq![spec_direct_inst(code[0])] + spec_literal(code.drop_first())
    } else {
        spec_literal(code.drop_first())
    }
}

/// With clumping off the tokenizer performs the literal translation after
/// the pending instruction is flushed.
proof fn lemma_tok_literal(code: Seq<u8>, pend: Option<Instruction>)
    ensures
        spec_tok(code, false, pend) == spec_flush(pend) + spec_literal(code),
    decreases code.len(),
{
    if code.len() == 0 {
        assert(spec_tok(code, false, pend) =~= spec_flush(pend) + spec_literal(code));
    } else {
        let c = code[0];
        let rest = code.drop_first();
        if spec_opens(c) {
            lemma_tok_literal(rest, spec_open(c));
            assert(spec_flush(spec_open(c)) =~= seq![spec_open(c).unwrap()]);
            assert(spec_tok(code, false, pend) =~= spec_flush(pend) + spec_literal(code));
        } else if spec_direct(c) {
            lemma_tok_literal(rest, None);
            assert(spec_tok(code, false, pend) =~= spec_flush(pend) + spec_literal(code));
        } else {
            lemma_tok_literal(rest, pend);
            assert(spec_tok(code, false, pend) =~= spec_flush(pend) + spec_literal(code));
        }
    }
}

/// With clumping off the tokenized sequence is exactly the literal
/// one-symbol-one-instruction translation of the text.
pub proof fn lemma_tokenize_unclumped(code: Seq<u8>)
    ensures
        spec_tokenize(code, false) == spec_literal(code),
{
    lemma_tok_literal(code, None);
    assert(spec_flush(None) + spec_literal(code) =~= spec_literal(code));
}

/// Convert the filtered text to an instruction sequence, folding runs of
/// identical increment/decrement or move symbols into single counted
/// instructions when `clump` is on, and pruning zero-valued folds.
pub fn tokenize(code: &Vec<u8>, clump: bool) -> (r: Vec<Instruction>)
    requires
        code@.len() <= 0x1000_0000_0000_0000,
    ensures
        r@ == spec_tokenize(code@, clump),
        forall|j: int| 0 <= j < r@.len() ==> nonzero_payload(#[trigger] r@[j]),
{
    let ghost whole = spec_tokenize(code@, clump);
    let mut out: Vec<Instruction> = Vec::new();
    let mut pend: Option<Instruction> = None;
    let mut i: usize = 0;
    proof {
        assert(code@.skip(0) =~= code@);
        assert(out@ + spec_tok(code@, clump, pend) =~= spec_tok(code@, clump, pend));
    }
    while i < code.len()
        invariant
            i <= code@.len(),
            code@.len() <= 0x1000_0000_0000_0000,
            whole == spec_tokenize(code@, clump),
            whole == out@ + spec_tok(code@.skip(i as int), clump, pend),
            pend_mag(pend) <= i,
        decreases code@.len() - i,
    {
        let c = code[i];
        let ghost rest = code@.skip(i as int);
        proof {
            assert(rest[0] == code@[i as int]);
            assert(rest.drop_first() =~= code@.skip(i + 1));
        }
        if clump && (match pend {
            Some(Instruction::Add(_)) => c == 43 || c == 45 || c == 48,
            Some(Instruction::Zero) => c == 48,
            Some(Instruction::Move(_)) => c == 62 || c == 60,
            _ => false,
        }) {
            pend = match pend {
                Some(Instruction::Add(x)) => if c == 43 {
                    Some(Instruction::Add(x + 1))
                } else if c == 45 {
                    Some(Instruction::Add(x - 1))
                } else {
                    Some(Instruction::Zero)
                },
                Some(Instruction::Zero) => Some(Instruction::Zero),
                Some(Instruction::Move(x)) => if c == 62 {
                    Some(Instruction::Move(x + 1))
                } else {
                    Some(Instruction::Move(x - 1))
                },
                _ => pend,
            };
            proof {
                assert(out@ + spec_tok(code@.skip(i + 1), clump, pend) =~= whole);
            }
        } else if c == 43 || c == 45 || c == 48 || c == 62 || c == 60 {
            flush_pending(&mut out, pend);
            pend = if c == 43 {
                Some(Instruction::Add(1))
            } else if c == 45 {
                Some(Instruction::Add(-1))
            } else if c == 48 {
                Some(Instruction::Zero)
            } else if c == 62 {
                Some(Instruction::Move(1))
            } else {
                Some(Instruction::Move(-1))
            };
            proof {
                assert(out@ + spec_tok(code@.skip(i + 1), clump, pend) =~= whole);
            }
        } else if c == 46 || c == 44 || c == 91 || c == 93 {
            flush_pending(&mut out, pend);
            if c == 46 {
                out.push(Instruction::Out);
            } else if c == 44 {
                out.push(Instruction::In);
            } else if c == 91 {
                out.push(Instruction::BeginLoop);
            } else {
                out.push(Instruction::EndLoop);
            }
            pend = None;
            proof {
                assert(out@ + spec_tok(code@.skip(i + 1), clump, pend) =~= whole);
            }
        } else {
            proof {
                assert(out@ + spec_tok(code@.skip(i + 1), clump, pend) =~= whole);
            }
        }
        i = i + 1;
    }
    proof {
        assert(code@.skip(code@.len() as int) =~= Seq::<u8>::empty());
    }
    flush_pending(&mut out, pend);
    proof {
        assert(out@ =~= whole);
        lemma_tok_pruned(code@, clump, None);
    }
    out
}

/// Push the pending instruction, discarding zero-valued adds and moves.
fn flush_pending(out: &mut Vec<Instruction>, pend: Option<Instruction>)
    ensures
        final(out)@ == old(out)@ + spec_flush(pend),
{
    match pend {
        None => {
            proof {
                assert(out@ + spec_flush(pend) =~= out@);
            }
        },
        Some(p) => {
            if p == Instruction::Add(0) || p == Instruction::Move(0) {
                proof {
                    assert(out@ + spec_flush(pend) =~= out@);
                }
            } else {
                out.push(p);
                proof {
                    assert(old(out)@ + spec_flush(pend) =~= old(out)@.push(p));
                }
            }
        },
    }
}

} // verus!
