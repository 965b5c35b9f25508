use vstd::prelude::*;
use crate::inst::Instruction;
use crate::inst::nonzero_payload;
use crate::inst::payload_within;
use crate::config::OptFlags;

verus! {

/// The largest payload magnitude the optimizer accepts; sums of two such
/// payloads stay well inside the signed 64-bit range.
pub open spec fn peephole_bound() -> int {
    0x2000_0000_0000_0000
}

/// The single-destination multiply-accumulate loop occupies six slots
/// starting at `i`: a loop whose body is "decrement by one, move `m1`,
/// add `a1`, move `m2`" in either rotation, with `m1 == -m2`.
pub open spec fn is_move_loop(s: Seq<Instruction>, i: int, f: OptFlags) -> bool {
    f.move_loop && 0 <= i && i + 6 <= s.len() && s[i] is BeginLoop && s[i + 5] is EndLoop && (
    (s[i + 1] == Instruction::Add(-1i64) && s[i + 2] is Move && s[i + 3] is Add && s[i + 4] is Move
        && s[i + 2]->Move_0 == -s[i + 4]->Move_0) || (s[i + 1] is Move && s[i + 2] is Add && s[i
        + 3] is Move && s[i + 4] == Instruction::Add(-1i64) && s[i + 1]->Move_0 == -s[i
        + 3]->Move_0))
}

/// The captured move of a matched move-accumulate loop.
pub open spec fn ml_m1(s: Seq<Instruction>, i: int) -> i64 {
    if s[i + 1] == Instruction::Add(-1i64) {
        s[i + 2]->Move_0
    } else {
        s[i + 1]->Move_0
    }
}

/// The captured additive factor of a matched move-accumulate loop.
pub open spec fn ml_a1(s: Seq<Instruction>, i: int) -> i64 {
    if s[i + 1] == Instruction::Add(-1i64) {
        s[i + 3]->Add_0
    } else {
        s[i + 2]->Add_0
    }
}

/// The dual-destination copy loop occupies eight slots starting at `i`:
/// a loop whose body is "decrement by one, move `m1`, add `a1`, move `m2`,
/// add `a2`, move `m3`" in either rotation, with `-m3 == m1 + m2`. Unless
/// both additive factors are one, the multiply recognition must also be on.
pub open spec fn is_copy_loop(s: Seq<Instruction>, i: int, f: OptFlags) -> bool {
    f.copy_loop && 0 <= i && i + 8 <= s.len() && s[i] is BeginLoop && s[i + 7] is EndLoop && (
    (s[i + 1] == Instruction::Add(-1i64) && s[i + 2] is Move && s[i + 3] is Add && s[i + 4] is Move
        && s[i + 5] is Add && s[i + 6] is Move && -s[i + 6]->Move_0 == s[i + 2]->Move_0 + s[i
        + 4]->Move_0 && (((s[i + 3]->Add_0 == 1 && s[i + 5]->Add_0 == 1)) || f.mult_loop)) || (s[i
        + 1] is Move && s[i + 2] is Add && s[i + 3] is Move && s[i + 4] is Add && s[i + 5] is Move
        && s[i + 6] == Instruction::Add(-1i64) && -s[i + 5]->Move_0 == s[i + 1]->Move_0 + s[i
        + 3]->Move_0 && (((s[i + 2]->Add_0 == 1 && s[i + 4]->Add_0 == 1)) || f.mult_loop)))
}

/// The captured first move of a matched copy loop.
pub open spec fn cl_m1(s: Seq<Instruction>, i: int) -> i64 {
    if s[i + 1] == Instruction::Add(-1i64) {
        s[i + 2]->Move_0
    } else {
        s[i + 1]->Move_0
    }
}

/// The captured first additive factor of a matched copy loop.
pub open spec fn cl_a1(s: Seq<Instruction>, i: int) -> i64 {
    if s[i + 1] == Instruction::Add(-1i64) {
        s[i + 3]->Add_0
    } else {
        s[i + 2]->Add_0
    }
}

/// The captured second move of a matched copy loop.
pub open spec fn cl_m2(s: Seq<Instruction>, i: int) -> i64 {
    if s[i + 1] == Instruction::Add(-1i64) {
        s[i + 4]->Move_0
    } else {
        s[i + 3]->Move_0
    }
}

/// The captured second additive factor of a matched copy loop.
pub open spec fn cl_a2(s: Seq<Instruction>, i: int) -> i64 {
    if s[i + 1] == Instruction::Add(-1i64) {
        s[i + 5]->Add_0
    } else {
        s[i + 4]->Add_0
    }
}

/// The constant-offset add occupies three slots starting at `i`:
/// "move `m1`, add, move `m2`" with `m1` and `m2` of opposite sign.
pub open spec fn is_add_off(s: Seq<Instruction>, i: int, f: OptFlags) -> bool {
    f.add_offset && 0 <= i && i + 3 <= s.len() && s[i] is Move && s[i + 1] is Add && s[i
        + 2] is Move && ((s[i]->Move_0 > 0 && s[i + 2]->Move_0 < 0) || (s[i]->Move_0 < 0 && s[i
        + 2]->Move_0 > 0))
}

/// The constant-offset zero occupies three slots starting at `i`:
/// "move `m1`, zero, move `m2`" with `m1` and `m2` of opposite sign.
pub open spec fn is_zero_off(s: Seq<Instruction>, i: int, f: OptFlags) -> bool {
    f.zero_offset && 0 <= i && i + 3 <= s.len() && s[i] is Move && s[i + 1] is Zero && s[i
        + 2] is Move && ((s[i]->Move_0 > 0 && s[i + 2]->Move_0 < 0) || (s[i]->Move_0 < 0 && s[i
        + 2]->Move_0 > 0))
}

/// The replacement instructions for a matched move-accumulate loop: one
/// multiply-accumulate to the destination, then clearing the source.
pub open spec fn ml_rewrite(s: Seq<Instruction>, i: int) -> Seq<Instruction> {
    seq![Instruction::Mult(ml_m1(s, i), ml_a1(s, i)), Instruction::Zero]
}

/// The replacement instructions for a matched copy loop: one
/// multiply-accumulate per destination, then clearing the source.
pub open spec fn cl_rewrite(s: Seq<Instruction>, i: int) -> Seq<Instruction> {
    seq![
        Instruction::Mult(cl_m1(s, i), cl_a1(s, i)),
        Instruction::Mult((cl_m1(s, i) + cl_m2(s, i)) as i64, cl_a2(s, i)),
        Instruction::Zero,
    ]
}

/// The replacement for a constant-offset add: a single offset add when the
/// net pointer displacement is zero, else the offset add followed by the
/// net move.
pub open spec fn ao_rewrite(s: Seq<Instruction>, i: int) -> Seq<Instruction> {
    if s[i]->Move_0 == -s[i + 2]->Move_0 {
        seq![Instruction::AddOffset(s[i + 1]->Add_0, s[i]->Move_0)]
    } else {
        seq![
            Instruction::AddOffset(s[i + 1]->Add_0, s[i]->Move_0),
            Instruction::Move((s[i]->Move_0 + s[i + 2]->Move_0) as i64),
        ]
    }
}

/// The replacement for a constant-offset zero, analogous to the offset add.
pub open spec fn zo_rewrite(s: Seq<Instruction>, i: int) -> Seq<Instruction> {
    if s[i]->Move_0 == -s[i + 2]->Move_0 {
        seq![Instruction::ZeroOffset(s[i]->Move_0)]
    } else {
        seq![
            Instruction::ZeroOffset(s[i]->Move_0),
            Instruction::Move((s[i]->Move_0 + s[i + 2]->Move_0) as i64),
        ]
    }
}

/// The single forward scan from position `i`: try the idioms in fixed
/// priority order; on a match emit the replacement and jump past the whole
/// matched span; otherwise emit the instruction unchanged and advance by one.
/// Replacement instructions are never re-scanned.
pub open spec fn spec_peep(s: Seq<Instruction>, f: OptFlags, i: int) -> Seq<Instruction>
    decreases s.len() - i,
{
    if i < 0 || i >= s.len() {
        Seq::empty()
    } else if is_move_loop(s, i, f) {
        ml_rewrite(s, i) + spec_peep(s, f, i + 6)
    } else if is_copy_loop(s, i, f) {
        cl_rewrite(s, i) + spec_peep(s, f, i + 8)
    } else if is_add_off(s, i, f) {
        ao_rewrite(s, i) + spec_peep(s, f, i + 3)
    } else if is_zero_off(s, i, f) {
        zo_rewrite(s, i) + spec_peep(s, f, i + 3)
    } else {
        seq![s[i]] + spec_peep(s, f, i + 1)
    }
}

/// The optimized instruction sequence.
pub open spec fn spec_peephole(s: Seq<Instruction>, f: OptFlags) -> Seq<Instruction> {
    spec_peep(s, f, 0)
}

/// With every window recognition disabled, the scan is the identity:
/// no idiom rewriting is applied at all.
pub proof fn lemma_peep_identity(s: Seq<Instruction>, f: OptFlags, i: int)
    requires
        !f.move_loop,
        !f.copy_loop,
        !f.add_offset,
        !f.zero_offset,
        0 <= i <= s.len(),
    ensures
        spec_peep(s, f, i) == s.skip(i),
    decreases s.len() - i,
{
    if i >= s.len() {
        assert(spec_peep(s, f, i) =~= s.skip(i));
    } else {
        lemma_peep_identity(s, f, i + 1);
        assert(spec_peep(s, f, i) =~= s.skip(i));
    }
}

/// At optimization level zero the emitted sequence is a literal
/// instruction-for-instruction copy: the optimizer changes nothing.
pub proof fn lemma_peephole_level_zero(s: Seq<Instruction>, f: OptFlags)
    requires
        !f.move_loop,
        !f.copy_loop,
        !f.add_offset,
        !f.zero_offset,
    ensures
        spec_peephole(s, f) == s,
{
    lemma_peep_identity(s, f, 0);
    assert(s.skip(0) =~= s);
}

/// The optimizer never introduces `Add(0)` or `Move(0)`: replacement moves
/// are emitted only for a nonzero net displacement, so the pruning invariant
/// of the tokenizer is preserved.
pub proof fn lemma_peep_pruned(s: Seq<Instruction>, f: OptFlags, i: int)
    requires
        forall|j: int| 0 <= j < s.len() ==> nonzero_payload(#[trigger] s[j]),
        forall|j: int| 0 <= j < s.len() ==> payload_within(#[trigger] s[j], peephole_bound()),
    ensures
        forall|j: int|
            0 <= j < spec_peep(s, f, i).len() ==> nonzero_payload(#[trigger] spec_peep(s, f, i)[j]),
    decreases s.len() - i,
{
    if i < 0 || i >= s.len() {
    } else {
        let res = spec_peep(s, f, i);
        if is_move_loop(s, i, f) {
            lemma_peep_pruned(s, f, i + 6);
            let sub = spec_peep(s, f, i + 6);
            assert(res == ml_rewrite(s, i) + sub);
            assert forall|j: int| 0 <= j < res.len() implies nonzero_payload(res[j]) by {
                if j >= 2 {
                    assert(res[j] == sub[j - 2]);
                }
            }
        } else if is_copy_loop(s, i, f) {
            lemma_peep_pruned(s, f, i + 8);
            let sub = spec_peep(s, f, i + 8);
            assert(res == cl_rewrite(s, i) + sub);
            assert forall|j: int| 0 <= j < res.len() implies nonzero_payload(res[j]) by {
                if j >= 3 {
                    assert(res[j] == sub[j - 3]);
                }
            }
        } else if is_add_off(s, i, f) {
            lemma_peep_pruned(s, f, i + 3);
            let sub = spec_peep(s, f, i + 3);
            assert(res == ao_rewrite(s, i) + sub);
            assert forall|j: int| 0 <= j < res.len() implies nonzero_payload(res[j]) by {
                if j >= ao_rewrite(s, i).len() {
                    assert(res[j] == sub[j - ao_rewrite(s, i).len()]);
                } else {
                    assert(res[j] == ao_rewrite(s, i)[j]);
                }
            }
        } else if is_zero_off(s, i, f) {
            lemma_peep_pruned(s, f, i + 3);
            let sub = spec_peep(s, f, i + 3);
            assert(res == zo_rewrite(s, i) + sub);
            assert forall|j: int| 0 <= j < res.len() implies nonzero_payload(res[j]) by {
                if j >= zo_rewrite(s, i).len() {
                    assert(res[j] == sub[j - zo_rewrite(s, i).len()]);
                } else {
                    assert(res[j] == zo_rewrite(s, i)[j]);
                }
            }
        } else {
            lemma_peep_pruned(s, f, i + 1);
            let sub = spec_peep(s, f, i + 1);
            assert(res == seq![s[i]] + sub);
            assert forall|j: int| 0 <= j < res.len() implies nonzero_payload(res[j]) by {
                if j >= 1 {
                    assert(res[j] == sub[j - 1]);
                }
            }
        }
    }
}

/// Try the move-accumulate idiom at position `i`; on a match return the
/// captured move and additive factor.
fn try_move_loop(toks: &Vec<Instruction>, i: usize, f: &OptFlags) -> (r: Option<(i64, i64)>)
    requires
        i <= toks@.len(),
        forall|j: int| 0 <= j < toks@.len() ==> payload_within(#[trigger] toks@[j], peephole_bound()),
    ensures
        r is Some <==> is_move_loop(toks@, i as int, *f),
        r is Some ==> r->0 == (ml_m1(toks@, i as int), ml_a1(toks@, i as int)),
{
    if !f.move_loop || toks.len() - i < 6 {
        return None;
    }
    match (toks[i], toks[i + 1], toks[i + 2], toks[i + 3], toks[i + 4], toks[i + 5]) {
        (
            Instruction::BeginLoop,
            Instruction::Add(d),
            Instruction::Move(m1),
            Instruction::Add(a1),
            Instruction::Move(m2),
            Instruction::EndLoop,
        ) if d == -1 && m1 == -m2 => Some((m1, a1)),
        (
            Instruction::BeginLoop,
            Instruction::Move(m1),
            Instruction::Add(a1),
            Instruction::Move(m2),
            Instruction::Add(d),
            Instruction::EndLoop,
        ) if d == -1 && m1 == -m2 => Some((m1, a1)),
        _ => None,
    }
}

/// Try the copy-loop idiom at position `i`; on a match return the captured
/// first move, first factor, second move and second factor.
fn try_copy_loop(toks: &Vec<Instruction>, i: usize, f: &OptFlags) -> (r: Option<
    (i64, i64, i64, i64),
>)
    requires
        i <= toks@.len(),
        forall|j: int| 0 <= j < toks@.len() ==> payload_within(#[trigger] toks@[j], peephole_bound()),
    ensures
        r is Some <==> is_copy_loop(toks@, i as int, *f),
        r is Some ==> r->0 == (
            cl_m1(toks@, i as int),
            cl_a1(toks@, i as int),
            cl_m2(toks@, i as int),
            cl_a2(toks@, i as int),
        ),
{
    if !f.copy_loop || toks.len() - i < 8 {
        return None;
    }
    match (
        toks[i],
        toks[i + 1],
        toks[i + 2],
        toks[i + 3],
        toks[i + 4],
        toks[i + 5],
        toks[i + 6],
        toks[i + 7],
    ) {
        (
            Instruction::BeginLoop,
            Instruction::Add(d),
            Instruction::Move(m1),
            Instruction::Add(a1),
            Instruction::Move(m2),
            Instruction::Add(a2),
            Instruction::Move(m3),
            Instruction::EndLoop,
        ) if d == -1 && -m3 == m1 + m2 && ((a1 == 1 && a2 == 1) || f.mult_loop) => Some(
            (m1, a1, m2, a2),
        ),
        (
            Instruction::BeginLoop,
            Instruction::Move(m1),
            Instruction::Add(a1),
            Instruction::Move(m2),
            Instruction::Add(a2),
            Instruction::Move(m3),
            Instruction::Add(d),
            Instruction::EndLoop,
        ) if d == -1 && -m3 == m1 + m2 && ((a1 == 1 && a2 == 1) || f.mult_loop) => Some(
            (m1, a1, m2, a2),
        ),
        _ => None,
    }
}

/// Try the constant-offset add at position `i`; on a match return the
/// additive payload and the two moves.
fn try_add_off(toks: &Vec<Instruction>, i: usize, f: &OptFlags) -> (r: Option<(i64, i64, i64)>)
    requires
        i <= toks@.len(),
        forall|j: int| 0 <= j < toks@.len() ==> payload_within(#[trigger] toks@[j], peephole_bound()),
    ensures
        r is Some <==> is_add_off(toks@, i as int, *f),
        r is Some ==> r->0 == (
            toks@[i as int + 1]->Add_0,
            toks@[i as int]->Move_0,
            toks@[i as int + 2]->Move_0,
        ),
{
    if !f.add_offset || toks.len() - i < 3 {
        return None;
    }
    match (toks[i], toks[i + 1], toks[i + 2]) {
        (Instruction::Move(m1), Instruction::Add(a), Instruction::Move(m2)) if (m1 > 0 && m2 < 0)
            || (m1 < 0 && m2 > 0) => Some((a, m1, m2)),
        _ => None,
    }
}

/// Try the constant-offset zero at position `i`; on a match return the two
/// moves.
fn try_zero_off(toks: &Vec<Instruction>, i: usize, f: &OptFlags) -> (r: Option<(i64, i64)>)
    requires
        i <= toks@.len(),
        forall|j: int| 0 <= j < toks@.len() ==> payload_within(#[trigger] toks@[j], peephole_bound()),
    ensures
        r is Some <==> is_zero_off(toks@, i as int, *f),
        r is Some ==> r->0 == (toks@[i as int]->Move_0, toks@[i as int + 2]->Move_0),
{
    if !f.zero_offset || toks.len() - i < 3 {
        return None;
    }
    match (toks[i], toks[i + 1], toks[i + 2]) {
        (Instruction::Move(m1), Instruction::Zero, Instruction::Move(m2)) if (m1 > 0 && m2 < 0)
            || (m1 < 0 && m2 > 0) => Some((m1, m2)),
        _ => None,
    }
}

/// A single left-to-right scan over the instruction sequence, rewriting the
/// recognized idioms in fixed priority order. Newly emitted replacement
/// instructions are not re-scanned: the scan jumps past every matched span.
pub fn peephole(toks: &Vec<Instruction>, flags: &OptFlags) -> (r: Vec<Instruction>)
    requires
        forall|j: int| 0 <= j < toks@.len() ==> payload_within(#[trigger] toks@[j], peephole_bound()),
    ensures
        r@ == spec_peephole(toks@, *flags),
{
    let ghost whole = spec_peephole(toks@, *flags);
    let mut out: Vec<Instruction> = Vec::new();
    let mut i: usize = 0;
    proof {
        assert(out@ + spec_peep(toks@, *flags, 0) =~= spec_peep(toks@, *flags, 0));
    }
    while i < toks.len()
        invariant
            i <= toks@.len(),
            forall|j: int|
                0 <= j < toks@.len() ==> payload_within(#[trigger] toks@[j], peephole_bound()),
            whole == spec_peephole(toks@, *flags),
            whole == out@ + spec_peep(toks@, *flags, i as int),
        decreases toks@.len() - i,
    {
        if let Some((m1, a1)) = try_move_loop(toks, i, flags) {
            out.push(Instruction::Mult(m1, a1));
            out.push(Instruction::Zero);
            proof {
                assert(out@ + spec_peep(toks@, *flags, i + 6) =~= whole);
            }
            i = i + 6;
        } else if let Some((m1, a1, m2, a2)) = try_copy_loop(toks, i, flags) {
            out.push(Instruction::Mult(m1, a1));
            out.push(Instruction::Mult(m1 + m2, a2));
            out.push(Instruction::Zero);
            proof {
                assert(out@ + spec_peep(toks@, *flags, i + 8) =~= whole);
            }
            i = i + 8;
        } else if let Some((a, m1, m2)) = try_add_off(toks, i, flags) {
            out.push(Instruction::AddOffset(a, m1));
            if m1 != -m2 {
                out.push(Instruction::Move(m1 + m2));
            }
            proof {
                assert(out@ + spec_peep(toks@, *flags, i + 3) =~= whole);
            }
            i = i + 3;
        } else if let Some((m1, m2)) = try_zero_off(toks, i, flags) {
            out.push(Instruction::ZeroOffset(m1));
            if m1 != -m2 {
                out.push(Instruction::Move(m1 + m2));
            }
            proof {
                assert(out@ + spec_peep(toks@, *flags, i + 3) =~= whole);
            }
            i = i + 3;
        } else {
            out.push(toks[i]);
            proof {
                assert(out@ + spec_peep(toks@, *flags, i + 1) =~= whole);
            }
            i = i + 1;
        }
    }
    proof {
        assert(out@ =~= whole);
    }
    out
}

} // verus!
