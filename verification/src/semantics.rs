use vstd::prelude::*;
use vstd::arithmetic::div_mod::lemma_add_mod_noop_right;
use vstd::arithmetic::div_mod::lemma_small_mod;
use crate::inst::Instruction;
use crate::config::OptFlags;
use crate::peephole::is_move_loop;
use crate::peephole::is_copy_loop;
use crate::peephole::is_add_off;
use crate::peephole::is_zero_off;
use crate::peephole::ml_m1;
use crate::peephole::ml_a1;
use crate::peephole::cl_m1;
use crate::peephole::cl_a1;
use crate::peephole::cl_m2;
use crate::peephole::cl_a2;
use crate::peephole::ml_rewrite;
use crate::peephole::cl_rewrite;
use crate::peephole::ao_rewrite;
use crate::peephole::zo_rewrite;
use crate::peephole::peephole_bound;
use crate::inst::payload_within;

verus! {

/// A machine state of the target language: the tape as a total map from
/// cell index to cell value, and the pointer. Cell values are taken modulo
/// the cell modulus `m` (two to the configured cell width), the common
/// group underlying every configured width.
pub struct TapeState {
    /// The tape: every integer index carries a cell value in `[0, m)`.
    pub tape: Map<int, int>,
    /// The current pointer.
    pub ptr: int,
}

/// A cell value reduced into `[0, m)`.
pub open spec fn norm(m: int, v: int) -> int {
    v % m
}

/// A well-formed state for modulus `m`: the tape is total and every cell
/// holds a reduced value.
pub open spec fn st_wf(m: int, st: TapeState) -> bool {
    &&& m >= 1
    &&& forall|k: int| st.tape.dom().contains(k)
    &&& forall|k: int| 0 <= #[trigger] st.tape[k] < m
}

/// The effect of one arithmetic instruction on the state, per the target
/// language's tape semantics. The read, write and loop-marker instructions
/// transform no tape state here: none of them occurs inside a recognized
/// idiom window or its replacement, so the equivalence statements below
/// never touch them.
pub open spec fn apply_inst(m: int, st: TapeState, ins: Instruction) -> TapeState {
    match ins {
        Instruction::Add(x) => TapeState {
            tape: st.tape.insert(st.ptr, norm(m, st.tape[st.ptr] + x)),
            ptr: st.ptr,
        },
        Instruction::AddOffset(x, o) => TapeState {
            tape: st.tape.insert(st.ptr + o, norm(m, st.tape[st.ptr + o] + x)),
            ptr: st.ptr,
        },
        Instruction::Zero => TapeState { tape: st.tape.insert(st.ptr, 0), ptr: st.ptr },
        Instruction::ZeroOffset(o) => TapeState {
            tape: st.tape.insert(st.ptr + o, 0),
            ptr: st.ptr,
        },
        Instruction::Move(x) => TapeState { tape: st.tape, ptr: st.ptr + x },
        Instruction::Mult(o, f) => TapeState {
            tape: st.tape.insert(st.ptr + o, norm(m, st.tape[st.ptr + o] + st.tape[st.ptr] * f)),
            ptr: st.ptr,
        },
        _ => st,
    }
}

/// The effect of a straight-line instruction sequence, first to last.
pub open spec fn apply_seq(m: int, st: TapeState, instrs: Seq<Instruction>) -> TapeState
    decreases instrs.len(),
{
    if instrs.len() == 0 {
        st
    } else {
        apply_seq(m, apply_inst(m, st, instrs[0]), instrs.drop_first())
    }
}

/// The state after running a loop body `n` times.
pub open spec fn iter_body(m: int, st: TapeState, body: Seq<Instruction>, n: nat) -> TapeState
    decreases n,
{
    if n == 0 {
        st
    } else {
        apply_seq(m, iter_body(m, st, body, (n - 1) as nat), body)
    }
}

/// The four-instruction body of a move-accumulate loop, decrement first.
pub open spec fn move_rot_a(m1: i64, a1: i64, m2: i64) -> Seq<Instruction> {
    seq![
        Instruction::Add(-1i64),
        Instruction::Move(m1),
        Instruction::Add(a1),
        Instruction::Move(m2),
    ]
}

/// The four-instruction body of a move-accumulate loop, decrement last.
pub open spec fn move_rot_b(m1: i64, a1: i64, m2: i64) -> Seq<Instruction> {
    seq![
        Instruction::Move(m1),
        Instruction::Add(a1),
        Instruction::Move(m2),
        Instruction::Add(-1i64),
    ]
}

/// One pass of a move-accumulate body: the source cell drops by one, the
/// destination gains the additive factor, the pointer returns.
proof fn lemma_move_body(m: int, st: TapeState, body: Seq<Instruction>, m1: i64, a1: i64, m2: i64)
    requires
        st_wf(m, st),
        m1 != 0,
        m1 + m2 == 0,
        body == move_rot_a(m1, a1, m2) || body == move_rot_b(m1, a1, m2),
    ensures
        apply_seq(m, st, body) == (TapeState {
            tape: st.tape.insert(st.ptr, norm(m, st.tape[st.ptr] - 1)).insert(
                st.ptr + m1,
                norm(m, st.tape[st.ptr + m1] + a1),
            ),
            ptr: st.ptr,
        }),
{
    reveal_with_fuel(apply_seq, 5);
    let p = st.ptr;
    let goal = TapeState {
        tape: st.tape.insert(p, norm(m, st.tape[p] - 1)).insert(
            p + m1,
            norm(m, st.tape[p + m1] + a1),
        ),
        ptr: p,
    };
    if body == move_rot_a(m1, a1, m2) {
        let s1 = apply_inst(m, st, Instruction::Add(-1i64));
        let s2 = apply_inst(m, s1, Instruction::Move(m1));
        let s3 = apply_inst(m, s2, Instruction::Add(a1));
        let s4 = apply_inst(m, s3, Instruction::Move(m2));
        assert(body.drop_first() =~= seq![
            Instruction::Move(m1),
            Instruction::Add(a1),
            Instruction::Move(m2),
        ]);
        assert(body.drop_first().drop_first() =~= seq![
            Instruction::Add(a1),
            Instruction::Move(m2),
        ]);
        assert(body.drop_first().drop_first().drop_first() =~= seq![Instruction::Move(m2)]);
        assert(body.drop_first().drop_first().drop_first().drop_first() =~= Seq::<
            Instruction,
        >::empty());
        assert(apply_seq(m, st, body) == s4);
        assert(s4.tape =~= goal.tape);
        assert(s4.ptr == p);
    } else {
        let s1 = apply_inst(m, st, Instruction::Move(m1));
        let s2 = apply_inst(m, s1, Instruction::Add(a1));
        let s3 = apply_inst(m, s2, Instruction::Move(m2));
        let s4 = apply_inst(m, s3, Instruction::Add(-1i64));
        assert(body.drop_first() =~= seq![
            Instruction::Add(a1),
            Instruction::Move(m2),
            Instruction::Add(-1i64),
        ]);
        assert(body.drop_first().drop_first() =~= seq![
            Instruction::Move(m2),
            Instruction::Add(-1i64),
        ]);
        assert(body.drop_first().drop_first().drop_first() =~= seq![Instruction::Add(-1i64)]);
        assert(body.drop_first().drop_first().drop_first().drop_first() =~= Seq::<
            Instruction,
        >::empty());
        assert(apply_seq(m, st, body) == s4);
        assert(s4.tape =~= goal.tape);
        assert(s4.ptr == p);
    }
    assert(apply_seq(m, st, body) == goal);
}

/// After `k` passes of a move-accumulate body, the source cell has dropped
/// by `k` and the destination has gained `k` times the additive factor.
proof fn lemma_move_iter(
    m: int,
    st: TapeState,
    body: Seq<Instruction>,
    m1: i64,
    a1: i64,
    m2: i64,
    k: nat,
)
    requires
        st_wf(m, st),
        m1 != 0,
        m1 + m2 == 0,
        body == move_rot_a(m1, a1, m2) || body == move_rot_b(m1, a1, m2),
        k <= st.tape[st.ptr],
    ensures
        iter_body(m, st, body, k) == (TapeState {
            tape: st.tape.insert(st.ptr, st.tape[st.ptr] - k).insert(
                st.ptr + m1,
                norm(m, st.tape[st.ptr + m1] + k * a1),
            ),
            ptr: st.ptr,
        }),
    decreases k,
{
    let p = st.ptr;
    let v = st.tape[p];
    let t1 = st.tape[p + m1];
    if k == 0 {
        assert(norm(m, t1 + 0 * a1) == t1) by {
            assert(0 * a1 == 0) by (nonlinear_arith);
            lemma_small_mod(t1 as nat, m as nat);
        }
        assert(st.tape.insert(p, v - 0).insert(p + m1, norm(m, t1 + 0 * a1)) =~= st.tape);
    } else {
        lemma_move_iter(m, st, body, m1, a1, m2, (k - 1) as nat);
        let prev = iter_body(m, st, body, (k - 1) as nat);
        assert(st_wf(m, prev));
        lemma_move_body(m, prev, body, m1, a1, m2);
        let cur = apply_seq(m, prev, body);
        assert(iter_body(m, st, body, k) == cur);
        // the source cell: one more decrement, still in range
        assert(prev.tape[p] == v - (k - 1));
        assert(norm(m, v - (k - 1) - 1) == v - k) by {
            lemma_small_mod((v - k) as nat, m as nat);
        }
        // the destination: one more addition, folded into the running sum
        assert(prev.tape[p + m1] == norm(m, t1 + (k - 1) * a1));
        assert(norm(m, norm(m, t1 + (k - 1) * a1) + a1) == norm(m, t1 + k * a1)) by {
            lemma_add_mod_noop_right(a1 as int, t1 + (k - 1) * a1, m);
            assert((k - 1) * a1 + a1 == k * a1) by (nonlinear_arith);
        }
        assert(cur.tape =~= st.tape.insert(p, v - k).insert(p + m1, norm(m, t1 + k * a1)));
    }
}

/// Semantic equivalence of the move-accumulate rewrite. For a recognized
/// window (a loop whose body decrements the source once, adds `a1` at
/// offset `m1` and returns), run against the tape semantics with any cell
/// modulus: the loop guard stays nonzero before each of the first `v`
/// passes, where `v` is the source cell's value, fails after pass `v`, and
/// the state after those `v` passes is exactly the state after the
/// replacement `Mult` and `Zero` — identical tape and pointer. No read or
/// write instruction occurs in the window, so the output byte sequences
/// agree trivially.
pub proof fn lemma_move_loop_equiv(
    m: int,
    st: TapeState,
    s: Seq<Instruction>,
    i: int,
    f: OptFlags,
)
    requires
        st_wf(m, st),
        is_move_loop(s, i, f),
        ml_m1(s, i) != 0,
    ensures
        forall|k: nat|
            k < st.tape[st.ptr] ==> #[trigger] iter_body(
                m,
                st,
                s.subrange(i + 1, i + 5),
                k,
            ).ptr == st.ptr && iter_body(m, st, s.subrange(i + 1, i + 5), k).tape[st.ptr]
                == st.tape[st.ptr] - k && st.tape[st.ptr] - k != 0,
        iter_body(m, st, s.subrange(i + 1, i + 5), st.tape[st.ptr] as nat).tape[st.ptr] == 0,
        iter_body(m, st, s.subrange(i + 1, i + 5), st.tape[st.ptr] as nat) == apply_seq(
            m,
            st,
            ml_rewrite(s, i),
        ),
        forall|j: int| i <= j < i + 6 ==> !(#[trigger] s[j] is In) && !(s[j] is Out),
{
    let p = st.ptr;
    let v = st.tape[p];
    let body = s.subrange(i + 1, i + 5);
    let m1 = ml_m1(s, i);
    let a1 = ml_a1(s, i);
    let t1 = st.tape[p + m1];
    if s[i + 1] == Instruction::Add(-1i64) {
        let m2 = s[i + 4]->Move_0;
        assert(body =~= move_rot_a(m1, a1, m2));
        assert forall|k: nat| k <= v implies #[trigger] iter_body(m, st, body, k) == (TapeState {
            tape: st.tape.insert(p, v - k).insert(p + m1, norm(m, t1 + k * a1)),
            ptr: p,
        }) by {
            lemma_move_iter(m, st, body, m1, a1, m2, k);
        }
    } else {
        let m2 = s[i + 3]->Move_0;
        assert(body =~= move_rot_b(m1, a1, m2));
        assert forall|k: nat| k <= v implies #[trigger] iter_body(m, st, body, k) == (TapeState {
            tape: st.tape.insert(p, v - k).insert(p + m1, norm(m, t1 + k * a1)),
            ptr: p,
        }) by {
            lemma_move_iter(m, st, body, m1, a1, m2, k);
        }
    }
    // the replacement: multiply-accumulate, then clear the source
    reveal_with_fuel(apply_seq, 3);
    let r1 = apply_inst(m, st, Instruction::Mult(m1, a1));
    let r2 = apply_inst(m, r1, Instruction::Zero);
    assert(ml_rewrite(s, i).drop_first() =~= seq![Instruction::Zero]);
    assert(ml_rewrite(s, i).drop_first().drop_first() =~= Seq::<Instruction>::empty());
    assert(apply_seq(m, st, ml_rewrite(s, i)) == r2);
    assert(iter_body(m, st, body, v as nat).tape =~= r2.tape) by {
        assert(v * a1 == v * a1);
        assert(iter_body(m, st, body, v as nat).tape == st.tape.insert(p, v - v).insert(
            p + m1,
            norm(m, t1 + v * a1),
        ));
    }
}

/// The six-instruction body of a copy loop, decrement first.
pub open spec fn copy_rot_a(m1: i64, a1: i64, m2: i64, a2: i64, m3: i64) -> Seq<Instruction> {
    seq![
        Instruction::Add(-1i64),
        Instruction::Move(m1),
        Instruction::Add(a1),
        Instruction::Move(m2),
        Instruction::Add(a2),
        Instruction::Move(m3),
    ]
}

/// The six-instruction body of a copy loop, decrement last.
pub open spec fn copy_rot_b(m1: i64, a1: i64, m2: i64, a2: i64, m3: i64) -> Seq<Instruction> {
    seq![
        Instruction::Move(m1),
        Instruction::Add(a1),
        Instruction::Move(m2),
        Instruction::Add(a2),
        Instruction::Move(m3),
        Instruction::Add(-1i64),
    ]
}

/// One pass of a copy-loop body: the source cell drops by one and each of
/// the two destinations gains its additive factor.
proof fn lemma_copy_body(
    m: int,
    st: TapeState,
    body: Seq<Instruction>,
    m1: i64,
    a1: i64,
    m2: i64,
    a2: i64,
    m3: i64,
)
    requires
        st_wf(m, st),
        m1 != 0,
        m2 != 0,
        m1 + m2 != 0,
        m1 + m2 + m3 == 0,
        body == copy_rot_a(m1, a1, m2, a2, m3) || body == copy_rot_b(m1, a1, m2, a2, m3),
    ensures
        apply_seq(m, st, body) == (TapeState {
            tape: st.tape.insert(st.ptr, norm(m, st.tape[st.ptr] - 1)).insert(
                st.ptr + m1,
                norm(m, st.tape[st.ptr + m1] + a1),
            ).insert(st.ptr + m1 + m2, norm(m, st.tape[st.ptr + m1 + m2] + a2)),
            ptr: st.ptr,
        }),
{
    reveal_with_fuel(apply_seq, 7);
    let p = st.ptr;
    let goal = TapeState {
        tape: st.tape.insert(p, norm(m, st.tape[p] - 1)).insert(
            p + m1,
            norm(m, st.tape[p + m1] + a1),
        ).insert(p + m1 + m2, norm(m, st.tape[p + m1 + m2] + a2)),
        ptr: p,
    };
    if body == copy_rot_a(m1, a1, m2, a2, m3) {
        let s1 = apply_inst(m, st, Instruction::Add(-1i64));
        let s2 = apply_inst(m, s1, Instruction::Move(m1));
        let s3 = apply_inst(m, s2, Instruction::Add(a1));
        let s4 = apply_inst(m, s3, Instruction::Move(m2));
        let s5 = apply_inst(m, s4, Instruction::Add(a2));
        let s6 = apply_inst(m, s5, Instruction::Move(m3));
        assert(body.drop_first() =~= copy_rot_a(m1, a1, m2, a2, m3).subrange(1, 6));
        assert(body.drop_first().drop_first() =~= copy_rot_a(m1, a1, m2, a2, m3).subrange(2, 6));
        assert(body.drop_first().drop_first().drop_first() =~= copy_rot_a(
            m1,
            a1,
            m2,
            a2,
            m3,
        ).subrange(3, 6));
        assert(body.drop_first().drop_first().drop_first().drop_first() =~= copy_rot_a(
            m1,
            a1,
            m2,
            a2,
            m3,
        ).subrange(4, 6));
        assert(body.drop_first().drop_first().drop_first().drop_first().drop_first() =~= copy_rot_a(
            m1,
            a1,
            m2,
            a2,
            m3,
        ).subrange(5, 6));
        assert(body.drop_first().drop_first().drop_first().drop_first().drop_first().drop_first()
            =~= Seq::<Instruction>::empty());
        assert(apply_seq(m, st, body) == s6);
        assert(s6.tape =~= goal.tape);
        assert(s6.ptr == p);
    } else {
        let s1 = apply_inst(m, st, Instruction::Move(m1));
        let s2 = apply_inst(m, s1, Instruction::Add(a1));
        let s3 = apply_inst(m, s2, Instruction::Move(m2));
        let s4 = apply_inst(m, s3, Instruction::Add(a2));
        let s5 = apply_inst(m, s4, Instruction::Move(m3));
        let s6 = apply_inst(m, s5, Instruction::Add(-1i64));
        assert(body.drop_first() =~= copy_rot_b(m1, a1, m2, a2, m3).subrange(1, 6));
        assert(body.drop_first().drop_first() =~= copy_rot_b(m1, a1, m2, a2, m3).subrange(2, 6));
        assert(body.drop_first().drop_first().drop_first() =~= copy_rot_b(
            m1,
            a1,
            m2,
            a2,
            m3,
        ).subrange(3, 6));
        assert(body.drop_first().drop_first().drop_first().drop_first() =~= copy_rot_b(
            m1,
            a1,
            m2,
            a2,
            m3,
        ).subrange(4, 6));
        assert(body.drop_first().drop_first().drop_first().drop_first().drop_first() =~= copy_rot_b(
            m1,
            a1,
            m2,
            a2,
            m3,
        ).subrange(5, 6));
        assert(body.drop_first().drop_first().drop_first().drop_first().drop_first().drop_first()
            =~= Seq::<Instruction>::empty());
        assert(apply_seq(m, st, body) == s6);
        assert(s6.tape =~= goal.tape);
        assert(s6.ptr == p);
    }
    assert(apply_seq(m, st, body) == goal);
}

/// After `k` passes of a copy-loop body, the source has dropped by `k` and
/// each destination has gained `k` times its additive factor.
proof fn lemma_copy_iter(
    m: int,
    st: TapeState,
    body: Seq<Instruction>,
    m1: i64,
    a1: i64,
    m2: i64,
    a2: i64,
    m3: i64,
    k: nat,
)
    requires
        st_wf(m, st),
        m1 != 0,
        m2 != 0,
        m1 + m2 != 0,
        m1 + m2 + m3 == 0,
        body == copy_rot_a(m1, a1, m2, a2, m3) || body == copy_rot_b(m1, a1, m2, a2, m3),
        k <= st.tape[st.ptr],
    ensures
        iter_body(m, st, body, k) == (TapeState {
            tape: st.tape.insert(st.ptr, st.tape[st.ptr] - k).insert(
                st.ptr + m1,
                norm(m, st.tape[st.ptr + m1] + k * a1),
            ).insert(st.ptr + m1 + m2, norm(m, st.tape[st.ptr + m1 + m2] + k * a2)),
            ptr: st.ptr,
        }),
    decreases k,
{
    let p = st.ptr;
    let v = st.tape[p];
    let t1 = st.tape[p + m1];
    let t2 = st.tape[p + m1 + m2];
    if k == 0 {
        assert(norm(m, t1 + 0 * a1) == t1 && norm(m, t2 + 0 * a2) == t2) by {
            assert(0 * a1 == 0 && 0 * a2 == 0) by (nonlinear_arith);
            lemma_small_mod(t1 as nat, m as nat);
            lemma_small_mod(t2 as nat, m as nat);
        }
        assert(st.tape.insert(p, v - 0).insert(p + m1, norm(m, t1 + 0 * a1)).insert(
            p + m1 + m2,
            norm(m, t2 + 0 * a2),
        ) =~= st.tape);
    } else {
        lemma_copy_iter(m, st, body, m1, a1, m2, a2, m3, (k - 1) as nat);
        let prev = iter_body(m, st, body, (k - 1) as nat);
        assert(st_wf(m, prev));
        lemma_copy_body(m, prev, body, m1, a1, m2, a2, m3);
        let cur = apply_seq(m, prev, body);
        assert(iter_body(m, st, body, k) == cur);
        assert(prev.tape[p] == v - (k - 1));
        assert(norm(m, v - (k - 1) - 1) == v - k) by {
            lemma_small_mod((v - k) as nat, m as nat);
        }
        assert(prev.tape[p + m1] == norm(m, t1 + (k - 1) * a1));
        assert(prev.tape[p + m1 + m2] == norm(m, t2 + (k - 1) * a2));
        assert(norm(m, norm(m, t1 + (k - 1) * a1) + a1) == norm(m, t1 + k * a1)) by {
            lemma_add_mod_noop_right(a1 as int, t1 + (k - 1) * a1, m);
            assert((k - 1) * a1 + a1 == k * a1) by (nonlinear_arith);
        }
        assert(norm(m, norm(m, t2 + (k - 1) * a2) + a2) == norm(m, t2 + k * a2)) by {
            lemma_add_mod_noop_right(a2 as int, t2 + (k - 1) * a2, m);
            assert((k - 1) * a2 + a2 == k * a2) by (nonlinear_arith);
        }
        assert(cur.tape =~= st.tape.insert(p, v - k).insert(p + m1, norm(m, t1 + k * a1)).insert(
            p + m1 + m2,
            norm(m, t2 + k * a2),
        ));
    }
}

/// Semantic equivalence of the copy-loop rewrite, analogous to the
/// move-accumulate case: the loop runs exactly source-cell-value passes,
/// and the resulting state is exactly the state after the two `Mult`
/// instructions and the `Zero`.
pub proof fn lemma_copy_loop_equiv(
    m: int,
    st: TapeState,
    s: Seq<Instruction>,
    i: int,
    f: OptFlags,
)
    requires
        st_wf(m, st),
        is_copy_loop(s, i, f),
        cl_m1(s, i) != 0,
        cl_m2(s, i) != 0,
        cl_m1(s, i) + cl_m2(s, i) != 0,
        forall|j: int| 0 <= j < s.len() ==> payload_within(#[trigger] s[j], peephole_bound()),
    ensures
        forall|k: nat|
            k < st.tape[st.ptr] ==> #[trigger] iter_body(
                m,
                st,
                s.subrange(i + 1, i + 7),
                k,
            ).ptr == st.ptr && iter_body(m, st, s.subrange(i + 1, i + 7), k).tape[st.ptr]
                == st.tape[st.ptr] - k && st.tape[st.ptr] - k != 0,
        iter_body(m, st, s.subrange(i + 1, i + 7), st.tape[st.ptr] as nat).tape[st.ptr] == 0,
        iter_body(m, st, s.subrange(i + 1, i + 7), st.tape[st.ptr] as nat) == apply_seq(
            m,
            st,
            cl_rewrite(s, i),
        ),
        forall|j: int| i <= j < i + 8 ==> !(#[trigger] s[j] is In) && !(s[j] is Out),
{
    let p = st.ptr;
    let v = st.tape[p];
    let body = s.subrange(i + 1, i + 7);
    let m1 = cl_m1(s, i);
    let a1 = cl_a1(s, i);
    let m2 = cl_m2(s, i);
    let a2 = cl_a2(s, i);
    let t1 = st.tape[p + m1];
    let t2 = st.tape[p + m1 + m2];
    if s[i + 1] == Instruction::Add(-1i64) {
        let m3 = s[i + 6]->Move_0;
        assert(body =~= copy_rot_a(m1, a1, m2, a2, m3));
        assert forall|k: nat| k <= v implies #[trigger] iter_body(m, st, body, k) == (TapeState {
            tape: st.tape.insert(p, v - k).insert(p + m1, norm(m, t1 + k * a1)).insert(
                p + m1 + m2,
                norm(m, t2 + k * a2),
            ),
            ptr: p,
        }) by {
            lemma_copy_iter(m, st, body, m1, a1, m2, a2, m3, k);
        }
    } else {
        let m3 = s[i + 5]->Move_0;
        assert(body =~= copy_rot_b(m1, a1, m2, a2, m3));
        assert forall|k: nat| k <= v implies #[trigger] iter_body(m, st, body, k) == (TapeState {
            tape: st.tape.insert(p, v - k).insert(p + m1, norm(m, t1 + k * a1)).insert(
                p + m1 + m2,
                norm(m, t2 + k * a2),
            ),
            ptr: p,
        }) by {
            lemma_copy_iter(m, st, body, m1, a1, m2, a2, m3, k);
        }
    }
    reveal_with_fuel(apply_seq, 4);
    let r1 = apply_inst(m, st, Instruction::Mult(m1, a1));
    let r2 = apply_inst(m, r1, Instruction::Mult((m1 + m2) as i64, a2));
    let r3 = apply_inst(m, r2, Instruction::Zero);
    assert(cl_rewrite(s, i).drop_first() =~= seq![
        Instruction::Mult((m1 + m2) as i64, a2),
        Instruction::Zero,
    ]);
    assert(cl_rewrite(s, i).drop_first().drop_first() =~= seq![Instruction::Zero]);
    assert(cl_rewrite(s, i).drop_first().drop_first().drop_first() =~= Seq::<Instruction>::empty());
    assert(apply_seq(m, st, cl_rewrite(s, i)) == r3);
    assert(iter_body(m, st, body, v as nat).tape =~= r3.tape) by {
        assert(iter_body(m, st, body, v as nat).tape == st.tape.insert(p, v - v).insert(
            p + m1,
            norm(m, t1 + v * a1),
        ).insert(p + m1 + m2, norm(m, t2 + v * a2)));
    }
}

/// Semantic equivalence of the constant-offset add rewrite: on any state
/// and for any cell modulus, the three-instruction window and its
/// replacement produce the identical tape and pointer.
pub proof fn lemma_add_off_equiv(m: int, st: TapeState, s: Seq<Instruction>, i: int, f: OptFlags)
    requires
        is_add_off(s, i, f),
        forall|j: int| 0 <= j < s.len() ==> payload_within(#[trigger] s[j], peephole_bound()),
    ensures
        apply_seq(m, st, s.subrange(i, i + 3)) == apply_seq(m, st, ao_rewrite(s, i)),
        forall|j: int| i <= j < i + 3 ==> !(#[trigger] s[j] is In) && !(s[j] is Out),
{
    reveal_with_fuel(apply_seq, 4);
    let p = st.ptr;
    let m1 = s[i]->Move_0;
    let a = s[i + 1]->Add_0;
    let m2 = s[i + 2]->Move_0;
    let win = s.subrange(i, i + 3);
    assert(win =~= seq![Instruction::Move(m1), Instruction::Add(a), Instruction::Move(m2)]);
    let l1 = apply_inst(m, st, Instruction::Move(m1));
    let l2 = apply_inst(m, l1, Instruction::Add(a));
    let l3 = apply_inst(m, l2, Instruction::Move(m2));
    assert(win.drop_first() =~= seq![Instruction::Add(a), Instruction::Move(m2)]);
    assert(win.drop_first().drop_first() =~= seq![Instruction::Move(m2)]);
    assert(win.drop_first().drop_first().drop_first() =~= Seq::<Instruction>::empty());
    assert(apply_seq(m, st, win) == l3);
    let r1 = apply_inst(m, st, Instruction::AddOffset(a, m1));
    if m1 == -m2 {
        assert(ao_rewrite(s, i).drop_first() =~= Seq::<Instruction>::empty());
        assert(apply_seq(m, st, ao_rewrite(s, i)) == r1);
        assert(l3.tape =~= r1.tape);
    } else {
        let r2 = apply_inst(m, r1, Instruction::Move((m1 + m2) as i64));
        assert(ao_rewrite(s, i).drop_first() =~= seq![Instruction::Move((m1 + m2) as i64)]);
        assert(ao_rewrite(s, i).drop_first().drop_first() =~= Seq::<Instruction>::empty());
        assert(apply_seq(m, st, ao_rewrite(s, i)) == r2);
        assert(l3.tape =~= r2.tape);
    }
}

/// Semantic equivalence of the constant-offset zero rewrite, analogous to
/// the constant-offset add.
pub proof fn lemma_zero_off_equiv(m: int, st: TapeState, s: Seq<Instruction>, i: int, f: OptFlags)
    requires
        is_zero_off(s, i, f),
        forall|j: int| 0 <= j < s.len() ==> payload_within(#[trigger] s[j], peephole_bound()),
    ensures
        apply_seq(m, st, s.subrange(i, i + 3)) == apply_seq(m, st, zo_rewrite(s, i)),
        forall|j: int| i <= j < i + 3 ==> !(#[trigger] s[j] is In) && !(s[j] is Out),
{
    reveal_with_fuel(apply_seq, 4);
    let p = st.ptr;
    let m1 = s[i]->Move_0;
    let m2 = s[i + 2]->Move_0;
    let win = s.subrange(i, i + 3);
    assert(win =~= seq![Instruction::Move(m1), Instruction::Zero, Instruction::Move(m2)]);
    let l1 = apply_inst(m, st, Instruction::Move(m1));
    let l2 = apply_inst(m, l1, Instruction::Zero);
    let l3 = apply_inst(m, l2, Instruction::Move(m2));
    assert(win.drop_first() =~= seq![Instruction::Zero, Instruction::Move(m2)]);
    assert(win.drop_first().drop_first() =~= seq![Instruction::Move(m2)]);
    assert(win.drop_first().drop_first().drop_first() =~= Seq::<Instruction>::empty());
    assert(apply_seq(m, st, win) == l3);
    let r1 = apply_inst(m, st, Instruction::ZeroOffset(m1));
    if m1 == -m2 {
        assert(zo_rewrite(s, i).drop_first() =~= Seq::<Instruction>::empty());
        assert(apply_seq(m, st, zo_rewrite(s, i)) == r1);
        assert(l3.tape =~= r1.tape);
    } else {
        let r2 = apply_inst(m, r1, Instruction::Move((m1 + m2) as i64));
        assert(zo_rewrite(s, i).drop_first() =~= seq![Instruction::Move((m1 + m2) as i64)]);
        assert(zo_rewrite(s, i).drop_first().drop_first() =~= Seq::<Instruction>::empty());
        assert(apply_seq(m, st, zo_rewrite(s, i)) == r2);
        assert(l3.tape =~= r2.tape);
    }
}

/// Semantic equivalence of the clear-cell substitution: the loop whose body
/// is a single decrement runs exactly source-cell-value passes, each leaving
/// the guard nonzero until the last, and the final state is exactly the
/// state after a single `Zero`.
pub proof fn lemma_clear_loop_equiv(m: int, st: TapeState)
    requires
        st_wf(m, st),
    ensures
        forall|k: nat|
            k < st.tape[st.ptr] ==> #[trigger] iter_body(
                m,
                st,
                seq![Instruction::Add(-1i64)],
                k,
            ).ptr == st.ptr && iter_body(m, st, seq![Instruction::Add(-1i64)], k).tape[st.ptr]
                == st.tape[st.ptr] - k && st.tape[st.ptr] - k != 0,
        iter_body(m, st, seq![Instruction::Add(-1i64)], st.tape[st.ptr] as nat) == apply_seq(
            m,
            st,
            seq![Instruction::Zero],
        ),
{
    let p = st.ptr;
    let v = st.tape[p];
    let body = seq![Instruction::Add(-1i64)];
    assert forall|k: nat| k <= v implies #[trigger] iter_body(m, st, body, k) == (TapeState {
        tape: st.tape.insert(p, v - k),
        ptr: p,
    }) by {
        lemma_clear_iter(m, st, k);
    }
    reveal_with_fuel(apply_seq, 2);
    assert(seq![Instruction::Zero].drop_first() =~= Seq::<Instruction>::empty());
    assert(apply_seq(m, st, seq![Instruction::Zero]) == apply_inst(m, st, Instruction::Zero));
    assert(iter_body(m, st, body, v as nat).tape =~= apply_inst(m, st, Instruction::Zero).tape);
}

/// After `k` passes of a bare decrement body, the cell has dropped by `k`.
proof fn lemma_clear_iter(m: int, st: TapeState, k: nat)
    requires
        st_wf(m, st),
        k <= st.tape[st.ptr],
    ensures
        iter_body(m, st, seq![Instruction::Add(-1i64)], k) == (TapeState {
            tape: st.tape.insert(st.ptr, st.tape[st.ptr] - k),
            ptr: st.ptr,
        }),
    decreases k,
{
    let p = st.ptr;
    let v = st.tape[p];
    let body = seq![Instruction::Add(-1i64)];
    if k == 0 {
        assert(st.tape.insert(p, v - 0) =~= st.tape);
    } else {
        lemma_clear_iter(m, st, (k - 1) as nat);
        let prev = iter_body(m, st, body, (k - 1) as nat);
        assert(st_wf(m, prev));
        reveal_with_fuel(apply_seq, 2);
        assert(body.drop_first() =~= Seq::<Instruction>::empty());
        assert(apply_seq(m, prev, body) == apply_inst(m, prev, Instruction::Add(-1i64)));
        assert(norm(m, v - (k - 1) - 1) == v - k) by {
            lemma_small_mod((v - k) as nat, m as nat);
        }
        assert(apply_inst(m, prev, Instruction::Add(-1i64)).tape =~= st.tape.insert(p, v - k));
    }
}

} // verus!
