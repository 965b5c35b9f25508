use vstd::prelude::*;
use vstd::string::StringExecFns;
use crate::inst::Instruction;
use crate::config::Config;
use crate::config::EofPolicy;

verus! {

/// The character for a single decimal digit.
pub open spec fn dec_digit_char(d: int) -> char {
    if d == 0 {
        '0'
    } else if d == 1 {
        '1'
    } else if d == 2 {
        '2'
    } else if d == 3 {
        '3'
    } else if d == 4 {
        '4'
    } else if d == 5 {
        '5'
    } else if d == 6 {
        '6'
    } else if d == 7 {
        '7'
    } else if d == 8 {
        '8'
    } else {
        '9'
    }
}

/// The decimal digits of a nonnegative integer, most significant first.
pub open spec fn dec_nat(n: int) -> Seq<char>
    decreases n,
{
    if n < 10 {
        seq![dec_digit_char(n)]
    } else {
        dec_nat(n / 10).push(dec_digit_char(n % 10))
    }
}

/// The decimal form of a signed integer, with a leading minus sign when
/// negative.
pub open spec fn dec_int(x: int) -> Seq<char> {
    if x < 0 {
        seq!['-'] + dec_nat(-x)
    } else {
        dec_nat(x)
    }
}

/// Append one decimal digit.
fn push_digit(s: &mut String, d: u64)
    requires
        d < 10,
    ensures
        final(s)@ == old(s)@.push(dec_digit_char(d as int)),
{
    proof {
        reveal_strlit("0");
        reveal_strlit("1");
        reveal_strlit("2");
        reveal_strlit("3");
        reveal_strlit("4");
        reveal_strlit("5");
        reveal_strlit("6");
        reveal_strlit("7");
        reveal_strlit("8");
        reveal_strlit("9");
    }
    if d == 0 {
        s.append("0");
    } else if d == 1 {
        s.append("1");
    } else if d == 2 {
        s.append("2");
    } else if d == 3 {
        s.append("3");
    } else if d == 4 {
        s.append("4");
    } else if d == 5 {
        s.append("5");
    } else if d == 6 {
        s.append("6");
    } else if d == 7 {
        s.append("7");
    } else if d == 8 {
        s.append("8");
    } else {
        s.append("9");
    }
    proof {
        assert(s@ =~= old(s)@.push(dec_digit_char(d as int)));
    }
}

/// Append the decimal form of an unsigned value.
fn append_u64(s: &mut String, n: u64)
    ensures
        final(s)@ == old(s)@ + dec_nat(n as int),
    decreases n,
{
    if n < 10 {
        push_digit(s, n);
        proof {
            assert(old(s)@.push(dec_digit_char(n as int)) =~= old(s)@ + dec_nat(n as int));
        }
    } else {
        append_u64(s, n / 10);
        push_digit(s, n % 10);
        proof {
            assert((old(s)@ + dec_nat(n as int / 10)).push(dec_digit_char(n as int % 10)) =~= old(
                s,
            )@ + dec_nat(n as int));
        }
    }
}

/// Append the decimal form of a signed value.
fn append_i64(s: &mut String, x: i64)
    ensures
        final(s)@ == old(s)@ + dec_int(x as int),
{
    if x >= 0 {
        append_u64(s, x as u64);
    } else {
        proof {
            reveal_strlit("-");
        }
        s.append("-");
        let mag: u64 = (-(x as i128)) as u64;
        append_u64(s, mag);
        proof {
            assert(old(s)@ + "-"@ + dec_nat(mag as int) =~= old(s)@ + dec_int(x as int));
        }
    }
}

/// The target type name for the configured cell width.
pub open spec fn spec_dtype(cfg: Config) -> Seq<char> {
    if cfg.bits == 8 {
        "int8_t"@
    } else if cfg.bits == 16 {
        "int16_t"@
    } else if cfg.bits == 32 {
        "int32_t"@
    } else {
        "int64_t"@
    }
}

/// The target type name, e.g. a 16-bit cell gives the 16-bit integer type.
fn dtype(cfg: &Config) -> (r: &'static str)
    requires
        cfg.wf(),
    ensures
        r@ == spec_dtype(*cfg),
{
    if cfg.bits == 8 {
        "int8_t"
    } else if cfg.bits == 16 {
        "int16_t"
    } else if cfg.bits == 32 {
        "int32_t"
    } else {
        "int64_t"
    }
}

/// The line emitted for the read instruction, per the end-of-input policy.
/// Apart from raw passthrough, the byte is read into a scratch variable and
/// the cell receives zero, minus one, or its old value on end of input.
pub open spec fn spec_input_line(cfg: Config) -> Seq<char> {
    match cfg.eof {
        EofPolicy::RawPassthrough => "*ptr=getchar();"@,
        EofPolicy::WriteZero => "inbuf=getchar();*ptr=(inbuf==("@ + spec_dtype(cfg)
            + ")(EOF))?0:inbuf;"@,
        EofPolicy::WriteNegativeOne => "inbuf=getchar();*ptr=(inbuf==("@ + spec_dtype(cfg)
            + ")(EOF))?-1:inbuf;"@,
        EofPolicy::LeaveUnchanged => "inbuf=getchar();*ptr=(inbuf==("@ + spec_dtype(cfg)
            + ")(EOF))?*ptr:inbuf;"@,
    }
}

/// The one line of target text for an instruction: the fixed template table.
pub open spec fn spec_line(ins: Instruction, cfg: Config) -> Seq<char> {
    match ins {
        Instruction::Add(x) => "*ptr+="@ + dec_int(x as int) + ";\n"@,
        Instruction::AddOffset(x, o) => "*(ptr+"@ + dec_int(o as int) + ")+="@ + dec_int(x as int)
            + ";\n"@,
        Instruction::Move(x) => "ptr+="@ + dec_int(x as int) + ";\n"@,
        Instruction::Zero => "*ptr=0;\n"@,
        Instruction::ZeroOffset(o) => "*(ptr+"@ + dec_int(o as int) + ")=0;\n"@,
        Instruction::Mult(o, f) => "*(ptr+"@ + dec_int(o as int) + ")+=*ptr*"@ + dec_int(f as int)
            + ";\n"@,
        Instruction::BeginLoop => "while(*ptr){\n"@,
        Instruction::EndLoop => "}\n"@,
        Instruction::Out => "putchar(*ptr);\n"@,
        Instruction::In => spec_input_line(cfg),
    }
}

/// Append the line for one instruction.
fn append_line(s: &mut String, ins: &Instruction, cfg: &Config)
    requires
        cfg.wf(),
    ensures
        final(s)@ == old(s)@ + spec_line(*ins, *cfg),
{
    match ins {
        Instruction::Add(x) => {
            s.append("*ptr+=");
            append_i64(s, *x);
            s.append(";\n");
            proof {
                assert(s@ =~= old(s)@ + spec_line(*ins, *cfg));
            }
        },
        Instruction::AddOffset(x, o) => {
            s.append("*(ptr+");
            append_i64(s, *o);
            s.append(")+=");
            append_i64(s, *x);
            s.append(";\n");
            proof {
                assert(s@ =~= old(s)@ + spec_line(*ins, *cfg));
            }
        },
        Instruction::Move(x) => {
            s.append("ptr+=");
            append_i64(s, *x);
            s.append(";\n");
            proof {
                assert(s@ =~= old(s)@ + spec_line(*ins, *cfg));
            }
        },
        Instruction::Zero => {
            s.append("*ptr=0;\n");
        },
        Instruction::ZeroOffset(o) => {
            s.append("*(ptr+");
            append_i64(s, *o);
            s.append(")=0;\n");
            proof {
                assert(s@ =~= old(s)@ + spec_line(*ins, *cfg));
            }
        },
        Instruction::Mult(o, f) => {
            s.append("*(ptr+");
            append_i64(s, *o);
            s.append(")+=*ptr*");
            append_i64(s, *f);
            s.append(";\n");
            proof {
                assert(s@ =~= old(s)@ + spec_line(*ins, *cfg));
            }
        },
        Instruction::BeginLoop => {
            s.append("while(*ptr){\n");
        },
        Instruction::EndLoop => {
            s.append("}\n");
        },
        Instruction::Out => {
            s.append("putchar(*ptr);\n");
        },
        Instruction::In => {
            match cfg.eof {
                EofPolicy::RawPassthrough => {
                    s.append("*ptr=getchar();");
                },
                EofPolicy::WriteZero => {
                    s.append("inbuf=getchar();*ptr=(inbuf==(");
                    s.append(dtype(cfg));
                    s.append(")(EOF))?0:inbuf;");
                    proof {
                        assert(s@ =~= old(s)@ + spec_line(*ins, *cfg));
                    }
                },
                EofPolicy::WriteNegativeOne => {
                    s.append("inbuf=getchar();*ptr=(inbuf==(");
                    s.append(dtype(cfg));
                    s.append(")(EOF))?-1:inbuf;");
                    proof {
                        assert(s@ =~= old(s)@ + spec_line(*ins, *cfg));
                    }
                },
                EofPolicy::LeaveUnchanged => {
                    s.append("inbuf=getchar();*ptr=(inbuf==(");
                    s.append(dtype(cfg));
                    s.append(")(EOF))?*ptr:inbuf;");
                    proof {
                        assert(s@ =~= old(s)@ + spec_line(*ins, *cfg));
                    }
                },
            }
        },
    }
}

/// The body of the emitted program: one line per instruction, in order.
pub open spec fn spec_lines(toks: Seq<Instruction>, cfg: Config) -> Seq<char>
    decreases toks.len(),
{
    if toks.len() == 0 {
        Seq::empty()
    } else {
        spec_line(toks[0], cfg) + spec_lines(toks.drop_first(), cfg)
    }
}

/// Emitting lines commutes with appending one instruction at the end.
proof fn lemma_lines_snoc(toks: Seq<Instruction>, ins: Instruction, cfg: Config)
    ensures
        spec_lines(toks.push(ins), cfg) == spec_lines(toks, cfg) + spec_line(ins, cfg),
    decreases toks.len(),
{
    if toks.len() == 0 {
        assert(toks.push(ins).drop_first() =~= toks);
        assert(spec_lines(toks, cfg) =~= Seq::<char>::empty());
        assert(spec_lines(toks.push(ins), cfg) =~= spec_lines(toks, cfg) + spec_line(ins, cfg));
    } else {
        assert(toks.push(ins)[0] == toks[0]);
        assert(toks.push(ins).drop_first() =~= toks.drop_first().push(ins));
        lemma_lines_snoc(toks.drop_first(), ins, cfg);
        assert(spec_lines(toks.push(ins), cfg) =~= spec_lines(toks, cfg) + spec_line(ins, cfg));
    }
}

/// The fixed head of the emitted program: the two standard-library includes,
/// the tape declaration with its pointer and the scratch input variable, and
/// the opening of the entry point.
pub open spec fn spec_header(cfg: Config) -> Seq<char> {
    "#include <stdio.h>\n#include <inttypes.h>\n"@ + spec_dtype(cfg) + " mem["@ + dec_nat(
        cfg.length as int,
    ) + "]; "@ + spec_dtype(cfg) + " *ptr = mem;\n"@ + spec_dtype(cfg) + " inbuf;\n"@
        + "int main() {"@
}

/// The fixed tail of the emitted program: the return and the closing brace.
pub open spec fn spec_footer() -> Seq<char> {
    "return 0;\n}\n"@
}

/// The whole emitted program for a final instruction sequence.
pub open spec fn spec_program(toks: Seq<Instruction>, cfg: Config) -> Seq<char> {
    spec_header(cfg) + spec_lines(toks, cfg) + spec_footer()
}

/// Emit the complete target program: header, one line per instruction, and
/// the closing of the entry point.
pub fn emit_program(toks: &Vec<Instruction>, cfg: &Config) -> (r: String)
    requires
        cfg.wf(),
    ensures
        r@ == spec_program(toks@, *cfg),
{
    let mut s = String::new();
    s.append("#include <stdio.h>\n#include <inttypes.h>\n");
    s.append(dtype(cfg));
    s.append(" mem[");
    append_u64(&mut s, cfg.length);
    s.append("]; ");
    s.append(dtype(cfg));
    s.append(" *ptr = mem;\n");
    s.append(dtype(cfg));
    s.append(" inbuf;\n");
    s.append("int main() {");
    proof {
        assert(s@ =~= spec_header(*cfg));
    }
    let mut i: usize = 0;
    proof {
        assert(toks@.take(0) =~= Seq::<Instruction>::empty());
        assert(s@ =~= spec_header(*cfg) + spec_lines(toks@.take(0), *cfg));
    }
    while i < toks.len()
        invariant
            i <= toks@.len(),
            cfg.wf(),
            s@ == spec_header(*cfg) + spec_lines(toks@.take(i as int), *cfg),
        decreases toks@.len() - i,
    {
        append_line(&mut s, &toks[i], cfg);
        proof {
            assert(toks@.take(i + 1) =~= toks@.take(i as int).push(toks@[i as int]));
            lemma_lines_snoc(toks@.take(i as int), toks@[i as int], *cfg);
            assert(s@ =~= spec_header(*cfg) + spec_lines(toks@.take(i + 1), *cfg));
        }
        i = i + 1;
    }
    s.append("return 0;\n}\n");
    proof {
        assert(toks@.take(toks@.len() as int) =~= toks@);
        assert(s@ =~= spec_program(toks@, *cfg));
    }
    s
}

} // verus!
