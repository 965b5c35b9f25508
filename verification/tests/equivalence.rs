use tribf::config::OptFlags;
use tribf::filter::filter_symbols;
use tribf::filter::rewrite_clear_idiom;
use tribf::inst::Instruction;
use tribf::peephole::peephole;
use tribf::tokenize::tokenize;

/// Run an instruction sequence against an eight-bit tape, with the
/// while-nonzero loop semantics of the target language. Returns the final
/// pointer. Read and write instructions are not exercised here.
fn run(prog: &[Instruction], tape: &mut [u8], mut ptr: usize) -> usize {
    let mut i: usize = 0;
    while i < prog.len() {
        match prog[i] {
            Instruction::Add(x) => {
                tape[ptr] = tape[ptr].wrapping_add(x as u8);
            }
            Instruction::AddOffset(x, o) => {
                let t = (ptr as i64 + o) as usize;
                tape[t] = tape[t].wrapping_add(x as u8);
            }
            Instruction::Zero => {
                tape[ptr] = 0;
            }
            Instruction::ZeroOffset(o) => {
                let t = (ptr as i64 + o) as usize;
                tape[t] = 0;
            }
            Instruction::Move(x) => {
                ptr = (ptr as i64 + x) as usize;
            }
            Instruction::Mult(o, f) => {
                let t = (ptr as i64 + o) as usize;
                tape[t] = tape[t].wrapping_add(tape[ptr].wrapping_mul(f as u8));
            }
            Instruction::BeginLoop => {
                if tape[ptr] == 0 {
                    let mut depth: usize = 1;
                    while depth > 0 {
                        i += 1;
                        match prog[i] {
                            Instruction::BeginLoop => depth += 1,
                            Instruction::EndLoop => depth -= 1,
                            _ => {}
                        }
                    }
                }
            }
            Instruction::EndLoop => {
                if tape[ptr] != 0 {
                    let mut depth: usize = 1;
                    while depth > 0 {
                        i -= 1;
                        match prog[i] {
                            Instruction::EndLoop => depth += 1,
                            Instruction::BeginLoop => depth -= 1,
                            _ => {}
                        }
                    }
                }
            }
            Instruction::In | Instruction::Out => {}
        }
        i += 1;
    }
    ptr
}

fn tokens(src: &[u8], level: u8) -> Vec<Instruction> {
    let f = OptFlags::for_level(level);
    let filtered = filter_symbols(&src.to_vec());
    let rewritten = rewrite_clear_idiom(&filtered, f.zero_loop);
    let toks = tokenize(&rewritten, f.clump_ops);
    peephole(&toks, &f)
}

fn assert_equivalent(src: &[u8], start: &[u8], ptr: usize) {
    let plain = tokens(src, 0);
    for level in 1u8..4 {
        let opt = tokens(src, level);
        let mut tape_a = start.to_vec();
        let mut tape_b = start.to_vec();
        let pa = run(&plain, &mut tape_a, ptr);
        let pb = run(&opt, &mut tape_b, ptr);
        assert_eq!(tape_a, tape_b);
        assert_eq!(pa, pb);
    }
}

#[test]
fn copy_loop_rewrite_preserves_tape_semantics() {
    assert_equivalent(b"[->+>+<<]", &[7, 3, 250, 0, 0], 0);
    assert_equivalent(b"[->+>+<<]", &[0, 9, 9, 0, 0], 0);
}

#[test]
fn move_loop_rewrite_preserves_tape_semantics() {
    assert_equivalent(b"[->++<]", &[200, 17, 0, 0], 0);
    assert_equivalent(b"[>+++<-]", &[13, 255, 0, 0], 0);
}

#[test]
fn clear_loop_rewrite_preserves_tape_semantics() {
    assert_equivalent(b"[-]", &[99, 2], 0);
    assert_equivalent(b"[+]", &[99, 2], 0);
}

#[test]
fn offset_rewrites_preserve_tape_semantics() {
    assert_equivalent(b">+++<", &[1, 2, 3], 0);
    assert_equivalent(b">>++<", &[1, 2, 3, 4], 0);
    assert_equivalent(b">[-]<", &[5, 6, 7], 0);
    assert_equivalent(b">>[-]<", &[5, 6, 7, 8], 0);
}

#[test]
fn mixed_program_preserves_tape_semantics() {
    assert_equivalent(b"++[->+>+<<]>[-<+>]>[-]+++", &[0, 0, 0, 0, 0, 0], 0);
    assert_equivalent(b"+++++[->>++<<]>>[-<+>]", &[0, 0, 0, 0], 0);
}
