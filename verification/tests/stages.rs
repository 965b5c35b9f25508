use tribf::compile;
use tribf::config::Config;
use tribf::config::EofPolicy;
use tribf::config::OptFlags;
use tribf::emit::emit_program;
use tribf::filter::filter_symbols;
use tribf::filter::rewrite_clear_idiom;
use tribf::inst::Instruction;
use tribf::peephole::peephole;
use tribf::tokenize::tokenize;

#[test]
fn filter_keeps_only_the_eight_symbols() {
    let src: Vec<u8> = b"hello+world-<>[],. 123".to_vec();
    let f = filter_symbols(&src);
    assert_eq!(f, b"+-<>[],.".to_vec());
}

#[test]
fn filter_is_idempotent_on_concrete_input() {
    let src: Vec<u8> = b"a+b[-]c.d,e<f>g]h[".to_vec();
    let once = filter_symbols(&src);
    let twice = filter_symbols(&once);
    assert_eq!(twice, once);
}

#[test]
fn clear_rewrite_replaces_each_span() {
    let src: Vec<u8> = b"+[-]-[+]+".to_vec();
    let r = rewrite_clear_idiom(&src, true);
    assert_eq!(r, b"+0-0+".to_vec());
}

#[test]
fn clear_rewrite_disabled_is_identity() {
    let src: Vec<u8> = b"+[-]-".to_vec();
    let r = rewrite_clear_idiom(&src, false);
    assert_eq!(r, src);
}

#[test]
fn tokenizer_folds_runs_when_clumping() {
    let toks = tokenize(&b"+++--<<>>>".to_vec(), true);
    assert_eq!(toks, vec![Instruction::Add(1), Instruction::Move(1)]);
}

#[test]
fn tokenizer_prunes_zero_folds() {
    let toks = tokenize(&b"+-".to_vec(), true);
    assert_eq!(toks, Vec::<Instruction>::new());
    let toks2 = tokenize(&b"><".to_vec(), true);
    assert_eq!(toks2, Vec::<Instruction>::new());
}

#[test]
fn tokenizer_zero_sentinel_absorbs_pending_add() {
    let toks = tokenize(&b"++00".to_vec(), true);
    assert_eq!(toks, vec![Instruction::Zero]);
}

#[test]
fn tokenizer_without_clumping_is_literal() {
    let toks = tokenize(&b"++>.".to_vec(), false);
    assert_eq!(
        toks,
        vec![
            Instruction::Add(1),
            Instruction::Add(1),
            Instruction::Move(1),
            Instruction::Out,
        ]
    );
}

#[test]
fn optimizer_with_all_flags_off_is_identity() {
    let toks = vec![
        Instruction::BeginLoop,
        Instruction::Add(-1),
        Instruction::Move(1),
        Instruction::Add(1),
        Instruction::Move(-1),
        Instruction::EndLoop,
    ];
    let f = OptFlags::for_level(0);
    assert_eq!(peephole(&toks, &f), toks);
}

#[test]
fn optimizer_rewrites_move_loop_tokens() {
    let toks = vec![
        Instruction::BeginLoop,
        Instruction::Add(-1),
        Instruction::Move(3),
        Instruction::Add(5),
        Instruction::Move(-3),
        Instruction::EndLoop,
    ];
    let f = OptFlags::for_level(2);
    assert_eq!(
        peephole(&toks, &f),
        vec![Instruction::Mult(3, 5), Instruction::Zero]
    );
}

#[test]
fn optimizer_keeps_loop_with_unbalanced_moves() {
    let toks = vec![
        Instruction::BeginLoop,
        Instruction::Add(-1),
        Instruction::Move(2),
        Instruction::Add(1),
        Instruction::Move(-1),
        Instruction::EndLoop,
    ];
    // not a move loop: the two moves do not cancel
    let f = OptFlags::for_level(2);
    assert_eq!(peephole(&toks, &f), toks);
    // at level three the body still matches the offset-add window
    let g = OptFlags::for_level(3);
    assert_eq!(
        peephole(&toks, &g),
        vec![
            Instruction::BeginLoop,
            Instruction::Add(-1),
            Instruction::AddOffset(1, 2),
            Instruction::Move(1),
            Instruction::EndLoop,
        ]
    );
}

#[test]
fn copy_loop_without_mult_needs_unit_factors() {
    // both additive factors one: recognized even with multiply recognition off
    let unit = vec![
        Instruction::BeginLoop,
        Instruction::Add(-1),
        Instruction::Move(1),
        Instruction::Add(1),
        Instruction::Move(1),
        Instruction::Add(1),
        Instruction::Move(-2),
        Instruction::EndLoop,
    ];
    let mut f = OptFlags::for_level(2);
    f.mult_loop = false;
    assert_eq!(
        peephole(&unit, &f),
        vec![
            Instruction::Mult(1, 1),
            Instruction::Mult(2, 1),
            Instruction::Zero,
        ]
    );
    // a non-unit factor: passed through untouched without multiply recognition
    let scaled = vec![
        Instruction::BeginLoop,
        Instruction::Add(-1),
        Instruction::Move(1),
        Instruction::Add(2),
        Instruction::Move(1),
        Instruction::Add(1),
        Instruction::Move(-2),
        Instruction::EndLoop,
    ];
    assert_eq!(peephole(&scaled, &f), scaled);
    let g = OptFlags::for_level(2);
    assert_eq!(
        peephole(&scaled, &g),
        vec![
            Instruction::Mult(1, 2),
            Instruction::Mult(2, 1),
            Instruction::Zero,
        ]
    );
}

#[test]
fn flag_table_is_exact_per_level() {
    let f0 = OptFlags::for_level(0);
    assert!(
        !f0.zero_loop && !f0.clump_ops && !f0.move_loop && !f0.copy_loop && !f0.mult_loop
            && !f0.add_offset && !f0.zero_offset
    );
    let f1 = OptFlags::for_level(1);
    assert!(f1.zero_loop && f1.clump_ops);
    assert!(!f1.move_loop && !f1.copy_loop && !f1.mult_loop && !f1.add_offset && !f1.zero_offset);
    let f2 = OptFlags::for_level(2);
    assert!(f2.zero_loop && f2.clump_ops && f2.move_loop && f2.copy_loop && f2.mult_loop);
    assert!(!f2.add_offset && !f2.zero_offset);
    let f3 = OptFlags::for_level(3);
    assert!(
        f3.zero_loop && f3.clump_ops && f3.move_loop && f3.copy_loop && f3.mult_loop
            && f3.add_offset && f3.zero_offset
    );
}

#[test]
fn emitter_covers_every_instruction_form() {
    let cfg = Config::new(16, 4, EofPolicy::RawPassthrough, 0).unwrap();
    let toks = vec![
        Instruction::Add(2),
        Instruction::AddOffset(3, -4),
        Instruction::Move(-7),
        Instruction::Zero,
        Instruction::ZeroOffset(5),
        Instruction::Mult(-2, 6),
        Instruction::BeginLoop,
        Instruction::EndLoop,
        Instruction::Out,
        Instruction::In,
    ];
    let out = emit_program(&toks, &cfg);
    let expected = "#include <stdio.h>\n#include <inttypes.h>\nint16_t mem[4]; int16_t *ptr = mem;\nint16_t inbuf;\nint main() {\
*ptr+=2;\n\
*(ptr+-4)+=3;\n\
ptr+=-7;\n\
*ptr=0;\n\
*(ptr+5)=0;\n\
*(ptr+-2)+=*ptr*6;\n\
while(*ptr){\n\
}\n\
putchar(*ptr);\n\
*ptr=getchar();\
return 0;\n}\n";
    assert_eq!(out, expected);
}

#[test]
fn eof_policies_emit_their_read_forms() {
    let toks = vec![Instruction::In];
    let zero = Config::new(8, 1, EofPolicy::WriteZero, 0).unwrap();
    assert!(emit_program(&toks, &zero)
        .contains("inbuf=getchar();*ptr=(inbuf==(int8_t)(EOF))?0:inbuf;"));
    let neg = Config::new(32, 1, EofPolicy::WriteNegativeOne, 0).unwrap();
    assert!(emit_program(&toks, &neg)
        .contains("inbuf=getchar();*ptr=(inbuf==(int32_t)(EOF))?-1:inbuf;"));
    let unch = Config::new(64, 1, EofPolicy::LeaveUnchanged, 0).unwrap();
    assert!(emit_program(&toks, &unch)
        .contains("inbuf=getchar();*ptr=(inbuf==(int64_t)(EOF))?*ptr:inbuf;"));
}

#[test]
fn cell_width_selects_the_tape_type() {
    let src: Vec<u8> = b".".to_vec();
    for (bits, ty) in [(8u8, "int8_t"), (16, "int16_t"), (32, "int32_t"), (64, "int64_t")] {
        let cfg = Config::new(bits, 30000, EofPolicy::RawPassthrough, 3).unwrap();
        let out = compile(&src, &cfg);
        let head = format!(
            "#include <stdio.h>\n#include <inttypes.h>\n{ty} mem[30000]; {ty} *ptr = mem;\n{ty} inbuf;\n"
        );
        assert!(out.starts_with(&head));
    }
}

#[test]
fn optimized_output_never_holds_zero_add_or_move() {
    let sources: [&[u8]; 5] = [b"+-", b"><+-<>", b"[->+<]", b">>+<+<", b"++[-]--[+]"];
    for src in sources {
        for level in 0u8..4 {
            let f = OptFlags::for_level(level);
            let toks = tokenize(&rewrite_clear_idiom(&filter_symbols(&src.to_vec()), f.zero_loop), f.clump_ops);
            let out = peephole(&toks, &f);
            for t in out {
                assert_ne!(t, Instruction::Add(0));
                assert_ne!(t, Instruction::Move(0));
            }
        }
    }
}
