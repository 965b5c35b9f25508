use tribf::compile;
use tribf::config::Config;
use tribf::config::ConfigError;
use tribf::config::EofPolicy;

fn cfg(level: u8) -> Config {
    Config::new(8, 30000, EofPolicy::RawPassthrough, level).unwrap()
}

const HEADER_8: &str = "#include <stdio.h>\n#include <inttypes.h>\nint8_t mem[30000]; int8_t *ptr = mem;\nint8_t inbuf;\nint main() {";
const FOOTER: &str = "return 0;\n}\n";

fn program_8(body: &str) -> String {
    let mut s = String::new();
    s.push_str(HEADER_8);
    s.push_str(body);
    s.push_str(FOOTER);
    s
}

#[test]
fn adds_unclumped_at_level_zero() {
    let src: Vec<u8> = b"+++.".to_vec();
    let out = compile(&src, &cfg(0));
    assert_eq!(out, program_8("*ptr+=1;\n*ptr+=1;\n*ptr+=1;\nputchar(*ptr);\n"));
}

#[test]
fn adds_clumped_at_level_three() {
    let src: Vec<u8> = b"+++.".to_vec();
    let out = compile(&src, &cfg(3));
    assert_eq!(out, program_8("*ptr+=3;\nputchar(*ptr);\n"));
}

#[test]
fn clear_cell_idiom_becomes_zero() {
    let src: Vec<u8> = b"[-]".to_vec();
    let out = compile(&src, &cfg(1));
    assert_eq!(out, program_8("*ptr=0;\n"));
    let src2: Vec<u8> = b"[+]".to_vec();
    let out2 = compile(&src2, &cfg(1));
    assert_eq!(out2, program_8("*ptr=0;\n"));
}

#[test]
fn clear_cell_idiom_left_alone_at_level_zero() {
    let src: Vec<u8> = b"[-]".to_vec();
    let out = compile(&src, &cfg(0));
    assert_eq!(out, program_8("while(*ptr){\n*ptr+=-1;\n}\n"));
}

#[test]
fn copy_loop_becomes_two_mults_and_zero() {
    let src: Vec<u8> = b"[->+>+<<]".to_vec();
    let out = compile(&src, &cfg(2));
    assert_eq!(out, program_8("*(ptr+1)+=*ptr*1;\n*(ptr+2)+=*ptr*1;\n*ptr=0;\n"));
}

#[test]
fn offset_add_with_no_residual_move() {
    let src: Vec<u8> = b">+<".to_vec();
    let c = Config::new(8, 30000, EofPolicy::LeaveUnchanged, 3).unwrap();
    let out = compile(&src, &c);
    assert_eq!(out, program_8("*(ptr+1)+=1;\n"));
}

#[test]
fn invalid_cell_width_is_a_config_error() {
    let r = Config::new(7, 30000, EofPolicy::RawPassthrough, 3);
    assert_eq!(r, Err(ConfigError::InvalidCellWidth));
    assert_eq!(
        Config::new(0, 30000, EofPolicy::RawPassthrough, 0),
        Err(ConfigError::InvalidCellWidth)
    );
    assert_eq!(
        Config::new(9, 1, EofPolicy::WriteZero, 2),
        Err(ConfigError::InvalidCellWidth)
    );
}

#[test]
fn rewrite_output_is_not_rescanned() {
    // The offset-add rewrite of the first window emits a residual move; that
    // move lines up with the following add and move into another offset-add
    // window, but the single pass never rewrites its own output.
    let src: Vec<u8> = b">>+<+<".to_vec();
    let out = compile(&src, &cfg(3));
    assert_eq!(out, program_8("*(ptr+2)+=1;\nptr+=1;\n*ptr+=1;\nptr+=-1;\n"));
}

#[test]
fn move_loop_becomes_mult_and_zero() {
    let src: Vec<u8> = b"[->++<]".to_vec();
    let out = compile(&src, &cfg(2));
    assert_eq!(out, program_8("*(ptr+1)+=*ptr*2;\n*ptr=0;\n"));
}

#[test]
fn move_loop_decrement_last_rotation() {
    let src: Vec<u8> = b"[>+<-]".to_vec();
    let out = compile(&src, &cfg(2));
    assert_eq!(out, program_8("*(ptr+1)+=*ptr*1;\n*ptr=0;\n"));
}

#[test]
fn move_loop_not_recognized_at_level_one() {
    let src: Vec<u8> = b"[->++<]".to_vec();
    let out = compile(&src, &cfg(1));
    assert_eq!(
        out,
        program_8("while(*ptr){\n*ptr+=-1;\nptr+=1;\n*ptr+=2;\nptr+=-1;\n}\n")
    );
}

#[test]
fn offset_zero_with_residual_move() {
    // move 2, clear, move back 1: net displacement one cell
    let src: Vec<u8> = b">>[-]<".to_vec();
    let out = compile(&src, &cfg(3));
    assert_eq!(out, program_8("*(ptr+2)=0;\nptr+=1;\n"));
}

#[test]
fn offset_zero_with_no_residual_move() {
    let src: Vec<u8> = b">[-]<".to_vec();
    let out = compile(&src, &cfg(3));
    assert_eq!(out, program_8("*(ptr+1)=0;\n"));
}

#[test]
fn unrecognized_bytes_are_discarded() {
    let a: Vec<u8> = b"a + b . c\n".to_vec();
    let b_: Vec<u8> = b"+.".to_vec();
    assert_eq!(compile(&a, &cfg(3)), compile(&b_, &cfg(3)));
}

#[test]
fn negative_moves_and_adds_format_with_sign() {
    let src: Vec<u8> = b"<<--".to_vec();
    let out = compile(&src, &cfg(1));
    assert_eq!(out, program_8("ptr+=-2;\n*ptr+=-2;\n"));
}

#[test]
fn cancelling_runs_are_pruned() {
    let src: Vec<u8> = b"+-><.".to_vec();
    let out = compile(&src, &cfg(1));
    assert_eq!(out, program_8("putchar(*ptr);\n"));
}

#[test]
fn unbalanced_loops_translate_verbatim() {
    let src: Vec<u8> = b"[".to_vec();
    let out = compile(&src, &cfg(3));
    assert_eq!(out, program_8("while(*ptr){\n"));
}

#[test]
fn empty_source_emits_empty_body() {
    let src: Vec<u8> = Vec::new();
    let out = compile(&src, &cfg(3));
    assert_eq!(out, program_8(""));
}
