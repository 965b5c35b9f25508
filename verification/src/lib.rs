//! An optimizing translator from a minimal eight-symbol tape language to C.
//!
//! The pipeline is strictly sequential: filter the raw bytes down to the
//! recognized symbols, optionally rewrite the clear-cell idiom, tokenize with
//! run-length folding, run a single-pass peephole optimizer over the
//! instruction sequence, and emit one line of C per final instruction.

pub mod config;
pub mod inst;
pub mod filter;
pub mod tokenize;
pub mod peephole;
pub mod emit;
pub mod semantics;

use vstd::prelude::*;

verus! {

/// The final instruction sequence of the pipeline: filter, clear-cell
/// rewrite, tokenizer/clumper, peephole optimizer.
pub open spec fn spec_final_tokens(src: Seq<u8>, cfg: config::Config) -> Seq<inst::Instruction> {
    peephole::spec_peephole(
        tokenize::spec_tokenize(
            filter::spec_rewrite(filter::spec_filter(src), cfg.flags.zero_loop),
            cfg.flags.clump_ops,
        ),
        cfg.flags,
    )
}

/// The whole pipeline as one specification-level function: the emitted text
/// of the final instruction sequence.
pub open spec fn spec_compile(src: Seq<u8>, cfg: config::Config) -> Seq<char> {
    emit::spec_program(spec_final_tokens(src, cfg), cfg)
}

/// At optimization level zero the emitted program is the literal
/// instruction-for-instruction translation of the source: no clear-cell
/// substitution, no run folding, and no idiom rewriting at all.
pub proof fn lemma_level_zero_literal(src: Seq<u8>, cfg: config::Config)
    requires
        cfg.flags == config::OptFlags::spec_for_level(0),
    ensures
        spec_compile(src, cfg) == emit::spec_program(
            tokenize::spec_literal(filter::spec_filter(src)),
            cfg,
        ),
{
    let filtered = filter::spec_filter(src);
    tokenize::lemma_tokenize_unclumped(filtered);
    peephole::lemma_peephole_level_zero(tokenize::spec_tokenize(filtered, false), cfg.flags);
}

/// The pruning invariant of the pipeline: the final instruction sequence
/// never contains `Add(0)` or `Move(0)`.
pub proof fn lemma_final_tokens_pruned(src: Seq<u8>, cfg: config::Config)
    requires
        src.len() <= 0x1000_0000_0000_0000,
    ensures
        forall|j: int|
            0 <= j < spec_final_tokens(src, cfg).len() ==> inst::nonzero_payload(
                #[trigger] spec_final_tokens(src, cfg)[j],
            ),
{
    let filtered = filter::spec_filter(src);
    let rewritten = filter::spec_rewrite(filtered, cfg.flags.zero_loop);
    let toks = tokenize::spec_tokenize(rewritten, cfg.flags.clump_ops);
    filter::lemma_filter_len(src);
    if cfg.flags.zero_loop {
        filter::lemma_rewrite_len(filtered);
    }
    tokenize::lemma_tokenize_bounded(rewritten, cfg.flags.clump_ops);
    tokenize::lemma_tok_pruned(rewritten, cfg.flags.clump_ops, None);
    assert forall|j: int| 0 <= j < toks.len() implies inst::payload_within(
        #[trigger] toks[j],
        peephole::peephole_bound(),
    ) by {
        assert(inst::payload_within(toks[j], rewritten.len() as int));
    }
    peephole::lemma_peep_pruned(toks, cfg.flags, 0);
}

/// Translate a raw source text (as bytes) into a complete C program under the
/// given configuration. Translation is all-or-nothing: the full instruction
/// sequence is built and optimized before any text is produced.
pub fn compile(src: &Vec<u8>, cfg: &config::Config) -> (out: String)
    requires
        src@.len() <= 0x1000_0000_0000_0000,
        cfg.wf(),
    ensures
        out@ == spec_compile(src@, *cfg),
{
    let filtered = filter::filter_symbols(src);
    let rewritten = filter::rewrite_clear_idiom(&filtered, cfg.flags.zero_loop);
    let toks = tokenize::tokenize(&rewritten, cfg.flags.clump_ops);
    proof {
        tokenize::lemma_tokenize_bounded(rewritten@, cfg.flags.clump_ops);
        assert forall|j: int| 0 <= j < toks@.len() implies inst::payload_within(
            #[trigger] toks@[j],
            peephole::peephole_bound(),
        ) by {
            assert(inst::payload_within(toks@[j], rewritten@.len() as int));
        }
    }
    let optimized = peephole::peephole(&toks, &cfg.flags);
    emit::emit_program(&optimized, cfg)
}

} // verus!
