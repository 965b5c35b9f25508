use vstd::prelude::*;

verus! {

/// The eight recognized control symbols of the source language.
pub open spec fn is_symbol(b: u8) -> bool {
    b == 43 || b == 45 || b == 60 || b == 62 || b == 91 || b == 93 || b == 44 || b == 46
}

/// The filtered form of a raw byte sequence: exactly the recognized symbols,
/// in order.
pub open spec fn spec_filter(s: Seq<u8>) -> Seq<u8>
    decreases s.len(),
{
    if s.len() == 0 {
        Seq::empty()
    } else if is_symbol(s[0]) {
        seq![s[0]] + spec_filter(s.drop_first())
    } else {
        spec_filter(s.drop_first())
    }
}

/// Filtering commutes with appending one byte at the end.
proof fn lemma_filter_snoc(s: Seq<u8>, b: u8)
    ensures
        spec_filter(s.push(b)) == if is_symbol(b) {
            spec_filter(s).push(b)
        } else {
            spec_filter(s)
        },
    decreases s.len(),
{
    assert(s.push(b)[0] == if s.len() == 0 { b } else { s[0] });
    if s.len() == 0 {
        assert(s.push(b).drop_first() =~= s);
        assert(spec_filter(s) =~= Seq::<u8>::empty());
        if is_symbol(b) {
            assert(spec_filter(s.push(b)) =~= spec_filter(s).push(b));
        }
    } else {
        assert(s.push(b).drop_first() =~= s.drop_first().push(b));
        lemma_filter_snoc(s.drop_first(), b);
        if is_symbol(b) {
            if is_symbol(s[0]) {
                assert(spec_filter(s.push(b)) =~= spec_filter(s).push(b));
            } else {
                assert(spec_filter(s.push(b)) =~= spec_filter(s).push(b));
            }
        }
    }
}

/// Every byte of a filtered sequence is a recognized symbol.
proof fn lemma_filter_all_symbols(s: Seq<u8>)
    ensures
        forall|i: int| 0 <= i < spec_filter(s).len() ==> is_symbol(#[trigger] spec_filter(s)[i]),
        spec_filter(s).len() <= s.len(),
    decreases s.len(),
{
    if s.len() > 0 {
        lemma_filter_all_symbols(s.drop_first());
    }
}

/// Filtering a sequence made only of recognized symbols returns it unchanged.
proof fn lemma_filter_of_symbols(s: Seq<u8>)
    requires
        forall|i: int| 0 <= i < s.len() ==> is_symbol(#[trigger] s[i]),
    ensures
        spec_filter(s) == s,
    decreases s.len(),
{
    if s.len() == 0 {
        assert(spec_filter(s) =~= s);
    } else {
        lemma_filter_of_symbols(s.drop_first());
        assert(spec_filter(s) =~= s);
    }
}

/// The filter never lengthens the text.
pub proof fn lemma_filter_len(s: Seq<u8>)
    ensures
        spec_filter(s).len() <= s.len(),
{
    lemma_filter_all_symbols(s);
}

/// The filter is idempotent: running it twice yields the same result as once.
pub proof fn lemma_filter_idempotent(s: Seq<u8>)
    ensures
        spec_filter(spec_filter(s)) == spec_filter(s),
{
    lemma_filter_all_symbols(s);
    lemma_filter_of_symbols(spec_filter(s));
}

/// Discard every byte outside the eight recognized symbols.
pub fn filter_symbols(src: &Vec<u8>) -> (r: Vec<u8>)
    ensures
        r@ == spec_filter(src@),
        r@.len() <= src@.len(),
{
    let mut out: Vec<u8> = Vec::new();
    let mut i: usize = 0;
    while i < src.len()
        invariant
            i <= src@.len(),
            out@ == spec_filter(src@.take(i as int)),
            out@.len() <= i,
        decreases src@.len() - i,
    {
        let b = src[i];
        proof {
            assert(src@.take(i + 1) =~= src@.take(i as int).push(src@[i as int]));
            lemma_filter_snoc(src@.take(i as int), src@[i as int]);
        }
        if b == 43 || b == 45 || b == 60 || b == 62 || b == 91 || b == 93 || b == 44 || b == 46 {
            out.push(b);
        }
        i = i + 1;
    }
    proof {
        assert(src@.take(src@.len() as int) =~= src@);
    }
    out
}

/// The clear-cell rewrite on filtered text: each literal three-symbol span
/// "begin loop, decrement, end loop" or "begin loop, increment, end loop"
/// becomes the single sentinel byte `'0'`, scanning left to right.
pub open spec fn spec_rewrite_on(s: Seq<u8>) -> Seq<u8>
    decreases s.len(),
{
    if s.len() >= 3 && s[0] == 91 && (s[1] == 45 || s[1] == 43) && s[2] == 93 {
        seq![48u8] + spec_rewrite_on(s.skip(3))
    } else if s.len() == 0 {
        Seq::empty()
    } else {
        seq![s[0]] + spec_rewrite_on(s.drop_first())
    }
}

/// The clear-cell rewrite, applied only when its flag is enabled.
pub open spec fn spec_rewrite(s: Seq<u8>, enabled: bool) -> Seq<u8> {
    if enabled {
        spec_rewrite_on(s)
    } else {
        s
    }
}

/// The rewrite never lengthens the text.
pub proof fn lemma_rewrite_len(s: Seq<u8>)
    ensures
        spec_rewrite_on(s).len() <= s.len(),
    decreases s.len(),
{
    if s.len() >= 3 && s[0] == 91 && (s[1] == 45 || s[1] == 43) && s[2] == 93 {
        lemma_rewrite_len(s.skip(3));
    } else if s.len() > 0 {
        lemma_rewrite_len(s.drop_first());
    }
}

/// Replace each clear-cell span by the zero sentinel, when enabled.
pub fn rewrite_clear_idiom(code: &Vec<u8>, enabled: bool) -> (r: Vec<u8>)
    ensures
        r@ == spec_rewrite(code@, enabled),
        r@.len() <= code@.len(),
{
    if !enabled {
        return code.clone();
    }
    let mut out: Vec<u8> = Vec::new();
    let mut i: usize = 0;
    proof {
        assert(code@.skip(0) =~= code@);
        assert(out@ + spec_rewrite_on(code@) =~= spec_rewrite_on(code@));
    }
    while i < code.len()
        invariant
            i <= code@.len(),
            spec_rewrite_on(code@) == out@ + spec_rewrite_on(code@.skip(i as int)),
            out@.len() <= i,
        decreases code@.len() - i,
    {
        let ghost rest = code@.skip(i as int);
        if code.len() >= 3 && i < code.len() - 2 && code[i] == 91 && (code[i + 1] == 45 || code[i
            + 1] == 43) && code[i + 2] == 93 {
            proof {
                assert(rest[0] == code@[i as int]);
                assert(rest[1] == code@[i + 1]);
                assert(rest[2] == code@[i + 2]);
                assert(rest.skip(3) =~= code@.skip(i + 3));
                assert(out@ + spec_rewrite_on(rest) =~= out@.push(48u8) + spec_rewrite_on(
                    code@.skip(i + 3),
                ));
            }
            out.push(48);
            i = i + 3;
        } else {
            proof {
                assert(rest[0] == code@[i as int]);
                assert(rest.drop_first() =~= code@.skip(i + 1));
                assert(out@ + spec_rewrite_on(rest) =~= out@.push(code@[i as int])
                    + spec_rewrite_on(code@.skip(i + 1)));
            }
            out.push(code[i]);
            i = i + 1;
        }
    }
    proof {
        assert(code@.skip(code@.len() as int) =~= Seq::<u8>::empty());
        assert(out@ + spec_rewrite_on(Seq::<u8>::empty()) =~= out@);
    }
    out
}

} // verus!
