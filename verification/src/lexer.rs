//! Spans, token/span pairs, and the lexer driver.
//!
//! `tokenize` turns a whole source buffer into the token sequence that
//! `spec_tokenize` describes: single-pass, forward-only, with ASCII spaces
//! consumed silently and the terminal `End` pseudo-token never emitted.

use vstd::prelude::*;

pub mod token;

use token::Token;

verus! {

/// A half-open byte-offset range `[lo, hi)` into the source buffer.
#[derive(Debug, Clone, Copy, PartialEq, Eq, Structural)]
pub struct Span {
    pub lo: usize,
    pub hi: usize,
}

/// One token with the span it was read from.
#[derive(Debug, Clone, Copy, PartialEq, Eq, Structural)]
pub struct Pair {
    pub token: Token,
    pub span: Span,
}

/// The bytes a span selects, or the empty sequence for a span that does
/// not fit the buffer.
pub open spec fn spec_span_text(src: Seq<u8>, span: Span) -> Seq<u8> {
    if span.lo <= span.hi <= src.len() {
        src.subrange(span.lo as int, span.hi as int)
    } else {
        Seq::empty()
    }
}

/// Copies the bytes of `src` in the range `[lo, hi)`.
pub fn span_text(src: &[u8], span: Span) -> (r: Vec<u8>)
    ensures
        r@ == spec_span_text(src@, span),
{
    let mut v: Vec<u8> = Vec::new();
    if span.lo <= span.hi && span.hi <= src.len() {
        let mut k: usize = span.lo;
        while k < span.hi
            invariant
                span.lo <= k <= span.hi <= src@.len(),
                v@ == src@.subrange(span.lo as int, k as int),
            decreases span.hi - k,
        {
            v.push(src[k]);
            proof {
                assert(src@.subrange(span.lo as int, k + 1) =~= src@.subrange(
                    span.lo as int,
                    k as int,
                ).push(src@[k as int]));
            }
            k += 1;
        }
    }
    v
}

impl Pair {
    /// The text of this token.
    pub fn str(&self, src: &[u8]) -> (r: Vec<u8>)
        ensures
            r@ == spec_span_text(src@, self.span),
    {
        span_text(src, self.span)
    }
}

/// The full token stream from position `i` on: one `Pair` per parsed
/// token, white space skipped, ending where the `End` pseudo-token comes.
pub open spec fn spec_tokenize(s: Seq<u8>, i: int) -> Seq<Pair>
    decreases s.len() - i,
{
    let (t, j) = spec_token_parse(s, i);
    if t == Token::End {
        Seq::empty()
    } else if j <= i || j > s.len() {
        // never reached: a token other than End consumes at least one byte
        Seq::empty()
    } else if t == Token::WhiteSpace {
        spec_tokenize(s, j)
    } else {
        seq![
            Pair { token: t, span: Span { lo: i as usize, hi: j as usize } },
        ] + spec_tokenize(s, j)
    }
}

use token::spec_token_parse;

/// Well-formedness that `tokenize` guarantees of every pair it yields:
/// a non-empty span inside the buffer, and a real token.
pub open spec fn wf_pairs(src: Seq<u8>, toks: Seq<Pair>) -> bool {
    forall|k: int|
        0 <= k < toks.len() ==> (#[trigger] toks[k]).span.lo <= toks[k].span.hi <= src.len()
            && toks[k].token != Token::End && toks[k].token != Token::WhiteSpace
}

/// Lexes the whole buffer.
pub fn tokenize(s: &[u8]) -> (r: Vec<Pair>)
    ensures
        r@ == spec_tokenize(s@, 0),
        wf_pairs(s@, r@),
{
    let mut out: Vec<Pair> = Vec::new();
    let mut pos: usize = 0;
    let mut fin = false;
    while !fin
        invariant
            pos <= s@.len(),
            spec_tokenize(s@, 0) == out@ + (if fin {
                Seq::<Pair>::empty()
            } else {
                spec_tokenize(s@, pos as int)
            }),
            wf_pairs(s@, out@),
        decreases s@.len() - pos, if fin {
            0int
        } else {
            1int
        },
    {
        let (t, np) = Token::parse(s, pos);
        if t == Token::End {
            fin = true;
            proof {
                assert(spec_tokenize(s@, pos as int) =~= Seq::<Pair>::empty());
                assert(out@ + Seq::<Pair>::empty() =~= out@);
            }
        } else if t == Token::WhiteSpace {
            pos = np;
        } else {
            let p = Pair { token: t, span: Span { lo: pos, hi: np } };
            proof {
                assert(spec_tokenize(s@, pos as int) == seq![p] + spec_tokenize(s@, np as int));
                assert(out@ + (seq![p] + spec_tokenize(s@, np as int)) =~= (out@ + seq![p])
                    + spec_tokenize(s@, np as int));
                assert(out@.push(p) =~= out@ + seq![p]);
            }
            out.push(p);
            pos = np;
        }
    }
    proof {
        assert(spec_tokenize(s@, 0) =~= out@);
    }
    out
}

/// A forward-only cursor over the token stream of one buffer.
pub struct Lexer<'a> {
    source: &'a [u8],
    pos: usize,
}

impl<'a> Lexer<'a> {
    pub closed spec fn spec_source(&self) -> Seq<u8> {
        self.source@
    }

    pub closed spec fn spec_pos(&self) -> int {
        self.pos as int
    }

    pub open spec fn wf(&self) -> bool {
        0 <= self.spec_pos() <= self.spec_source().len()
    }

    /// What remains to be yielded.
    pub open spec fn remaining(&self) -> Seq<Pair> {
        spec_tokenize(self.spec_source(), self.spec_pos())
    }

    pub fn new(s: &'a [u8]) -> (r: Lexer<'a>)
        ensures
            r.wf(),
            r.spec_source() == s@,
            r.remaining() == spec_tokenize(s@, 0),
    {
        Lexer { source: s, pos: 0 }
    }

    /// The next token/span pair, or `None` once the stream is exhausted.
    pub fn next(&mut self) -> (r: Option<Pair>)
        requires
            old(self).wf(),
        ensures
            final(self).wf(),
            final(self).spec_source() == old(self).spec_source(),
            match r {
                Some(p) => old(self).remaining().len() > 0 && p == old(self).remaining()[0]
                    && final(self).remaining() == old(self).remaining().drop_first(),
                None => old(self).remaining().len() == 0 && final(self).remaining().len() == 0,
            },
    {
        let mut res: Option<Pair> = None;
        let mut fin = false;
        while !fin
            invariant
                self.wf(),
                self.source == old(self).source,
                !fin ==> res is None && self.remaining() == old(self).remaining(),
                fin ==> match res {
                    Some(p) => old(self).remaining().len() > 0 && p == old(self).remaining()[0]
                        && self.remaining() == old(self).remaining().drop_first(),
                    None => old(self).remaining().len() == 0 && self.remaining().len() == 0,
                },
            decreases self.spec_source().len() - self.spec_pos(), if fin {
                0int
            } else {
                1int
            },
        {
            let (t, np) = Token::parse(self.source, self.pos);
            if t == Token::End {
                self.pos = np;
                fin = true;
                proof {
                    assert(self.remaining() =~= Seq::<Pair>::empty());
                }
            } else if t == Token::WhiteSpace {
                self.pos = np;
            } else {
                let p = Pair { token: t, span: Span { lo: self.pos, hi: np } };
                proof {
                    assert(old(self).remaining() == seq![p] + spec_tokenize(
                        self.spec_source(),
                        np as int,
                    ));
                    assert((seq![p] + spec_tokenize(self.spec_source(), np as int)).drop_first()
                        =~= spec_tokenize(self.spec_source(), np as int));
                }
                self.pos = np;
                res = Some(p);
                fin = true;
            }
        }
        res
    }
}

} // verus!
