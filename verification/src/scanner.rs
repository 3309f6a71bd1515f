use vstd::prelude::*;

use crate::errors::Error;

verus! {

/// Whitespace between tokens: space, tab, carriage return, newline.
pub open spec fn is_ws(b: u8) -> bool {
    b == 32 || b == 9 || b == 10 || b == 13
}

/// The one-based line of position `p`: one more than the number of
/// newline bytes before it.
pub open spec fn line_at(s: Seq<u8>, p: int) -> nat
    decreases p,
{
    if p <= 0 {
        1
    } else {
        (line_at(s, p - 1) + if s[p - 1] == 10 {
            1nat
        } else {
            0nat
        }) as nat
    }
}

/// A UTF-8 continuation byte: part of a multi-byte character, not a
/// character of its own.
pub open spec fn is_continuation_byte(b: u8) -> bool {
    128 <= b < 192
}

/// The one-based column of position `p`: how many characters stand
/// between it and the closest preceding newline. Continuation bytes
/// do not open a new column, so multi-byte text inside a comment
/// moves the column by characters, not bytes.
pub open spec fn col_at(s: Seq<u8>, p: int) -> nat
    decreases p,
{
    if p <= 0 {
        1
    } else if s[p - 1] == 10 {
        1
    } else if is_continuation_byte(s[p - 1]) {
        col_at(s, p - 1)
    } else {
        col_at(s, p - 1) + 1
    }
}

/// A block comment opens at `p`.
pub open spec fn comment_open(s: Seq<u8>, p: int) -> bool {
    s[p] == 47 && p + 1 < s.len() && s[p + 1] == 42
}

/// How many statement separators `;` stand at or after position `p`,
/// not counting any inside a `/* ... */` comment.
pub open spec fn semis_from(s: Seq<u8>, p: int, in_comment: bool) -> nat
    decreases s.len() - p, if in_comment { 0int } else { 1int },
{
    if p < 0 || p >= s.len() {
        0
    } else if in_comment {
        if s[p] == 42 && p + 1 < s.len() && s[p + 1] == 47 {
            semis_from(s, p + 2, false)
        } else {
            semis_from(s, p + 1, true)
        }
    } else if comment_open(s, p) {
        semis_from(s, p + 2, true)
    } else {
        ((if s[p] == 59 {
            1nat
        } else {
            0nat
        }) + semis_from(s, p + 1, false)) as nat
    }
}

/// The number of `;`-terminated statement clauses in a source text,
/// ignoring separators inside block comments.
pub open spec fn statement_clause_count(s: Seq<u8>) -> nat {
    semis_from(s, 0, false)
}

/// Where the whitespace and comments beginning at `p` end: the first
/// significant position at or after `p`, or nothing when a block
/// comment stays open to the end of the text.
pub open spec fn trivia_end(s: Seq<u8>, p: int, in_comment: bool) -> Option<int>
    decreases s.len() - p,
{
    if p < 0 || p >= s.len() {
        if in_comment {
            None
        } else {
            Some(p)
        }
    } else if in_comment {
        if s[p] == 42 && p + 1 < s.len() && s[p + 1] == 47 {
            trivia_end(s, p + 2, false)
        } else {
            trivia_end(s, p + 1, true)
        }
    } else if is_ws(s[p]) {
        trivia_end(s, p + 1, false)
    } else if comment_open(s, p) {
        trivia_end(s, p + 2, true)
    } else {
        Some(p)
    }
}

/// Where the token beginning at `p` ends: the first position at or
/// after `p` that does not hold a token byte.
pub open spec fn token_end(s: Seq<u8>, p: int) -> int
    decreases s.len() - p,
{
    if p < 0 || p >= s.len() {
        p
    } else if token_byte_at(s, p) {
        token_end(s, p + 1)
    } else {
        p
    }
}

/// A byte that continues a token: anything but whitespace, the
/// statement separator, and a comment opening.
pub open spec fn token_byte_at(s: Seq<u8>, i: int) -> bool {
    !is_ws(s[i]) && s[i] != 59 && !comment_open(s, i)
}

/// Every position in `[p, q)` holds a token byte.
pub open spec fn token_bytes(s: Seq<u8>, p: int, q: int) -> bool {
    forall|i: int| p <= i < q ==> #[trigger] token_byte_at(s, i)
}

/// Consuming token bytes crosses no separator and no comment, so the
/// separator count ahead does not change.
pub proof fn lemma_semis_skip_token(s: Seq<u8>, p: int, q: int)
    requires
        0 <= p <= q <= s.len(),
        token_bytes(s, p, q),
    ensures
        semis_from(s, p, false) == semis_from(s, q, false),
    decreases q - p,
{
    if p < q {
        assert(token_byte_at(s, p));
        lemma_semis_skip_token(s, p + 1, q);
    }
}

/// The grammar engine's cursor: the source bytes with the current
/// position and its line and column, kept consistent at every step.
pub struct ParserInner {
    pub src: Vec<u8>,
    pub pos: usize,
    pub line: usize,
    pub col: usize,
}

impl ParserInner {
    /// The cursor stands inside the text with a true line and column.
    pub open spec fn wf(&self) -> bool {
        &&& self.pos <= self.src@.len()
        &&& self.src@.len() < usize::MAX
        &&& self.line == line_at(self.src@, self.pos as int)
        &&& self.col == col_at(self.src@, self.pos as int)
        &&& self.line <= self.pos + 1
        &&& self.col <= self.pos + 1
    }

    pub fn new(src: Vec<u8>) -> (r: ParserInner)
        requires
            src@.len() < usize::MAX,
        ensures
            r.wf(),
            r.src@ == src@,
            r.pos == 0,
    {
        ParserInner { src, pos: 0, line: 1, col: 1 }
    }

    /// Steps over one byte, tracking line and column.
    pub fn advance(&mut self)
        requires
            old(self).wf(),
            old(self).pos < old(self).src@.len(),
        ensures
            final(self).wf(),
            final(self).src@ == old(self).src@,
            final(self).pos == old(self).pos + 1,
    {
        let b: u8 = self.src[self.pos];
        if b == 10 {
            self.line = self.line + 1;
            self.col = 1;
        } else if b < 128 || b >= 192 {
            self.col = self.col + 1;
        }
        self.pos = self.pos + 1;
    }

    /// Skips whitespace and block comments up to the next significant
    /// byte or the end of the text. Fails exactly when a block
    /// comment opened at or after the cursor never closes.
    pub fn skip_trivia(&mut self) -> (r: Result<(), Error>)
        requires
            old(self).wf(),
        ensures
            final(self).wf(),
            final(self).src@ == old(self).src@,
            final(self).pos >= old(self).pos,
            match r {
                Ok(()) => {
                    &&& trivia_end(old(self).src@, old(self).pos as int, false) == Some(
                        final(self).pos as int,
                    )
                    &&& semis_from(final(self).src@, final(self).pos as int, false) == semis_from(
                        old(self).src@,
                        old(self).pos as int,
                        false,
                    )
                    &&& (final(self).pos == final(self).src@.len() || (!is_ws(
                        final(self).src@[final(self).pos as int],
                    ) && !comment_open(final(self).src@, final(self).pos as int)))
                },
                Err(e) => e is GrammarError && trivia_end(
                    old(self).src@,
                    old(self).pos as int,
                    false,
                ) is None,
            },
    {
        let ghost s: Seq<u8> = self.src@;
        let ghost start: int = self.pos as int;
        loop
            invariant
                self.wf(),
                s == old(self).src@,
                start == old(self).pos as int,
                self.src@ == s,
                self.pos >= start,
                semis_from(s, self.pos as int, false) == semis_from(s, start, false),
                trivia_end(s, self.pos as int, false) == trivia_end(s, start, false),
            decreases s.len() - self.pos,
        {
            if self.pos == self.src.len() {
                return Ok(());
            }
            let b: u8 = self.src[self.pos];
            if b == 32 || b == 9 || b == 10 || b == 13 {
                self.advance();
            } else if b == 47 && self.pos + 1 < self.src.len() && self.src[self.pos + 1] == 42 {
                let ghost centry: int = self.pos as int;
                self.advance();
                self.advance();
                loop
                    invariant_except_break
                        self.pos as int >= centry + 2,
                        semis_from(s, self.pos as int, true) == semis_from(s, centry + 2, true),
                        trivia_end(s, self.pos as int, true) == trivia_end(s, centry + 2, true),
                    invariant
                        self.wf(),
                        s == old(self).src@,
                        start == old(self).pos as int,
                        self.src@ == s,
                        self.pos >= start,
                        comment_open(s, centry),
                        centry >= start,
                        semis_from(s, centry, false) == semis_from(s, start, false),
                        trivia_end(s, centry, false) == trivia_end(s, start, false),
                    ensures
                        self.wf(),
                        self.src@ == s,
                        self.pos >= start,
                        self.pos as int > centry,
                        semis_from(s, self.pos as int, false) == semis_from(s, start, false),
                        trivia_end(s, self.pos as int, false) == trivia_end(s, start, false),
                    decreases s.len() - self.pos,
                {
                    if self.pos == self.src.len() {
                        proof {
                            assert(trivia_end(s, centry, false) == trivia_end(s, centry + 2, true));
                            assert(trivia_end(s, self.pos as int, true) is None);
                        }
                        return Err(
                            Error::GrammarError(
                                crate::errors::positioned_message(
                                    "unterminated block comment",
                                    self.line,
                                    self.col,
                                ),
                            ),
                        );
                    }
                    let c: u8 = self.src[self.pos];
                    if c == 42 && self.pos + 1 < self.src.len() && self.src[self.pos + 1] == 47 {
                        proof {
                            assert(semis_from(s, centry, false) == semis_from(s, centry + 2, true));
                            assert(semis_from(s, self.pos as int, true) == semis_from(
                                s,
                                self.pos + 2,
                                false,
                            ));
                            assert(trivia_end(s, centry, false) == trivia_end(s, centry + 2, true));
                            assert(trivia_end(s, self.pos as int, true) == trivia_end(
                                s,
                                self.pos + 2,
                                false,
                            ));
                        }
                        self.advance();
                        self.advance();
                        break ;
                    } else {
                        self.advance();
                    }
                }
            } else {
                return Ok(());
            }
        }
    }

    /// Reads one token: the maximal run of token bytes from the
    /// current position. The cursor must stand on a token byte.
    pub fn read_token(&mut self) -> (tok: Vec<u8>)
        requires
            old(self).wf(),
            old(self).pos < old(self).src@.len(),
            token_byte_at(old(self).src@, old(self).pos as int),
        ensures
            final(self).wf(),
            final(self).src@ == old(self).src@,
            final(self).pos > old(self).pos,
            tok@ == old(self).src@.subrange(old(self).pos as int, final(self).pos as int),
            tok@.len() > 0,
            final(self).pos as int == token_end(old(self).src@, old(self).pos as int),
            token_bytes(final(self).src@, old(self).pos as int, final(self).pos as int),
            semis_from(final(self).src@, final(self).pos as int, false) == semis_from(
                old(self).src@,
                old(self).pos as int,
                false,
            ),
            final(self).pos == final(self).src@.len() || !token_byte_at(
                final(self).src@,
                final(self).pos as int,
            ),
    {
        let ghost s: Seq<u8> = self.src@;
        let ghost start: int = self.pos as int;
        let mut tok: Vec<u8> = Vec::new();
        loop
            invariant
                self.wf(),
                s == old(self).src@,
                start == old(self).pos as int,
                self.src@ == s,
                start <= self.pos as int <= s.len(),
                tok@ == s.subrange(start, self.pos as int),
                token_bytes(s, start, self.pos as int),
                token_end(s, self.pos as int) == token_end(s, start),
            ensures
                self.wf(),
                self.src@ == s,
                start <= self.pos as int <= s.len(),
                tok@ == s.subrange(start, self.pos as int),
                token_bytes(s, start, self.pos as int),
                token_end(s, self.pos as int) == token_end(s, start),
                self.pos == s.len() || !token_byte_at(s, self.pos as int),
            decreases s.len() - self.pos,
        {
            if self.pos == self.src.len() {
                break ;
            }
            let b: u8 = self.src[self.pos];
            if b == 32 || b == 9 || b == 10 || b == 13 || b == 59 {
                break ;
            }
            if b == 47 && self.pos + 1 < self.src.len() && self.src[self.pos + 1] == 42 {
                break ;
            }
            tok.push(b);
            proof {
                assert(s.subrange(start, self.pos + 1) =~= s.subrange(start, self.pos as int).push(
                    s[self.pos as int],
                ));
            }
            self.advance();
        }
        proof {
            if self.pos as int == start {
                assert(token_byte_at(s, start));
                assert(false);
            }
            lemma_semis_skip_token(s, start, self.pos as int);
        }
        tok
    }
}

} // verus!
