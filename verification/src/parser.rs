use vstd::prelude::*;
use vstd::string::*;

use crate::ast::{Script, Statement, StatementParameter};
use crate::classify::{
    check_ident, classify_parameter, ident_rest, is_ident_seq, pos_reg_token, reg_token,
    str_reg_token, token_param, token_value_ok, wf_param_token,
};
use crate::digits::is_number_token;
use crate::errors::{positioned_message, Error};
use crate::scanner::{
    col_at, comment_open, is_ws, line_at, semis_from, statement_clause_count, token_byte_at,
    token_end, trivia_end, ParserInner,
};
use crate::text::ascii_chars;

verus! {

/// One parsed clause: the operation token and the parameter tokens,
/// each as the raw bytes it stood in the source.
pub struct SpecClause {
    pub op: Seq<u8>,
    pub params: Seq<Seq<u8>>,
}

/// What the next token belongs to: the leading operation of a new
/// statement, or the parameters of the clause built so far.
pub enum ClauseCtx {
    Operation,
    Parameters(SpecClause),
}

/// The scanning mode of the grammar: between tokens, inside a block
/// comment, or inside the token that began at the recorded position.
pub enum ScanState {
    Trivia(ClauseCtx),
    Comment(ClauseCtx),
    InToken(int, ClauseCtx),
}

/// The abstract outcome of a parse: the clauses of a well-formed
/// source, or the first fault in source order — a shape fault
/// (grammar), or a value fault naming the offending token and the
/// position it starts at.
pub enum SpecOutcome {
    Clauses(Seq<SpecClause>),
    GrammarFault,
    ValueFault(Seq<u8>, int),
}

/// The grammar, one byte at a time: from position `p` in state `st`
/// with the clauses `done` already complete, what the whole parse
/// comes to. Whitespace separates tokens; block comments count as
/// separators and may span statement boundaries; `;` closes a
/// clause; a clause's first token must be a bare identifier; every
/// parameter token must have a recognised shape, and a well-shaped
/// numeric or register token whose value is out of range is the
/// parse's value fault.
pub open spec fn grammar_run(s: Seq<u8>, p: int, st: ScanState, done: Seq<SpecClause>) -> SpecOutcome
    decreases
            s.len() - p,
            (if st matches ScanState::InToken(_, _) {
                1int
            } else {
                0int
            }),
{
    match st {
        ScanState::Trivia(ctx) => {
            if p < 0 || p >= s.len() {
                match ctx {
                    ClauseCtx::Operation => SpecOutcome::Clauses(done),
                    ClauseCtx::Parameters(_) => SpecOutcome::GrammarFault,
                }
            } else if is_ws(s[p]) {
                grammar_run(s, p + 1, ScanState::Trivia(ctx), done)
            } else if comment_open(s, p) {
                grammar_run(s, p + 2, ScanState::Comment(ctx), done)
            } else if s[p] == 59 {
                match ctx {
                    ClauseCtx::Operation => SpecOutcome::GrammarFault,
                    ClauseCtx::Parameters(c) => grammar_run(
                        s,
                        p + 1,
                        ScanState::Trivia(ClauseCtx::Operation),
                        done.push(c),
                    ),
                }
            } else {
                grammar_run(s, p + 1, ScanState::InToken(p, ctx), done)
            }
        },
        ScanState::Comment(ctx) => {
            if p < 0 || p >= s.len() {
                SpecOutcome::GrammarFault
            } else if s[p] == 42 && p + 1 < s.len() && s[p + 1] == 47 {
                grammar_run(s, p + 2, ScanState::Trivia(ctx), done)
            } else {
                grammar_run(s, p + 1, ScanState::Comment(ctx), done)
            }
        },
        ScanState::InToken(start, ctx) => {
            if 0 <= p < s.len() && token_byte_at(s, p) {
                grammar_run(s, p + 1, ScanState::InToken(start, ctx), done)
            } else {
                let t = s.subrange(start, p);
                match ctx {
                    ClauseCtx::Operation => {
                        if is_ident_seq(t) {
                            grammar_run(
                                s,
                                p,
                                ScanState::Trivia(
                                    ClauseCtx::Parameters(
                                        SpecClause { op: t, params: Seq::empty() },
                                    ),
                                ),
                                done,
                            )
                        } else {
                            SpecOutcome::GrammarFault
                        }
                    },
                    ClauseCtx::Parameters(c) => {
                        if !wf_param_token(t) {
                            SpecOutcome::GrammarFault
                        } else if !token_value_ok(t) {
                            SpecOutcome::ValueFault(t, start)
                        } else {
                            grammar_run(
                                s,
                                p,
                                ScanState::Trivia(
                                    ClauseCtx::Parameters(
                                        SpecClause { op: c.op, params: c.params.push(t) },
                                    ),
                                ),
                                done,
                            )
                        }
                    },
                }
            }
        },
    }
}

/// What parsing a whole source text comes to.
pub open spec fn spec_parse(s: Seq<u8>) -> SpecOutcome {
    grammar_run(s, 0, ScanState::Trivia(ClauseCtx::Operation), Seq::empty())
}

/// A built statement carries its clause: the operation is the ASCII
/// text of the clause's leading identifier token, and each parameter
/// is the one its token denotes.
pub open spec fn statement_matches(stmt: Statement, c: SpecClause) -> bool {
    &&& is_ident_seq(c.op)
    &&& stmt.operation@ == ascii_chars(c.op)
    &&& stmt.parameters@.len() == c.params.len()
    &&& forall|j: int|
        0 <= j < c.params.len() ==> token_param(c.params[j], #[trigger] stmt.parameters@[j])
}

/// Each statement carries its clause, in source order.
pub open spec fn statements_match(stmts: Seq<Statement>, cs: Seq<SpecClause>) -> bool {
    stmts.len() == cs.len() && (forall|i: int|
        0 <= i < cs.len() ==> statement_matches(#[trigger] stmts[i], cs[i]))
}

/// Skipping trivia does not change what the grammar makes of the
/// rest; an unterminated comment makes the whole parse a grammar
/// fault.
proof fn lemma_run_skips_trivia(
    s: Seq<u8>,
    p: int,
    in_comment: bool,
    ctx: ClauseCtx,
    done: Seq<SpecClause>,
)
    requires
        0 <= p <= s.len(),
    ensures
        match trivia_end(s, p, in_comment) {
            Some(q) => p <= q <= s.len() && grammar_run(
                s,
                p,
                if in_comment {
                    ScanState::Comment(ctx)
                } else {
                    ScanState::Trivia(ctx)
                },
                done,
            ) == grammar_run(s, q, ScanState::Trivia(ctx), done),
            None => grammar_run(
                s,
                p,
                if in_comment {
                    ScanState::Comment(ctx)
                } else {
                    ScanState::Trivia(ctx)
                },
                done,
            ) == SpecOutcome::GrammarFault,
        },
    decreases s.len() - p,
{
    if p >= s.len() {
    } else if in_comment {
        if s[p] == 42 && p + 1 < s.len() && s[p + 1] == 47 {
            lemma_run_skips_trivia(s, p + 2, false, ctx, done);
        } else {
            lemma_run_skips_trivia(s, p + 1, true, ctx, done);
        }
    } else {
        if is_ws(s[p]) {
            lemma_run_skips_trivia(s, p + 1, false, ctx, done);
        } else if comment_open(s, p) {
            lemma_run_skips_trivia(s, p + 2, true, ctx, done);
        }
    }
}

/// Consuming the bytes of one token does not change what the grammar
/// makes of it: the token is judged whole, at its end.
proof fn lemma_run_token(s: Seq<u8>, p: int, start: int, ctx: ClauseCtx, done: Seq<SpecClause>)
    requires
        0 <= p <= s.len(),
    ensures
        p <= token_end(s, p) <= s.len(),
        grammar_run(s, p, ScanState::InToken(start, ctx), done) == grammar_run(
            s,
            token_end(s, p),
            ScanState::InToken(start, ctx),
            done,
        ),
    decreases s.len() - p,
{
    if p < s.len() && token_byte_at(s, p) {
        lemma_run_token(s, p + 1, start, ctx, done);
    }
}

/// Parses a whole script source. The result is `Ok` exactly when the
/// text conforms to the grammar and every numeric and register token
/// is in range; the script then carries the given name and one
/// statement per `;`-terminated clause, in source order, each holding
/// the clause's leading identifier verbatim as its operation and one
/// typed parameter per parameter token. The symbol table plays no
/// part here: identifier resolution is deferred to projection, so
/// unknown names never fail a parse. The first fault in source order
/// aborts the parse: a shape fault as a grammar diagnostic, an
/// out-of-range number or register as a source error at the line and
/// column its token starts. Reading the source from disk is the
/// caller's business, as is the load fault.
pub fn parse(source: &str, name: &str) -> (r: Result<Script, Error>)
    ensures
        source.spec_bytes().len() < usize::MAX ==> ((r is Ok) == (spec_parse(
            source.spec_bytes(),
        ) matches SpecOutcome::Clauses(_))),
        match r {
            Ok(script) => {
                &&& script.name@ == name@
                &&& script.statements@.len() == statement_clause_count(source.spec_bytes())
                &&& (spec_parse(source.spec_bytes()) matches SpecOutcome::Clauses(cs)
                    && statements_match(script.statements@, cs))
            },
            Err(e) => match e {
                Error::GrammarError(_) => source.spec_bytes().len() == usize::MAX || spec_parse(
                    source.spec_bytes(),
                ) is GrammarFault,
                Error::SourceError(se) => spec_parse(
                    source.spec_bytes(),
                ) matches SpecOutcome::ValueFault(t, q) && {
                    &&& se.location.0 == line_at(source.spec_bytes(), q)
                    &&& se.location.1 == col_at(source.spec_bytes(), q)
                    &&& wf_param_token(t)
                    &&& !token_value_ok(t)
                    &&& (is_number_token(t) ==> se.description@ == "Invalid parameter number."@)
                    &&& (reg_token(t) ==> se.description@ == "Invalid register."@)
                    &&& (str_reg_token(t) ==> se.description@ == "Invalid string register."@)
                    &&& (pos_reg_token(t) ==> se.description@ == "Invalid position register."@)
                },
                Error::LoadError => false,
            },
        },
{
    let bytes: Vec<u8> = source.as_bytes_vec();
    parse_tokens(bytes, name)
}

/// The grammar engine and AST builder proper, on the raw bytes of
/// the source text.
#[verifier::loop_isolation(false)]
pub fn parse_tokens(bytes: Vec<u8>, name: &str) -> (r: Result<Script, Error>)
    ensures
        bytes@.len() < usize::MAX ==> ((r is Ok) == (spec_parse(
            bytes@,
        ) matches SpecOutcome::Clauses(_))),
        match r {
            Ok(script) => {
                &&& script.name@ == name@
                &&& script.statements@.len() == statement_clause_count(bytes@)
                &&& (spec_parse(bytes@) matches SpecOutcome::Clauses(cs) && statements_match(
                    script.statements@,
                    cs,
                ))
            },
            Err(e) => match e {
                Error::GrammarError(_) => bytes@.len() == usize::MAX || spec_parse(
                    bytes@,
                ) is GrammarFault,
                Error::SourceError(se) => spec_parse(bytes@) matches SpecOutcome::ValueFault(
                    t,
                    q,
                ) && {
                    &&& se.location.0 == line_at(bytes@, q)
                    &&& se.location.1 == col_at(bytes@, q)
                    &&& wf_param_token(t)
                    &&& !token_value_ok(t)
                    &&& (is_number_token(t) ==> se.description@ == "Invalid parameter number."@)
                    &&& (reg_token(t) ==> se.description@ == "Invalid register."@)
                    &&& (str_reg_token(t) ==> se.description@ == "Invalid string register."@)
                    &&& (pos_reg_token(t) ==> se.description@ == "Invalid position register."@)
                },
                Error::LoadError => false,
            },
        },
{
    if bytes.len() == usize::MAX {
        // One spare byte of address space keeps the position
        // arithmetic of the cursor in bounds; a text this large
        // cannot be held in memory beside its own token anyway.
        return Err(Error::GrammarError(String::from_str("source text too large")));
    }
    let ghost s: Seq<u8> = bytes@;
    let ghost goal: SpecOutcome = spec_parse(s);
    let mut inner = ParserInner::new(bytes);
    let mut script = Script::new(name);
    let ghost mut done: Seq<SpecClause> = Seq::empty();
    loop
        invariant
            inner.wf(),
            inner.src@ == s,
            script.name@ == name@,
            goal == grammar_run(s, inner.pos as int, ScanState::Trivia(ClauseCtx::Operation), done),
            statements_match(script.statements@, done),
            script.statements@.len() + semis_from(s, inner.pos as int, false)
                == statement_clause_count(s),
        decreases s.len() - inner.pos,
    {
        let ghost p0: int = inner.pos as int;
        match inner.skip_trivia() {
            Err(e) => {
                proof {
                    lemma_run_skips_trivia(s, p0, false, ClauseCtx::Operation, done);
                }
                return Err(e);
            },
            Ok(()) => {},
        }
        proof {
            lemma_run_skips_trivia(s, p0, false, ClauseCtx::Operation, done);
        }
        if inner.pos == inner.src.len() {
            return Ok(script);
        }
        let line: usize = inner.line;
        let col: usize = inner.col;
        let b: u8 = inner.src[inner.pos];
        if b == 59 {
            return Err(
                Error::GrammarError(positioned_message("statement without an operation", line, col)),
            );
        }
        let ghost q0: int = inner.pos as int;
        let tok: Vec<u8> = inner.read_token();
        proof {
            assert(grammar_run(s, q0, ScanState::Trivia(ClauseCtx::Operation), done)
                == grammar_run(s, q0 + 1, ScanState::InToken(q0, ClauseCtx::Operation), done));
            lemma_run_token(s, q0 + 1, q0, ClauseCtx::Operation, done);
            assert(tok@.subrange(0, tok@.len() as int) =~= tok@);
        }
        if !check_ident(&tok, 0) {
            return Err(
                Error::GrammarError(positioned_message("malformed operation name", line, col)),
            );
        }
        let op: String = ident_rest(&tok, 0);
        let ghost mut cur: SpecClause = SpecClause { op: tok@, params: Seq::empty() };
        let ghost pstart: int = inner.pos as int;
        let ghost count0: int = script.statements@.len() as int;
        let mut params: Vec<StatementParameter> = Vec::new();
        loop
            invariant
                inner.wf(),
                inner.src@ == s,
                inner.pos as int >= pstart,
                script.statements@.len() == count0,
                goal == grammar_run(
                    s,
                    inner.pos as int,
                    ScanState::Trivia(ClauseCtx::Parameters(cur)),
                    done,
                ),
                cur.op == tok@,
                params@.len() == cur.params.len(),
                forall|j: int|
                    0 <= j < cur.params.len() ==> token_param(cur.params[j], #[trigger] params@[j]),
                semis_from(s, inner.pos as int, false) == semis_from(s, pstart, false),
            decreases s.len() - inner.pos,
        {
            let ghost p1: int = inner.pos as int;
            match inner.skip_trivia() {
                Err(e) => {
                    proof {
                        lemma_run_skips_trivia(s, p1, false, ClauseCtx::Parameters(cur), done);
                    }
                    return Err(e);
                },
                Ok(()) => {},
            }
            proof {
                lemma_run_skips_trivia(s, p1, false, ClauseCtx::Parameters(cur), done);
            }
            if inner.pos == inner.src.len() {
                return Err(
                    Error::GrammarError(
                        positioned_message("unterminated statement", inner.line, inner.col),
                    ),
                );
            }
            let b: u8 = inner.src[inner.pos];
            if b == 59 {
                proof {
                    assert(semis_from(s, inner.pos as int, false) == 1 + semis_from(
                        s,
                        inner.pos + 1,
                        false,
                    ));
                    assert(grammar_run(
                        s,
                        inner.pos as int,
                        ScanState::Trivia(ClauseCtx::Parameters(cur)),
                        done,
                    ) == grammar_run(
                        s,
                        inner.pos + 1,
                        ScanState::Trivia(ClauseCtx::Operation),
                        done.push(cur),
                    ));
                }
                inner.advance();
                break ;
            }
            let pline: usize = inner.line;
            let pcol: usize = inner.col;
            let ghost q1: int = inner.pos as int;
            let tok: Vec<u8> = inner.read_token();
            proof {
                assert(grammar_run(s, q1, ScanState::Trivia(ClauseCtx::Parameters(cur)), done)
                    == grammar_run(
                    s,
                    q1 + 1,
                    ScanState::InToken(q1, ClauseCtx::Parameters(cur)),
                    done,
                ));
                lemma_run_token(s, q1 + 1, q1, ClauseCtx::Parameters(cur), done);
            }
            match classify_parameter(&tok, pline, pcol) {
                Ok(p) => {
                    proof {
                        cur = SpecClause { op: cur.op, params: cur.params.push(tok@) };
                    }
                    params.push(p);
                },
                Err(e) => {
                    return Err(e);
                },
            }
        }
        proof {
            done = done.push(cur);
            assert(statements_match(
                script.statements@.push(Statement { operation: op, parameters: params }),
                done,
            ));
        }
        script.push_statement(Statement::new(op, params));
    }
}

} // verus!
