//! The recursive-descent parser: tokens to a syntax tree.

use std::rc::Rc;
use vstd::prelude::*;
use vstd::string::StringExecFns;
use crate::ast::{AstNode, AstNodeType, children_of, leaf_node, AstV, KindV, ast_view, ast_views, leaf, lemma_views_push, names_view};
use crate::interpreter::single_char;
use crate::lexer::{TokenType, TokenV, tokens_view};

verus! {

/// How deeply constructs may nest before parsing gives up.
pub const MAX_NESTING: u64 = 256;

/// Why a token sequence is not a program.
#[derive(Debug, Clone, PartialEq)]
pub enum SyntaxError {
    /// A token that cannot start an expression.
    Unexpected(TokenType),
    Expected { expected: TokenType, found: TokenType },
    /// A definition without a function name.
    ExpectedName(TokenType),
    /// A loop statement, which the grammar does not cover.
    UnsupportedStatement(TokenType),
    NestingTooDeep,
    /// A statement that consumed no token.
    NoProgress,
}

pub enum SyntaxErrorV {
    Unexpected(TokenV),
    Expected { expected: TokenV, found: TokenV },
    ExpectedName(TokenV),
    UnsupportedStatement(TokenV),
    NestingTooDeep,
    NoProgress,
}

impl View for SyntaxError {
    type V = SyntaxErrorV;

    open spec fn view(&self) -> SyntaxErrorV {
        match self {
            SyntaxError::Unexpected(t) => SyntaxErrorV::Unexpected(t@),
            SyntaxError::Expected { expected, found } => SyntaxErrorV::Expected {
                expected: expected@,
                found: found@,
            },
            SyntaxError::ExpectedName(t) => SyntaxErrorV::ExpectedName(t@),
            SyntaxError::UnsupportedStatement(t) => SyntaxErrorV::UnsupportedStatement(t@),
            SyntaxError::NestingTooDeep => SyntaxErrorV::NestingTooDeep,
            SyntaxError::NoProgress => SyntaxErrorV::NoProgress,
        }
    }
}

pub type PResult = Result<(AstV, int), SyntaxErrorV>;

/// The token at `p`, or `EOF` past the end.
pub open spec fn cur(t: Seq<TokenV>, p: int) -> TokenV {
    if 0 <= p < t.len() {
        t[p]
    } else {
        TokenV::EOF
    }
}

pub open spec fn adv(t: Seq<TokenV>, p: int) -> int {
    if p < t.len() {
        p + 1
    } else {
        p
    }
}

pub open spec fn op_tok(s: Seq<char>) -> TokenV {
    TokenV::Operator(s)
}

/// Consumes the token `tok` at `p`.
pub open spec fn expect(t: Seq<TokenV>, p: int, tok: TokenV) -> Result<int, SyntaxErrorV> {
    if cur(t, p) == tok {
        Ok(adv(t, p))
    } else {
        Err(SyntaxErrorV::Expected { expected: tok, found: cur(t, p) })
    }
}

/// An operator of the additive level: `+`, `-`, or the alternate equality symbol.
pub open spec fn additive_op(tok: TokenV) -> Option<Seq<char>> {
    match tok {
        TokenV::Operator(s) => if s == seq!['+'] || s == seq!['-'] {
            Some(s)
        } else {
            None
        },
        TokenV::Symbol(s) => if s == seq!['\u{2661}'] {
            Some(s)
        } else {
            None
        },
        _ => None,
    }
}

pub open spec fn starts_if(tok: TokenV) -> bool {
    tok == TokenV::Keyword("if"@)
}

pub open spec fn starts_def(tok: TokenV) -> bool {
    tok == TokenV::Keyword("def"@) || tok == TokenV::Symbol("\u{FDFD}"@)
}

pub open spec fn starts_loop(tok: TokenV) -> bool {
    tok == TokenV::Keyword("for"@) || tok == TokenV::Keyword("while"@) || tok == TokenV::Symbol(
        "\u{1F4FF}"@,
    )
}

/// Statements from `p` until `Dedent` (in a block) or `EOF` (at top level).
pub open spec fn parse_stmts(t: Seq<TokenV>, p: int, f: nat, block: bool, acc: Seq<AstV>) -> Result<
    (Seq<AstV>, int),
    SyntaxErrorV,
>
    decreases f, t.len() - p,
{
    if (block && cur(t, p) == TokenV::Dedent) || (!block && cur(t, p) == TokenV::EOF) {
        Ok((acc, p))
    } else if f == 0 {
        Err(SyntaxErrorV::NestingTooDeep)
    } else {
        match parse_statement(t, p, (f - 1) as nat) {
            Err(e) => Err(e),
            Ok((s, p2)) => if p < p2 <= t.len() {
                parse_stmts(t, p2, f, block, acc.push(s))
            } else {
                Err(SyntaxErrorV::NoProgress)
            },
        }
    }
}

pub open spec fn parse_statement(t: Seq<TokenV>, p: int, f: nat) -> PResult
    decreases f, t.len() - p,
{
    if f == 0 {
        Err(SyntaxErrorV::NestingTooDeep)
    } else if starts_if(cur(t, p)) {
        parse_if(t, p, (f - 1) as nat)
    } else if starts_def(cur(t, p)) {
        parse_def(t, p, (f - 1) as nat)
    } else if starts_loop(cur(t, p)) {
        Err(SyntaxErrorV::UnsupportedStatement(cur(t, p)))
    } else {
        match parse_expression(t, p, (f - 1) as nat) {
            Err(e) => Err(e),
            Ok((e, p1)) => if cur(t, p1) == TokenV::Newline {
                Ok((e, adv(t, p1)))
            } else {
                Ok((e, p1))
            },
        }
    }
}

/// `: Newline Indent Block Dedent`, from `p`.
pub open spec fn parse_suite(t: Seq<TokenV>, p: int, f: nat) -> PResult
    decreases f, t.len() - p,
{
    if f == 0 {
        Err(SyntaxErrorV::NestingTooDeep)
    } else {
        match expect(t, p, op_tok(seq![':'])) {
            Err(e) => Err(e),
            Ok(p1) => match expect(t, p1, TokenV::Newline) {
                Err(e) => Err(e),
                Ok(p2) => match expect(t, p2, TokenV::Indent) {
                    Err(e) => Err(e),
                    Ok(p3) => match parse_stmts(t, p3, (f - 1) as nat, true, seq![]) {
                        Err(e) => Err(e),
                        Ok((body, p4)) => match expect(t, p4, TokenV::Dedent) {
                            Err(e) => Err(e),
                            Ok(p5) => Ok((AstV { kind: KindV::Block, children: body }, p5)),
                        },
                    },
                },
            },
        }
    }
}

pub open spec fn parse_if(t: Seq<TokenV>, p: int, f: nat) -> PResult
    decreases f, t.len() - p,
{
    if f == 0 {
        Err(SyntaxErrorV::NestingTooDeep)
    } else {
        match parse_expression(t, adv(t, p), (f - 1) as nat) {
            Err(e) => Err(e),
            Ok((c, p1)) => match parse_suite(t, p1, (f - 1) as nat) {
                Err(e) => Err(e),
                Ok((then_b, p2)) => if cur(t, p2) == TokenV::Keyword("else"@) {
                    match parse_suite(t, adv(t, p2), (f - 1) as nat) {
                        Err(e) => Err(e),
                        Ok((else_b, p3)) => Ok(
                            (AstV { kind: KindV::IfStatement, children: seq![c, then_b, else_b] }, p3),
                        ),
                    }
                } else {
                    Ok((AstV { kind: KindV::IfStatement, children: seq![c, then_b] }, p2))
                },
            },
        }
    }
}

/// Parameter names separated by commas, from `p`.
pub open spec fn parse_params(t: Seq<TokenV>, p: int, acc: Seq<Seq<char>>) -> (Seq<Seq<char>>, int)
    decreases t.len() - p,
{
    match cur(t, p) {
        TokenV::Identifier(s) => if p < 0 {
            (acc, p)
        } else if cur(t, p + 1) == op_tok(seq![',']) {
            parse_params(t, p + 2, acc.push(s))
        } else {
            (acc.push(s), p + 1)
        },
        _ => (acc, p),
    }
}

pub open spec fn parse_def(t: Seq<TokenV>, p: int, f: nat) -> PResult
    decreases f, t.len() - p,
{
    if f == 0 {
        Err(SyntaxErrorV::NestingTooDeep)
    } else {
        let p1 = adv(t, p);
        let name = match cur(t, p1) {
            TokenV::Identifier(s) => Some(s),
            TokenV::Symbol(s) => Some(s),
            _ => None,
        };
        match name {
            None => Err(SyntaxErrorV::ExpectedName(cur(t, p1))),
            Some(name) => match expect(t, adv(t, p1), op_tok(seq!['('])) {
                Err(e) => Err(e),
                Ok(p2) => {
                    let (params, p3) = parse_params(t, p2, seq![]);
                    match expect(t, p3, op_tok(seq![')'])) {
                        Err(e) => Err(e),
                        Ok(p4) => match parse_suite(t, p4, (f - 1) as nat) {
                            Err(e) => Err(e),
                            Ok((body, p5)) => Ok(
                                (AstV { kind: KindV::FunctionDef(name, params), children: seq![body] }, p5),
                            ),
                        },
                    }
                },
            },
        }
    }
}

pub open spec fn parse_expression(t: Seq<TokenV>, p: int, f: nat) -> PResult
    decreases f, t.len() - p,
{
    if f == 0 {
        Err(SyntaxErrorV::NestingTooDeep)
    } else {
        match parse_factor(t, p, (f - 1) as nat) {
            Err(e) => Err(e),
            Ok((l, p1)) => parse_term_rest(t, p1, (f - 1) as nat, l),
        }
    }
}

/// Left-associative chaining of additive operators after `left`.
pub open spec fn parse_term_rest(t: Seq<TokenV>, p: int, f: nat, left: AstV) -> PResult
    decreases f, t.len() - p,
{
    match additive_op(cur(t, p)) {
        None => Ok((left, p)),
        Some(op) => if f == 0 {
            Err(SyntaxErrorV::NestingTooDeep)
        } else {
            match parse_factor(t, adv(t, p), (f - 1) as nat) {
                Err(e) => Err(e),
                Ok((r, p2)) => if p < p2 <= t.len() {
                    parse_term_rest(
                        t,
                        p2,
                        f,
                        AstV { kind: KindV::BinaryOp(op), children: seq![left, r] },
                    )
                } else {
                    Err(SyntaxErrorV::NoProgress)
                },
            }
        },
    }
}

/// A token that can begin a factor: a literal, an identifier, or `(`.
pub open spec fn starts_factor(tok: TokenV) -> bool {
    tok is Number || tok is Identifier || tok is Str || tok == op_tok(seq!['('])
}

pub open spec fn parse_factor(t: Seq<TokenV>, p: int, f: nat) -> PResult
    decreases f, t.len() - p,
{
    match cur(t, p) {
        TokenV::Number(n) => Ok((leaf(KindV::Number(n)), adv(t, p))),
        TokenV::Identifier(s) => Ok((leaf(KindV::Identifier(s)), adv(t, p))),
        TokenV::Str(s) => Ok((leaf(KindV::Str(s)), adv(t, p))),
        TokenV::Operator(s) => if s == seq!['('] {
            if f == 0 {
                Err(SyntaxErrorV::NestingTooDeep)
            } else {
                match parse_expression(t, adv(t, p), (f - 1) as nat) {
                    Err(e) => Err(e),
                    Ok((e, p1)) => match expect(t, p1, op_tok(seq![')'])) {
                        Err(err) => Err(err),
                        Ok(p2) => Ok((e, p2)),
                    },
                }
            }
        } else {
            Err(SyntaxErrorV::Unexpected(cur(t, p)))
        },
        _ => Err(SyntaxErrorV::Unexpected(cur(t, p))),
    }
}

/// The program that the tokens `t` spell.
pub open spec fn parse_program(t: Seq<TokenV>) -> Result<AstV, SyntaxErrorV> {
    match parse_stmts(t, 0, MAX_NESTING as nat, false, seq![]) {
        Ok((stmts, _)) => Ok(AstV { kind: KindV::Program, children: stmts }),
        Err(e) => Err(e),
    }
}

pub open spec fn outcome(r: Result<AstNode, SyntaxError>, pos: usize, s: PResult) -> bool {
    match s {
        Ok((v, p)) => r is Ok && r->Ok_0@ == v && pos == p,
        Err(e) => r is Err && r->Err_0@ == e,
    }
}

impl TokenType {
    /// A copy with the same model.
    pub fn duplicate(&self) -> (r: TokenType)
        ensures
            r@ == self@,
    {
        match self {
            TokenType::Identifier(s) => TokenType::Identifier(s.clone()),
            TokenType::Number(n) => TokenType::Number(*n),
            TokenType::String(s) => TokenType::String(s.clone()),
            TokenType::Operator(s) => TokenType::Operator(s.clone()),
            TokenType::Keyword(s) => TokenType::Keyword(s.clone()),
            TokenType::Symbol(s) => TokenType::Symbol(s.clone()),
            TokenType::Newline => TokenType::Newline,
            TokenType::Indent => TokenType::Indent,
            TokenType::Dedent => TokenType::Dedent,
            TokenType::EOF => TokenType::EOF,
        }
    }

    /// Whether two tokens have the same model.
    pub fn same(&self, other: &TokenType) -> (r: bool)
        ensures
            r == (self@ == other@),
    {
        match (self, other) {
            (TokenType::Identifier(a), TokenType::Identifier(b)) => *a == *b,
            (TokenType::Number(a), TokenType::Number(b)) => a.num == b.num && a.den == b.den,
            (TokenType::String(a), TokenType::String(b)) => *a == *b,
            (TokenType::Operator(a), TokenType::Operator(b)) => *a == *b,
            (TokenType::Keyword(a), TokenType::Keyword(b)) => *a == *b,
            (TokenType::Symbol(a), TokenType::Symbol(b)) => *a == *b,
            (TokenType::Newline, TokenType::Newline) => true,
            (TokenType::Indent, TokenType::Indent) => true,
            (TokenType::Dedent, TokenType::Dedent) => true,
            (TokenType::EOF, TokenType::EOF) => true,
            _ => false,
        }
    }
}

/// The operator text when `t` is an additive operator.
fn additive(t: &TokenType) -> (r: Option<String>)
    ensures
        match additive_op(t@) {
            Some(s) => r is Some && r->Some_0@ == s,
            None => r is None,
        },
{
    match t {
        TokenType::Operator(s) => {
            let c = single_char(s);
            proof {
                if c is Some {
                    assert(s@ =~= seq![c->Some_0]);
                }
            }
            if c == Some('+') || c == Some('-') {
                Some(s.clone())
            } else {
                None
            }
        },
        TokenType::Symbol(s) => {
            let c = single_char(s);
            proof {
                if c is Some {
                    assert(s@ =~= seq![c->Some_0]);
                }
            }
            if c == Some('\u{2661}') {
                Some(s.clone())
            } else {
                None
            }
        },
        _ => None,
    }
}

fn operator_token(text: &str) -> (r: TokenType)
    ensures
        r@ == TokenV::Operator(text@),
{
    TokenType::Operator(String::from_str(text))
}

/// Parses a token sequence into a program.
pub struct Parser {
    pub tokens: Vec<TokenType>,
    pub position: usize,
}

impl Parser {
    pub open spec fn toks(&self) -> Seq<TokenV> {
        tokens_view(self.tokens@)
    }

    pub open spec fn wf(&self) -> bool {
        self.position <= self.tokens@.len()
    }

    pub fn new(tokens: Vec<TokenType>) -> (r: Parser)
        ensures
            r.tokens == tokens,
            r.position == 0,
    {
        Parser { tokens, position: 0 }
    }

    /// Parses the whole token sequence into a `Program` node.
    pub fn parse(&mut self) -> (r: Result<AstNode, SyntaxError>)
        requires
            old(self).position == 0,
        ensures
            final(self).tokens == old(self).tokens,
            match parse_program(old(self).toks()) {
                Ok(v) => r is Ok && r->Ok_0@ == v,
                Err(e) => r is Err && r->Err_0@ == e,
            },
    {
        let stmts = self.parse_statements(MAX_NESTING, false)?;
        Ok(AstNode::new(AstNodeType::Program, stmts))
    }

    fn current_token(&self) -> (r: TokenType)
        ensures
            r@ == cur(self.toks(), self.position as int),
    {
        if self.position < self.tokens.len() {
            self.tokens[self.position].duplicate()
        } else {
            TokenType::EOF
        }
    }

    fn advance(&mut self)
        requires
            old(self).wf(),
        ensures
            final(self).tokens == old(self).tokens,
            final(self).position == adv(old(self).toks(), old(self).position as int),
            final(self).wf(),
    {
        if self.position < self.tokens.len() {
            self.position += 1;
        }
    }

    fn expect(&mut self, expected: TokenType) -> (r: Result<(), SyntaxError>)
        requires
            old(self).wf(),
        ensures
            final(self).tokens == old(self).tokens,
            final(self).wf(),
            match expect(old(self).toks(), old(self).position as int, expected@) {
                Ok(p) => r is Ok && final(self).position == p,
                Err(e) => r is Err && r->Err_0@ == e,
            },
            r is Err ==> final(self).position == old(self).position,
    {
        let c = self.current_token();
        if expected.same(&c) {
            self.advance();
            Ok(())
        } else {
            Err(SyntaxError::Expected { expected, found: c })
        }
    }

    fn parse_statements(&mut self, f: u64, block: bool) -> (r: Result<Vec<AstNode>, SyntaxError>)
        requires
            old(self).wf(),
        ensures
            final(self).tokens == old(self).tokens,
            final(self).wf(),
            match parse_stmts(old(self).toks(), old(self).position as int, f as nat, block, seq![]) {
                Ok((v, p)) => r is Ok && ast_views(r->Ok_0@) == v && final(self).position == p,
                Err(e) => r is Err && r->Err_0@ == e,
            },
        decreases f, old(self).tokens@.len() - old(self).position, 1nat,
    {
        let ghost t = self.toks();
        let ghost p0 = self.position as int;
        let mut out: Vec<AstNode> = Vec::new();
        let stop = if block {
            TokenType::Dedent
        } else {
            TokenType::EOF
        };
        loop
            invariant
                self.wf(),
                self.tokens == old(self).tokens,
                t == self.toks(),
                t == old(self).toks(),
                p0 == old(self).position as int,
                stop@ == (if block {
                    TokenV::Dedent
                } else {
                    TokenV::EOF
                }),
                parse_stmts(t, self.position as int, f as nat, block, ast_views(out@)) == parse_stmts(
                    t,
                    p0,
                    f as nat,
                    block,
                    seq![],
                ),
            decreases self.tokens@.len() - self.position,
        {
            if self.current_token().same(&stop) {
                return Ok(out);
            }
            if f == 0 {
                return Err(SyntaxError::NestingTooDeep);
            }
            let before = self.position;
            let s = self.parse_statement(f - 1)?;
            if !(before < self.position && self.position <= self.tokens.len()) {
                return Err(SyntaxError::NoProgress);
            }
            proof {
                lemma_views_push(out@, s);
            }
            out.push(s);
        }
    }

    fn parse_statement(&mut self, f: u64) -> (r: Result<AstNode, SyntaxError>)
        requires
            old(self).wf(),
        ensures
            final(self).tokens == old(self).tokens,
            final(self).wf(),
            outcome(r, final(self).position, parse_statement(old(self).toks(), old(self).position as int, f as nat)),
        decreases f, old(self).tokens@.len() - old(self).position, 0nat,
    {
        if f == 0 {
            return Err(SyntaxError::NestingTooDeep);
        }
        let c = self.current_token();
        if c.same(&TokenType::Keyword(String::from_str("if"))) {
            self.parse_if(f - 1)
        } else if c.same(&TokenType::Keyword(String::from_str("def"))) || c.same(
            &TokenType::Symbol(String::from_str("\u{FDFD}")),
        ) {
            self.parse_function_def(f - 1)
        } else if c.same(&TokenType::Keyword(String::from_str("for"))) || c.same(
            &TokenType::Keyword(String::from_str("while")),
        ) || c.same(&TokenType::Symbol(String::from_str("\u{1F4FF}"))) {
            Err(SyntaxError::UnsupportedStatement(c))
        } else {
            let e = self.parse_expression(f - 1)?;
            if self.current_token().same(&TokenType::Newline) {
                self.advance();
            }
            Ok(e)
        }
    }

    fn parse_suite(&mut self, f: u64) -> (r: Result<AstNode, SyntaxError>)
        requires
            old(self).wf(),
        ensures
            final(self).tokens == old(self).tokens,
            final(self).wf(),
            outcome(r, final(self).position, parse_suite(old(self).toks(), old(self).position as int, f as nat)),
        decreases f, old(self).tokens@.len() - old(self).position, 0nat,
    {
        if f == 0 {
            return Err(SyntaxError::NestingTooDeep);
        }
        proof {
            reveal_strlit(":");
            assert(":"@ =~= seq![':']);
        }
        self.expect(operator_token(":"))?;
        self.expect(TokenType::Newline)?;
        self.expect(TokenType::Indent)?;
        let body = self.parse_statements(f - 1, true)?;
        self.expect(TokenType::Dedent)?;
        Ok(AstNode::new(AstNodeType::Block, body))
    }

    fn parse_if(&mut self, f: u64) -> (r: Result<AstNode, SyntaxError>)
        requires
            old(self).wf(),
        ensures
            final(self).tokens == old(self).tokens,
            final(self).wf(),
            outcome(r, final(self).position, parse_if(old(self).toks(), old(self).position as int, f as nat)),
        decreases f, old(self).tokens@.len() - old(self).position, 0nat,
    {
        if f == 0 {
            return Err(SyntaxError::NestingTooDeep);
        }
        self.advance();
        let cond = self.parse_expression(f - 1)?;
        let then_b = self.parse_suite(f - 1)?;
        if self.current_token().same(&TokenType::Keyword(String::from_str("else"))) {
            self.advance();
            let else_b = self.parse_suite(f - 1)?;
            Ok(AstNode::new(AstNodeType::IfStatement, children_of(cond, Some(then_b), Some(else_b))))
        } else {
            Ok(AstNode::new(AstNodeType::IfStatement, children_of(cond, Some(then_b), None)))
        }
    }

    fn parse_parameters(&mut self) -> (r: Vec<String>)
        requires
            old(self).wf(),
        ensures
            final(self).tokens == old(self).tokens,
            final(self).wf(),
            names_view(r@) == parse_params(old(self).toks(), old(self).position as int, seq![]).0,
            final(self).position == parse_params(old(self).toks(), old(self).position as int, seq![]).1,
    {
        let ghost t = self.toks();
        let ghost p0 = self.position as int;
        let mut params: Vec<String> = Vec::new();
        assert(names_view(params@) =~= seq![]);
        loop
            invariant
                self.wf(),
                self.tokens == old(self).tokens,
                t == self.toks(),
                p0 == old(self).position,
                t == old(self).toks(),
                parse_params(t, self.position as int, names_view(params@)) == parse_params(t, p0, seq![]),
            decreases self.tokens@.len() - self.position,
        {
            let c = self.current_token();
            proof {
                reveal_strlit(",");
            assert(","@ =~= seq![',']);
            }
            match c {
                TokenType::Identifier(s) => {
                    let ghost before = params@;
                    params.push(s);
                    assert(names_view(params@) =~= names_view(before).push(s@));
                    self.advance();
                    if self.current_token().same(&operator_token(",")) {
                        proof {
                            reveal_strlit(",");
            assert(","@ =~= seq![',']);
                        }
                        self.advance();
                    } else {
                        proof {
                            reveal_strlit(",");
            assert(","@ =~= seq![',']);
                        }
                        return params;
                    }
                },
                _ => {
                    return params;
                },
            }
        }
    }

    fn parse_function_def(&mut self, f: u64) -> (r: Result<AstNode, SyntaxError>)
        requires
            old(self).wf(),
        ensures
            final(self).tokens == old(self).tokens,
            final(self).wf(),
            outcome(r, final(self).position, parse_def(old(self).toks(), old(self).position as int, f as nat)),
        decreases f, old(self).tokens@.len() - old(self).position, 0nat,
    {
        if f == 0 {
            return Err(SyntaxError::NestingTooDeep);
        }
        self.advance();
        let name = match self.current_token() {
            TokenType::Identifier(s) => s,
            TokenType::Symbol(s) => s,
            other => {
                return Err(SyntaxError::ExpectedName(other));
            },
        };
        self.advance();
        proof {
            reveal_strlit("(");
            assert("("@ =~= seq!['(']);
            reveal_strlit(")");
            assert(")"@ =~= seq![')']);
        }
        self.expect(operator_token("("))?;
        let params = self.parse_parameters();
        self.expect(operator_token(")"))?;
        let body = self.parse_suite(f - 1)?;
        Ok(leaf_node(AstNodeType::FunctionDef(name, params, Rc::new(body))))
    }

    fn parse_expression(&mut self, f: u64) -> (r: Result<AstNode, SyntaxError>)
        requires
            old(self).wf(),
        ensures
            final(self).tokens == old(self).tokens,
            final(self).wf(),
            outcome(r, final(self).position, parse_expression(old(self).toks(), old(self).position as int, f as nat)),
        decreases f, old(self).tokens@.len() - old(self).position, 0nat,
    {
        if f == 0 {
            return Err(SyntaxError::NestingTooDeep);
        }
        let ghost t = self.toks();
        let mut node = self.parse_factor(f - 1)?;
        let ghost p1 = self.position as int;
        let ghost l = node@;
        loop
            invariant
                self.wf(),
                self.tokens == old(self).tokens,
                t == self.toks(),
                t == old(self).toks(),
                f > 0,
                parse_expression(t, old(self).position as int, f as nat) == parse_term_rest(
                    t,
                    p1,
                    (f - 1) as nat,
                    l,
                ),
                parse_term_rest(t, self.position as int, (f - 1) as nat, node@) == parse_term_rest(
                    t,
                    p1,
                    (f - 1) as nat,
                    l,
                ),
            decreases self.tokens@.len() - self.position,
        {
            let op = match additive(&self.current_token()) {
                Some(op) => op,
                None => {
                    return Ok(node);
                },
            };
            if f - 1 == 0 {
                return Err(SyntaxError::NestingTooDeep);
            }
            let before = self.position;
            let ghost node_v = node@;
            assert(additive_op(cur(t, before as int)) == Some(op@));
            self.advance();
            let right = self.parse_factor(f - 2)?;
            if !(before < self.position && self.position <= self.tokens.len()) {
                return Err(SyntaxError::NoProgress);
            }
            let ghost rv = right@;
            let ghost op_v = op@;
            node = AstNode::new(AstNodeType::BinaryOp(op), children_of(node, Some(right), None));
            assert(node@ == AstV { kind: KindV::BinaryOp(op_v), children: seq![node_v, rv] });
        }
    }

    fn parse_factor(&mut self, f: u64) -> (r: Result<AstNode, SyntaxError>)
        requires
            old(self).wf(),
        ensures
            final(self).tokens == old(self).tokens,
            final(self).wf(),
            outcome(r, final(self).position, parse_factor(old(self).toks(), old(self).position as int, f as nat)),
            !starts_factor(cur(old(self).toks(), old(self).position as int)) ==> final(self).position
                == old(self).position,
        decreases f, old(self).tokens@.len() - old(self).position, 0nat,
    {
        let c = self.current_token();
        match c {
            TokenType::Number(n) => {
                self.advance();
                Ok(leaf_node(AstNodeType::Number(n)))
            },
            TokenType::Identifier(s) => {
                self.advance();
                Ok(leaf_node(AstNodeType::Identifier(s)))
            },
            TokenType::String(s) => {
                self.advance();
                Ok(leaf_node(AstNodeType::String(s)))
            },
            TokenType::Operator(s) => {
                let open = single_char(&s);
                proof {
                    if open is Some {
                        assert(s@ =~= seq![open->Some_0]);
                    }
                }
                if open == Some('(') {
                    if f == 0 {
                        return Err(SyntaxError::NestingTooDeep);
                    }
                    self.advance();
                    let e = self.parse_expression(f - 1)?;
                    proof {
                        reveal_strlit(")");
            assert(")"@ =~= seq![')']);
                    }
                    self.expect(operator_token(")"))?;
                    Ok(e)
                } else {
                    Err(SyntaxError::Unexpected(TokenType::Operator(s)))
                }
            },
            other => Err(SyntaxError::Unexpected(other)),
        }
    }
}

} // verus!
