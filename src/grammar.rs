//! The language's grammar as spec functions over a token sequence.
//!
//! Each function reads the tokens from a position and gives the outcome of
//! parsing there (a model of what was parsed and the position after it, or
//! the error that stopped it) together with the errors that recovery
//! recorded on the way. Expressions climb precedence tiers from loosest to
//! tightest: equality, additive, multiplicative, postfix call, atom; every
//! tier folds to the left.
use vstd::prelude::*;

use crate::ast::{BinaryOp, ExprModel, SignatureModel, Span, Spanned, Token, UnitModel, Value};

verus! {

/// What the parser was looking for when it met something else.
#[derive(Debug, Clone, PartialEq)]
pub enum Expected {
    Tok(Token),
    EitherTok(Token, Token),
    Identifier,
    Expression,
    Assign,
    Arrow,
    Unit,
    End,
}

#[derive(Debug, Clone, PartialEq)]
pub enum SyntaxReason {
    /// `found` is `None` at the end of input.
    Unexpected { found: Option<Token>, expected: Expected },
    /// The group opened by `opener` at `opener_span` is never closed;
    /// `found` stood where parsing inside it failed.
    Unclosed { opener: char, opener_span: Span, found: Option<Token> },
}

#[derive(Debug, Clone, PartialEq)]
pub struct SyntaxError {
    pub span: Span,
    pub reason: SyntaxReason,
}

/// Outcome of parsing an expression, with the errors recovery recorded.
pub type ExprParse = (Result<((ExprModel, Span), int), SyntaxError>, Seq<SyntaxError>);

/// Outcome of parsing a delimited list of expressions.
pub type ItemsParse = (Result<(Seq<(ExprModel, Span)>, int), SyntaxError>, Seq<SyntaxError>);

pub open spec fn tok_at(t: Seq<Spanned<Token>>, i: int) -> Option<Token> {
    if 0 <= i < t.len() {
        Some(t[i].0)
    } else {
        None
    }
}

/// The span of the token at `i`, or the empty span at the end of input.
pub open spec fn span_at(t: Seq<Spanned<Token>>, eoi: usize, i: int) -> Span {
    if 0 <= i < t.len() {
        t[i].1
    } else {
        Span { start: eoi, end: eoi }
    }
}

pub open spec fn is_ctrl(t: Seq<Spanned<Token>>, i: int, c: char) -> bool {
    tok_at(t, i) == Some(Token::Ctrl(c))
}

pub open spec fn is_op(t: Seq<Spanned<Token>>, i: int, s: Seq<char>) -> bool {
    &&& 0 <= i < t.len()
    &&& t[i].0 matches Token::Op(o) && o@ == s
}

pub open spec fn unexpected(t: Seq<Spanned<Token>>, eoi: usize, i: int, e: Expected) -> SyntaxError {
    SyntaxError {
        span: span_at(t, eoi, i),
        reason: SyntaxReason::Unexpected { found: tok_at(t, i), expected: e },
    }
}

/// The operator of precedence tier `level` at `i`: equality at 0, additive
/// at 1, multiplicative at 2.
pub open spec fn op_at(t: Seq<Spanned<Token>>, level: nat, i: int) -> Option<BinaryOp> {
    if level == 0 {
        if is_op(t, i, "=="@) {
            Some(BinaryOp::Eq)
        } else if is_op(t, i, "!="@) {
            Some(BinaryOp::NotEq)
        } else {
            None
        }
    } else if level == 1 {
        if is_op(t, i, "+"@) {
            Some(BinaryOp::Add)
        } else if is_op(t, i, "-"@) {
            Some(BinaryOp::Sub)
        } else {
            None
        }
    } else if level == 2 {
        if is_op(t, i, "*"@) {
            Some(BinaryOp::Mul)
        } else if is_op(t, i, "/"@) {
            Some(BinaryOp::Div)
        } else {
            None
        }
    } else {
        None
    }
}

/// Which of the three pairs `(`, `[`, `{` a token opens: 0, 1 or 2, or -1.
pub open spec fn open_kind(t: Token) -> int {
    match t {
        Token::Ctrl(c) => if c == '(' {
            0
        } else if c == '[' {
            1
        } else if c == '{' {
            2
        } else {
            -1
        },
        _ => -1,
    }
}

/// Which of the three pairs `)`, `]`, `}` a token closes: 0, 1 or 2, or -1.
pub open spec fn close_kind(t: Token) -> int {
    match t {
        Token::Ctrl(c) => if c == ')' {
            0
        } else if c == ']' {
            1
        } else if c == '}' {
            2
        } else {
            -1
        },
        _ => -1,
    }
}

pub open spec fn pick(k: int, n0: nat, n1: nat, n2: nat) -> nat {
    if k == 0 {
        n0
    } else if k == 1 {
        n1
    } else {
        n2
    }
}

/// Index of the token that closes the group opened at `start`, tracking the
/// nesting of all three delimiter pairs; `None` if the token at `start` does
/// not open a group closed by `close`, if a closer meets no opener of its
/// own pair inside the group, or if the group is never closed.
pub open spec fn matching_close(t: Seq<Spanned<Token>>, start: int, open: char, close: char) -> Option<int> {
    let own = open_kind(Token::Ctrl(open));
    if is_ctrl(t, start, open) && own >= 0 && close_kind(Token::Ctrl(close)) == own {
        scan_close(
            t,
            start + 1,
            own,
            if own == 0 { 1 } else { 0 },
            if own == 1 { 1 } else { 0 },
            if own == 2 { 1 } else { 0 },
        )
    } else {
        None
    }
}

/// Scans from `i` with `n0`, `n1`, `n2` groups of each pair open inside the
/// group of pair `own`.
pub open spec fn scan_close(t: Seq<Spanned<Token>>, i: int, own: int, n0: nat, n1: nat, n2: nat) -> Option<int>
    decreases t.len() - i,
{
    if i < 0 || i >= t.len() {
        None
    } else {
        let ko = open_kind(t[i].0);
        let kc = close_kind(t[i].0);
        if ko >= 0 {
            scan_close(
                t,
                i + 1,
                own,
                if ko == 0 { n0 + 1 } else { n0 },
                if ko == 1 { n1 + 1 } else { n1 },
                if ko == 2 { n2 + 1 } else { n2 },
            )
        } else if kc >= 0 {
            let n = pick(kc, n0, n1, n2);
            if n == 0 {
                None
            } else if kc == own && n == 1 {
                Some(i)
            } else {
                scan_close(
                    t,
                    i + 1,
                    own,
                    if kc == 0 { (n0 - 1) as nat } else { n0 },
                    if kc == 1 { (n1 - 1) as nat } else { n1 },
                    if kc == 2 { (n2 - 1) as nat } else { n2 },
                )
            }
        } else {
            scan_close(t, i + 1, own, n0, n1, n2)
        }
    }
}

/// The failure `x` inside the group opened at `pos`, reported as an unclosed
/// group when it was an unexpected token.
pub open spec fn unclosed(t: Seq<Spanned<Token>>, pos: int, open: char, x: SyntaxError) -> SyntaxError {
    match x.reason {
        SyntaxReason::Unexpected { found, .. } => if is_ctrl(t, pos, open) {
            SyntaxError { span: x.span, reason: SyntaxReason::Unclosed { opener: open, opener_span: t[pos].1, found } }
        } else {
            x
        },
        _ => x,
    }
}

/// A failed group attempt at `pos` becomes an `Error` node covering the whole
/// group when its closer can be found; the failure is then recorded. When
/// the group is never closed the failure stands, as an unclosed group.
pub open spec fn recover(
    t: Seq<Spanned<Token>>,
    pos: int,
    open: char,
    close: char,
    attempt: Result<((ExprModel, Span), int), SyntaxError>,
    es: Seq<SyntaxError>,
) -> ExprParse {
    match attempt {
        Ok(_) => (attempt, es),
        Err(x) => match matching_close(t, pos, open, close) {
            Some(c) => (
                Ok(((ExprModel::Error, Span { start: t[pos].1.start, end: t[c].1.end }), c + 1)),
                es.push(x),
            ),
            None => (Err(unclosed(t, pos, open, x)), es),
        },
    }
}

/// Precedence tier `level` (0 to 2 binary tiers, 3 the call tier) at `pos`.
pub open spec fn tier(t: Seq<Spanned<Token>>, eoi: usize, level: nat, pos: int) -> ExprParse
    decreases t.len() - pos, if level >= 3 { 3int } else { 6 - level },
{
    if level >= 3 {
        call_tier(t, eoi, pos)
    } else {
        let (r, es) = tier(t, eoi, level + 1, pos);
        match r {
            Err(x) => (Err(x), es),
            Ok((lhs, p)) => if pos <= p <= t.len() {
                let (r2, es2) = fold(t, eoi, level, lhs, p);
                (r2, es + es2)
            } else {
                (Ok((lhs, p)), es)
            },
        }
    }
}

/// Left fold of `op operand` pairs of tier `level` onto `acc`.
pub open spec fn fold(t: Seq<Spanned<Token>>, eoi: usize, level: nat, acc: (ExprModel, Span), pos: int) -> ExprParse
    decreases t.len() - pos, 0int,
{
    match op_at(t, level, pos) {
        None => (Ok((acc, pos)), Seq::empty()),
        Some(op) => {
            let (r, es) = tier(t, eoi, level + 1, pos + 1);
            match r {
                Err(x) => (Err(x), es),
                Ok((rhs, p)) => {
                    let node = (
                        ExprModel::Binary(Box::new(acc), op, Box::new(rhs)),
                        Span { start: acc.1.start, end: rhs.1.end },
                    );
                    if pos < p <= t.len() {
                        let (r2, es2) = fold(t, eoi, level, node, p);
                        (r2, es + es2)
                    } else {
                        (Ok((node, p)), es)
                    }
                },
            }
        },
    }
}

/// An atom followed by any number of parenthesised argument lists.
pub open spec fn call_tier(t: Seq<Spanned<Token>>, eoi: usize, pos: int) -> ExprParse
    decreases t.len() - pos, 2int,
{
    let (r, es) = atom(t, eoi, pos);
    match r {
        Err(x) => (Err(x), es),
        Ok((f, p)) => if pos <= p <= t.len() {
            let (r2, es2) = call_fold(t, eoi, f, p);
            (r2, es + es2)
        } else {
            (Ok((f, p)), es)
        },
    }
}

pub open spec fn call_fold(t: Seq<Spanned<Token>>, eoi: usize, acc: (ExprModel, Span), pos: int) -> ExprParse
    decreases t.len() - pos, 0int,
{
    if is_ctrl(t, pos, '(') {
        let (r, es) = items(t, eoi, pos + 1, ')', Seq::empty());
        match r {
            Err(x) => (Err(x), es),
            Ok((args, p)) => {
                let node = (
                    ExprModel::Call(Box::new(acc), args),
                    Span { start: acc.1.start, end: span_at(t, eoi, p - 1).end },
                );
                if pos < p <= t.len() {
                    let (r2, es2) = call_fold(t, eoi, node, p);
                    (r2, es + es2)
                } else {
                    (Ok((node, p)), es)
                }
            },
        }
    } else {
        (Ok((acc, pos)), Seq::empty())
    }
}

/// Expressions separated by commas, a trailing comma allowed, up to and
/// including the closer `close`; `acc` holds the items read so far.
pub open spec fn items(
    t: Seq<Spanned<Token>>,
    eoi: usize,
    pos: int,
    close: char,
    acc: Seq<(ExprModel, Span)>,
) -> ItemsParse
    decreases t.len() - pos, 7int,
{
    if is_ctrl(t, pos, close) {
        (Ok((acc, pos + 1)), Seq::empty())
    } else {
        let (r, es) = tier(t, eoi, 0, pos);
        match r {
            Err(x) => (Err(x), es),
            Ok((e, p)) => if is_ctrl(t, p, ',') {
                if pos <= p < t.len() {
                    let (r2, es2) = items(t, eoi, p + 1, close, acc.push(e));
                    (r2, es + es2)
                } else {
                    (Ok((acc.push(e), p + 1)), es)
                }
            } else if is_ctrl(t, p, close) {
                (Ok((acc.push(e), p + 1)), es)
            } else {
                (Err(unexpected(t, eoi, p, Expected::EitherTok(Token::Ctrl(','), Token::Ctrl(close)))), es)
            },
        }
    }
}

pub open spec fn leaf(t: Seq<Spanned<Token>>, pos: int, e: ExprModel) -> ExprParse {
    (Ok(((e, t[pos].1), pos + 1)), Seq::empty())
}

/// A literal, an identifier, a parenthesised expression or a bracketed
/// list; a malformed group is recovered as a whole.
pub open spec fn atom(t: Seq<Spanned<Token>>, eoi: usize, pos: int) -> ExprParse
    decreases t.len() - pos, 1int,
{
    match tok_at(t, pos) {
        Some(Token::Null) => leaf(t, pos, ExprModel::Value(Value::Null)),
        Some(Token::Bool(b)) => leaf(t, pos, ExprModel::Value(Value::Bool(b))),
        Some(Token::Num(n)) => leaf(t, pos, ExprModel::Value(Value::Num(n))),
        Some(Token::Str(s)) => leaf(t, pos, ExprModel::Value(Value::Str(s))),
        Some(Token::Ident(s)) => leaf(t, pos, ExprModel::Local(s@)),
        Some(Token::Ctrl(c)) => if c == '(' {
            let (r, es) = tier(t, eoi, 0, pos + 1);
            let attempt = match r {
                Err(x) => Err(x),
                Ok((e, p)) => if is_ctrl(t, p, ')') {
                    Ok((e, p + 1))
                } else {
                    Err(unexpected(t, eoi, p, Expected::Tok(Token::Ctrl(')'))))
                },
            };
            recover(t, pos, '(', ')', attempt, es)
        } else if c == '[' {
            let (r, es) = items(t, eoi, pos + 1, ']', Seq::empty());
            let attempt = match r {
                Err(x) => Err(x),
                Ok((xs, p)) => Ok(
                    ((ExprModel::List(xs), Span { start: t[pos].1.start, end: span_at(t, eoi, p - 1).end }), p),
                ),
            };
            recover(t, pos, '[', ']', attempt, es)
        } else {
            (Err(unexpected(t, eoi, pos, Expected::Expression)), Seq::empty())
        },
        _ => (Err(unexpected(t, eoi, pos, Expected::Expression)), Seq::empty()),
    }
}

/// A whole expression at `pos`.
pub open spec fn expr(t: Seq<Spanned<Token>>, eoi: usize, pos: int) -> ExprParse {
    tier(t, eoi, 0, pos)
}

/// Outcome of parsing a function declaration.
pub type DeclParse = Result<((Seq<char>, SignatureModel), int), SyntaxError>;

/// Outcome of parsing one function definition.
pub type FnParse = (Result<(UnitModel, int), SyntaxError>, Seq<SyntaxError>);

/// Outcome of parsing a run of program units.
pub type UnitsParse = (Result<(Seq<UnitModel>, int), SyntaxError>, Seq<SyntaxError>);

pub open spec fn ident_at(t: Seq<Spanned<Token>>, i: int) -> Option<Seq<char>> {
    match tok_at(t, i) {
        Some(Token::Ident(s)) => Some(s@),
        _ => None,
    }
}

/// The expression at `pos` followed by `;`; the node is built by `mk` from
/// the expression and the span that ends with the `;`.
pub open spec fn terminated(t: Seq<Spanned<Token>>, eoi: usize, pos: int, start: usize, kind: nat, name: Seq<char>, ty: Seq<char>) -> ExprParse {
    let (r, es) = expr(t, eoi, pos);
    (
        match r {
            Err(x) => Err(x),
            Ok((v, p)) => if is_ctrl(t, p, ';') {
                let span = Span { start: start, end: t[p].1.end };
                Ok(
                    (
                        if kind == 0 {
                            v
                        } else if kind == 1 {
                            (ExprModel::Ret(Box::new(v)), span)
                        } else {
                            (ExprModel::Var(name, ty, Box::new(v)), span)
                        },
                        p + 1,
                    ),
                )
            } else {
                Err(unexpected(t, eoi, p, Expected::Tok(Token::Ctrl(';'))))
            },
        },
        es,
    )
}

/// One statement: `expr ;`, `return expr ;` or `var name as type = expr ;`.
/// An expression statement keeps the span of its expression; the other two
/// span from their keyword to the `;`.
pub open spec fn stmt(t: Seq<Spanned<Token>>, eoi: usize, pos: int) -> ExprParse {
    match tok_at(t, pos) {
        Some(Token::Ret) => terminated(t, eoi, pos + 1, t[pos].1.start, 1, Seq::empty(), Seq::empty()),
        Some(Token::Var) => match ident_at(t, pos + 1) {
            None => (Err(unexpected(t, eoi, pos + 1, Expected::Identifier)), Seq::empty()),
            Some(name) => if tok_at(t, pos + 2) != Some(Token::As) {
                (Err(unexpected(t, eoi, pos + 2, Expected::Tok(Token::As))), Seq::empty())
            } else {
                match ident_at(t, pos + 3) {
                    None => (Err(unexpected(t, eoi, pos + 3, Expected::Identifier)), Seq::empty()),
                    Some(ty) => if !is_op(t, pos + 4, "="@) {
                        (Err(unexpected(t, eoi, pos + 4, Expected::Assign)), Seq::empty())
                    } else {
                        terminated(t, eoi, pos + 5, t[pos].1.start, 2, name, ty)
                    },
                }
            },
        },
        _ => terminated(t, eoi, pos, 0, 0, Seq::empty(), Seq::empty()),
    }
}

/// Statements after the first, each folded onto `acc` as a left-deep
/// sequence; stops before `}` or at the end of input.
pub open spec fn stmts(t: Seq<Spanned<Token>>, eoi: usize, acc: (ExprModel, Span), pos: int) -> ExprParse
    decreases t.len() - pos,
{
    if pos < 0 || pos >= t.len() || is_ctrl(t, pos, '}') {
        (Ok((acc, pos)), Seq::empty())
    } else {
        let (r, es) = stmt(t, eoi, pos);
        match r {
            Err(x) => (Err(x), es),
            Ok((s, p)) => {
                let node = (
                    ExprModel::Then(Box::new(acc), Box::new(s)),
                    Span { start: acc.1.start, end: s.1.end },
                );
                if pos < p <= t.len() {
                    let (r2, es2) = stmts(t, eoi, node, p);
                    (r2, es + es2)
                } else {
                    (Ok((node, p)), es)
                }
            },
        }
    }
}

/// One or more statements folded into a sequence.
pub open spec fn chain(t: Seq<Spanned<Token>>, eoi: usize, pos: int) -> ExprParse {
    let (r, es) = stmt(t, eoi, pos);
    match r {
        Err(x) => (Err(x), es),
        Ok((s, p)) => {
            let (r2, es2) = stmts(t, eoi, s, p);
            (r2, es + es2)
        },
    }
}

/// A function body `{ statements }`; a malformed body is recovered as a
/// whole.
pub open spec fn body(t: Seq<Spanned<Token>>, eoi: usize, pos: int) -> ExprParse {
    if is_ctrl(t, pos, '{') {
        let (r, es) = chain(t, eoi, pos + 1);
        let attempt = match r {
            Err(x) => Err(x),
            Ok((b, q)) => if is_ctrl(t, q, '}') {
                Ok((b, q + 1))
            } else {
                Err(unexpected(t, eoi, q, Expected::Tok(Token::Ctrl('}'))))
            },
        };
        recover(t, pos, '{', '}', attempt, es)
    } else {
        (Err(unexpected(t, eoi, pos, Expected::Tok(Token::Ctrl('{')))), Seq::empty())
    }
}

/// Identifiers separated by commas up to and including `close`; an empty
/// list is allowed, a trailing comma is not.
pub open spec fn names(t: Seq<Spanned<Token>>, eoi: usize, pos: int, close: char, acc: Seq<Seq<char>>) -> Result<
    (Seq<Seq<char>>, int),
    SyntaxError,
>
    decreases t.len() - pos,
{
    if acc.len() == 0 && is_ctrl(t, pos, close) {
        Ok((acc, pos + 1))
    } else {
        match ident_at(t, pos) {
            None => Err(unexpected(t, eoi, pos, Expected::Identifier)),
            Some(n) => if is_ctrl(t, pos + 1, ',') {
                names(t, eoi, pos + 2, close, acc.push(n))
            } else if is_ctrl(t, pos + 1, close) {
                Ok((acc.push(n), pos + 2))
            } else {
                Err(unexpected(t, eoi, pos + 1, Expected::EitherTok(Token::Ctrl(','), Token::Ctrl(close))))
            },
        }
    }
}

/// `name : type` pairs separated by commas up to and including `)`.
pub open spec fn params(t: Seq<Spanned<Token>>, eoi: usize, pos: int, acc: Seq<(Seq<char>, Seq<char>)>) -> Result<
    (Seq<(Seq<char>, Seq<char>)>, int),
    SyntaxError,
>
    decreases t.len() - pos,
{
    if acc.len() == 0 && is_ctrl(t, pos, ')') {
        Ok((acc, pos + 1))
    } else {
        match ident_at(t, pos) {
            None => Err(unexpected(t, eoi, pos, Expected::Identifier)),
            Some(n) => if !is_ctrl(t, pos + 1, ':') {
                Err(unexpected(t, eoi, pos + 1, Expected::Tok(Token::Ctrl(':'))))
            } else {
                match ident_at(t, pos + 2) {
                    None => Err(unexpected(t, eoi, pos + 2, Expected::Identifier)),
                    Some(ty) => if is_ctrl(t, pos + 3, ',') {
                        params(t, eoi, pos + 4, acc.push((n, ty)))
                    } else if is_ctrl(t, pos + 3, ')') {
                        Ok((acc.push((n, ty)), pos + 4))
                    } else {
                        Err(unexpected(t, eoi, pos + 3, Expected::EitherTok(Token::Ctrl(','), Token::Ctrl(')'))))
                    },
                }
            },
        }
    }
}

/// `fn name <generics>? ( params ) -> type`.
pub open spec fn decl(t: Seq<Spanned<Token>>, eoi: usize, pos: int) -> DeclParse {
    if tok_at(t, pos) != Some(Token::Fn) {
        Err(unexpected(t, eoi, pos, Expected::Tok(Token::Fn)))
    } else {
        match ident_at(t, pos + 1) {
            None => Err(unexpected(t, eoi, pos + 1, Expected::Identifier)),
            Some(name) => {
                let g = if is_ctrl(t, pos + 2, '<') {
                    names(t, eoi, pos + 3, '>', Seq::empty())
                } else {
                    Ok((Seq::empty(), pos + 2))
                };
                match g {
                    Err(x) => Err(x),
                    Ok((gs, q)) => if !is_ctrl(t, q, '(') {
                        Err(unexpected(t, eoi, q, Expected::Tok(Token::Ctrl('('))))
                    } else {
                        match params(t, eoi, q + 1, Seq::empty()) {
                            Err(x) => Err(x),
                            Ok((ps, r)) => if !is_op(t, r, "->"@) {
                                Err(unexpected(t, eoi, r, Expected::Arrow))
                            } else {
                                match ident_at(t, r + 1) {
                                    None => Err(unexpected(t, eoi, r + 1, Expected::Identifier)),
                                    Some(ret) => Ok(
                                        (
                                            (
                                                name,
                                                SignatureModel { return_type: ret, params: ps, generic_params: gs },
                                            ),
                                            r + 2,
                                        ),
                                    ),
                                }
                            },
                        }
                    },
                }
            },
        }
    }
}

/// A declaration followed by its body.
pub open spec fn fn_def(t: Seq<Spanned<Token>>, eoi: usize, pos: int) -> FnParse {
    match decl(t, eoi, pos) {
        Err(x) => (Err(x), Seq::empty()),
        Ok(((name, sig), p)) => {
            let (r, es) = body(t, eoi, p);
            (
                match r {
                    Err(x) => Err(x),
                    Ok((b, q)) => Ok((UnitModel::Function(name, sig, b), q)),
                },
                es,
            )
        },
    }
}

/// Function definitions of a class up to and including its `}`.
pub open spec fn members(t: Seq<Spanned<Token>>, eoi: usize, pos: int, acc: Seq<UnitModel>) -> UnitsParse
    decreases t.len() - pos,
{
    if is_ctrl(t, pos, '}') {
        (Ok((acc, pos + 1)), Seq::empty())
    } else if tok_at(t, pos) == Some(Token::Fn) {
        let (r, es) = fn_def(t, eoi, pos);
        match r {
            Err(x) => (Err(x), es),
            Ok((u, p)) => if pos < p <= t.len() {
                let (r2, es2) = members(t, eoi, p, acc.push(u));
                (r2, es + es2)
            } else {
                (Ok((acc.push(u), p)), es)
            },
        }
    } else {
        (Err(unexpected(t, eoi, pos, Expected::EitherTok(Token::Fn, Token::Ctrl('}')))), Seq::empty())
    }
}

/// `class name { functions }`, flattened to the class marker followed by
/// its functions.
pub open spec fn class(t: Seq<Spanned<Token>>, eoi: usize, pos: int) -> UnitsParse {
    if tok_at(t, pos) != Some(Token::Class) {
        (Err(unexpected(t, eoi, pos, Expected::Tok(Token::Class))), Seq::empty())
    } else {
    match ident_at(t, pos + 1) {
        None => (Err(unexpected(t, eoi, pos + 1, Expected::Identifier)), Seq::empty()),
        Some(name) => if !is_ctrl(t, pos + 2, '{') {
            (Err(unexpected(t, eoi, pos + 2, Expected::Tok(Token::Ctrl('{')))), Seq::empty())
        } else {
            members(t, eoi, pos + 3, seq![UnitModel::Class(name)])
        },
    }
    }
}

/// The first position from `i` on that starts a unit, or the end.
pub open spec fn next_unit(t: Seq<Spanned<Token>>, i: int) -> int
    decreases t.len() - i,
{
    if i < 0 || i >= t.len() {
        t.len() as int
    } else if t[i].0 == Token::Fn || t[i].0 == Token::Class {
        i
    } else {
        next_unit(t, i + 1)
    }
}

/// One unit at `pos`: a class with its functions, or a function.
pub open spec fn unit(t: Seq<Spanned<Token>>, eoi: usize, pos: int) -> UnitsParse {
    if tok_at(t, pos) == Some(Token::Class) {
        class(t, eoi, pos)
    } else if tok_at(t, pos) == Some(Token::Fn) {
        let (r, es) = fn_def(t, eoi, pos);
        (
            match r {
                Err(x) => Err(x),
                Ok((u, p)) => Ok((seq![u], p)),
            },
            es,
        )
    } else {
        (Err(unexpected(t, eoi, pos, Expected::Unit)), Seq::empty())
    }
}

/// Units from `pos` to the end, appended to `units`, with the errors
/// appended to `errs`. A unit that fails is recorded as an error and
/// parsing resumes at the next `fn` or `class` token.
pub open spec fn program(
    t: Seq<Spanned<Token>>,
    eoi: usize,
    pos: int,
    units: Seq<UnitModel>,
    errs: Seq<SyntaxError>,
) -> (Seq<UnitModel>, Seq<SyntaxError>)
    decreases t.len() - pos,
{
    if pos < 0 || pos >= t.len() {
        (units, errs)
    } else {
        let (r, es) = unit(t, eoi, pos);
        match r {
            Ok((us, p)) => if pos < p <= t.len() {
                program(t, eoi, p, units + us, errs + es)
            } else {
                (units + us, errs + es)
            },
            Err(x) => {
                let n = next_unit(t, pos + 1);
                if pos < n <= t.len() {
                    program(t, eoi, n, units, errs + es.push(x))
                } else {
                    (units, errs + es.push(x))
                }
            },
        }
    }
}

/// A whole token sequence parsed by `p`: its result if it reaches the end,
/// else nothing, with an error for what stopped it.
pub open spec fn whole(t: Seq<Spanned<Token>>, eoi: usize, p: ExprParse) -> (Option<(ExprModel, Span)>, Seq<SyntaxError>) {
    match p.0 {
        Ok((e, q)) => if q == t.len() {
            (Some(e), p.1)
        } else {
            (None, p.1.push(unexpected(t, eoi, q, Expected::End)))
        },
        Err(x) => (None, p.1.push(x)),
    }
}

/// A token that parses as an atom on its own: a number or an identifier.
pub open spec fn is_simple_atom(t: Seq<Spanned<Token>>, i: int) -> bool {
    0 <= i < t.len() && (t[i].0 is Num || t[i].0 is Ident)
}

/// The model of the simple atom at `i`.
pub open spec fn atom_model(t: Seq<Spanned<Token>>, i: int) -> (ExprModel, Span) {
    match t[i].0 {
        Token::Num(n) => (ExprModel::Value(Value::Num(n)), t[i].1),
        Token::Ident(s) => (ExprModel::Local(s@), t[i].1),
        _ => (ExprModel::Error, t[i].1),
    }
}

/// The token at `i` ends an operand run: the end of input or a control
/// character other than `(`.
pub open spec fn ends_run(t: Seq<Spanned<Token>>, i: int) -> bool {
    i >= t.len() || (0 <= i && t[i].0 is Ctrl && t[i].0->Ctrl_0 != '(')
}

/// `acc` followed by `m` pairs `op atom` of tier `level` from `p`, folded
/// to the left.
pub open spec fn left_chain(t: Seq<Spanned<Token>>, level: nat, acc: (ExprModel, Span), p: int, m: nat) -> (ExprModel, Span)
    decreases m,
{
    if m == 0 {
        acc
    } else {
        let rhs = atom_model(t, p + 1);
        let node = (
            ExprModel::Binary(Box::new(acc), op_at(t, level, p)->0, Box::new(rhs)),
            Span { start: acc.1.start, end: rhs.1.end },
        );
        left_chain(t, level, node, p + 2, (m - 1) as nat)
    }
}

/// From `p` on: `m` pairs of an operator of tier `level` and a simple atom,
/// then a token that ends the run.
pub open spec fn chain_tokens(t: Seq<Spanned<Token>>, level: nat, p: int, m: nat) -> bool {
    &&& forall|k: int| 0 <= k < m ==> (#[trigger] op_at(t, level, p + 2 * k)) is Some
    &&& forall|k: int| 0 <= k < m ==> #[trigger] is_simple_atom(t, p + 2 * k + 1)
    &&& ends_run(t, p + 2 * m)
}

proof fn lemma_op_tier_unique(t: Seq<Spanned<Token>>, i: int, l1: nat, l2: nat)
    requires
        op_at(t, l1, i) is Some,
        l1 != l2,
    ensures
        op_at(t, l2, i) is None,
{
    reveal_strlit("==");
    reveal_strlit("!=");
    reveal_strlit("+");
    reveal_strlit("-");
    reveal_strlit("*");
    reveal_strlit("/");
    assert("=="@.len() == 2 && "=="@[0] == '=');
    assert("!="@.len() == 2 && "!="@[0] == '!');
    assert("+"@.len() == 1 && "+"@[0] == '+');
    assert("-"@.len() == 1 && "-"@[0] == '-');
    assert("*"@.len() == 1 && "*"@[0] == '*');
    assert("/"@.len() == 1 && "/"@[0] == '/');
}

proof fn lemma_no_op_at_end(t: Seq<Spanned<Token>>, i: int, l: nat)
    requires
        ends_run(t, i),
    ensures
        op_at(t, l, i) is None,
        !is_ctrl(t, i, '('),
{
}

/// A simple atom followed by no operator of tier `level` or tighter parses
/// at tier `level` as just that atom.
proof fn lemma_operand(t: Seq<Spanned<Token>>, eoi: usize, i: int, level: nat)
    requires
        level <= 3,
        is_simple_atom(t, i),
        !is_ctrl(t, i + 1, '('),
        forall|l: nat| level <= l < 3 ==> (#[trigger] op_at(t, l, i + 1)) is None,
    ensures
        tier(t, eoi, level, i) == (Ok::<((ExprModel, Span), int), SyntaxError>((atom_model(t, i), i + 1)), Seq::<SyntaxError>::empty()),
    decreases 3 - level,
{
    let e = Seq::<SyntaxError>::empty();
    assert(e + e =~= e);
    let a = atom_model(t, i);
    if level < 3 {
        lemma_operand(t, eoi, i, level + 1);
        assert(op_at(t, level, i + 1) is None);
        assert(fold(t, eoi, level, a, i + 1) == (Ok::<((ExprModel, Span), int), SyntaxError>((a, i + 1)), e));
    } else {
        assert(atom(t, eoi, i) == leaf(t, i, a.0));
        assert(call_fold(t, eoi, a, i + 1) == (Ok::<((ExprModel, Span), int), SyntaxError>((a, i + 1)), e));
        assert(call_tier(t, eoi, i) == (Ok::<((ExprModel, Span), int), SyntaxError>((a, i + 1)), e));
    }
}

/// After a simple atom, the next token is an operator of tier `level` or
/// ends the run; either way no tighter tier continues.
proof fn lemma_after_atom(t: Seq<Spanned<Token>>, level: nat, i: int)
    requires
        op_at(t, level, i) is Some || ends_run(t, i),
    ensures
        !is_ctrl(t, i, '('),
        forall|l: nat| level < l < 3 ==> (#[trigger] op_at(t, l, i)) is None,
{
    assert forall|l: nat| level < l < 3 implies (#[trigger] op_at(t, l, i)) is None by {
        if op_at(t, level, i) is Some {
            lemma_op_tier_unique(t, i, level, l);
        }
    }
}

proof fn lemma_fold_chain(t: Seq<Spanned<Token>>, eoi: usize, level: nat, acc: (ExprModel, Span), p: int, m: nat)
    requires
        level < 3,
        0 <= p,
        chain_tokens(t, level, p, m),
    ensures
        fold(t, eoi, level, acc, p) == (
            Ok::<((ExprModel, Span), int), SyntaxError>((left_chain(t, level, acc, p, m), p + 2 * m)),
            Seq::<SyntaxError>::empty(),
        ),
    decreases m,
{
    if m == 0 {
        lemma_no_op_at_end(t, p, level);
    } else {
        assert(op_at(t, level, p + 2 * 0) is Some);
        assert(is_simple_atom(t, p + 2 * 0 + 1));
        if m == 1 {
            lemma_after_atom(t, level, p + 2);
        } else {
            assert(op_at(t, level, p + 2 * 1) is Some);
            lemma_after_atom(t, level, p + 2);
        }
        lemma_operand(t, eoi, p + 1, level + 1);
        let rhs = atom_model(t, p + 1);
        let node = (
            ExprModel::Binary(Box::new(acc), op_at(t, level, p)->0, Box::new(rhs)),
            Span { start: acc.1.start, end: rhs.1.end },
        );
        assert(chain_tokens(t, level, p + 2, (m - 1) as nat)) by {
            assert forall|k: int| 0 <= k < m - 1 implies (#[trigger] op_at(t, level, p + 2 + 2 * k)) is Some by {
                assert(op_at(t, level, p + 2 * (k + 1)) is Some);
                assert(p + 2 * (k + 1) == p + 2 + 2 * k);
            }
            assert forall|k: int| 0 <= k < m - 1 implies #[trigger] is_simple_atom(t, p + 2 + 2 * k + 1) by {
                assert(is_simple_atom(t, p + 2 * (k + 1) + 1));
                assert(p + 2 * (k + 1) + 1 == p + 2 + 2 * k + 1);
            }
            assert(p + 2 + 2 * (m - 1) == p + 2 * m);
        }
        lemma_fold_chain(t, eoi, level, node, p + 2, (m - 1) as nat);
        assert(Seq::<SyntaxError>::empty() + Seq::<SyntaxError>::empty() =~= Seq::<SyntaxError>::empty());
    }
}

/// Operators of one precedence tier associate to the left: a run
/// `e1 o1 e2 ... on e(n+1)` of simple atoms and operators of tier `level`
/// (equality, additive or multiplicative) parses as the left-deep tree
/// `(..((e1 o1 e2) o2 e3) ..) on e(n+1)`, for any number of operators.
pub proof fn lemma_left_associative(t: Seq<Spanned<Token>>, eoi: usize, level: nat, pos: int, n: nat)
    requires
        level < 3,
        is_simple_atom(t, pos),
        chain_tokens(t, level, pos + 1, n),
    ensures
        expr(t, eoi, pos).0 == Ok::<((ExprModel, Span), int), SyntaxError>(
            (left_chain(t, level, atom_model(t, pos), pos + 1, n), pos + 1 + 2 * n),
        ),
{
    if n == 0 {
        lemma_after_atom(t, level, pos + 1);
        lemma_no_op_at_end(t, pos + 1, level);
    } else {
        assert(op_at(t, level, pos + 1 + 2 * 0) is Some);
        assert(is_simple_atom(t, pos + 1 + 2 * (n - 1) + 1));
        lemma_after_atom(t, level, pos + 1);
    }
    lemma_operand(t, eoi, pos, level + 1);
    let none = Seq::<SyntaxError>::empty();
    assert(none + none =~= none);
    lemma_fold_chain(t, eoi, level, atom_model(t, pos), pos + 1, n);
    lemma_lift(t, eoi, level, pos, left_chain(t, level, atom_model(t, pos), pos + 1, n), pos + 1 + 2 * n);
}

/// A tier whose operand run ends where no looser operator follows gives the
/// whole expression.
proof fn lemma_lift(t: Seq<Spanned<Token>>, eoi: usize, level: nat, pos: int, m: (ExprModel, Span), e: int)
    requires
        level < 3,
        0 <= pos <= e <= t.len(),
        ends_run(t, e),
        tier(t, eoi, level, pos) == (Ok::<((ExprModel, Span), int), SyntaxError>((m, e)), Seq::<SyntaxError>::empty()),
    ensures
        expr(t, eoi, pos) == (Ok::<((ExprModel, Span), int), SyntaxError>((m, e)), Seq::<SyntaxError>::empty()),
    decreases level,
{
    if level > 0 {
        lemma_no_op_at_end(t, e, (level - 1) as nat);
        let none = Seq::<SyntaxError>::empty();
        assert(none + none =~= none);
        assert(fold(t, eoi, (level - 1) as nat, m, e) == (Ok::<((ExprModel, Span), int), SyntaxError>((m, e)), none));
        assert(tier(t, eoi, (level - 1) as nat, pos) == (Ok::<((ExprModel, Span), int), SyntaxError>((m, e)), none));
        lemma_lift(t, eoi, (level - 1) as nat, pos, m, e);
    }
}

pub open spec fn bin(a: (ExprModel, Span), op: BinaryOp, b: (ExprModel, Span)) -> (ExprModel, Span) {
    (ExprModel::Binary(Box::new(a), op, Box::new(b)), Span { start: a.1.start, end: b.1.end })
}

/// Multiplicative operators bind tighter than additive ones, on either
/// side: `a + b * c` parses as `a + (b * c)` and `a * b + c` as
/// `(a * b) + c`, for any simple atoms and operators of those two tiers.
pub proof fn lemma_precedence(t: Seq<Spanned<Token>>, eoi: usize, pos: int)
    requires
        0 <= pos,
        is_simple_atom(t, pos),
        is_simple_atom(t, pos + 2),
        is_simple_atom(t, pos + 4),
        ends_run(t, pos + 5),
    ensures
        op_at(t, 1, pos + 1) is Some && op_at(t, 2, pos + 3) is Some ==> expr(t, eoi, pos).0 == Ok::<
            ((ExprModel, Span), int),
            SyntaxError,
        >(
            (
                bin(
                    atom_model(t, pos),
                    op_at(t, 1, pos + 1)->0,
                    bin(atom_model(t, pos + 2), op_at(t, 2, pos + 3)->0, atom_model(t, pos + 4)),
                ),
                pos + 5,
            ),
        ),
        op_at(t, 2, pos + 1) is Some && op_at(t, 1, pos + 3) is Some ==> expr(t, eoi, pos).0 == Ok::<
            ((ExprModel, Span), int),
            SyntaxError,
        >(
            (
                bin(
                    bin(atom_model(t, pos), op_at(t, 2, pos + 1)->0, atom_model(t, pos + 2)),
                    op_at(t, 1, pos + 3)->0,
                    atom_model(t, pos + 4),
                ),
                pos + 5,
            ),
        ),
{
    let none = Seq::<SyntaxError>::empty();
    assert(none + none =~= none);
    let a = atom_model(t, pos);
    let b = atom_model(t, pos + 2);
    let c = atom_model(t, pos + 4);
    lemma_no_op_at_end(t, pos + 5, 0);
    lemma_no_op_at_end(t, pos + 5, 1);
    lemma_no_op_at_end(t, pos + 5, 2);
    if op_at(t, 1, pos + 1) is Some && op_at(t, 2, pos + 3) is Some {
        let add = op_at(t, 1, pos + 1)->0;
        let mul = op_at(t, 2, pos + 3)->0;
        lemma_op_tier_unique(t, pos + 1, 1, 2);
        lemma_op_tier_unique(t, pos + 3, 2, 1);
        lemma_operand(t, eoi, pos, 2);
        lemma_operand(t, eoi, pos + 2, 3);
        lemma_operand(t, eoi, pos + 4, 3);
        assert(fold(t, eoi, 2, bin(b, mul, c), pos + 5) == (Ok::<((ExprModel, Span), int), SyntaxError>(
            (bin(b, mul, c), pos + 5),
        ), none));
        assert(fold(t, eoi, 2, b, pos + 3) == (Ok::<((ExprModel, Span), int), SyntaxError>((bin(b, mul, c), pos + 5)), none));
        assert(tier(t, eoi, 2, pos + 2) == (Ok::<((ExprModel, Span), int), SyntaxError>((bin(b, mul, c), pos + 5)), none));
        let r = bin(a, add, bin(b, mul, c));
        assert(fold(t, eoi, 1, r, pos + 5) == (Ok::<((ExprModel, Span), int), SyntaxError>((r, pos + 5)), none));
        assert(fold(t, eoi, 1, a, pos + 1) == (Ok::<((ExprModel, Span), int), SyntaxError>((r, pos + 5)), none));
        assert(tier(t, eoi, 1, pos) == (Ok::<((ExprModel, Span), int), SyntaxError>((r, pos + 5)), none));
        lemma_lift(t, eoi, 1, pos, r, pos + 5);
    }
    if op_at(t, 2, pos + 1) is Some && op_at(t, 1, pos + 3) is Some {
        let mul = op_at(t, 2, pos + 1)->0;
        let add = op_at(t, 1, pos + 3)->0;
        lemma_op_tier_unique(t, pos + 1, 2, 1);
        lemma_op_tier_unique(t, pos + 3, 1, 2);
        lemma_operand(t, eoi, pos, 3);
        lemma_operand(t, eoi, pos + 2, 3);
        lemma_operand(t, eoi, pos + 4, 2);
        let ab = bin(a, mul, b);
        assert(fold(t, eoi, 2, ab, pos + 3) == (Ok::<((ExprModel, Span), int), SyntaxError>((ab, pos + 3)), none));
        assert(fold(t, eoi, 2, a, pos + 1) == (Ok::<((ExprModel, Span), int), SyntaxError>((ab, pos + 3)), none));
        assert(tier(t, eoi, 2, pos) == (Ok::<((ExprModel, Span), int), SyntaxError>((ab, pos + 3)), none));
        let r = bin(ab, add, c);
        assert(fold(t, eoi, 1, r, pos + 5) == (Ok::<((ExprModel, Span), int), SyntaxError>((r, pos + 5)), none));
        assert(fold(t, eoi, 1, ab, pos + 3) == (Ok::<((ExprModel, Span), int), SyntaxError>((r, pos + 5)), none));
        assert(tier(t, eoi, 1, pos) == (Ok::<((ExprModel, Span), int), SyntaxError>((r, pos + 5)), none));
        lemma_lift(t, eoi, 1, pos, r, pos + 5);
    }
}

} // verus!
