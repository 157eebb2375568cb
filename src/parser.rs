//! A recursive-descent parser from spanned tokens to program units, proved
//! to compute exactly what the grammar in `grammar` describes.
use vstd::prelude::*;

use crate::ast::{
    items_model, names_model, params_model, signature_model, spanned_model, unit_model, units_model, BinaryOp, Class,
    Expr, ExprModel, FunctionDefinition, FunctionSignature, NamedFunction, ProgramUnit, SignatureModel, Span, Spanned,
    Token, UnitModel, Value,
};
use crate::grammar::{
    atom, body, call_fold, call_tier, chain, class, decl, expr, fn_def, fold, ident_at, is_ctrl, is_op, items,
    matching_close, members, names, next_unit, op_at, open_kind, close_kind, pick, params, program, recover, scan_close, span_at, stmt, stmts,
    terminated, tier, tok_at, unexpected, unit, whole, Expected, SyntaxError, SyntaxReason,
};
use crate::text::text_eq;

verus! {

/// The model of an executable expression-parse outcome.
pub open spec fn lift_expr(r: Result<(Spanned<Expr>, usize), SyntaxError>) -> Result<((ExprModel, Span), int), SyntaxError> {
    match r {
        Ok((e, p)) => Ok((spanned_model(e), p as int)),
        Err(x) => Err(x),
    }
}

/// The model of an executable list-parse outcome.
pub open spec fn lift_items(r: Result<(Vec<Spanned<Expr>>, usize), SyntaxError>) -> Result<(Seq<(ExprModel, Span)>, int), SyntaxError> {
    match r {
        Ok((v, p)) => Ok((items_model(v@), p as int)),
        Err(x) => Err(x),
    }
}

pub open spec fn ok_pos<T>(r: Result<(T, usize), SyntaxError>) -> int {
    match r {
        Ok((_, p)) => p as int,
        Err(_) => -1,
    }
}

proof fn lemma_items_push(v: Seq<Spanned<Expr>>, e: Spanned<Expr>)
    ensures
        items_model(v.push(e)) == items_model(v).push(spanned_model(e)),
{
    assert(items_model(v.push(e)) =~= items_model(v).push(spanned_model(e)));
}

pub(crate) fn copy_token(t: &Token) -> (r: Token)
    ensures
        r == *t,
{
    match t {
        Token::Null => Token::Null,
        Token::Bool(b) => Token::Bool(*b),
        Token::Num(s) => Token::Num(s.clone()),
        Token::Str(s) => Token::Str(s.clone()),
        Token::Op(s) => Token::Op(s.clone()),
        Token::Ctrl(c) => Token::Ctrl(*c),
        Token::Ident(s) => Token::Ident(s.clone()),
        Token::Class => Token::Class,
        Token::Fn => Token::Fn,
        Token::Var => Token::Var,
        Token::Ret => Token::Ret,
        Token::As => Token::As,
        Token::If => Token::If,
        Token::Else => Token::Else,
    }
}

fn token_here(t: &Vec<Spanned<Token>>, i: usize) -> (r: Option<Token>)
    ensures
        r == tok_at(t@, i as int),
{
    if i < t.len() {
        Some(copy_token(&t[i].0))
    } else {
        None
    }
}

fn span_here(t: &Vec<Spanned<Token>>, eoi: usize, i: usize) -> (r: Span)
    ensures
        r == span_at(t@, eoi, i as int),
{
    if i < t.len() {
        t[i].1
    } else {
        Span { start: eoi, end: eoi }
    }
}

pub(crate) fn ctrl_here(t: &Vec<Spanned<Token>>, i: usize, c: char) -> (r: bool)
    ensures
        r == is_ctrl(t@, i as int, c),
        t@.len() <= usize::MAX,
{
    if i < t.len() {
        match &t[i].0 {
            Token::Ctrl(d) => *d == c,
            _ => false,
        }
    } else {
        false
    }
}

fn op_here(t: &Vec<Spanned<Token>>, i: usize, s: &str) -> (r: bool)
    ensures
        r == is_op(t@, i as int, s@),
        t@.len() <= usize::MAX,
{
    if i < t.len() {
        match &t[i].0 {
            Token::Op(o) => text_eq(o.as_str(), s),
            _ => false,
        }
    } else {
        false
    }
}

fn op_of(t: &Vec<Spanned<Token>>, level: usize, i: usize) -> (r: Option<BinaryOp>)
    ensures
        r == op_at(t@, level as nat, i as int),
        t@.len() <= usize::MAX,
{
    let _ = t.len();
    if level == 0 {
        if op_here(t, i, "==") {
            Some(BinaryOp::Eq)
        } else if op_here(t, i, "!=") {
            Some(BinaryOp::NotEq)
        } else {
            None
        }
    } else if level == 1 {
        if op_here(t, i, "+") {
            Some(BinaryOp::Add)
        } else if op_here(t, i, "-") {
            Some(BinaryOp::Sub)
        } else {
            None
        }
    } else if level == 2 {
        if op_here(t, i, "*") {
            Some(BinaryOp::Mul)
        } else if op_here(t, i, "/") {
            Some(BinaryOp::Div)
        } else {
            None
        }
    } else {
        None
    }
}

pub(crate) fn fail(t: &Vec<Spanned<Token>>, eoi: usize, i: usize, e: Expected) -> (r: SyntaxError)
    ensures
        r == unexpected(t@, eoi, i as int, e),
{
    SyntaxError {
        span: span_here(t, eoi, i),
        reason: SyntaxReason::Unexpected { found: token_here(t, i), expected: e },
    }
}

fn kind_of(c: char, a: char, b: char, d: char) -> (r: usize)
    ensures
        r == (if c == a { 0usize } else if c == b { 1usize } else if c == d { 2usize } else { 3usize }),
{
    if c == a {
        0
    } else if c == b {
        1
    } else if c == d {
        2
    } else {
        3
    }
}

/// Which pair the token at `i` opens and which it closes, 3 for none.
fn kinds_here(t: &Vec<Spanned<Token>>, i: usize) -> (r: (usize, usize))
    requires
        i < t@.len(),
    ensures
        r.0 < 3 ==> open_kind(t@[i as int].0) == r.0 as int,
        r.0 >= 3 ==> open_kind(t@[i as int].0) == -1 && r.0 == 3,
        r.1 < 3 ==> close_kind(t@[i as int].0) == r.1 as int,
        r.1 >= 3 ==> close_kind(t@[i as int].0) == -1 && r.1 == 3,
{
    match &t[i].0 {
        Token::Ctrl(c) => (kind_of(*c, '(', '[', '{'), kind_of(*c, ')', ']', '}')),
        _ => (3, 3),
    }
}

/// Finds the closer of the group opened at `start` (see `matching_close`).
pub(crate) fn find_close(t: &Vec<Spanned<Token>>, start: usize, open: char, close: char) -> (r: Option<usize>)
    ensures
        match r {
            Some(c) => matching_close(t@, start as int, open, close) == Some(c as int),
            None => matching_close(t@, start as int, open, close) is None,
        },
        t@.len() <= usize::MAX,
{
    let _ = t.len();
    let own = kind_of(open, '(', '[', '{');
    if !ctrl_here(t, start, open) || own >= 3 || kind_of(close, ')', ']', '}') != own {
        return None;
    }
    assert(start < t@.len());
    let mut n: [usize; 3] = [0, 0, 0];
    n.set(own, 1);
    let mut i: usize = start + 1;
    assert(matching_close(t@, start as int, open, close) == scan_close(
        t@,
        i as int,
        own as int,
        n[0] as nat,
        n[1] as nat,
        n[2] as nat,
    ));
    while i < t.len()
        invariant
            start < i <= t@.len(),
            own < 3,
            n@.len() == 3,
            n[0] <= i - start,
            n[1] <= i - start,
            n[2] <= i - start,
            matching_close(t@, start as int, open, close) == scan_close(
                t@,
                i as int,
                own as int,
                n[0] as nat,
                n[1] as nat,
                n[2] as nat,
            ),
        decreases t@.len() - i,
    {
        let (ko, kc) = kinds_here(t, i);
        if ko < 3 {
            assert(i - start < t@.len());
            let v = n[ko] + 1;
            n.set(ko, v);
        } else if kc < 3 {
            if n[kc] == 0 {
                return None;
            }
            if kc == own && n[kc] == 1 {
                return Some(i);
            }
            let v = n[kc] - 1;
            n.set(kc, v);
        }
        i = i + 1;
    }
    None
}

/// Recovers a failed group attempt at `pos` (see `recover`).
fn recover_group(
    t: &Vec<Spanned<Token>>,
    pos: usize,
    open: char,
    close: char,
    attempt: Result<(Spanned<Expr>, usize), SyntaxError>,
    errs: &mut Vec<SyntaxError>,
) -> (r: Result<(Spanned<Expr>, usize), SyntaxError>)
    requires
        pos < t@.len(),
        attempt is Ok ==> pos < ok_pos(attempt) <= t@.len(),
    ensures
        lift_expr(r) == recover(t@, pos as int, open, close, lift_expr(attempt), Seq::empty()).0,
        final(errs)@ == old(errs)@ + recover(t@, pos as int, open, close, lift_expr(attempt), Seq::empty()).1,
        r is Ok ==> pos < ok_pos(r) <= t@.len(),
{
    match attempt {
        Ok(_) => {
            assert(old(errs)@ + Seq::<SyntaxError>::empty() =~= old(errs)@);
            attempt
        },
        Err(x) => match find_close(t, pos, open, close) {
            Some(c) => {
                proof {
                    let own = open_kind(Token::Ctrl(open));
                    lemma_scan_close_bound(
                        t@,
                        pos as int + 1,
                        own,
                        if own == 0 { 1 } else { 0 },
                        if own == 1 { 1 } else { 0 },
                        if own == 2 { 1 } else { 0 },
                    );
                }
                let span = Span { start: t[pos].1.start, end: t[c].1.end };
                errs.push(x);
                assert(old(errs)@.push(x) =~= old(errs)@ + Seq::<SyntaxError>::empty().push(x));
                Ok(((Expr::Error, span), c + 1))
            },
            None => {
                assert(old(errs)@ + Seq::<SyntaxError>::empty() =~= old(errs)@);
                let span = x.span;
                match x.reason {
                    SyntaxReason::Unexpected { found, expected } => if ctrl_here(t, pos, open) {
                        Err(SyntaxError { span, reason: SyntaxReason::Unclosed { opener: open, opener_span: t[pos].1, found } })
                    } else {
                        Err(SyntaxError { span, reason: SyntaxReason::Unexpected { found, expected } })
                    },
                    reason => Err(SyntaxError { span, reason }),
                }
            },
        },
    }
}

proof fn lemma_scan_close_bound(t: Seq<Spanned<Token>>, i: int, own: int, n0: nat, n1: nat, n2: nat)
    ensures
        scan_close(t, i, own, n0, n1, n2) matches Some(c) ==> i <= c < t.len(),
    decreases t.len() - i,
{
    if 0 <= i < t.len() {
        let ko = open_kind(t[i].0);
        let kc = close_kind(t[i].0);
        if ko >= 0 {
            lemma_scan_close_bound(
                t,
                i + 1,
                own,
                if ko == 0 { n0 + 1 } else { n0 },
                if ko == 1 { n1 + 1 } else { n1 },
                if ko == 2 { n2 + 1 } else { n2 },
            );
        } else if kc >= 0 {
            let n = pick(kc, n0, n1, n2);
            if n != 0 && !(kc == own && n == 1) {
                lemma_scan_close_bound(
                    t,
                    i + 1,
                    own,
                    if kc == 0 { (n0 - 1) as nat } else { n0 },
                    if kc == 1 { (n1 - 1) as nat } else { n1 },
                    if kc == 2 { (n2 - 1) as nat } else { n2 },
                );
            }
        } else {
            lemma_scan_close_bound(t, i + 1, own, n0, n1, n2);
        }
    }
}

/// Parses precedence tier `level` at `pos`.
fn parse_tier(t: &Vec<Spanned<Token>>, eoi: usize, level: usize, pos: usize, errs: &mut Vec<SyntaxError>) -> (r:
    Result<(Spanned<Expr>, usize), SyntaxError>)
    requires
        pos <= t@.len(),
        level <= 3,
    ensures
        lift_expr(r) == tier(t@, eoi, level as nat, pos as int).0,
        final(errs)@ == old(errs)@ + tier(t@, eoi, level as nat, pos as int).1,
        r is Ok ==> pos < ok_pos(r) <= t@.len(),
    decreases t@.len() - pos, if level >= 3 { 3int } else { 6 - level },
{
    if level >= 3 {
        return parse_call(t, eoi, pos, errs);
    }
    let ghost e0 = errs@;
    let r = parse_tier(t, eoi, level + 1, pos, errs);
    match r {
        Err(x) => Err(x),
        Ok((lhs, p)) => {
            let ghost e1 = errs@;
            let r2 = parse_fold(t, eoi, level, lhs, p, errs);
            assert(errs@ =~= e0 + (tier(t@, eoi, level as nat + 1, pos as int).1 + fold(
                t@,
                eoi,
                level as nat,
                spanned_model(lhs),
                p as int,
            ).1));
            r2
        },
    }
}

/// Folds the `op operand` pairs of tier `level` onto `acc`.
fn parse_fold(
    t: &Vec<Spanned<Token>>,
    eoi: usize,
    level: usize,
    acc: Spanned<Expr>,
    pos: usize,
    errs: &mut Vec<SyntaxError>,
) -> (r: Result<(Spanned<Expr>, usize), SyntaxError>)
    requires
        pos <= t@.len(),
        level < 3,
    ensures
        lift_expr(r) == fold(t@, eoi, level as nat, spanned_model(acc), pos as int).0,
        final(errs)@ == old(errs)@ + fold(t@, eoi, level as nat, spanned_model(acc), pos as int).1,
        r is Ok ==> pos <= ok_pos(r) <= t@.len(),
    decreases t@.len() - pos, 0int,
{
    match op_of(t, level, pos) {
        None => {
            assert(errs@ + Seq::<SyntaxError>::empty() =~= errs@);
            Ok((acc, pos))
        },
        Some(op) => {
            let ghost e0 = errs@;
            let r = parse_tier(t, eoi, level + 1, pos + 1, errs);
            match r {
                Err(x) => Err(x),
                Ok((rhs, p)) => {
                    let span = Span { start: acc.1.start, end: rhs.1.end };
                    let node = (Expr::Binary(Box::new(acc), op, Box::new(rhs)), span);
                    let r2 = parse_fold(t, eoi, level, node, p, errs);
                    assert(errs@ =~= e0 + (tier(t@, eoi, level as nat + 1, pos as int + 1).1 + fold(
                        t@,
                        eoi,
                        level as nat,
                        spanned_model(node),
                        p as int,
                    ).1));
                    r2
                },
            }
        },
    }
}

/// Parses an atom and the argument lists that follow it.
fn parse_call(t: &Vec<Spanned<Token>>, eoi: usize, pos: usize, errs: &mut Vec<SyntaxError>) -> (r: Result<
    (Spanned<Expr>, usize),
    SyntaxError,
>)
    requires
        pos <= t@.len(),
    ensures
        lift_expr(r) == call_tier(t@, eoi, pos as int).0,
        final(errs)@ == old(errs)@ + call_tier(t@, eoi, pos as int).1,
        r is Ok ==> pos < ok_pos(r) <= t@.len(),
    decreases t@.len() - pos, 2int,
{
    let ghost e0 = errs@;
    let r = parse_atom(t, eoi, pos, errs);
    match r {
        Err(x) => Err(x),
        Ok((f, p)) => {
            let r2 = parse_call_fold(t, eoi, f, p, errs);
            assert(errs@ =~= e0 + (atom(t@, eoi, pos as int).1 + call_fold(t@, eoi, spanned_model(f), p as int).1));
            r2
        },
    }
}

fn parse_call_fold(t: &Vec<Spanned<Token>>, eoi: usize, acc: Spanned<Expr>, pos: usize, errs: &mut Vec<SyntaxError>) -> (r:
    Result<(Spanned<Expr>, usize), SyntaxError>)
    requires
        pos <= t@.len(),
    ensures
        lift_expr(r) == call_fold(t@, eoi, spanned_model(acc), pos as int).0,
        final(errs)@ == old(errs)@ + call_fold(t@, eoi, spanned_model(acc), pos as int).1,
        r is Ok ==> pos <= ok_pos(r) <= t@.len(),
    decreases t@.len() - pos, 0int,
{
    if ctrl_here(t, pos, '(') {
        let ghost e0 = errs@;
        let r = parse_items(t, eoi, pos + 1, ')', Vec::new(), errs);
        assert(items_model(Seq::<Spanned<Expr>>::empty()) =~= Seq::empty());
        match r {
            Err(x) => Err(x),
            Ok((args, p)) => {
                let end = span_here(t, eoi, p - 1).end;
                let span = Span { start: acc.1.start, end };
                let node = (Expr::Call(Box::new(acc), args), span);
                let r2 = parse_call_fold(t, eoi, node, p, errs);
                assert(items_model(Seq::<Spanned<Expr>>::empty()) =~= Seq::empty());
                assert(errs@ =~= e0 + (items(t@, eoi, pos as int + 1, ')', Seq::empty()).1 + call_fold(
                    t@,
                    eoi,
                    spanned_model(node),
                    p as int,
                ).1));
                r2
            },
        }
    } else {
        assert(errs@ + Seq::<SyntaxError>::empty() =~= errs@);
        Ok((acc, pos))
    }
}

/// Parses comma-separated expressions up to and including `close`.
fn parse_items(
    t: &Vec<Spanned<Token>>,
    eoi: usize,
    pos: usize,
    close: char,
    acc: Vec<Spanned<Expr>>,
    errs: &mut Vec<SyntaxError>,
) -> (r: Result<(Vec<Spanned<Expr>>, usize), SyntaxError>)
    requires
        pos <= t@.len(),
    ensures
        lift_items(r) == items(t@, eoi, pos as int, close, items_model(acc@)).0,
        final(errs)@ == old(errs)@ + items(t@, eoi, pos as int, close, items_model(acc@)).1,
        r is Ok ==> pos < ok_pos(r) <= t@.len(),
    decreases t@.len() - pos, 7int,
{
    if ctrl_here(t, pos, close) {
        assert(errs@ + Seq::<SyntaxError>::empty() =~= errs@);
        return Ok((acc, pos + 1));
    }
    let ghost e0 = errs@;
    let r = parse_tier(t, eoi, 0, pos, errs);
    match r {
        Err(x) => Err(x),
        Ok((e, p)) => {
            let mut acc = acc;
            let ghost old_acc = acc@;
            proof {
                lemma_items_push(acc@, e);
            }
            if ctrl_here(t, p, ',') {
                acc.push(e);
                let r2 = parse_items(t, eoi, p + 1, close, acc, errs);
                assert(errs@ =~= e0 + (tier(t@, eoi, 0, pos as int).1 + items(
                    t@,
                    eoi,
                    p as int + 1,
                    close,
                    items_model(old_acc).push(spanned_model(e)),
                ).1));
                r2
            } else if ctrl_here(t, p, close) {
                acc.push(e);
                Ok((acc, p + 1))
            } else {
                Err(fail(t, eoi, p, Expected::EitherTok(Token::Ctrl(','), Token::Ctrl(close))))
            }
        },
    }
}

/// Parses an atom at `pos`, recovering a malformed group as a whole.
fn parse_atom(t: &Vec<Spanned<Token>>, eoi: usize, pos: usize, errs: &mut Vec<SyntaxError>) -> (r: Result<
    (Spanned<Expr>, usize),
    SyntaxError,
>)
    requires
        pos <= t@.len(),
    ensures
        lift_expr(r) == atom(t@, eoi, pos as int).0,
        final(errs)@ == old(errs)@ + atom(t@, eoi, pos as int).1,
        r is Ok ==> pos < ok_pos(r) <= t@.len(),
    decreases t@.len() - pos, 1int,
{
    if pos >= t.len() {
        assert(errs@ + Seq::<SyntaxError>::empty() =~= errs@);
        return Err(fail(t, eoi, pos, Expected::Expression));
    }
    let span = t[pos].1;
    let leaf = match &t[pos].0 {
        Token::Null => Some(Expr::Value(Value::Null)),
        Token::Bool(b) => Some(Expr::Value(Value::Bool(*b))),
        Token::Num(n) => Some(Expr::Value(Value::Num(n.clone()))),
        Token::Str(s) => Some(Expr::Value(Value::Str(s.clone()))),
        Token::Ident(s) => Some(Expr::Local(s.clone())),
        _ => None,
    };
    if let Some(e) = leaf {
        assert(errs@ + Seq::<SyntaxError>::empty() =~= errs@);
        return Ok(((e, span), pos + 1));
    }
    let ghost e0 = errs@;
    if ctrl_here(t, pos, '(') {
        let r = parse_tier(t, eoi, 0, pos + 1, errs);
        let ghost e1 = errs@;
        let attempt = match r {
            Err(x) => Err(x),
            Ok((e, p)) => if ctrl_here(t, p, ')') {
                Ok((e, p + 1))
            } else {
                Err(fail(t, eoi, p, Expected::Tok(Token::Ctrl(')'))))
            },
        };
        let r2 = recover_group(t, pos, '(', ')', attempt, errs);
        assert(errs@ =~= e0 + recover(t@, pos as int, '(', ')', lift_expr(attempt), tier(t@, eoi, 0, pos + 1).1).1);
        r2
    } else if ctrl_here(t, pos, '[') {
        let r = parse_items(t, eoi, pos + 1, ']', Vec::new(), errs);
        assert(items_model(Seq::<Spanned<Expr>>::empty()) =~= Seq::empty());
        let attempt = match r {
            Err(x) => Err(x),
            Ok((xs, p)) => {
                let end = span_here(t, eoi, p - 1).end;
                Ok(((Expr::List(xs), Span { start: span.start, end }), p))
            },
        };
        let r2 = recover_group(t, pos, '[', ']', attempt, errs);
        assert(errs@ =~= e0 + recover(t@, pos as int, '[', ']', lift_expr(attempt), items(t@, eoi, pos + 1, ']', Seq::empty()).1).1);
        r2
    } else {
        assert(errs@ + Seq::<SyntaxError>::empty() =~= errs@);
        Err(fail(t, eoi, pos, Expected::Expression))
    }
}

fn ident_here(t: &Vec<Spanned<Token>>, i: usize) -> (r: Option<String>)
    ensures
        match r {
            Some(s) => ident_at(t@, i as int) == Some(s@),
            None => ident_at(t@, i as int) is None,
        },
        t@.len() <= usize::MAX,
{
    if i < t.len() {
        match &t[i].0 {
            Token::Ident(s) => Some(s.clone()),
            _ => None,
        }
    } else {
        None
    }
}

fn keyword_here(t: &Vec<Spanned<Token>>, i: usize, k: &Token) -> (r: bool)
    requires
        *k == Token::Fn || *k == Token::Class || *k == Token::As || *k == Token::Var || *k == Token::Ret,
    ensures
        r == (tok_at(t@, i as int) == Some(*k)),
        t@.len() <= usize::MAX,
{
    if i < t.len() {
        match (&t[i].0, k) {
            (Token::Fn, Token::Fn) => true,
            (Token::Class, Token::Class) => true,
            (Token::As, Token::As) => true,
            (Token::Var, Token::Var) => true,
            (Token::Ret, Token::Ret) => true,
            _ => false,
        }
    } else {
        false
    }
}

/// Parses an expression followed by `;` (see `terminated`).
fn parse_terminated(
    t: &Vec<Spanned<Token>>,
    eoi: usize,
    pos: usize,
    start: usize,
    kind: usize,
    name: String,
    ty: String,
    errs: &mut Vec<SyntaxError>,
) -> (r: Result<(Spanned<Expr>, usize), SyntaxError>)
    requires
        pos <= t@.len(),
    ensures
        lift_expr(r) == terminated(t@, eoi, pos as int, start, kind as nat, name@, ty@).0,
        final(errs)@ == old(errs)@ + terminated(t@, eoi, pos as int, start, kind as nat, name@, ty@).1,
        r is Ok ==> pos < ok_pos(r) <= t@.len(),
{
    let r = parse_tier(t, eoi, 0, pos, errs);
    match r {
        Err(x) => Err(x),
        Ok((v, p)) => if ctrl_here(t, p, ';') {
            let span = Span { start, end: t[p].1.end };
            let node = if kind == 0 {
                v
            } else if kind == 1 {
                (Expr::Ret(Box::new(v)), span)
            } else {
                (Expr::Var(name, ty, Box::new(v)), span)
            };
            Ok((node, p + 1))
        } else {
            Err(fail(t, eoi, p, Expected::Tok(Token::Ctrl(';'))))
        },
    }
}

/// Parses one statement at `pos` (see `stmt`).
fn parse_stmt(t: &Vec<Spanned<Token>>, eoi: usize, pos: usize, errs: &mut Vec<SyntaxError>) -> (r: Result<
    (Spanned<Expr>, usize),
    SyntaxError,
>)
    requires
        pos <= t@.len(),
    ensures
        lift_expr(r) == stmt(t@, eoi, pos as int).0,
        final(errs)@ == old(errs)@ + stmt(t@, eoi, pos as int).1,
        r is Ok ==> pos < ok_pos(r) <= t@.len(),
{
    let empty = String::new();
    if keyword_here(t, pos, &Token::Ret) {
        return parse_terminated(t, eoi, pos + 1, t[pos].1.start, 1, empty, String::new(), errs);
    }
    if !keyword_here(t, pos, &Token::Var) {
        return parse_terminated(t, eoi, pos, 0, 0, empty, String::new(), errs);
    }
    assert(errs@ + Seq::<SyntaxError>::empty() =~= errs@);
    let name = match ident_here(t, pos + 1) {
        Some(n) => n,
        None => return Err(fail(t, eoi, pos + 1, Expected::Identifier)),
    };
    if !keyword_here(t, pos + 2, &Token::As) {
        return Err(fail(t, eoi, pos + 2, Expected::Tok(Token::As)));
    }
    let ty = match ident_here(t, pos + 3) {
        Some(n) => n,
        None => return Err(fail(t, eoi, pos + 3, Expected::Identifier)),
    };
    if !op_here(t, pos + 4, "=") {
        return Err(fail(t, eoi, pos + 4, Expected::Assign));
    }
    parse_terminated(t, eoi, pos + 5, t[pos].1.start, 2, name, ty, errs)
}

/// Parses the statements after the first (see `stmts`).
fn parse_stmts(t: &Vec<Spanned<Token>>, eoi: usize, acc: Spanned<Expr>, pos: usize, errs: &mut Vec<SyntaxError>) -> (r:
    Result<(Spanned<Expr>, usize), SyntaxError>)
    requires
        pos <= t@.len(),
    ensures
        lift_expr(r) == stmts(t@, eoi, spanned_model(acc), pos as int).0,
        final(errs)@ == old(errs)@ + stmts(t@, eoi, spanned_model(acc), pos as int).1,
        r is Ok ==> pos <= ok_pos(r) <= t@.len(),
    decreases t@.len() - pos,
{
    if pos >= t.len() || ctrl_here(t, pos, '}') {
        assert(errs@ + Seq::<SyntaxError>::empty() =~= errs@);
        return Ok((acc, pos));
    }
    let ghost e0 = errs@;
    let r = parse_stmt(t, eoi, pos, errs);
    match r {
        Err(x) => Err(x),
        Ok((s, p)) => {
            let span = Span { start: acc.1.start, end: s.1.end };
            let node = (Expr::Then(Box::new(acc), Box::new(s)), span);
            let r2 = parse_stmts(t, eoi, node, p, errs);
            assert(errs@ =~= e0 + (stmt(t@, eoi, pos as int).1 + stmts(t@, eoi, spanned_model(node), p as int).1));
            r2
        },
    }
}

/// Parses one or more statements (see `chain`).
fn parse_chain(t: &Vec<Spanned<Token>>, eoi: usize, pos: usize, errs: &mut Vec<SyntaxError>) -> (r: Result<
    (Spanned<Expr>, usize),
    SyntaxError,
>)
    requires
        pos <= t@.len(),
    ensures
        lift_expr(r) == chain(t@, eoi, pos as int).0,
        final(errs)@ == old(errs)@ + chain(t@, eoi, pos as int).1,
        r is Ok ==> pos < ok_pos(r) <= t@.len(),
{
    let ghost e0 = errs@;
    let r = parse_stmt(t, eoi, pos, errs);
    match r {
        Err(x) => Err(x),
        Ok((s, p)) => {
            let r2 = parse_stmts(t, eoi, s, p, errs);
            assert(errs@ =~= e0 + (stmt(t@, eoi, pos as int).1 + stmts(t@, eoi, spanned_model(s), p as int).1));
            r2
        },
    }
}

/// Parses a function body at `pos` (see `body`).
fn parse_body(t: &Vec<Spanned<Token>>, eoi: usize, pos: usize, errs: &mut Vec<SyntaxError>) -> (r: Result<
    (Spanned<Expr>, usize),
    SyntaxError,
>)
    requires
        pos <= t@.len(),
    ensures
        lift_expr(r) == body(t@, eoi, pos as int).0,
        final(errs)@ == old(errs)@ + body(t@, eoi, pos as int).1,
        r is Ok ==> pos < ok_pos(r) <= t@.len(),
{
    if !ctrl_here(t, pos, '{') {
        assert(errs@ + Seq::<SyntaxError>::empty() =~= errs@);
        return Err(fail(t, eoi, pos, Expected::Tok(Token::Ctrl('{'))));
    }
    let ghost e0 = errs@;
    let r = parse_chain(t, eoi, pos + 1, errs);
    let attempt = match r {
        Err(x) => Err(x),
        Ok((b, q)) => if ctrl_here(t, q, '}') {
            Ok((b, q + 1))
        } else {
            Err(fail(t, eoi, q, Expected::Tok(Token::Ctrl('}'))))
        },
    };
    let r2 = recover_group(t, pos, '{', '}', attempt, errs);
    assert(errs@ =~= e0 + recover(t@, pos as int, '{', '}', lift_expr(attempt), chain(t@, eoi, pos + 1).1).1);
    r2
}

/// Parses identifiers separated by commas up to `close` (see `names`).
fn parse_names(t: &Vec<Spanned<Token>>, eoi: usize, pos: usize, close: char, acc: Vec<String>) -> (r: Result<
    (Vec<String>, usize),
    SyntaxError,
>)
    requires
        pos <= t@.len(),
    ensures
        match r {
            Ok((v, p)) => names(t@, eoi, pos as int, close, names_model(acc@)) == Ok::<(Seq<Seq<char>>, int), SyntaxError>(
                (names_model(v@), p as int),
            ) && pos < p <= t@.len(),
            Err(x) => names(t@, eoi, pos as int, close, names_model(acc@)) == Err::<(Seq<Seq<char>>, int), SyntaxError>(x),
        },
    decreases t@.len() - pos,
{
    if acc.len() == 0 && ctrl_here(t, pos, close) {
        return Ok((acc, pos + 1));
    }
    let n = match ident_here(t, pos) {
        Some(n) => n,
        None => return Err(fail(t, eoi, pos, Expected::Identifier)),
    };
    let mut acc = acc;
    let ghost old_acc = acc@;
    acc.push(n);
    assert(names_model(acc@) =~= names_model(old_acc).push(n@));
    if ctrl_here(t, pos + 1, ',') {
        parse_names(t, eoi, pos + 2, close, acc)
    } else if ctrl_here(t, pos + 1, close) {
        Ok((acc, pos + 2))
    } else {
        Err(fail(t, eoi, pos + 1, Expected::EitherTok(Token::Ctrl(','), Token::Ctrl(close))))
    }
}

/// Parses `name : type` pairs up to `)` (see `params`).
fn parse_params(t: &Vec<Spanned<Token>>, eoi: usize, pos: usize, acc: Vec<(String, String)>) -> (r: Result<
    (Vec<(String, String)>, usize),
    SyntaxError,
>)
    requires
        pos <= t@.len(),
    ensures
        match r {
            Ok((v, p)) => params(t@, eoi, pos as int, params_model(acc@)) == Ok::<
                (Seq<(Seq<char>, Seq<char>)>, int),
                SyntaxError,
            >((params_model(v@), p as int)) && pos < p <= t@.len(),
            Err(x) => params(t@, eoi, pos as int, params_model(acc@)) == Err::<
                (Seq<(Seq<char>, Seq<char>)>, int),
                SyntaxError,
            >(x),
        },
    decreases t@.len() - pos,
{
    if acc.len() == 0 && ctrl_here(t, pos, ')') {
        return Ok((acc, pos + 1));
    }
    let n = match ident_here(t, pos) {
        Some(n) => n,
        None => return Err(fail(t, eoi, pos, Expected::Identifier)),
    };
    if !ctrl_here(t, pos + 1, ':') {
        return Err(fail(t, eoi, pos + 1, Expected::Tok(Token::Ctrl(':'))));
    }
    let ty = match ident_here(t, pos + 2) {
        Some(n) => n,
        None => return Err(fail(t, eoi, pos + 2, Expected::Identifier)),
    };
    let mut acc = acc;
    let ghost old_acc = acc@;
    let ghost item = (n@, ty@);
    acc.push((n, ty));
    assert(params_model(acc@) =~= params_model(old_acc).push(item));
    if ctrl_here(t, pos + 3, ',') {
        parse_params(t, eoi, pos + 4, acc)
    } else if ctrl_here(t, pos + 3, ')') {
        Ok((acc, pos + 4))
    } else {
        Err(fail(t, eoi, pos + 3, Expected::EitherTok(Token::Ctrl(','), Token::Ctrl(')'))))
    }
}

/// Parses `fn name <generics>? ( params ) -> type` at `pos`: the name, the
/// signature and the position after the return type, exactly as `decl`
/// describes.
pub fn function_declaration_parser(t: &Vec<Spanned<Token>>, eoi: usize, pos: usize) -> (r: Result<
    ((String, FunctionSignature), usize),
    SyntaxError,
>)
    requires
        pos <= t@.len(),
    ensures
        match r {
            Ok(((name, sig), p)) => decl(t@, eoi, pos as int) == Ok::<((Seq<char>, SignatureModel), int), SyntaxError>(
                ((name@, signature_model(sig)), p as int),
            ) && pos < p <= t@.len(),
            Err(x) => decl(t@, eoi, pos as int) == Err::<((Seq<char>, SignatureModel), int), SyntaxError>(x),
        },
{
    if !keyword_here(t, pos, &Token::Fn) {
        return Err(fail(t, eoi, pos, Expected::Tok(Token::Fn)));
    }
    let name = match ident_here(t, pos + 1) {
        Some(n) => n,
        None => return Err(fail(t, eoi, pos + 1, Expected::Identifier)),
    };
    assert(names_model(Seq::<String>::empty()) =~= Seq::empty());
    assert(params_model(Seq::<(String, String)>::empty()) =~= Seq::empty());
    let (generic_params, q) = if ctrl_here(t, pos + 2, '<') {
        match parse_names(t, eoi, pos + 3, '>', Vec::new()) {
            Ok(g) => g,
            Err(x) => return Err(x),
        }
    } else {
        (Vec::new(), pos + 2)
    };
    if !ctrl_here(t, q, '(') {
        return Err(fail(t, eoi, q, Expected::Tok(Token::Ctrl('('))));
    }
    let (ps, r) = match parse_params(t, eoi, q + 1, Vec::new()) {
        Ok(x) => x,
        Err(x) => return Err(x),
    };
    if !op_here(t, r, "->") {
        return Err(fail(t, eoi, r, Expected::Arrow));
    }
    let return_type = match ident_here(t, r + 1) {
        Some(n) => n,
        None => return Err(fail(t, eoi, r + 1, Expected::Identifier)),
    };
    Ok(((name, FunctionSignature { return_type, params: ps, generic_params }), r + 2))
}

/// The model of an executable function-parse outcome.
pub open spec fn lift_fn(r: Result<(NamedFunction, usize), SyntaxError>) -> Result<(UnitModel, int), SyntaxError> {
    match r {
        Ok((f, p)) => Ok((unit_model(ProgramUnit::Function(f)), p as int)),
        Err(x) => Err(x),
    }
}

/// The model of an executable units-parse outcome.
pub open spec fn lift_units(r: Result<(Vec<ProgramUnit>, usize), SyntaxError>) -> Result<(Seq<UnitModel>, int), SyntaxError> {
    match r {
        Ok((v, p)) => Ok((units_model(v@), p as int)),
        Err(x) => Err(x),
    }
}

/// Parses a function definition at `pos`, recording in `errs` the errors
/// that recovery absorbed, exactly as `fn_def` describes.
pub fn function_definition_parser(t: &Vec<Spanned<Token>>, eoi: usize, pos: usize, errs: &mut Vec<SyntaxError>) -> (r:
    Result<(NamedFunction, usize), SyntaxError>)
    requires
        pos <= t@.len(),
    ensures
        lift_fn(r) == fn_def(t@, eoi, pos as int).0,
        final(errs)@ == old(errs)@ + fn_def(t@, eoi, pos as int).1,
        r is Ok ==> pos < ok_pos(r) <= t@.len(),
{
    match function_declaration_parser(t, eoi, pos) {
        Err(x) => {
            assert(errs@ + Seq::<SyntaxError>::empty() =~= errs@);
            Err(x)
        },
        Ok(((name, signature), p)) => match parse_body(t, eoi, p, errs) {
            Err(x) => Err(x),
            Ok((body, q)) => Ok((NamedFunction { name, definition: FunctionDefinition { signature, body } }, q)),
        },
    }
}

proof fn lemma_units_push(v: Seq<ProgramUnit>, u: ProgramUnit)
    ensures
        units_model(v.push(u)) == units_model(v).push(unit_model(u)),
{
    assert(units_model(v.push(u)) =~= units_model(v).push(unit_model(u)));
}

/// Parses the functions of a class up to its `}` (see `members`).
fn parse_members(
    t: &Vec<Spanned<Token>>,
    eoi: usize,
    pos: usize,
    acc: Vec<ProgramUnit>,
    errs: &mut Vec<SyntaxError>,
) -> (r: Result<(Vec<ProgramUnit>, usize), SyntaxError>)
    requires
        pos <= t@.len(),
    ensures
        lift_units(r) == members(t@, eoi, pos as int, units_model(acc@)).0,
        final(errs)@ == old(errs)@ + members(t@, eoi, pos as int, units_model(acc@)).1,
        r is Ok ==> pos < ok_pos(r) <= t@.len(),
    decreases t@.len() - pos,
{
    if ctrl_here(t, pos, '}') {
        assert(errs@ + Seq::<SyntaxError>::empty() =~= errs@);
        return Ok((acc, pos + 1));
    }
    if !keyword_here(t, pos, &Token::Fn) {
        assert(errs@ + Seq::<SyntaxError>::empty() =~= errs@);
        return Err(fail(t, eoi, pos, Expected::EitherTok(Token::Fn, Token::Ctrl('}'))));
    }
    let ghost e0 = errs@;
    match function_definition_parser(t, eoi, pos, errs) {
        Err(x) => Err(x),
        Ok((f, p)) => {
            let mut acc = acc;
            let u = ProgramUnit::Function(f);
            proof {
                lemma_units_push(acc@, u);
            }
            let ghost old_acc = acc@;
            acc.push(u);
            let r2 = parse_members(t, eoi, p, acc, errs);
            assert(errs@ =~= e0 + (fn_def(t@, eoi, pos as int).1 + members(
                t@,
                eoi,
                p as int,
                units_model(old_acc).push(unit_model(u)),
            ).1));
            r2
        },
    }
}

/// Parses `class name { functions }` at `pos` into the class marker
/// followed by its functions, exactly as `class` describes.
pub fn class_parser(t: &Vec<Spanned<Token>>, eoi: usize, pos: usize, errs: &mut Vec<SyntaxError>) -> (r: Result<
    (Vec<ProgramUnit>, usize),
    SyntaxError,
>)
    requires
        pos <= t@.len(),
    ensures
        lift_units(r) == class(t@, eoi, pos as int).0,
        final(errs)@ == old(errs)@ + class(t@, eoi, pos as int).1,
        r is Ok ==> pos < ok_pos(r) <= t@.len(),
{
    assert(errs@ + Seq::<SyntaxError>::empty() =~= errs@);
    if !keyword_here(t, pos, &Token::Class) {
        return Err(fail(t, eoi, pos, Expected::Tok(Token::Class)));
    }
    let name = match ident_here(t, pos + 1) {
        Some(n) => n,
        None => return Err(fail(t, eoi, pos + 1, Expected::Identifier)),
    };
    if !ctrl_here(t, pos + 2, '{') {
        return Err(fail(t, eoi, pos + 2, Expected::Tok(Token::Ctrl('{'))));
    }
    let mut acc = Vec::new();
    acc.push(ProgramUnit::Class(Class { name }));
    assert(units_model(acc@) =~= seq![UnitModel::Class(name@)]);
    parse_members(t, eoi, pos + 3, acc, errs)
}

/// Parses one unit at `pos` (see `unit`).
fn parse_unit(t: &Vec<Spanned<Token>>, eoi: usize, pos: usize, errs: &mut Vec<SyntaxError>) -> (r: Result<
    (Vec<ProgramUnit>, usize),
    SyntaxError,
>)
    requires
        pos <= t@.len(),
    ensures
        lift_units(r) == unit(t@, eoi, pos as int).0,
        final(errs)@ == old(errs)@ + unit(t@, eoi, pos as int).1,
        r is Ok ==> pos < ok_pos(r) <= t@.len(),
{
    if keyword_here(t, pos, &Token::Class) {
        class_parser(t, eoi, pos, errs)
    } else if keyword_here(t, pos, &Token::Fn) {
        match function_definition_parser(t, eoi, pos, errs) {
            Err(x) => Err(x),
            Ok((f, p)) => {
                let mut v = Vec::new();
                let u = ProgramUnit::Function(f);
                v.push(u);
                assert(units_model(v@) =~= seq![unit_model(u)]);
                Ok((v, p))
            },
        }
    } else {
        assert(errs@ + Seq::<SyntaxError>::empty() =~= errs@);
        Err(fail(t, eoi, pos, Expected::Unit))
    }
}

/// The first position from `i` on that starts a unit (see `next_unit`).
fn find_next_unit(t: &Vec<Spanned<Token>>, i: usize) -> (r: usize)
    requires
        i <= t@.len(),
    ensures
        r == next_unit(t@, i as int),
        i <= r <= t@.len(),
{
    let mut j = i;
    while j < t.len()
        invariant
            i <= j <= t@.len(),
            next_unit(t@, i as int) == next_unit(t@, j as int),
        decreases t@.len() - j,
    {
        if keyword_here(t, j, &Token::Fn) || keyword_here(t, j, &Token::Class) {
            return j;
        }
        j = j + 1;
    }
    j
}

/// Parses a whole token stream into program units. A unit that cannot be
/// parsed is recorded as an error and parsing resumes at the next `fn` or
/// `class` token, so the result is always a best-effort list; the units and
/// errors are exactly those of `program`.
pub fn program_parser(t: &Vec<Spanned<Token>>, eoi: usize) -> (r: (Vec<ProgramUnit>, Vec<SyntaxError>))
    ensures
        units_model(r.0@) == program(t@, eoi, 0, Seq::empty(), Seq::empty()).0,
        r.1@ == program(t@, eoi, 0, Seq::empty(), Seq::empty()).1,
{
    let mut units: Vec<ProgramUnit> = Vec::new();
    let mut errs: Vec<SyntaxError> = Vec::new();
    let mut pos: usize = 0;
    assert(units_model(units@) =~= Seq::empty());
    while pos < t.len()
        invariant
            pos <= t@.len(),
            program(t@, eoi, 0, Seq::empty(), Seq::empty()) == program(t@, eoi, pos as int, units_model(units@), errs@),
        decreases t@.len() - pos,
    {
        let ghost u0 = units@;
        let ghost e0 = errs@;
        match parse_unit(t, eoi, pos, &mut errs) {
            Ok((us, p)) => {
                let mut us = us;
                let ghost got = us@;
                units.append(&mut us);
                assert(units_model(units@) =~= units_model(u0) + units_model(got));
                pos = p;
            },
            Err(x) => {
                errs.push(x);
                let n = find_next_unit(t, pos + 1);
                assert(errs@ =~= e0 + unit(t@, eoi, pos as int).1.push(x));
                pos = n;
            },
        }
    }
    (units, errs)
}

/// The model of an executable whole-stream parse.
pub open spec fn lift_whole(r: (Option<Spanned<Expr>>, Vec<SyntaxError>)) -> (Option<(ExprModel, Span)>, Seq<SyntaxError>) {
    (
        match r.0 {
            Some(e) => Some(spanned_model(e)),
            None => None,
        },
        r.1@,
    )
}

/// Parses a whole token stream as one expression: its tree if the
/// expression reaches the end, with the errors met on the way.
pub fn raw_expression_parser(t: &Vec<Spanned<Token>>, eoi: usize) -> (r: (Option<Spanned<Expr>>, Vec<SyntaxError>))
    ensures
        lift_whole(r) == whole(t@, eoi, expr(t@, eoi, 0)),
{
    let mut errs = Vec::new();
    let r = parse_tier(t, eoi, 0, 0, &mut errs);
    assert(errs@ =~= expr(t@, eoi, 0).1);
    match r {
        Ok((e, p)) => if p == t.len() {
            (Some(e), errs)
        } else {
            errs.push(fail(t, eoi, p, Expected::End));
            (None, errs)
        },
        Err(x) => {
            errs.push(x);
            (None, errs)
        },
    }
}

/// Parses a whole token stream as a sequence of statements, as inside a
/// function body: the left-deep `Then` chain if it reaches the end, with
/// the errors met on the way.
pub fn expression_parser(t: &Vec<Spanned<Token>>, eoi: usize) -> (r: (Option<Spanned<Expr>>, Vec<SyntaxError>))
    ensures
        lift_whole(r) == whole(t@, eoi, chain(t@, eoi, 0)),
{
    let mut errs = Vec::new();
    let r = parse_chain(t, eoi, 0, &mut errs);
    assert(errs@ =~= chain(t@, eoi, 0).1);
    match r {
        Ok((e, p)) => if p == t.len() {
            (Some(e), errs)
        } else {
            errs.push(fail(t, eoi, p, Expected::End));
            (None, errs)
        },
        Err(x) => {
            errs.push(x);
            (None, errs)
        },
    }
}

} // verus!
