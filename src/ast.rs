//! The syntax tree: tokens, literal values, expressions, signatures and
//! program units, each node tagged with the source range it was parsed from.
use vstd::prelude::*;

use crate::text::char_text;

verus! {

/// A half-open range of offsets into the source text.
#[derive(Clone, Copy, Debug, PartialEq, Eq, Structural)]
pub struct Span {
    pub start: usize,
    pub end: usize,
}

/// A value together with the source range it came from.
pub type Spanned<T> = (T, Span);

/// A message attached to a source range.
pub struct Error {
    pub span: Span,
    pub msg: String,
}

/// A lexical token, as handed over by the scanner.
#[derive(Clone, Debug, PartialEq, Eq, Hash)]
pub enum Token {
    Null,
    Bool(bool),
    Num(String),
    Str(String),
    Op(String),
    Ctrl(char),
    Ident(String),
    Class,
    Fn,
    Var,
    Ret,
    As,
    If,
    Else,
}

/// The surface types of the language.
#[derive(Clone, Copy, Debug, PartialEq, Eq, Structural)]
pub enum Type {
    Void,
    Bool,
    F32,
    Str,
}

/// A literal payload. A number keeps the decimal text it was written with.
#[derive(Debug, PartialEq)]
pub enum Value {
    Null,
    Bool(bool),
    Num(String),
    Str(String),
    List(Vec<Value>),
    Func(String),
}

#[derive(Clone, Copy, Debug, PartialEq, Eq, Structural)]
pub enum BinaryOp {
    Add,
    Sub,
    Mul,
    Div,
    Eq,
    NotEq,
}

/// An expression. `Error` stands where the parser recovered from a
/// malformed group; `Then` runs its first part for effect and yields the
/// second.
#[derive(Debug)]
pub enum Expr {
    Error,
    Value(Value),
    List(Vec<Spanned<Expr>>),
    Local(String),
    Var(String, String, Box<Spanned<Expr>>),
    Then(Box<Spanned<Expr>>, Box<Spanned<Expr>>),
    Binary(Box<Spanned<Expr>>, BinaryOp, Box<Spanned<Expr>>),
    Call(Box<Spanned<Expr>>, Vec<Spanned<Expr>>),
    If(Box<Spanned<Expr>>, Box<Spanned<Expr>>, Box<Spanned<Expr>>),
    Ret(Box<Spanned<Expr>>),
}

/// Return type name, `(name, type name)` parameters and generic parameter
/// names of a function.
#[derive(Debug, Clone)]
pub struct FunctionSignature {
    pub return_type: String,
    pub params: Vec<(String, String)>,
    pub generic_params: Vec<String>,
}

#[derive(Debug)]
pub struct FunctionDefinition {
    pub signature: FunctionSignature,
    pub body: Spanned<Expr>,
}

#[derive(Debug)]
pub struct NamedFunction {
    pub name: String,
    pub definition: FunctionDefinition,
}

/// A class declaration: a marker that precedes its member functions.
#[derive(Debug, Clone)]
pub struct Class {
    pub name: String,
}

#[derive(Debug)]
pub enum ProgramUnit {
    Class(Class),
    Function(NamedFunction),
}

/// An expression as a mathematical tree: names as character sequences,
/// argument and item lists as sequences.
pub enum ExprModel {
    Error,
    Value(Value),
    List(Seq<(ExprModel, Span)>),
    Local(Seq<char>),
    Var(Seq<char>, Seq<char>, Box<(ExprModel, Span)>),
    Then(Box<(ExprModel, Span)>, Box<(ExprModel, Span)>),
    Binary(Box<(ExprModel, Span)>, BinaryOp, Box<(ExprModel, Span)>),
    Call(Box<(ExprModel, Span)>, Seq<(ExprModel, Span)>),
    If(Box<(ExprModel, Span)>, Box<(ExprModel, Span)>, Box<(ExprModel, Span)>),
    Ret(Box<(ExprModel, Span)>),
}

/// The model of a spanned expression.
pub open spec fn spanned_model(e: Spanned<Expr>) -> (ExprModel, Span)
    decreases e,
{
    (expr_model(e.0), e.1)
}

/// The model of each item of a list of spanned expressions.
pub open spec fn items_model(v: Seq<Spanned<Expr>>) -> Seq<(ExprModel, Span)>
    decreases v,
{
    Seq::new(v.len(), |i: int| if 0 <= i < v.len() { spanned_model(v[i]) } else { (ExprModel::Error, Span { start: 0, end: 0 }) })
}

/// The model of an expression.
pub open spec fn expr_model(e: Expr) -> ExprModel
    decreases e,
{
    match e {
        Expr::Error => ExprModel::Error,
        Expr::Value(v) => ExprModel::Value(v),
        Expr::List(xs) => ExprModel::List(items_model(xs@)),
        Expr::Local(n) => ExprModel::Local(n@),
        Expr::Var(n, t, b) => ExprModel::Var(n@, t@, Box::new(spanned_model(*b))),
        Expr::Then(a, b) => ExprModel::Then(Box::new(spanned_model(*a)), Box::new(spanned_model(*b))),
        Expr::Binary(a, op, b) => ExprModel::Binary(Box::new(spanned_model(*a)), op, Box::new(spanned_model(*b))),
        Expr::Call(f, xs) => ExprModel::Call(Box::new(spanned_model(*f)), items_model(xs@)),
        Expr::If(c, a, b) => ExprModel::If(Box::new(spanned_model(*c)), Box::new(spanned_model(*a)), Box::new(spanned_model(*b))),
        Expr::Ret(a) => ExprModel::Ret(Box::new(spanned_model(*a))),
    }
}

/// A signature as a mathematical value.
pub struct SignatureModel {
    pub return_type: Seq<char>,
    pub params: Seq<(Seq<char>, Seq<char>)>,
    pub generic_params: Seq<Seq<char>>,
}

pub open spec fn names_model(v: Seq<String>) -> Seq<Seq<char>> {
    v.map_values(|g: String| g@)
}

pub open spec fn params_model(v: Seq<(String, String)>) -> Seq<(Seq<char>, Seq<char>)> {
    v.map_values(|p: (String, String)| (p.0@, p.1@))
}

pub open spec fn signature_model(s: FunctionSignature) -> SignatureModel {
    SignatureModel {
        return_type: s.return_type@,
        params: params_model(s.params@),
        generic_params: names_model(s.generic_params@),
    }
}

/// A program unit as a mathematical value.
pub enum UnitModel {
    Class(Seq<char>),
    Function(Seq<char>, SignatureModel, (ExprModel, Span)),
}

pub open spec fn unit_model(u: ProgramUnit) -> UnitModel {
    match u {
        ProgramUnit::Class(c) => UnitModel::Class(c.name@),
        ProgramUnit::Function(f) => UnitModel::Function(
            f.name@,
            signature_model(f.definition.signature),
            spanned_model(f.definition.body),
        ),
    }
}

pub open spec fn units_model(v: Seq<ProgramUnit>) -> Seq<UnitModel> {
    v.map_values(|u: ProgramUnit| unit_model(u))
}

/// The text of a value, as a diagnostic shows it.
pub open spec fn value_text(v: Value) -> Seq<char>
    decreases v,
{
    match v {
        Value::Null => "null"@,
        Value::Bool(b) => if b { "true"@ } else { "false"@ },
        Value::Num(t) => t@,
        Value::Str(s) => s@,
        Value::List(xs) => "["@ + items_text(xs@, xs@.len() as int) + "]"@,
        Value::Func(name) => "<function: "@ + name@ + ">"@,
    }
}

/// The first `n` items of `xs`, separated by `", "`.
pub open spec fn items_text(xs: Seq<Value>, n: int) -> Seq<char>
    decreases xs, n,
{
    if n <= 0 || n > xs.len() {
        Seq::empty()
    } else if n == 1 {
        value_text(xs[0])
    } else {
        items_text(xs, n - 1) + ", "@ + value_text(xs[n - 1])
    }
}

/// The text of a token, as a diagnostic shows it.
pub open spec fn token_text(t: Token) -> Seq<char> {
    match t {
        Token::Null => "null"@,
        Token::Bool(b) => if b { "true"@ } else { "false"@ },
        Token::Num(s) => s@,
        Token::Str(s) => s@,
        Token::Op(s) => s@,
        Token::Ctrl(c) => seq![c],
        Token::Ident(s) => s@,
        Token::Class => "class"@,
        Token::Fn => "fn"@,
        Token::Var => "var"@,
        Token::Ret => "return"@,
        Token::As => "as"@,
        Token::If => "if"@,
        Token::Else => "else"@,
    }
}

fn lit(s: &str) -> (r: String)
    ensures
        r@ == s@,
{
    String::from_str(s)
}

impl Value {
    /// The decimal text of a number; any other value is an error at `span`
    /// that names the value.
    pub fn num(self, span: Span) -> (r: Result<String, Error>)
        ensures
            match self {
                Value::Num(t) => r == Ok::<String, Error>(t),
                _ => r is Err && r->Err_0.span == span && r->Err_0.msg@ == "'"@ + value_text(
                    self,
                ) + "' is not a number"@,
            },
    {
        match self {
            Value::Num(t) => Ok(t),
            _ => {
                let msg = lit("'").concat(self.to_text().as_str()).concat("' is not a number");
                Err(Error { span, msg })
            },
        }
    }

    /// The text of the value, as a diagnostic shows it.
    pub fn to_text(&self) -> (r: String)
        ensures
            r@ == value_text(*self),
        decreases *self,
    {
        match self {
            Value::Null => lit("null"),
            Value::Bool(b) => if *b {
                lit("true")
            } else {
                lit("false")
            },
            Value::Num(t) => t.clone(),
            Value::Str(s) => s.clone(),
            Value::List(xs) => {
                let mut out = lit("[");
                let mut i: usize = 0;
                while i < xs.len()
                    invariant
                        0 <= i <= xs@.len(),
                        *self == Value::List(*xs),
                        out@ == "["@ + items_text(xs@, i as int),
                    decreases xs@.len() - i,
                {
                    if i > 0 {
                        out = out.concat(", ");
                    }
                    proof {
                        vstd::std_specs::vec::axiom_vec_index_decreases(*xs, i as int);
                        assert(decreases_to!(*self => xs@[i as int]) ) by {
                            assert(decreases_to!(*self => self->List_0));
                            assert(decreases_to!(*xs => xs@));
                        }
                    }
                    let item = xs[i].to_text();
                    out = out.concat(item.as_str());
                    i = i + 1;
                }
                out.concat("]")
            },
            Value::Func(name) => lit("<function: ").concat(name.as_str()).concat(">"),
        }
    }
}

impl Token {
    /// The text of the token, as a diagnostic shows it.
    pub fn to_text(&self) -> (r: String)
        ensures
            r@ == token_text(*self),
    {
        match self {
            Token::Null => lit("null"),
            Token::Bool(b) => if *b {
                lit("true")
            } else {
                lit("false")
            },
            Token::Num(s) => s.clone(),
            Token::Str(s) => s.clone(),
            Token::Op(s) => s.clone(),
            Token::Ctrl(c) => char_text(*c),
            Token::Ident(s) => s.clone(),
            Token::Class => lit("class"),
            Token::Fn => lit("fn"),
            Token::Var => lit("var"),
            Token::Ret => lit("return"),
            Token::As => lit("as"),
            Token::If => lit("if"),
            Token::Else => lit("else"),
        }
    }
}

impl Clone for Value {
    fn clone(&self) -> Self
        decreases *self,
    {
        match self {
            Value::Null => Value::Null,
            Value::Bool(b) => Value::Bool(*b),
            Value::Num(t) => Value::Num(t.clone()),
            Value::Str(t) => Value::Str(t.clone()),
            Value::List(xs) => {
                let mut out: Vec<Value> = Vec::new();
                let mut i: usize = 0;
                while i < xs.len()
                    invariant
                        i <= xs@.len(),
                        *self == Value::List(*xs),
                    decreases xs@.len() - i,
                {
                    proof {
                        vstd::std_specs::vec::axiom_vec_index_decreases(*xs, i as int);
                        assert(decreases_to!(*self => xs@[i as int])) by {
                            assert(decreases_to!(*self => self->List_0));
                            assert(decreases_to!(*xs => xs@));
                        }
                    }
                    out.push(xs[i].clone());
                    i = i + 1;
                }
                Value::List(out)
            },
            Value::Func(t) => Value::Func(t.clone()),
        }
    }
}

/// A copy of a spanned expression.
fn clone_spanned(e: &Spanned<Expr>) -> Spanned<Expr>
    decreases *e, 1int,
{
    (clone_expr(&e.0), e.1)
}

fn clone_items(xs: &Vec<Spanned<Expr>>) -> Vec<Spanned<Expr>>
    decreases *xs, 0int,
{
    let mut out: Vec<Spanned<Expr>> = Vec::new();
    let mut i: usize = 0;
    while i < xs.len()
        invariant
            i <= xs@.len(),
        decreases xs@.len() - i,
    {
        proof {
            vstd::std_specs::vec::axiom_vec_index_decreases(*xs, i as int);
        }
        out.push(clone_spanned(&xs[i]));
        i = i + 1;
    }
    out
}

fn clone_expr(e: &Expr) -> Expr
    decreases *e, 2int,
{
    match e {
        Expr::Error => Expr::Error,
        Expr::Value(v) => Expr::Value(v.clone()),
        Expr::List(xs) => Expr::List(clone_items(xs)),
        Expr::Local(n) => Expr::Local(n.clone()),
        Expr::Var(n, t, v) => Expr::Var(n.clone(), t.clone(), Box::new(clone_spanned(v))),
        Expr::Then(a, b) => Expr::Then(Box::new(clone_spanned(a)), Box::new(clone_spanned(b))),
        Expr::Binary(a, op, b) => Expr::Binary(Box::new(clone_spanned(a)), *op, Box::new(clone_spanned(b))),
        Expr::Call(f, xs) => Expr::Call(Box::new(clone_spanned(f)), clone_items(xs)),
        Expr::If(c, a, b) => Expr::If(Box::new(clone_spanned(c)), Box::new(clone_spanned(a)), Box::new(clone_spanned(b))),
        Expr::Ret(v) => Expr::Ret(Box::new(clone_spanned(v))),
    }
}

impl Clone for Expr {
    fn clone(&self) -> Self {
        clone_expr(self)
    }
}

impl Clone for FunctionDefinition {
    fn clone(&self) -> Self {
        FunctionDefinition { signature: self.signature.clone(), body: clone_spanned(&self.body) }
    }
}

impl Clone for NamedFunction {
    fn clone(&self) -> Self {
        NamedFunction { name: self.name.clone(), definition: self.definition.clone() }
    }
}

impl Clone for ProgramUnit {
    fn clone(&self) -> Self {
        match self {
            ProgramUnit::Class(c) => ProgramUnit::Class(c.clone()),
            ProgramUnit::Function(f) => ProgramUnit::Function(f.clone()),
        }
    }
}

} // verus!
