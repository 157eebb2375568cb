//! Type-directed lowering of the syntax tree into the SSA-style module of
//! `ir`. A signature table of every function is built first; each function
//! is then lowered on its own, and a failure drops only that function.
use vstd::prelude::*;

use crate::ast::{
    names_model, params_model, signature_model, units_model, BinaryOp, Expr, FunctionDefinition, FunctionSignature, ProgramUnit, SignatureModel,
    Span, Spanned, UnitModel, Value,
};
use crate::ir::{
    first_ret, fold_const, function_model, functions_model, is_float, join, value_type, widens_to, ArithOp, Inst,
    IrFunction, IrFunctionModel, IrType, IrValue, Module,
};
use crate::text::text_eq;

verus! {

/// A construct the generator does not lower.
#[derive(Clone, Copy, Debug, PartialEq, Eq, Structural)]
pub enum Feature {
    Null,
    Bool,
    Str,
    List,
    FunctionValue,
    Call,
    Conditional,
    Equality,
}

#[derive(Debug, Clone, PartialEq)]
pub enum GenErrorKind {
    UnknownVariable(String),
    UnknownType(String),
    Unimplemented(Feature),
    /// Reserved for argument counts that differ from the callee's
    /// parameters; not raised while calls are not lowered.
    ArityMismatch { expected: usize, actual: usize },
    /// A value that would have to be narrowed to fit where it goes.
    TypeMismatch { expected: IrType, found: IrType },
    /// The body does not end in a return.
    MissingReturn,
    /// Instructions follow the body's first return. A body is one block of
    /// straight-line code, so they would follow the block's terminator; the
    /// function is rejected before emission, as one lacking a return is.
    CodeAfterReturn,
    /// A node that stood in for a syntax error reached the generator.
    Malformed,
}

#[derive(Debug, Clone, PartialEq)]
pub struct GenError {
    pub span: Span,
    pub kind: GenErrorKind,
}

/// Every function's name and signature, in program order; a later entry
/// shadows an earlier one of the same name.
pub struct SignatureTable {
    pub entries: Vec<(String, FunctionSignature)>,
}

pub open spec fn table_model(t: Seq<(String, FunctionSignature)>) -> Seq<(Seq<char>, SignatureModel)> {
    t.map_values(|e: (String, FunctionSignature)| (e.0@, signature_model(e.1)))
}

/// The last of the first `n` entries named `name`.
pub open spec fn lookup_sig(t: Seq<(Seq<char>, SignatureModel)>, name: Seq<char>, n: int) -> Option<SignatureModel>
    decreases n,
{
    if n <= 0 || n > t.len() {
        None
    } else if t[n - 1].0 == name {
        Some(t[n - 1].1)
    } else {
        lookup_sig(t, name, n - 1)
    }
}

pub open spec fn find_sig(t: Seq<(Seq<char>, SignatureModel)>, name: Seq<char>) -> Option<SignatureModel> {
    lookup_sig(t, name, t.len() as int)
}

/// The signatures of the function units of `us`, in order.
pub open spec fn sigs(us: Seq<UnitModel>) -> Seq<(Seq<char>, SignatureModel)>
    decreases us.len(),
{
    if us.len() == 0 {
        Seq::empty()
    } else {
        sigs(us.drop_last()) + match us.last() {
            UnitModel::Function(name, sig, _) => seq![(name, sig)],
            UnitModel::Class(_) => Seq::empty(),
        }
    }
}

/// The slot of the latest of the first `n` bindings of `name`.
pub open spec fn lookup_slot(s: Seq<(String, usize)>, name: Seq<char>, n: int) -> Option<usize>
    decreases n,
{
    if n <= 0 || n > s.len() {
        None
    } else if s[n - 1].0@ == name {
        Some(s[n - 1].1)
    } else {
        lookup_slot(s, name, n - 1)
    }
}

/// The machine type a type name denotes.
pub open spec fn type_of_name(s: Seq<char>) -> Option<IrType> {
    if s == "f32"@ {
        Some(IrType::F32)
    } else if s == "f64"@ {
        Some(IrType::F64)
    } else if s == "i32"@ {
        Some(IrType::I32)
    } else if s == "i64"@ {
        Some(IrType::I64)
    } else {
        None
    }
}

pub open spec fn is_digit(c: char) -> bool {
    '0' <= c <= '9'
}

/// The value of the first `i` characters of `s` read as decimal digits.
pub open spec fn number_prefix(s: Seq<char>, i: int) -> int
    decreases i,
{
    if i <= 0 || i > s.len() {
        0
    } else {
        number_prefix(s, i - 1) * 10 + (s[i - 1] as int - '0' as int)
    }
}

/// The first position from `i` on that is not a decimal digit.
pub open spec fn digits_end(s: Seq<char>, i: int) -> int
    decreases s.len() - i,
{
    if i < 0 || i >= s.len() || !is_digit(s[i]) {
        i
    } else {
        digits_end(s, i + 1)
    }
}

/// The 32-bit integer constant of a numeric literal: its integer part
/// (the fraction is dropped), kept to its low 32 bits, read as signed.
pub open spec fn literal_value(s: Seq<char>) -> int {
    let m = number_prefix(s, digits_end(s, 0)) % 4294967296;
    if m >= 2147483648 {
        m - 4294967296
    } else {
        m
    }
}

/// The generator's state inside one function: the variable bindings in
/// order of declaration, the stack slots, the body so far, the return type.
pub struct GenState {
    pub scope: Seq<(String, usize)>,
    pub slots: Seq<IrType>,
    pub body: Seq<Inst>,
    pub ret: IrType,
}

pub open spec fn emit(st: GenState, inst: Inst, ty: IrType) -> (IrValue, GenState) {
    (
        IrValue::Reg { ty, id: st.body.len() as usize },
        GenState { scope: st.scope, slots: st.slots, body: st.body.push(inst), ret: st.ret },
    )
}

/// `v` widened to `to`; an integer constant stays a constant.
pub open spec fn convert(st: GenState, v: IrValue, to: IrType) -> (IrValue, GenState) {
    let from = value_type(v);
    if from == to {
        (v, st)
    } else if is_float(to) {
        if is_float(from) {
            emit(st, Inst::FloatExtend { ty: to, value: v }, to)
        } else {
            emit(st, Inst::IntToFloat { ty: to, value: v }, to)
        }
    } else {
        match v {
            IrValue::ConstInt { value, .. } => (IrValue::ConstInt { ty: to, value }, st),
            IrValue::Reg { .. } => emit(st, Inst::SignExtend { ty: to, value: v }, to),
        }
    }
}

/// An arithmetic operation on two operands of one type; two integer
/// constants fold when the exact result fits.
pub open spec fn arith(st: GenState, op: ArithOp, a: IrValue, b: IrValue) -> (IrValue, GenState) {
    let t = value_type(a);
    if is_float(t) {
        emit(st, Inst::FloatOp { op, ty: t, lhs: a, rhs: b }, t)
    } else {
        match (a, b) {
            (IrValue::ConstInt { value: x, .. }, IrValue::ConstInt { value: y, .. }) => match fold_const(
                op,
                t,
                x as int,
                y as int,
            ) {
                Some(v) => (IrValue::ConstInt { ty: t, value: v as i64 }, st),
                None => emit(st, Inst::IntOp { op, ty: t, lhs: a, rhs: b }, t),
            },
            _ => emit(st, Inst::IntOp { op, ty: t, lhs: a, rhs: b }, t),
        }
    }
}

pub open spec fn arith_op(op: BinaryOp) -> Option<ArithOp> {
    match op {
        BinaryOp::Add => Some(ArithOp::Add),
        BinaryOp::Sub => Some(ArithOp::Sub),
        BinaryOp::Mul => Some(ArithOp::Mul),
        BinaryOp::Div => Some(ArithOp::Div),
        _ => None,
    }
}

pub open spec fn literal_feature(v: Value) -> Feature {
    match v {
        Value::Null => Feature::Null,
        Value::Bool(_) => Feature::Bool,
        Value::Str(_) => Feature::Str,
        Value::List(_) => Feature::List,
        _ => Feature::FunctionValue,
    }
}

pub open spec fn fails(span: Span, kind: GenErrorKind, st: GenState) -> (Result<IrValue, GenError>, GenState) {
    (Err(GenError { span, kind }), st)
}

/// Lowers `e` with the signature table `table` from state `st`: the value
/// it yields, or the error that stopped it, and the state after.
///
/// A return yields the value it lowered; the value it returns is that value
/// widened to the function's return type (integer to floating, narrower to
/// wider, never narrowed), since the return must have the function's type.
/// A call is not lowered and fails as unimplemented.
pub open spec fn lower(e: Spanned<Expr>, table: Seq<(Seq<char>, SignatureModel)>, st: GenState) -> (
    Result<IrValue, GenError>,
    GenState,
)
    decreases e,
{
    match e.0 {
        Expr::Error => fails(e.1, GenErrorKind::Malformed, st),
        Expr::Value(v) => match v {
            Value::Num(t) => (Ok(IrValue::ConstInt { ty: IrType::I32, value: literal_value(t@) as i64 }), st),
            _ => fails(e.1, GenErrorKind::Unimplemented(literal_feature(v)), st),
        },
        Expr::List(_) => fails(e.1, GenErrorKind::Unimplemented(Feature::List), st),
        Expr::Local(name) => match lookup_slot(st.scope, name@, st.scope.len() as int) {
            None => fails(e.1, GenErrorKind::UnknownVariable(name), st),
            Some(slot) => {
                let ty = st.slots[slot as int];
                let (v, st2) = emit(st, Inst::Load { slot, ty }, ty);
                (Ok(v), st2)
            },
        },
        Expr::Var(name, tyname, init) => match type_of_name(tyname@) {
            None => fails(e.1, GenErrorKind::UnknownType(tyname), st),
            Some(ty) => {
                let slot = st.slots.len() as usize;
                let st1 = GenState { scope: st.scope, slots: st.slots.push(ty), body: st.body, ret: st.ret };
                let (r, st2) = lower(*init, table, st1);
                match r {
                    Err(x) => (Err(x), st2),
                    Ok(v) => if !widens_to(value_type(v), ty) {
                        fails(e.1, GenErrorKind::TypeMismatch { expected: ty, found: value_type(v) }, st2)
                    } else {
                        let (v2, st3) = convert(st2, v, ty);
                        (
                            Ok(v2),
                            GenState {
                                scope: st3.scope.push((name, slot)),
                                slots: st3.slots,
                                body: st3.body.push(Inst::Store { slot, value: v2 }),
                                ret: st3.ret,
                            },
                        )
                    },
                }
            },
        },
        Expr::Then(a, b) => {
            let (r, st1) = lower(*a, table, st);
            match r {
                Err(x) => (Err(x), st1),
                Ok(_) => lower(*b, table, st1),
            }
        },
        Expr::Binary(a, op, b) => match arith_op(op) {
            None => fails(e.1, GenErrorKind::Unimplemented(Feature::Equality), st),
            Some(aop) => {
                let (ra, st1) = lower(*a, table, st);
                match ra {
                    Err(x) => (Err(x), st1),
                    Ok(va) => {
                        let (rb, st2) = lower(*b, table, st1);
                        match rb {
                            Err(x) => (Err(x), st2),
                            Ok(vb) => {
                                let t = join(value_type(va), value_type(vb));
                                let (ca, st3) = convert(st2, va, t);
                                let (cb, st4) = convert(st3, vb, t);
                                let (v, st5) = arith(st4, aop, ca, cb);
                                (Ok(v), st5)
                            },
                        }
                    },
                }
            },
        },
        Expr::Call(..) => fails(e.1, GenErrorKind::Unimplemented(Feature::Call), st),
        Expr::If(..) => fails(e.1, GenErrorKind::Unimplemented(Feature::Conditional), st),
        Expr::Ret(v) => {
            let (r, st1) = lower(*v, table, st);
            match r {
                Err(x) => (Err(x), st1),
                Ok(x) => if !widens_to(value_type(x), st1.ret) {
                    fails(e.1, GenErrorKind::TypeMismatch { expected: st1.ret, found: value_type(x) }, st1)
                } else {
                    let (c, st2) = convert(st1, x, st1.ret);
                    (
                        Ok(x),
                        GenState { scope: st2.scope, slots: st2.slots, body: st2.body.push(Inst::Ret { value: c }), ret: st2.ret },
                    )
                },
            }
        },
    }
}

/// The state of lowering one function: bindings, slots, body, return type.
pub struct FunctionBuilder {
    pub scope: Vec<(String, usize)>,
    pub slots: Vec<IrType>,
    pub body: Vec<Inst>,
    pub ret: IrType,
}

impl FunctionBuilder {
    pub open spec fn state(&self) -> GenState {
        GenState { scope: self.scope@, slots: self.slots@, body: self.body@, ret: self.ret }
    }

    /// Every binding names an existing slot.
    pub open spec fn wf(&self) -> bool {
        forall|i: int| 0 <= i < self.scope@.len() ==> (#[trigger] self.scope@[i]).1 < self.slots@.len()
    }

    /// An empty function body returning `ret`.
    pub fn new(ret: IrType) -> (r: FunctionBuilder)
        ensures
            r.wf(),
            r.state() == (GenState { scope: Seq::empty(), slots: Seq::empty(), body: Seq::empty(), ret }),
    {
        FunctionBuilder { scope: Vec::new(), slots: Vec::new(), body: Vec::new(), ret }
    }

    fn emit(&mut self, inst: Inst, ty: IrType) -> (r: IrValue)
        requires
            old(self).wf(),
        ensures
            final(self).wf(),
            (r, final(self).state()) == emit(old(self).state(), inst, ty),
    {
        let id = self.body.len();
        self.body.push(inst);
        IrValue::Reg { ty, id }
    }

    fn convert(&mut self, v: IrValue, to: IrType) -> (r: IrValue)
        requires
            old(self).wf(),
        ensures
            final(self).wf(),
            (r, final(self).state()) == convert(old(self).state(), v, to),
    {
        let from = match v {
            IrValue::ConstInt { ty, .. } => ty,
            IrValue::Reg { ty, .. } => ty,
        };
        if from == to {
            v
        } else if to == IrType::F32 || to == IrType::F64 {
            if from == IrType::F32 || from == IrType::F64 {
                self.emit(Inst::FloatExtend { ty: to, value: v }, to)
            } else {
                self.emit(Inst::IntToFloat { ty: to, value: v }, to)
            }
        } else {
            match v {
                IrValue::ConstInt { value, .. } => IrValue::ConstInt { ty: to, value },
                IrValue::Reg { .. } => self.emit(Inst::SignExtend { ty: to, value: v }, to),
            }
        }
    }

    fn arith(&mut self, op: ArithOp, a: IrValue, b: IrValue) -> (r: IrValue)
        requires
            old(self).wf(),
        ensures
            final(self).wf(),
            (r, final(self).state()) == arith(old(self).state(), op, a, b),
    {
        let t = match a {
            IrValue::ConstInt { ty, .. } => ty,
            IrValue::Reg { ty, .. } => ty,
        };
        if t == IrType::F32 || t == IrType::F64 {
            return self.emit(Inst::FloatOp { op, ty: t, lhs: a, rhs: b }, t);
        }
        if let (IrValue::ConstInt { value: x, .. }, IrValue::ConstInt { value: y, .. }) = (a, b) {
            if let Some(v) = fold_ints(op, t, x, y) {
                return IrValue::ConstInt { ty: t, value: v };
            }
        }
        self.emit(Inst::IntOp { op, ty: t, lhs: a, rhs: b }, t)
    }

    /// The slot of the latest binding of `name`.
    fn lookup(&self, name: &String) -> (r: Option<usize>)
        requires
            self.wf(),
        ensures
            r == lookup_slot(self.scope@, name@, self.scope@.len() as int),
            r matches Some(slot) ==> slot < self.slots@.len(),
    {
        let mut i = self.scope.len();
        while i > 0
            invariant
                i <= self.scope@.len(),
                self.wf(),
                lookup_slot(self.scope@, name@, self.scope@.len() as int) == lookup_slot(self.scope@, name@, i as int),
            decreases i,
        {
            if text_eq(self.scope[i - 1].0.as_str(), name.as_str()) {
                return Some(self.scope[i - 1].1);
            }
            i = i - 1;
        }
        None
    }
}

/// Folds an integer operation on two constants of type `t` when the exact
/// result fits (see `fold_const`).
fn fold_ints(op: ArithOp, t: IrType, x: i64, y: i64) -> (r: Option<i64>)
    ensures
        match fold_const(op, t, x as int, y as int) {
            Some(v) => r == Some(v as i64) && v == r->0 as int,
            None => r is None,
        },
{
    let a = x as i128;
    let b = y as i128;
    let v: i128 = match op {
        ArithOp::Add => a + b,
        ArithOp::Sub => a - b,
        ArithOp::Mul => {
            assert(-0x4000_0000_0000_0000_0000_0000_0000_0000 <= a * b <= 0x4000_0000_0000_0000_0000_0000_0000_0000) by (nonlinear_arith)
                requires
                    -0x8000_0000_0000_0000 <= a <= 0x7fff_ffff_ffff_ffff,
                    -0x8000_0000_0000_0000 <= b <= 0x7fff_ffff_ffff_ffff,
            ;
            a * b
        },
        ArithOp::Div => return None,
    };
    let fits = match t {
        IrType::I32 => -0x8000_0000i128 <= v && v <= 0x7fff_ffffi128,
        _ => -0x8000_0000_0000_0000i128 <= v && v <= 0x7fff_ffff_ffff_ffffi128,
    };
    if fits {
        Some(v as i64)
    } else {
        None
    }
}

/// The machine type a type name denotes (see `type_of_name`).
fn type_named(typename: &str) -> (r: Option<IrType>)
    ensures
        r == type_of_name(typename@),
{
    if text_eq(typename, "f32") {
        Some(IrType::F32)
    } else if text_eq(typename, "f64") {
        Some(IrType::F64)
    } else if text_eq(typename, "i32") {
        Some(IrType::I32)
    } else if text_eq(typename, "i64") {
        Some(IrType::I64)
    } else {
        None
    }
}

/// The constant of a numeric literal (see `literal_value`).
pub fn literal_constant(text: &str) -> (r: i64)
    ensures
        r as int == literal_value(text@),
{
    let n = text.unicode_len();
    let mut i: usize = 0;
    let mut acc: u64 = 0;
    while i < n && '0' <= text.get_char(i) && text.get_char(i) <= '9'
        invariant
            n == text@.len(),
            i <= n,
            acc as int == number_prefix(text@, i as int) % 4294967296,
            digits_end(text@, 0) == digits_end(text@, i as int),
        decreases n - i,
    {
        let d = (text.get_char(i) as u32 - '0' as u32) as u64;
        proof {
            let p = number_prefix(text@, i as int);
            assert(number_prefix(text@, i as int + 1) == p * 10 + d);
            vstd::arithmetic::div_mod::lemma_mul_mod_noop_left(p, 10, 4294967296);
            vstd::arithmetic::div_mod::lemma_add_mod_noop(p * 10, d as int, 4294967296);
            vstd::arithmetic::div_mod::lemma_add_mod_noop((p % 4294967296) * 10, d as int, 4294967296);
            vstd::arithmetic::div_mod::lemma_mod_twice(d as int, 4294967296);
        }
        acc = (acc * 10 + d) % 4294967296;
        i = i + 1;
    }
    assert(digits_end(text@, i as int) == i as int);
    if acc >= 2147483648 {
        (acc as i64) - 4294967296
    } else {
        acc as i64
    }
}

/// Types of the `(name, type name)` parameters from index `i` on, after
/// those already in `acc`; the first type name that denotes no type is the
/// error.
pub open spec fn param_types(ps: Seq<(String, String)>, i: int, acc: Seq<IrType>) -> Result<Seq<IrType>, String>
    decreases ps.len() - i,
{
    if i < 0 || i >= ps.len() {
        Ok(acc)
    } else {
        match type_of_name(ps[i].1@) {
            None => Err(ps[i].1),
            Some(t) => param_types(ps, i + 1, acc.push(t)),
        }
    }
}

/// Compiles one function definition named `name`: its parameter and return
/// types, its body lowered from an empty scope, and the check that the
/// body's first return is its last instruction.
pub open spec fn compile_fn(name: Seq<char>, def: FunctionDefinition, table: Seq<(Seq<char>, SignatureModel)>) -> Result<
    IrFunctionModel,
    GenError,
> {
    match param_types(def.signature.params@, 0, Seq::empty()) {
        Err(s) => Err(GenError { span: def.body.1, kind: GenErrorKind::UnknownType(s) }),
        Ok(ps) => match type_of_name(def.signature.return_type@) {
            None => Err(GenError { span: def.body.1, kind: GenErrorKind::UnknownType(def.signature.return_type) }),
            Some(ret) => {
                let st0 = GenState { scope: Seq::empty(), slots: Seq::empty(), body: Seq::empty(), ret };
                let (r, st) = lower(def.body, table, st0);
                match r {
                    Err(x) => Err(x),
                    Ok(_) => match first_ret(st.body, 0) {
                        None => Err(GenError { span: def.body.1, kind: GenErrorKind::MissingReturn }),
                        Some(k) => if k + 1 < st.body.len() {
                            Err(GenError { span: def.body.1, kind: GenErrorKind::CodeAfterReturn })
                        } else {
                            Ok(IrFunctionModel { name, params: ps, ret, slots: st.slots, body: st.body })
                        },
                    },
                }
            },
        },
    }
}

/// Compiles the function units of `us` from index `i` on, in order, after
/// the functions `fs` and errors `errs` already produced.
pub open spec fn compile_all(
    us: Seq<ProgramUnit>,
    table: Seq<(Seq<char>, SignatureModel)>,
    i: int,
    fs: Seq<IrFunctionModel>,
    errs: Seq<(String, GenError)>,
) -> (Seq<IrFunctionModel>, Seq<(String, GenError)>)
    decreases us.len() - i,
{
    if i < 0 || i >= us.len() {
        (fs, errs)
    } else {
        match us[i] {
            ProgramUnit::Function(f) => match compile_fn(f.name@, f.definition, table) {
                Ok(m) => compile_all(us, table, i + 1, fs.push(m), errs),
                Err(x) => compile_all(us, table, i + 1, fs, errs.push((f.name, x))),
            },
            ProgramUnit::Class(_) => compile_all(us, table, i + 1, fs, errs),
        }
    }
}

fn value_ty(v: IrValue) -> (r: IrType)
    ensures
        r == value_type(v),
{
    match v {
        IrValue::ConstInt { ty, .. } => ty,
        IrValue::Reg { ty, .. } => ty,
    }
}

fn widens(from: IrType, to: IrType) -> (r: bool)
    ensures
        r == widens_to(from, to),
{
    let from_float = from == IrType::F32 || from == IrType::F64;
    let to_float = to == IrType::F32 || to == IrType::F64;
    from == to || (from == IrType::I32 && to == IrType::I64) || (from == IrType::F32 && to == IrType::F64) || (
    !from_float && to_float)
}

fn join_types(a: IrType, b: IrType) -> (r: IrType)
    ensures
        r == join(a, b),
{
    if a == IrType::F32 || a == IrType::F64 || b == IrType::F32 || b == IrType::F64 {
        if a == IrType::F64 || b == IrType::F64 {
            IrType::F64
        } else {
            IrType::F32
        }
    } else if a == IrType::I64 || b == IrType::I64 {
        IrType::I64
    } else {
        IrType::I32
    }
}

impl SignatureTable {
    /// The index of the latest entry named `name`.
    pub fn lookup(&self, name: &String) -> (r: Option<usize>)
        ensures
            match r {
                Some(i) => i < self.entries@.len() && find_sig(table_model(self.entries@), name@) == Some(
                    signature_model(self.entries@[i as int].1),
                ),
                None => find_sig(table_model(self.entries@), name@) is None,
            },
    {
        let ghost t = table_model(self.entries@);
        let mut i = self.entries.len();
        while i > 0
            invariant
                i <= self.entries@.len(),
                t == table_model(self.entries@),
                find_sig(t, name@) == lookup_sig(t, name@, i as int),
            decreases i,
        {
            if text_eq(self.entries[i - 1].0.as_str(), name.as_str()) {
                return Some(i - 1);
            }
            i = i - 1;
        }
        None
    }
}

fn clone_signature(s: &FunctionSignature) -> (r: FunctionSignature)
    ensures
        signature_model(r) == signature_model(*s),
{
    let mut params: Vec<(String, String)> = Vec::new();
    let mut i: usize = 0;
    while i < s.params.len()
        invariant
            i <= s.params@.len(),
            params_model(params@) == params_model(s.params@.take(i as int)),
        decreases s.params@.len() - i,
    {
        let ghost before = params@;
        let ghost item = (s.params@[i as int].0@, s.params@[i as int].1@);
        params.push((s.params[i].0.clone(), s.params[i].1.clone()));
        assert(params_model(params@) =~= params_model(before).push(item));
        assert(params_model(s.params@.take(i as int + 1)) =~= params_model(s.params@.take(i as int)).push(item));
        i = i + 1;
    }
    let mut generic_params: Vec<String> = Vec::new();
    let mut j: usize = 0;
    while j < s.generic_params.len()
        invariant
            j <= s.generic_params@.len(),
            names_model(generic_params@) == names_model(s.generic_params@.take(j as int)),
        decreases s.generic_params@.len() - j,
    {
        let ghost before = generic_params@;
        let ghost item = s.generic_params@[j as int]@;
        generic_params.push(s.generic_params[j].clone());
        assert(names_model(generic_params@) =~= names_model(before).push(item));
        assert(names_model(s.generic_params@.take(j as int + 1)) =~= names_model(s.generic_params@.take(j as int)).push(
            item,
        ));
        j = j + 1;
    }
    assert(s.params@.take(s.params@.len() as int) =~= s.params@);
    assert(s.generic_params@.take(s.generic_params@.len() as int) =~= s.generic_params@);
    FunctionSignature { return_type: s.return_type.clone(), params, generic_params }
}

/// Collects the name and signature of every function unit, in program
/// order, before any body is lowered.
pub fn build_signature_table(units: &Vec<ProgramUnit>) -> (r: SignatureTable)
    ensures
        table_model(r.entries@) == sigs(units_model(units@)),
{
    let mut entries: Vec<(String, FunctionSignature)> = Vec::new();
    let mut i: usize = 0;
    while i < units.len()
        invariant
            i <= units@.len(),
            table_model(entries@) == sigs(units_model(units@.take(i as int))),
        decreases units@.len() - i,
    {
        let ghost before = entries@;
        assert(units_model(units@.take(i as int + 1)).drop_last() =~= units_model(units@.take(i as int)));
        match &units[i] {
            ProgramUnit::Function(f) => {
                entries.push((f.name.clone(), clone_signature(&f.definition.signature)));
                assert(table_model(entries@) =~= table_model(before).push(
                    (f.name@, signature_model(f.definition.signature)),
                ));
            },
            ProgramUnit::Class(_) => {},
        }
        i = i + 1;
    }
    assert(units@.take(units@.len() as int) =~= units@);
    SignatureTable { entries }
}

/// Holds the module that compiled functions are added to.
pub struct Compiler {
    pub module: Module,
}

impl Compiler {
    /// A compiler with an empty module.
    pub fn new() -> (r: Compiler)
        ensures
            r.module.functions@ == Seq::<IrFunction>::empty(),
    {
        Compiler { module: Module { functions: Vec::new() } }
    }

    /// The machine type a type name denotes (see `type_of_name`).
    pub fn to_type(&self, typename: &str) -> (r: Option<IrType>)
        ensures
            r == type_of_name(typename@),
    {
        type_named(typename)
    }

    /// Lowers `expr` into the function under construction, exactly as
    /// `lower` describes.
    pub fn compile_expression(&self, expr: &Spanned<Expr>, funcs: &SignatureTable, fb: &mut FunctionBuilder) -> (r:
        Result<IrValue, GenError>)
        requires
            old(fb).wf(),
        ensures
            final(fb).wf(),
            (r, final(fb).state()) == lower(*expr, table_model(funcs.entries@), old(fb).state()),
            final(fb).slots@.len() >= old(fb).slots@.len(),
            final(fb).ret == old(fb).ret,
        decreases *expr, 1int,
    {
        let span = expr.1;
        match &expr.0 {
            Expr::Error => Err(GenError { span, kind: GenErrorKind::Malformed }),
            Expr::Value(v) => match v {
                Value::Num(t) => Ok(IrValue::ConstInt { ty: IrType::I32, value: literal_constant(t.as_str()) }),
                Value::Null => Err(GenError { span, kind: GenErrorKind::Unimplemented(Feature::Null) }),
                Value::Bool(_) => Err(GenError { span, kind: GenErrorKind::Unimplemented(Feature::Bool) }),
                Value::Str(_) => Err(GenError { span, kind: GenErrorKind::Unimplemented(Feature::Str) }),
                Value::List(_) => Err(GenError { span, kind: GenErrorKind::Unimplemented(Feature::List) }),
                Value::Func(_) => Err(GenError { span, kind: GenErrorKind::Unimplemented(Feature::FunctionValue) }),
            },
            Expr::List(_) => Err(GenError { span, kind: GenErrorKind::Unimplemented(Feature::List) }),
            Expr::Local(name) => match fb.lookup(name) {
                None => Err(GenError { span, kind: GenErrorKind::UnknownVariable(name.clone()) }),
                Some(slot) => {
                    let ty = fb.slots[slot];
                    Ok(fb.emit(Inst::Load { slot, ty }, ty))
                },
            },
            Expr::Var(..) => self.compile_var(expr, funcs, fb),
            Expr::Then(a, b) => {
                match self.compile_expression(a, funcs, fb) {
                    Ok(_) => {},
                    Err(x) => return Err(x),
                }
                self.compile_expression(b, funcs, fb)
            },
            Expr::Binary(..) => self.compile_binary(expr, funcs, fb),
            Expr::Call(..) => Err(GenError { span, kind: GenErrorKind::Unimplemented(Feature::Call) }),
            Expr::If(..) => Err(GenError { span, kind: GenErrorKind::Unimplemented(Feature::Conditional) }),
            Expr::Ret(..) => self.compile_ret(expr, funcs, fb),
        }
    }

    fn compile_var(&self, expr: &Spanned<Expr>, funcs: &SignatureTable, fb: &mut FunctionBuilder) -> (r: Result<
        IrValue,
        GenError,
    >)
        requires
            old(fb).wf(),
            expr.0 is Var,
        ensures
            final(fb).wf(),
            (r, final(fb).state()) == lower(*expr, table_model(funcs.entries@), old(fb).state()),
            final(fb).slots@.len() >= old(fb).slots@.len(),
            final(fb).ret == old(fb).ret,
        decreases *expr, 0int,
    {
        let span = expr.1;
        if let Expr::Var(name, tyname, init) = &expr.0 {
            match type_named(tyname.as_str()) {
                None => Err(GenError { span, kind: GenErrorKind::UnknownType(tyname.clone()) }),
                Some(ty) => {
                    let slot = fb.slots.len();
                    fb.slots.push(ty);
                    let v = match self.compile_expression(init, funcs, fb) {
                        Ok(v) => v,
                        Err(x) => return Err(x),
                    };
                    let found = value_ty(v);
                    if !widens(found, ty) {
                        return Err(GenError { span, kind: GenErrorKind::TypeMismatch { expected: ty, found } });
                    }
                    let v2 = fb.convert(v, ty);
                    fb.body.push(Inst::Store { slot, value: v2 });
                    fb.scope.push((name.clone(), slot));
                    Ok(v2)
                },
            }
        } else {
            Err(GenError { span, kind: GenErrorKind::Malformed })
        }
    }

    fn compile_binary(&self, expr: &Spanned<Expr>, funcs: &SignatureTable, fb: &mut FunctionBuilder) -> (r: Result<
        IrValue,
        GenError,
    >)
        requires
            old(fb).wf(),
            expr.0 is Binary,
        ensures
            final(fb).wf(),
            (r, final(fb).state()) == lower(*expr, table_model(funcs.entries@), old(fb).state()),
            final(fb).slots@.len() >= old(fb).slots@.len(),
            final(fb).ret == old(fb).ret,
        decreases *expr, 0int,
    {
        let span = expr.1;
        if let Expr::Binary(a, op, b) = &expr.0 {
            let aop = match op {
                BinaryOp::Add => ArithOp::Add,
                BinaryOp::Sub => ArithOp::Sub,
                BinaryOp::Mul => ArithOp::Mul,
                BinaryOp::Div => ArithOp::Div,
                _ => return Err(GenError { span, kind: GenErrorKind::Unimplemented(Feature::Equality) }),
            };
            let va = match self.compile_expression(a, funcs, fb) {
                Ok(v) => v,
                Err(x) => return Err(x),
            };
            let vb = match self.compile_expression(b, funcs, fb) {
                Ok(v) => v,
                Err(x) => return Err(x),
            };
            let t = join_types(value_ty(va), value_ty(vb));
            let ca = fb.convert(va, t);
            let cb = fb.convert(vb, t);
            Ok(fb.arith(aop, ca, cb))
        } else {
            Err(GenError { span, kind: GenErrorKind::Malformed })
        }
    }

    fn compile_ret(&self, expr: &Spanned<Expr>, funcs: &SignatureTable, fb: &mut FunctionBuilder) -> (r: Result<
        IrValue,
        GenError,
    >)
        requires
            old(fb).wf(),
            expr.0 is Ret,
        ensures
            final(fb).wf(),
            (r, final(fb).state()) == lower(*expr, table_model(funcs.entries@), old(fb).state()),
            final(fb).slots@.len() >= old(fb).slots@.len(),
            final(fb).ret == old(fb).ret,
        decreases *expr, 0int,
    {
        let span = expr.1;
        if let Expr::Ret(v) = &expr.0 {
            let x = match self.compile_expression(v, funcs, fb) {
                Ok(x) => x,
                Err(e) => return Err(e),
            };
            let found = value_ty(x);
            let ret = fb.ret;
            if !widens(found, ret) {
                return Err(GenError { span, kind: GenErrorKind::TypeMismatch { expected: ret, found } });
            }
            let c = fb.convert(x, ret);
            fb.body.push(Inst::Ret { value: c });
            Ok(x)
        } else {
            Err(GenError { span, kind: GenErrorKind::Malformed })
        }
    }

    /// Compiles one function definition (see `compile_fn`). On success the
    /// function is added to the module and its index returned; on failure
    /// the module is left as it was.
    pub fn compile_function(&mut self, name: &String, func: &FunctionDefinition, func_map: &SignatureTable) -> (r: Result<
        usize,
        GenError,
    >)
        ensures
            match compile_fn(name@, *func, table_model(func_map.entries@)) {
                Ok(f) => r == Ok::<usize, GenError>(old(self).module.functions@.len() as usize) && functions_model(
                    final(self).module.functions@,
                ) == functions_model(old(self).module.functions@).push(f),
                Err(x) => r == Err::<usize, GenError>(x) && final(self).module.functions@
                    == old(self).module.functions@,
            },
    {
        let ps = &func.signature.params;
        let mut params: Vec<IrType> = Vec::new();
        let mut i: usize = 0;
        while i < ps.len()
            invariant
                i <= ps@.len(),
                param_types(ps@, 0, Seq::empty()) == param_types(ps@, i as int, params@),
                ps@ == func.signature.params@,
                self.module.functions@ == old(self).module.functions@,
            decreases ps@.len() - i,
        {
            match type_named(ps[i].1.as_str()) {
                None => {
                    assert(param_types(ps@, i as int, params@) == Err::<Seq<IrType>, String>(ps@[i as int].1));
                    return Err(GenError { span: func.body.1, kind: GenErrorKind::UnknownType(ps[i].1.clone()) });
                },
                Some(t) => params.push(t),
            }
            i = i + 1;
        }
        let ret = match type_named(func.signature.return_type.as_str()) {
            None => {
                return Err(
                    GenError { span: func.body.1, kind: GenErrorKind::UnknownType(func.signature.return_type.clone()) },
                )
            },
            Some(t) => t,
        };
        let mut fb = FunctionBuilder::new(ret);
        match self.compile_expression(&func.body, func_map, &mut fb) {
            Ok(_) => {},
            Err(x) => return Err(x),
        }
        let mut k: usize = 0;
        while k < fb.body.len() && !matches!(fb.body[k], Inst::Ret { .. })
            invariant
                k <= fb.body@.len(),
                first_ret(fb.body@, 0) == first_ret(fb.body@, k as int),
            decreases fb.body@.len() - k,
        {
            k = k + 1;
        }
        if k == fb.body.len() {
            return Err(GenError { span: func.body.1, kind: GenErrorKind::MissingReturn });
        }
        if k + 1 < fb.body.len() {
            return Err(GenError { span: func.body.1, kind: GenErrorKind::CodeAfterReturn });
        }
        let index = self.module.functions.len();
        let ghost before = self.module.functions@;
        let f = IrFunction { name: name.clone(), params, ret, slots: fb.slots, body: fb.body };
        self.module.functions.push(f);
        assert(functions_model(self.module.functions@) =~= functions_model(before).push(function_model(f)));
        Ok(index)
    }
}

/// Compiles a program: the signature table of all functions is built first,
/// then each function is compiled in program order into one module. A
/// function that fails is left out and its error recorded with its name;
/// the others are unaffected.
pub fn compile_program(units: &Vec<ProgramUnit>) -> (r: (Module, Vec<(String, GenError)>))
    ensures
        ({
            let c = compile_all(units@, sigs(units_model(units@)), 0, Seq::empty(), Seq::empty());
            functions_model(r.0.functions@) == c.0 && r.1@ == c.1
        }),
{
    let table = build_signature_table(units);
    let ghost tm = table_model(table.entries@);
    let mut compiler = Compiler::new();
    let mut errors: Vec<(String, GenError)> = Vec::new();
    let mut i: usize = 0;
    assert(functions_model(compiler.module.functions@) =~= Seq::empty());
    while i < units.len()
        invariant
            i <= units@.len(),
            tm == table_model(table.entries@),
            tm == sigs(units_model(units@)),
            compile_all(units@, tm, 0, Seq::empty(), Seq::empty()) == compile_all(
                units@,
                tm,
                i as int,
                functions_model(compiler.module.functions@),
                errors@,
            ),
        decreases units@.len() - i,
    {
        match &units[i] {
            ProgramUnit::Function(f) => match compiler.compile_function(&f.name, &f.definition, &table) {
                Ok(_) => {},
                Err(x) => errors.push((f.name.clone(), x)),
            },
            ProgramUnit::Class(_) => {},
        }
        i = i + 1;
    }
    (compiler.module, errors)
}

proof fn lemma_lookup_sig_prefix(a: Seq<(Seq<char>, SignatureModel)>, b: Seq<(Seq<char>, SignatureModel)>, name: Seq<char>, n: int)
    requires
        0 <= n <= a.len(),
    ensures
        lookup_sig(a + b, name, n) == lookup_sig(a, name, n),
    decreases n,
{
    if n > 0 {
        lemma_lookup_sig_prefix(a, b, name, n - 1);
    }
}

/// Every function's signature is in the table built from the whole program,
/// wherever the function stands: a call from a function earlier in the
/// source resolves the signature of one defined later. Only a later
/// function of the same name shadows it.
pub proof fn lemma_signature_visible(us: Seq<UnitModel>, j: int)
    requires
        0 <= j < us.len(),
        us[j] is Function,
        forall|k: int| j < k < us.len() ==> !(#[trigger] us[k] matches UnitModel::Function(n, _, _) && n == us[j]->Function_0),
    ensures
        find_sig(sigs(us), us[j]->Function_0) == Some(us[j]->Function_1),
    decreases us.len(),
{
    let name = us[j]->Function_0;
    let init = us.drop_last();
    let head = sigs(init);
    let tail: Seq<(Seq<char>, SignatureModel)> = match us.last() {
        UnitModel::Function(n, sig, _) => seq![(n, sig)],
        UnitModel::Class(_) => Seq::empty(),
    };
    assert(sigs(us) == head + tail);
    if j == us.len() - 1 {
        assert((head + tail)[(head + tail).len() - 1] == (name, us[j]->Function_1));
    } else {
        assert forall|k: int| j < k < init.len() implies !(#[trigger] init[k] matches UnitModel::Function(n, _, _) && n
            == init[j]->Function_0) by {
            assert(init[k] == us[k]);
        }
        lemma_signature_visible(init, j);
        lemma_lookup_sig_prefix(head, tail, name, head.len() as int);
        if tail.len() == 1 {
            assert(us[us.len() - 1] == us.last());
            assert((head + tail)[head.len() as int] == tail[0]);
            assert(tail[0].0 != name);
        }
        assert(find_sig(head + tail, name) == lookup_sig(head + tail, name, head.len() as int));
    }
}

/// A call is not lowered: whatever the callee and the signature table, it
/// fails as unimplemented at the call's span, never as an unknown name or
/// type.
pub proof fn lemma_call_unimplemented(e: Spanned<Expr>, table: Seq<(Seq<char>, SignatureModel)>, st: GenState)
    requires
        e.0 is Call,
    ensures
        lower(e, table, st) == fails(e.1, GenErrorKind::Unimplemented(Feature::Call), st),
{
}

/// Lowering an expression does not depend on the order of the signature
/// table, nor on which functions it holds.
pub proof fn lemma_lower_table_independent(
    e: Spanned<Expr>,
    t1: Seq<(Seq<char>, SignatureModel)>,
    t2: Seq<(Seq<char>, SignatureModel)>,
    st: GenState,
)
    ensures
        lower(e, t1, st) == lower(e, t2, st),
    decreases e,
{
    match e.0 {
        Expr::Var(_, tyname, init) => {
            if let Some(ty) = type_of_name(tyname@) {
                let st1 = GenState { scope: st.scope, slots: st.slots.push(ty), body: st.body, ret: st.ret };
                lemma_lower_table_independent(*init, t1, t2, st1);
            }
        },
        Expr::Then(a, b) => {
            lemma_lower_table_independent(*a, t1, t2, st);
            lemma_lower_table_independent(*b, t1, t2, lower(*a, t1, st).1);
        },
        Expr::Binary(a, _, b) => {
            lemma_lower_table_independent(*a, t1, t2, st);
            lemma_lower_table_independent(*b, t1, t2, lower(*a, t1, st).1);
        },
        Expr::Ret(v) => {
            lemma_lower_table_independent(*v, t1, t2, st);
        },
        _ => {},
    }
}

/// Compiling a function gives the same outcome whatever the order in which
/// the program's functions were entered in the signature table: a function
/// calling one defined later compiles as it would with the callee first.
pub proof fn lemma_compile_order_independent(
    name: Seq<char>,
    def: FunctionDefinition,
    t1: Seq<(Seq<char>, SignatureModel)>,
    t2: Seq<(Seq<char>, SignatureModel)>,
)
    ensures
        compile_fn(name, def, t1) == compile_fn(name, def, t2),
{
    if let Ok(ps) = param_types(def.signature.params@, 0, Seq::empty()) {
        if let Some(ret) = type_of_name(def.signature.return_type@) {
            let st0 = GenState { scope: Seq::empty(), slots: Seq::empty(), body: Seq::empty(), ret };
            lemma_lower_table_independent(def.body, t1, t2, st0);
        }
    }
}

/// A declaration that lowers binds its name to the fresh slot it allocated:
/// a later reference to the name reads that slot, whatever earlier
/// declaration of the name there was.
pub proof fn lemma_declaration_shadows(e: Spanned<Expr>, table: Seq<(Seq<char>, SignatureModel)>, st: GenState)
    requires
        e.0 is Var,
        lower(e, table, st).0 is Ok,
    ensures
        ({
            let after = lower(e, table, st).1.scope;
            lookup_slot(after, (e.0->Var_0)@, after.len() as int) == Some(st.slots.len() as usize)
        }),
{
}

/// A reference to a name that no declaration so far has bound fails as an
/// unknown variable.
pub proof fn lemma_unbound_reference(e: Spanned<Expr>, table: Seq<(Seq<char>, SignatureModel)>, st: GenState)
    requires
        e.0 matches Expr::Local(name) && lookup_slot(st.scope, name@, st.scope.len() as int) is None,
    ensures
        lower(e, table, st).0 == Err::<IrValue, GenError>(
            GenError { span: e.1, kind: GenErrorKind::UnknownVariable(e.0->Local_0) },
        ),
{
}

/// Operand promotion only widens: both operands widen to the common type,
/// which is floating exactly when one of them is.
pub proof fn lemma_promotion_widens(a: IrType, b: IrType)
    ensures
        widens_to(a, join(a, b)),
        widens_to(b, join(a, b)),
        is_float(join(a, b)) == (is_float(a) || is_float(b)),
{
}

proof fn lemma_convert_type(st: GenState, v: IrValue, to: IrType)
    ensures
        value_type(convert(st, v, to).0) == to,
        convert(st, v, to).1.body.len() >= st.body.len(),
{
}

/// An arithmetic operation with a floating operand is done in floating
/// point: both operands are widened to the common floating type, nothing is
/// truncated, and the result is the register of that floating operation.
pub proof fn lemma_floating_operation(
    e: Spanned<Expr>,
    a: Box<Spanned<Expr>>,
    op: BinaryOp,
    b: Box<Spanned<Expr>>,
    table: Seq<(Seq<char>, SignatureModel)>,
    st: GenState,
)
    requires
        e.0 == Expr::Binary(a, op, b),
        arith_op(op) is Some,
        lower(*a, table, st).0 is Ok,
        lower(*b, table, lower(*a, table, st).1).0 is Ok,
        is_float(value_type(lower(*a, table, st).0->Ok_0)) || is_float(
            value_type(lower(*b, table, lower(*a, table, st).1).0->Ok_0),
        ),
    ensures
        ({
            let va = lower(*a, table, st).0->Ok_0;
            let vb = lower(*b, table, lower(*a, table, st).1).0->Ok_0;
            let t = join(value_type(va), value_type(vb));
            let (r, after) = lower(e, table, st);
            &&& is_float(t)
            &&& widens_to(value_type(va), t) && widens_to(value_type(vb), t)
            &&& r == Ok::<IrValue, GenError>(IrValue::Reg { ty: t, id: (after.body.len() - 1) as usize })
            &&& after.body.last() matches Inst::FloatOp { op: o, ty, lhs, rhs } && Some(o) == arith_op(op) && ty == t
                && value_type(lhs) == t && value_type(rhs) == t
        }),
{
    let st1 = lower(*a, table, st).1;
    let va = lower(*a, table, st).0->Ok_0;
    let (rb, st2) = lower(*b, table, st1);
    let vb = rb->Ok_0;
    let t = join(value_type(va), value_type(vb));
    lemma_promotion_widens(value_type(va), value_type(vb));
    lemma_convert_type(st2, va, t);
    let (ca, st3) = convert(st2, va, t);
    lemma_convert_type(st3, vb, t);
}

} // verus!
