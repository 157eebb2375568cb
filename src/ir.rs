//! The lowered form: a module of functions in SSA style. Each function owns
//! its stack slots, all allocated in its entry region, and a straight-line
//! body of instructions; the register an instruction defines is numbered by
//! that instruction's index in the body.
use vstd::prelude::*;

verus! {

/// A machine type of a value or a stack slot.
#[derive(Clone, Copy, Debug, PartialEq, Eq, Structural)]
pub enum IrType {
    I32,
    I64,
    F32,
    F64,
}

#[derive(Clone, Copy, Debug, PartialEq, Eq, Structural)]
pub enum ArithOp {
    Add,
    Sub,
    Mul,
    /// Signed division for integers.
    Div,
}

/// An SSA value: an integer constant, or the register defined by the
/// instruction at index `id` of the body.
#[derive(Clone, Copy, Debug, PartialEq, Eq, Structural)]
pub enum IrValue {
    ConstInt { ty: IrType, value: i64 },
    Reg { ty: IrType, id: usize },
}

#[derive(Clone, Copy, Debug, PartialEq, Eq, Structural)]
pub enum Inst {
    Store { slot: usize, value: IrValue },
    Load { slot: usize, ty: IrType },
    IntOp { op: ArithOp, ty: IrType, lhs: IrValue, rhs: IrValue },
    FloatOp { op: ArithOp, ty: IrType, lhs: IrValue, rhs: IrValue },
    /// Signed integer to floating point.
    IntToFloat { ty: IrType, value: IrValue },
    SignExtend { ty: IrType, value: IrValue },
    FloatExtend { ty: IrType, value: IrValue },
    Ret { value: IrValue },
}

#[derive(Debug)]
pub struct IrFunction {
    pub name: String,
    pub params: Vec<IrType>,
    pub ret: IrType,
    /// The type of each stack slot, by slot number.
    pub slots: Vec<IrType>,
    pub body: Vec<Inst>,
}

#[derive(Debug)]
pub struct Module {
    pub functions: Vec<IrFunction>,
}

/// An `IrFunction` as a mathematical value.
pub struct IrFunctionModel {
    pub name: Seq<char>,
    pub params: Seq<IrType>,
    pub ret: IrType,
    pub slots: Seq<IrType>,
    pub body: Seq<Inst>,
}

pub open spec fn function_model(f: IrFunction) -> IrFunctionModel {
    IrFunctionModel { name: f.name@, params: f.params@, ret: f.ret, slots: f.slots@, body: f.body@ }
}

pub open spec fn functions_model(v: Seq<IrFunction>) -> Seq<IrFunctionModel> {
    v.map_values(|f: IrFunction| function_model(f))
}

pub open spec fn value_type(v: IrValue) -> IrType {
    match v {
        IrValue::ConstInt { ty, .. } => ty,
        IrValue::Reg { ty, .. } => ty,
    }
}

pub open spec fn is_float(t: IrType) -> bool {
    t is F32 || t is F64
}

/// Implicit widening only: an integer to a wider integer or to any
/// floating type, a floating type to a wider one.
pub open spec fn widens_to(from: IrType, to: IrType) -> bool {
    ||| from == to
    ||| from is I32 && to is I64
    ||| from is F32 && to is F64
    ||| !is_float(from) && is_float(to)
}

/// The common type two operands are promoted to: floating if either is,
/// and the wider of the candidates.
pub open spec fn join(a: IrType, b: IrType) -> IrType {
    if is_float(a) || is_float(b) {
        if a is F64 || b is F64 {
            IrType::F64
        } else {
            IrType::F32
        }
    } else if a is I64 || b is I64 {
        IrType::I64
    } else {
        IrType::I32
    }
}

pub open spec fn in_range(t: IrType, v: int) -> bool {
    match t {
        IrType::I32 => i32::MIN <= v <= i32::MAX,
        _ => i64::MIN <= v <= i64::MAX,
    }
}

/// The constant an integer operation on two constants folds to, when the
/// exact result fits the type; division is never folded.
pub open spec fn fold_const(op: ArithOp, t: IrType, a: int, b: int) -> Option<int> {
    let v = match op {
        ArithOp::Add => a + b,
        ArithOp::Sub => a - b,
        ArithOp::Mul => a * b,
        ArithOp::Div => 0,
    };
    if !(op is Div) && in_range(t, v) {
        Some(v)
    } else {
        None
    }
}

/// The index of the first `Ret` of a body, if any.
pub open spec fn first_ret(body: Seq<Inst>, i: int) -> Option<int>
    decreases body.len() - i,
{
    if i < 0 || i >= body.len() {
        None
    } else if body[i] is Ret {
        Some(i)
    } else {
        first_ret(body, i + 1)
    }
}

} // verus!
