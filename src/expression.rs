use vstd::prelude::*;
use crate::bitvector::{MAX_WIDTH, bin_op_spec, cast_spec, subpiece_spec, un_op_spec, BinOpType, Bitvector, CastOpType, UnOpType};
use crate::bytesize::ByteSize;
use crate::error::IrError;
use crate::variable::{same_variable, Variable};

verus! {

/// An expression: a tree of operations over constants and variables.
#[derive(Debug)]
#[allow(inconsistent_fields)]
pub enum Expression {
    /// A variable.
    Var(Variable),
    /// A constant.
    Const(Bitvector),
    /// An operation on two values.
    BinOp { op: BinOpType, lhs: Box<Expression>, rhs: Box<Expression> },
    /// An operation on one value.
    UnOp { op: UnOpType, arg: Box<Expression> },
    /// A cast of `arg` to a value of `size` bytes.
    Cast { op: CastOpType, size: ByteSize, arg: Box<Expression> },
    /// The `size` bytes of `arg` that start at byte `low_byte`.
    Subpiece { low_byte: ByteSize, size: ByteSize, arg: Box<Expression> },
    /// `then_expr` where `condition` is one, `else_expr` where it is zero.
    IfThenElse { condition: Box<Expression>, then_expr: Box<Expression>, else_expr: Box<Expression> },
    /// A value of `size` bytes that is not known.
    Unknown { description: String, size: ByteSize },
}

/// The outcome of evaluating an expression: a known value, or a value that is
/// not known but has a known width in bits.
#[derive(Debug, Clone, Copy, PartialEq, Eq, Structural)]
pub enum Value {
    Known(Bitvector),
    Unknown(u64),
}

impl Value {
    /// The width in bits.
    pub open spec fn spec_width(self) -> u64 {
        match self {
            Value::Known(b) => b.width,
            Value::Unknown(w) => w,
        }
    }

    /// A known value is well formed.
    pub open spec fn wf(self) -> bool {
        self is Known ==> self->Known_0.wf()
    }

    /// The width in bits.
    pub fn width(&self) -> (r: u64)
        ensures
            r == self.spec_width(),
    {
        match self {
            Value::Known(b) => b.width,
            Value::Unknown(w) => *w,
        }
    }
}

/// The largest size, in bytes, whose width in bits fits in 64 bits.
pub const MAX_SIZE_BYTES: u64 = 0x1fff_ffff_ffff_ffff;

/// The width in bits of a value of `size` bytes: a zero size, or one whose
/// width does not fit in 64 bits, is a `ConstructionError`.
pub open spec fn size_width(size: ByteSize) -> Result<u64, IrError> {
    if 1 <= size.0 <= MAX_SIZE_BYTES {
        Ok((8 * size.0) as u64)
    } else {
        Err(IrError::ConstructionError)
    }
}

/// The width of the result of a binary operation on operands of widths `l` and `r`.
pub open spec fn bin_op_width(op: BinOpType, l: u64, r: u64) -> Result<u64, IrError> {
    if op.spec_is_shift() {
        Ok(l)
    } else if l != r {
        Err(IrError::WidthMismatch)
    } else if op.spec_is_comparison() {
        Ok(1)
    } else {
        Ok(l)
    }
}

/// The width of a cast from `a` bits to `t` bits, or the error that the
/// direction of the cast gives.
pub open spec fn cast_width(op: CastOpType, a: u64, t: u64) -> Result<u64, IrError> {
    if (op is Trunc && t > a) || (!(op is Trunc) && t < a) {
        Err(IrError::WidthMismatch)
    } else {
        Ok(t)
    }
}

/// The width of a piece of `t` bits from byte `low_byte` of an `a`-bit value.
pub open spec fn subpiece_width(low_byte: ByteSize, a: u64, t: u64) -> Result<u64, IrError> {
    if 8 * low_byte.0 + t > a {
        Err(IrError::WidthMismatch)
    } else {
        Ok(t)
    }
}

/// The width of the result of a choice with a condition of `c` bits and
/// branches of `t` and `f` bits.
pub open spec fn choice_width(c: u64, t: u64, f: u64) -> Result<u64, IrError> {
    if c != 1 || t != f {
        Err(IrError::WidthMismatch)
    } else {
        Ok(t)
    }
}

/// The bit width of an expression, inferred bottom-up; the first error met,
/// children from left to right, where it is ill-typed.
pub open spec fn width_spec(e: Expression) -> Result<u64, IrError>
    decreases e,
{
    match e {
        Expression::Var(v) => size_width(v.size),
        Expression::Const(c) => if c.wf() {
            Ok(c.width)
        } else {
            Err(IrError::ConstructionError)
        },
        Expression::BinOp { op, lhs, rhs } => match width_spec(*lhs) {
            Err(err) => Err(err),
            Ok(l) => match width_spec(*rhs) {
                Err(err) => Err(err),
                Ok(r) => bin_op_width(op, l, r),
            },
        },
        Expression::UnOp { op, arg } => width_spec(*arg),
        Expression::Cast { op, size, arg } => match width_spec(*arg) {
            Err(err) => Err(err),
            Ok(a) => match size_width(size) {
                Err(err) => Err(err),
                Ok(t) => cast_width(op, a, t),
            },
        },
        Expression::Subpiece { low_byte, size, arg } => match width_spec(*arg) {
            Err(err) => Err(err),
            Ok(a) => match size_width(size) {
                Err(err) => Err(err),
                Ok(t) => subpiece_width(low_byte, a, t),
            },
        },
        Expression::IfThenElse { condition, then_expr, else_expr } => match width_spec(*condition) {
            Err(err) => Err(err),
            Ok(c) => match width_spec(*then_expr) {
                Err(err) => Err(err),
                Ok(t) => match width_spec(*else_expr) {
                    Err(err) => Err(err),
                    Ok(f) => choice_width(c, t, f),
                },
            },
        },
        Expression::Unknown { description, size } => size_width(size),
    }
}

/// The value bound to `v` in `env`: the last binding of a variable equal to it.
pub open spec fn lookup_spec(env: Seq<(Variable, Bitvector)>, v: Variable) -> Option<Bitvector>
    decreases env.len(),
{
    if env.len() == 0 {
        None
    } else if same_variable(env.last().0, v) {
        Some(env.last().1)
    } else {
        lookup_spec(env.drop_last(), v)
    }
}

/// The value of a variable of `w` bits under `env`.
pub open spec fn var_value(env: Seq<(Variable, Bitvector)>, v: Variable, w: u64) -> Result<Value, IrError> {
    match lookup_spec(env, v) {
        None => Ok(Value::Unknown(w)),
        Some(b) => if !b.wf() {
            Err(IrError::ConstructionError)
        } else if b.width != w {
            Err(IrError::WidthMismatch)
        } else {
            Ok(Value::Known(b))
        },
    }
}

/// Lift a result on bit vectors to one on values.
pub open spec fn known(r: Result<Bitvector, IrError>) -> Result<Value, IrError> {
    match r {
        Ok(b) => Ok(Value::Known(b)),
        Err(err) => Err(err),
    }
}

/// Lift a width to the value that is not known but has that width.
pub open spec fn unknown(r: Result<u64, IrError>) -> Result<Value, IrError> {
    match r {
        Ok(w) => Ok(Value::Unknown(w)),
        Err(err) => Err(err),
    }
}

/// The value of `op` on two evaluated operands.
pub open spec fn bin_op_value(op: BinOpType, l: Value, r: Value) -> Result<Value, IrError> {
    match (l, r) {
        (Value::Known(a), Value::Known(b)) => known(bin_op_spec(op, a, b)),
        _ => unknown(bin_op_width(op, l.spec_width(), r.spec_width())),
    }
}

/// The value of a cast of an evaluated operand to `t` bits; a known value
/// cast to more than `MAX_WIDTH` bits is no longer held, only its width.
pub open spec fn cast_value(op: CastOpType, a: Value, t: u64) -> Result<Value, IrError> {
    match a {
        Value::Known(x) => if t > MAX_WIDTH {
            unknown(cast_width(op, x.width, t))
        } else {
            known(cast_spec(op, x, t))
        },
        Value::Unknown(w) => unknown(cast_width(op, w, t)),
    }
}

/// The value of a piece of `t` bits from byte `low_byte` of an evaluated operand.
pub open spec fn subpiece_value(low_byte: ByteSize, a: Value, t: u64) -> Result<Value, IrError> {
    match a {
        Value::Known(x) => if t > MAX_WIDTH || 8 * low_byte.0 + t > x.width {
            Err(IrError::WidthMismatch)
        } else {
            known(subpiece_spec(x, (8 * low_byte.0) as u64, t))
        },
        Value::Unknown(w) => unknown(subpiece_width(low_byte, w, t)),
    }
}

/// The value of a choice between two evaluated branches.
pub open spec fn choice_value(c: Value, t: Value, f: Value) -> Result<Value, IrError> {
    if c.spec_width() != 1 || t.spec_width() != f.spec_width() {
        Err(IrError::WidthMismatch)
    } else {
        match c {
            Value::Known(b) => Ok(if b.value == 1 { t } else { f }),
            Value::Unknown(w) => Ok(Value::Unknown(t.spec_width())),
        }
    }
}

/// The value of an expression under `env`, evaluated bottom-up; the first
/// error met, children from left to right, where evaluation fails.
pub open spec fn eval_spec(e: Expression, env: Seq<(Variable, Bitvector)>) -> Result<Value, IrError>
    decreases e,
{
    match e {
        Expression::Var(v) => match size_width(v.size) {
            Err(err) => Err(err),
            Ok(w) => var_value(env, v, w),
        },
        Expression::Const(c) => if c.wf() {
            Ok(Value::Known(c))
        } else {
            Err(IrError::ConstructionError)
        },
        Expression::BinOp { op, lhs, rhs } => match eval_spec(*lhs, env) {
            Err(err) => Err(err),
            Ok(l) => match eval_spec(*rhs, env) {
                Err(err) => Err(err),
                Ok(r) => bin_op_value(op, l, r),
            },
        },
        Expression::UnOp { op, arg } => match eval_spec(*arg, env) {
            Err(err) => Err(err),
            Ok(Value::Known(x)) => Ok(Value::Known(un_op_spec(op, x))),
            Ok(Value::Unknown(w)) => Ok(Value::Unknown(w)),
        },
        Expression::Cast { op, size, arg } => match eval_spec(*arg, env) {
            Err(err) => Err(err),
            Ok(a) => match size_width(size) {
                Err(err) => Err(err),
                Ok(t) => cast_value(op, a, t),
            },
        },
        Expression::Subpiece { low_byte, size, arg } => match eval_spec(*arg, env) {
            Err(err) => Err(err),
            Ok(a) => match size_width(size) {
                Err(err) => Err(err),
                Ok(t) => subpiece_value(low_byte, a, t),
            },
        },
        Expression::IfThenElse { condition, then_expr, else_expr } => match eval_spec(*condition, env) {
            Err(err) => Err(err),
            Ok(c) => match eval_spec(*then_expr, env) {
                Err(err) => Err(err),
                Ok(t) => match eval_spec(*else_expr, env) {
                    Err(err) => Err(err),
                    Ok(f) => choice_value(c, t, f),
                },
            },
        },
        Expression::Unknown { description, size } => unknown(size_width(size)),
    }
}


/// The width in bits of a value of `size` bytes, as `size_width` states.
fn width_of_size(size: ByteSize) -> (r: Result<u64, IrError>)
    ensures
        r == size_width(size),
{
    if size.0 >= 1 && size.0 <= MAX_SIZE_BYTES {
        Ok(size.0 * 8)
    } else {
        Err(IrError::ConstructionError)
    }
}

/// The value bound to `v` in `env`, as `lookup_spec` states.
pub fn lookup(env: &Vec<(Variable, Bitvector)>, v: &Variable) -> (r: Option<Bitvector>)
    ensures
        r == lookup_spec(env@, *v),
{
    let mut i: usize = env.len();
    proof {
        assert(env@.take(env@.len() as int) =~= env@);
    }
    while i > 0
        invariant
            i <= env@.len(),
            lookup_spec(env@, *v) == lookup_spec(env@.take(i as int), *v),
        decreases i,
    {
        let entry = &env[i - 1];
        proof {
            let t = env@.take(i as int);
            assert(t.last() == env@[i - 1]);
            assert(t.drop_last() =~= env@.take(i - 1));
        }
        if entry.0.same_as(v) {
            return Some(entry.1);
        }
        i = i - 1;
    }
    proof {
        assert(env@.take(0) =~= Seq::<(Variable, Bitvector)>::empty());
    }
    None
}

impl Expression {
    /// The bit width of this expression, as `width_spec` states.
    pub fn bit_width(&self) -> (r: Result<u64, IrError>)
        ensures
            r == width_spec(*self),
            r is Ok ==> 1 <= r->Ok_0,
        decreases self,
    {
        match self {
            Expression::Var(v) => width_of_size(v.size),
            Expression::Const(c) => if c.is_valid() {
                Ok(c.width)
            } else {
                Err(IrError::ConstructionError)
            },
            Expression::BinOp { op, lhs, rhs } => {
                let l = lhs.bit_width()?;
                let r = rhs.bit_width()?;
                if op.is_shift() {
                    Ok(l)
                } else if l != r {
                    Err(IrError::WidthMismatch)
                } else if op.is_comparison() {
                    Ok(1)
                } else {
                    Ok(l)
                }
            },
            Expression::UnOp { op, arg } => arg.bit_width(),
            Expression::Cast { op, size, arg } => {
                let a = arg.bit_width()?;
                let t = width_of_size(*size)?;
                cast_width_of(*op, a, t)
            },
            Expression::Subpiece { low_byte, size, arg } => {
                let a = arg.bit_width()?;
                let t = width_of_size(*size)?;
                subpiece_width_of(*low_byte, a, t)
            },
            Expression::IfThenElse { condition, then_expr, else_expr } => {
                let c = condition.bit_width()?;
                let t = then_expr.bit_width()?;
                let f = else_expr.bit_width()?;
                if c != 1 || t != f {
                    Err(IrError::WidthMismatch)
                } else {
                    Ok(t)
                }
            },
            Expression::Unknown { description, size } => width_of_size(*size),
        }
    }
}

/// The width of a cast, as `cast_width` states.
fn cast_width_of(op: CastOpType, a: u64, t: u64) -> (r: Result<u64, IrError>)
    ensures
        r == cast_width(op, a, t),
{
    let narrowing = matches!(op, CastOpType::Trunc);
    if (narrowing && t > a) || (!narrowing && t < a) {
        Err(IrError::WidthMismatch)
    } else {
        Ok(t)
    }
}

/// The width of a piece, as `subpiece_width` states.
fn subpiece_width_of(low_byte: ByteSize, a: u64, t: u64) -> (r: Result<u64, IrError>)
    ensures
        r == subpiece_width(low_byte, a, t),
{
    if low_byte.0 > MAX_SIZE_BYTES || 8 * low_byte.0 > a || t > a - 8 * low_byte.0 {
        Err(IrError::WidthMismatch)
    } else {
        Ok(t)
    }
}


impl Expression {
    /// The value of this expression under `env`, as `eval_spec` states.
    /// Variables without a binding and `Unknown` nodes give a value that is
    /// not known but has its width.
    pub fn evaluate(&self, env: &Vec<(Variable, Bitvector)>) -> (r: Result<Value, IrError>)
        ensures
            r == eval_spec(*self, env@),
            r is Ok ==> r->Ok_0.wf(),
        decreases self,
    {
        match self {
            Expression::Var(v) => {
                let w = width_of_size(v.size)?;
                match lookup(env, v) {
                    None => Ok(Value::Unknown(w)),
                    Some(b) => if !b.is_valid() {
                        Err(IrError::ConstructionError)
                    } else if b.width != w {
                        Err(IrError::WidthMismatch)
                    } else {
                        Ok(Value::Known(b))
                    },
                }
            },
            Expression::Const(c) => if c.is_valid() {
                Ok(Value::Known(*c))
            } else {
                Err(IrError::ConstructionError)
            },
            Expression::BinOp { op, lhs, rhs } => {
                let l = lhs.evaluate(env)?;
                let r = rhs.evaluate(env)?;
                match (l, r) {
                    (Value::Known(a), Value::Known(b)) => {
                        let x = a.bin_op(*op, &b)?;
                        Ok(Value::Known(x))
                    },
                    _ => {
                        let lw = l.width();
                        let rw = r.width();
                        if op.is_shift() {
                            Ok(Value::Unknown(lw))
                        } else if lw != rw {
                            Err(IrError::WidthMismatch)
                        } else if op.is_comparison() {
                            Ok(Value::Unknown(1))
                        } else {
                            Ok(Value::Unknown(lw))
                        }
                    },
                }
            },
            Expression::UnOp { op, arg } => {
                let a = arg.evaluate(env)?;
                match a {
                    Value::Known(x) => Ok(Value::Known(x.un_op(*op))),
                    Value::Unknown(w) => Ok(Value::Unknown(w)),
                }
            },
            Expression::Cast { op, size, arg } => {
                let a = arg.evaluate(env)?;
                let t = width_of_size(*size)?;
                match a {
                    Value::Known(x) => {
                        if t > MAX_WIDTH {
                            let u = cast_width_of(*op, x.width, t)?;
                            return Ok(Value::Unknown(u));
                        }
                        let y = x.cast(*op, t)?;
                        Ok(Value::Known(y))
                    },
                    Value::Unknown(w) => {
                        let u = cast_width_of(*op, w, t)?;
                        Ok(Value::Unknown(u))
                    },
                }
            },
            Expression::Subpiece { low_byte, size, arg } => {
                let a = arg.evaluate(env)?;
                let t = width_of_size(*size)?;
                match a {
                    Value::Known(x) => {
                        if low_byte.0 > 8 || 8 * low_byte.0 > x.width || t > x.width - 8 * low_byte.0 {
                            return Err(IrError::WidthMismatch);
                        }
                        let y = x.subpiece(8 * low_byte.0, t)?;
                        Ok(Value::Known(y))
                    },
                    Value::Unknown(w) => {
                        let u = subpiece_width_of(*low_byte, w, t)?;
                        Ok(Value::Unknown(u))
                    },
                }
            },
            Expression::IfThenElse { condition, then_expr, else_expr } => {
                let c = condition.evaluate(env)?;
                let t = then_expr.evaluate(env)?;
                let f = else_expr.evaluate(env)?;
                if c.width() != 1 || t.width() != f.width() {
                    return Err(IrError::WidthMismatch);
                }
                match c {
                    Value::Known(b) => Ok(if b.value == 1 { t } else { f }),
                    Value::Unknown(_) => Ok(Value::Unknown(t.width())),
                }
            },
            Expression::Unknown { description, size } => {
                let w = width_of_size(*size)?;
                Ok(Value::Unknown(w))
            },
        }
    }
}


/// Every binding of `env` holds a well-formed value of the width of its variable.
pub open spec fn env_matches_widths(env: Seq<(Variable, Bitvector)>) -> bool {
    forall|i: int|
        0 <= i < env.len() ==> {
            &&& (#[trigger] env[i]).1.wf()
            &&& size_width(env[i].0.size) == Ok::<u64, IrError>(env[i].1.width)
        }
}

/// A value that `lookup_spec` finds is that of a binding of an equal variable.
proof fn lemma_lookup_found(env: Seq<(Variable, Bitvector)>, v: Variable)
    requires
        lookup_spec(env, v) is Some,
    ensures
        exists|i: int|
            0 <= i < env.len() && same_variable(#[trigger] env[i].0, v) && env[i].1 == lookup_spec(env, v)->Some_0,
    decreases env.len(),
{
    if same_variable(env.last().0, v) {
        assert(env[env.len() - 1] == env.last());
    } else {
        lemma_lookup_found(env.drop_last(), v);
        let i = choose|i: int|
            0 <= i < env.drop_last().len() && same_variable(#[trigger] env.drop_last()[i].0, v)
                && env.drop_last()[i].1 == lookup_spec(env.drop_last(), v)->Some_0;
        assert(env[i] == env.drop_last()[i]);
    }
}

/// Width inference agrees with evaluation: where the width of an expression
/// is inferred, and every variable is bound to a value of its own width or
/// not at all, evaluation gives a value of the inferred width; it can fail
/// only on a division by zero. A known result is never wider than `MAX_WIDTH`.
pub proof fn lemma_width_agrees_with_evaluation(e: Expression, env: Seq<(Variable, Bitvector)>)
    requires
        width_spec(e) is Ok,
        env_matches_widths(env),
    ensures
        1 <= width_spec(e)->Ok_0,
        eval_spec(e, env) is Ok ==> eval_spec(e, env)->Ok_0.spec_width() == width_spec(e)->Ok_0,
        eval_spec(e, env) is Err ==> eval_spec(e, env) == Err::<Value, IrError>(IrError::DivisionByZero),
        (eval_spec(e, env) is Ok && eval_spec(e, env)->Ok_0 is Known) ==> eval_spec(e, env)->Ok_0->Known_0.width
            <= MAX_WIDTH,
    decreases e,
{
    match e {
        Expression::Var(v) => {
            if lookup_spec(env, v) is Some {
                lemma_lookup_found(env, v);
                let i = choose|i: int|
                    0 <= i < env.len() && same_variable(#[trigger] env[i].0, v) && env[i].1 == lookup_spec(env, v)->Some_0;
                assert(env[i].0.size == v.size);
                assert(size_width(env[i].0.size) == Ok::<u64, IrError>(env[i].1.width));
            }
        },
        Expression::Const(c) => {},
        Expression::BinOp { op, lhs, rhs } => {
            lemma_width_agrees_with_evaluation(*lhs, env);
            lemma_width_agrees_with_evaluation(*rhs, env);
        },
        Expression::UnOp { op, arg } => {
            lemma_width_agrees_with_evaluation(*arg, env);
        },
        Expression::Cast { op, size, arg } => {
            lemma_width_agrees_with_evaluation(*arg, env);
        },
        Expression::Subpiece { low_byte, size, arg } => {
            lemma_width_agrees_with_evaluation(*arg, env);

        },
        Expression::IfThenElse { condition, then_expr, else_expr } => {
            lemma_width_agrees_with_evaluation(*condition, env);
            lemma_width_agrees_with_evaluation(*then_expr, env);
            lemma_width_agrees_with_evaluation(*else_expr, env);
        },
        Expression::Unknown { description, size } => {},
    }
}


/// The variables of an expression, in order from left to right.
pub open spec fn expr_vars(e: Expression) -> Seq<Variable>
    decreases e,
{
    match e {
        Expression::Var(v) => seq![v],
        Expression::Const(_) => seq![],
        Expression::BinOp { op, lhs, rhs } => expr_vars(*lhs) + expr_vars(*rhs),
        Expression::UnOp { op, arg } => expr_vars(*arg),
        Expression::Cast { op, size, arg } => expr_vars(*arg),
        Expression::Subpiece { low_byte, size, arg } => expr_vars(*arg),
        Expression::IfThenElse { condition, then_expr, else_expr } => expr_vars(*condition) + expr_vars(*then_expr)
            + expr_vars(*else_expr),
        Expression::Unknown { description, size } => seq![],
    }
}

/// Variables of one name have one size.
pub open spec fn sizes_agree(vs: Seq<Variable>) -> bool {
    forall|i: int, j: int|
        0 <= i < vs.len() && 0 <= j < vs.len() && (#[trigger] vs[i]).name@ == (#[trigger] vs[j]).name@ ==> vs[i].size
            == vs[j].size
}

/// The variables that a sequence of references points to.
pub open spec fn derefs(s: Seq<&Variable>) -> Seq<Variable> {
    s.map_values(|v: &Variable| *v)
}

impl Expression {
    /// Append the variables of this expression, as `expr_vars` states.
    pub fn collect_vars<'a>(&'a self, out: &mut Vec<&'a Variable>)
        ensures
            derefs(final(out)@) == derefs(old(out)@) + expr_vars(*self),
        decreases self,
    {
        let ghost start = out@;
        match self {
            Expression::Var(v) => {
                out.push(v);
            },
            Expression::Const(_) => {},
            Expression::BinOp { op, lhs, rhs } => {
                lhs.collect_vars(out);
                rhs.collect_vars(out);
            },
            Expression::UnOp { op, arg } => arg.collect_vars(out),
            Expression::Cast { op, size, arg } => arg.collect_vars(out),
            Expression::Subpiece { low_byte, size, arg } => arg.collect_vars(out),
            Expression::IfThenElse { condition, then_expr, else_expr } => {
                condition.collect_vars(out);
                then_expr.collect_vars(out);
                else_expr.collect_vars(out);
            },
            Expression::Unknown { description, size } => {},
        }
        proof {
            assert(derefs(out@) =~= derefs(start) + expr_vars(*self));
        }
    }
}

/// Whether variables of one name have one size, as `sizes_agree` states.
pub fn sizes_consistent(vs: &Vec<&Variable>) -> (r: bool)
    ensures
        r == sizes_agree(derefs(vs@)),
{
    let n = vs.len();
    let mut i: usize = 0;
    while i < n
        invariant
            n == vs@.len(),
            i <= n,
            forall|a: int, b: int|
                0 <= a < i && 0 <= b < n && (#[trigger] vs@[a]).name@ == (#[trigger] vs@[b]).name@ ==> vs@[a].size
                    == vs@[b].size,
        decreases n - i,
    {
        let mut j: usize = 0;
        while j < n
            invariant
                n == vs@.len(),
                i < n,
                j <= n,
                forall|a: int, b: int|
                    0 <= a < i && 0 <= b < n && (#[trigger] vs@[a]).name@ == (#[trigger] vs@[b]).name@ ==> vs@[a].size
                        == vs@[b].size,
                forall|b: int|
                    0 <= b < j && vs@[i as int].name@ == (#[trigger] vs@[b]).name@ ==> vs@[i as int].size == vs@[b].size,
            decreases n - j,
        {
            if vs[i].name == vs[j].name && vs[i].size != vs[j].size {
                proof {
                    assert(derefs(vs@)[i as int] == vs@[i as int]);
                    assert(derefs(vs@)[j as int] == vs@[j as int]);
                }
                return false;
            }
            j = j + 1;
        }
        i = i + 1;
    }
    proof {
        assert forall|a: int, b: int|
            0 <= a < n && 0 <= b < n && (#[trigger] derefs(vs@)[a]).name@ == (#[trigger] derefs(vs@)[b]).name@ implies derefs(
            vs@,
        )[a].size == derefs(vs@)[b].size by {
            assert(vs@[a].name@ == vs@[b].name@);
        }
    }
    true
}

} // verus!
