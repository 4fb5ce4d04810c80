use vstd::prelude::*;
use crate::error::IrError;
use crate::expression::{derefs, expr_vars, size_width, sizes_agree, sizes_consistent, width_spec};
use crate::variable::Variable;
use crate::term::{find_callee, has_block, has_sub, is_call_target, same_tid, Blk, Def, Jmp, Program, Project, Sub, Term, Tid};

verus! {

/// A defect that the check of a project reports.
#[derive(Debug)]
#[allow(inconsistent_fields)]
pub enum Violation {
    /// Two terms of one scope have the same identifier; the later one is named.
    DuplicateTid(Tid),
    /// The named block has no jump.
    NoJump(Tid),
    /// The named block has a conditional branch without exactly one
    /// fall-through jump after it.
    MissingFallthrough(Tid),
    /// The entry of the named function, or the entry point of the named
    /// program, does not resolve.
    InvalidEntry(Tid),
    /// A jump names a target that does not resolve.
    DanglingTarget { jmp: Tid, target: Tid },
    /// An expression of the named term has no consistent width.
    IllTyped { term: Tid, error: IrError },
    /// The pointer size differs from the register size.
    PointerSizeMismatch,
    /// The named block cannot be reached from the entry of its function.
    UnreachableBlock(Tid),
}

/// The error of a width, if it has one.
pub open spec fn error_of(w: Result<u64, IrError>) -> Option<IrError> {
    match w {
        Ok(_) => None,
        Err(e) => Some(e),
    }
}

/// The error of two widths that must agree: the first error, else
/// `WidthMismatch` where they differ.
pub open spec fn agree_error(a: Result<u64, IrError>, b: Result<u64, IrError>) -> Option<IrError> {
    match a {
        Err(e) => Some(e),
        Ok(x) => match b {
            Err(e) => Some(e),
            Ok(y) => if x == y {
                None
            } else {
                Some(IrError::WidthMismatch)
            },
        },
    }
}

/// The width error of an effect: an assignment needs a value of the width of
/// its variable; the other effects need well-typed parts.
pub open spec fn def_width_error(d: Def) -> Option<IrError> {
    match d {
        Def::Assign { var, value } => agree_error(width_spec(value), size_width(var.size)),
        Def::Load { var, address } => match error_of(width_spec(address)) {
            Some(e) => Some(e),
            None => error_of(size_width(var.size)),
        },
        Def::Store { address, value } => match error_of(width_spec(address)) {
            Some(e) => Some(e),
            None => error_of(width_spec(value)),
        },
    }
}

/// The width error of a jump: a condition must be one bit wide.
pub open spec fn jmp_width_error(j: Jmp) -> Option<IrError> {
    match j {
        Jmp::CBranch { target, condition } => agree_error(width_spec(condition), Ok(1)),
        Jmp::CallInd { target, return_ } => error_of(width_spec(target)),
        Jmp::Return(e) => error_of(width_spec(e)),
        _ => None,
    }
}

/// The variables that an effect names, its target first.
pub open spec fn def_vars(d: Def) -> Seq<Variable> {
    match d {
        Def::Assign { var, value } => seq![var] + expr_vars(value),
        Def::Load { var, address } => seq![var] + expr_vars(address),
        Def::Store { address, value } => expr_vars(address) + expr_vars(value),
    }
}

/// The variables that a jump names.
pub open spec fn jmp_vars(j: Jmp) -> Seq<Variable> {
    match j {
        Jmp::CBranch { target, condition } => expr_vars(condition),
        Jmp::CallInd { target, return_ } => expr_vars(target),
        Jmp::Return(e) => expr_vars(e),
        _ => seq![],
    }
}

/// The width error of a term, else `WidthMismatch` where two of its variables
/// of one name differ in size.
pub open spec fn with_var_sizes(e: Option<IrError>, vs: Seq<Variable>) -> Option<IrError> {
    match e {
        Some(err) => Some(err),
        None => if sizes_agree(vs) {
            None
        } else {
            Some(IrError::WidthMismatch)
        },
    }
}

/// The typing error of an effect.
pub open spec fn def_type_error(d: Def) -> Option<IrError> {
    with_var_sizes(def_width_error(d), def_vars(d))
}

/// The typing error of a jump.
pub open spec fn jmp_type_error(j: Jmp) -> Option<IrError> {
    with_var_sizes(jmp_width_error(j), jmp_vars(j))
}

/// The report of a typing error of the term `t`.
pub open spec fn type_violation(t: Tid, e: Option<IrError>) -> Seq<Violation> {
    match e {
        Some(error) => seq![Violation::IllTyped { term: t, error }],
        None => seq![],
    }
}

/// The report of a jump `j` to a block `t` of `blocks`.
pub open spec fn block_target(blocks: Seq<Term<Blk>>, j: Tid, t: Tid) -> Seq<Violation> {
    if has_block(blocks, t) {
        seq![]
    } else {
        seq![Violation::DanglingTarget { jmp: j, target: t }]
    }
}

/// The report of a return target `r` of the jump `j`.
pub open spec fn return_target(blocks: Seq<Term<Blk>>, j: Tid, r: Option<Tid>) -> Seq<Violation> {
    match r {
        Some(t) => block_target(blocks, j, t),
        None => seq![],
    }
}

/// The report of the targets of a jump of a function with `blocks`, in a
/// program with `subs`: branches go to blocks of the function, calls to
/// functions of the program (named by their own identifier or by that of
/// their entry block), returns from calls to blocks of the function.
pub open spec fn target_violations(subs: Seq<Term<Sub>>, blocks: Seq<Term<Blk>>, j: Term<Jmp>) -> Seq<Violation> {
    match j.term {
        Jmp::Branch(t) => block_target(blocks, j.tid, t),
        Jmp::CBranch { target, condition } => block_target(blocks, j.tid, target),
        Jmp::Call { target, return_ } => (if is_call_target(subs, target) {
            seq![]
        } else {
            seq![Violation::DanglingTarget { jmp: j.tid, target }]
        }) + return_target(blocks, j.tid, return_),
        Jmp::CallInd { target, return_ } => return_target(blocks, j.tid, return_),
        Jmp::Return(_) => seq![],
    }
}

/// The report of the effects `defs`, in order.
pub open spec fn defs_violations(defs: Seq<Term<Def>>) -> Seq<Violation>
    decreases defs.len(),
{
    if defs.len() == 0 {
        seq![]
    } else {
        defs_violations(defs.drop_last()) + type_violation(defs.last().tid, def_type_error(defs.last().term))
    }
}

/// The report of the jumps `jmps`, in order.
pub open spec fn jmps_violations(subs: Seq<Term<Sub>>, blocks: Seq<Term<Blk>>, jmps: Seq<Term<Jmp>>) -> Seq<Violation>
    decreases jmps.len(),
{
    if jmps.len() == 0 {
        seq![]
    } else {
        jmps_violations(subs, blocks, jmps.drop_last()) + type_violation(jmps.last().tid, jmp_type_error(jmps.last().term))
            + target_violations(subs, blocks, jmps.last())
    }
}

/// Whether one of `jmps` is a conditional branch.
pub open spec fn has_cbranch(jmps: Seq<Term<Jmp>>) -> bool {
    exists|k: int| 0 <= k < jmps.len() && (#[trigger] jmps[k]).term is CBranch
}

/// A block with a conditional branch has exactly two jumps: the branch, then
/// a jump that is not conditional.
pub open spec fn fallthrough_ok(jmps: Seq<Term<Jmp>>) -> bool {
    has_cbranch(jmps) ==> (jmps.len() == 2 && jmps[0].term is CBranch && !(jmps[1].term is CBranch))
}

/// The structural report of a block: it has a jump, and a conditional branch
/// has its fall-through.
pub open spec fn structure_violations(b: Term<Blk>) -> Seq<Violation> {
    (if b.term.jmps@.len() == 0 {
        seq![Violation::NoJump(b.tid)]
    } else {
        seq![]
    }) + (if fallthrough_ok(b.term.jmps@) {
        seq![]
    } else {
        seq![Violation::MissingFallthrough(b.tid)]
    })
}

/// The report of a block `b` of a function with `blocks`, where `prior` are
/// the blocks before it.
pub open spec fn blk_violations(subs: Seq<Term<Sub>>, blocks: Seq<Term<Blk>>, prior: Seq<Term<Blk>>, b: Term<Blk>) -> Seq<Violation> {
    (if has_block(prior, b.tid) {
        seq![Violation::DuplicateTid(b.tid)]
    } else {
        seq![]
    }) + structure_violations(b) + defs_violations(b.term.defs@) + jmps_violations(subs, blocks, b.term.jmps@)
}

/// The report of the first blocks `pre` of a function with `blocks`.
pub open spec fn blocks_violations(subs: Seq<Term<Sub>>, blocks: Seq<Term<Blk>>, pre: Seq<Term<Blk>>) -> Seq<Violation>
    decreases pre.len(),
{
    if pre.len() == 0 {
        seq![]
    } else {
        blocks_violations(subs, blocks, pre.drop_last()) + blk_violations(subs, blocks, pre.drop_last(), pre.last())
    }
}

/// The report of a function `s` of a program with `subs`, where `prior` are
/// the functions before it.
pub open spec fn sub_violations(subs: Seq<Term<Sub>>, prior: Seq<Term<Sub>>, s: Term<Sub>) -> Seq<Violation> {
    (if has_sub(prior, s.tid) {
        seq![Violation::DuplicateTid(s.tid)]
    } else {
        seq![]
    }) + (if has_block(s.term.blocks@, s.term.entry) {
        seq![]
    } else {
        seq![Violation::InvalidEntry(s.tid)]
    }) + blocks_violations(subs, s.term.blocks@, s.term.blocks@) + unreachable_violations(
        s.term.blocks@,
        s.term.entry,
        s.term.blocks@.len(),
    )
}

/// The report of the first functions `pre` of a program with `subs`.
pub open spec fn subs_violations(subs: Seq<Term<Sub>>, pre: Seq<Term<Sub>>) -> Seq<Violation>
    decreases pre.len(),
{
    if pre.len() == 0 {
        seq![]
    } else {
        subs_violations(subs, pre.drop_last()) + sub_violations(subs, pre.drop_last(), pre.last())
    }
}

/// The report of a project: the pointer size against the register size, the
/// entry point, then each function in order.
pub open spec fn project_violations(p: Project) -> Seq<Violation> {
    let subs = p.program.term.subs@;
    (if p.datatype_properties.pointer_size == p.register_size {
        seq![]
    } else {
        seq![Violation::PointerSizeMismatch]
    }) + (if has_sub(subs, p.program.term.entry_point) {
        seq![]
    } else {
        seq![Violation::InvalidEntry(p.program.tid)]
    }) + subs_violations(subs, subs)
}


/// The error of a width, as `error_of` states.
fn width_error(w: Result<u64, IrError>) -> (r: Option<IrError>)
    ensures
        r == error_of(w),
{
    match w {
        Ok(_) => None,
        Err(e) => Some(e),
    }
}

/// The error of two widths that must agree, as `agree_error` states.
fn agreement_error(a: Result<u64, IrError>, b: Result<u64, IrError>) -> (r: Option<IrError>)
    ensures
        r == agree_error(a, b),
{
    let x = match a {
        Err(e) => return Some(e),
        Ok(x) => x,
    };
    let y = match b {
        Err(e) => return Some(e),
        Ok(y) => y,
    };
    if x == y {
        None
    } else {
        Some(IrError::WidthMismatch)
    }
}

/// The width in bits of a value of `size` bytes, as `size_width` states.
fn size_bits(size: crate::bytesize::ByteSize) -> (r: Result<u64, IrError>)
    ensures
        r == size_width(size),
{
    if size.0 >= 1 && size.0 <= crate::expression::MAX_SIZE_BYTES {
        Ok(size.0 * 8)
    } else {
        Err(IrError::ConstructionError)
    }
}

impl Def {
    /// The typing error of this effect, as `def_type_error` states.
    pub fn type_error(&self) -> (r: Option<IrError>)
        ensures
            r == def_type_error(*self),
    {
        let e = self.width_error();
        if e.is_some() {
            return e;
        }
        let mut vs: Vec<&Variable> = Vec::new();
        match self {
            Def::Assign { var, value } => {
                vs.push(var);
                value.collect_vars(&mut vs);
            },
            Def::Load { var, address } => {
                vs.push(var);
                address.collect_vars(&mut vs);
            },
            Def::Store { address, value } => {
                address.collect_vars(&mut vs);
                value.collect_vars(&mut vs);
            },
        }
        proof {
            assert(derefs(vs@) =~= def_vars(*self));
        }
        if sizes_consistent(&vs) {
            None
        } else {
            Some(IrError::WidthMismatch)
        }
    }

    /// The width error of this effect, as `def_width_error` states.
    fn width_error(&self) -> (r: Option<IrError>)
        ensures
            r == def_width_error(*self),
    {
        match self {
            Def::Assign { var, value } => agreement_error(value.bit_width(), size_bits(var.size)),
            Def::Load { var, address } => match width_error(address.bit_width()) {
                Some(e) => Some(e),
                None => width_error(size_bits(var.size)),
            },
            Def::Store { address, value } => match width_error(address.bit_width()) {
                Some(e) => Some(e),
                None => width_error(value.bit_width()),
            },
        }
    }
}

impl Jmp {
    /// The typing error of this jump, as `jmp_type_error` states.
    pub fn type_error(&self) -> (r: Option<IrError>)
        ensures
            r == jmp_type_error(*self),
    {
        let e = self.width_error();
        if e.is_some() {
            return e;
        }
        let mut vs: Vec<&Variable> = Vec::new();
        match self {
            Jmp::CBranch { target, condition } => condition.collect_vars(&mut vs),
            Jmp::CallInd { target, return_ } => target.collect_vars(&mut vs),
            Jmp::Return(e) => e.collect_vars(&mut vs),
            _ => {},
        }
        proof {
            assert(derefs(vs@) =~= jmp_vars(*self));
        }
        if sizes_consistent(&vs) {
            None
        } else {
            Some(IrError::WidthMismatch)
        }
    }

    /// The width error of this jump, as `jmp_width_error` states.
    fn width_error(&self) -> (r: Option<IrError>)
        ensures
            r == jmp_width_error(*self),
    {
        match self {
            Jmp::CBranch { target, condition } => agreement_error(condition.bit_width(), Ok(1)),
            Jmp::CallInd { target, return_ } => width_error(target.bit_width()),
            Jmp::Return(e) => width_error(e.bit_width()),
            _ => None,
        }
    }
}

/// Whether one of the first `n` blocks has the identifier `t`.
fn block_among(blocks: &Vec<Term<Blk>>, n: usize, t: &Tid) -> (r: bool)
    requires
        n <= blocks@.len(),
    ensures
        r == has_block(blocks@.take(n as int), *t),
{
    let mut i: usize = 0;
    while i < n
        invariant
            i <= n <= blocks@.len(),
            forall|k: int| 0 <= k < i ==> !same_tid(#[trigger] blocks@[k].tid, *t),
        decreases n - i,
    {
        if blocks[i].tid.same_as(t) {
            assert(blocks@.take(n as int)[i as int] == blocks@[i as int]);
            return true;
        }
        i = i + 1;
    }
    proof {
        if has_block(blocks@.take(n as int), *t) {
            let k = choose|k: int| 0 <= k < n && same_tid(#[trigger] blocks@.take(n as int)[k].tid, *t);
            assert(blocks@.take(n as int)[k] == blocks@[k]);
        }
    }
    false
}

/// Whether one of the first `n` functions has the identifier `t`.
fn sub_among(subs: &Vec<Term<Sub>>, n: usize, t: &Tid) -> (r: bool)
    requires
        n <= subs@.len(),
    ensures
        r == has_sub(subs@.take(n as int), *t),
{
    let mut i: usize = 0;
    while i < n
        invariant
            i <= n <= subs@.len(),
            forall|k: int| 0 <= k < i ==> !same_tid(#[trigger] subs@[k].tid, *t),
        decreases n - i,
    {
        if subs[i].tid.same_as(t) {
            assert(subs@.take(n as int)[i as int] == subs@[i as int]);
            return true;
        }
        i = i + 1;
    }
    proof {
        if has_sub(subs@.take(n as int), *t) {
            let k = choose|k: int| 0 <= k < n && same_tid(#[trigger] subs@.take(n as int)[k].tid, *t);
            assert(subs@.take(n as int)[k] == subs@[k]);
        }
    }
    false
}

/// Whether some block of `blocks` has the identifier `t`.
fn block_exists(blocks: &Vec<Term<Blk>>, t: &Tid) -> (r: bool)
    ensures
        r == has_block(blocks@, *t),
{
    proof {
        assert(blocks@.take(blocks@.len() as int) =~= blocks@);
    }
    block_among(blocks, blocks.len(), t)
}

/// Whether some function of `subs` has the identifier `t`.
fn sub_exists(subs: &Vec<Term<Sub>>, t: &Tid) -> (r: bool)
    ensures
        r == has_sub(subs@, *t),
{
    proof {
        assert(subs@.take(subs@.len() as int) =~= subs@);
    }
    sub_among(subs, subs.len(), t)
}

/// Append the report of a typing error of the term `t`.
fn push_type(out: &mut Vec<Violation>, t: &Tid, e: Option<IrError>)
    ensures
        final(out)@ == old(out)@ + type_violation(*t, e),
{
    match e {
        Some(error) => out.push(Violation::IllTyped { term: t.duplicate(), error }),
        None => {},
    }
    proof {
        assert(final(out)@ =~= old(out)@ + type_violation(*t, e));
    }
}

/// Append the report of a jump `j` to a block `t` of `blocks`.
fn push_block_target(out: &mut Vec<Violation>, blocks: &Vec<Term<Blk>>, j: &Tid, t: &Tid)
    ensures
        final(out)@ == old(out)@ + block_target(blocks@, *j, *t),
{
    if !block_exists(blocks, t) {
        out.push(Violation::DanglingTarget { jmp: j.duplicate(), target: t.duplicate() });
    }
    proof {
        assert(final(out)@ =~= old(out)@ + block_target(blocks@, *j, *t));
    }
}

/// Append the report of the targets of the jump `j`, as `target_violations` states.
fn push_targets(out: &mut Vec<Violation>, subs: &Vec<Term<Sub>>, blocks: &Vec<Term<Blk>>, j: &Term<Jmp>)
    ensures
        final(out)@ == old(out)@ + target_violations(subs@, blocks@, *j),
{
    let ghost start = out@;
    match &j.term {
        Jmp::Branch(t) => push_block_target(out, blocks, &j.tid, t),
        Jmp::CBranch { target, condition } => push_block_target(out, blocks, &j.tid, target),
        Jmp::Call { target, return_ } => {
            if find_callee(subs, target).is_err() {
                out.push(Violation::DanglingTarget { jmp: j.tid.duplicate(), target: target.duplicate() });
            }
            let ghost mid = out@;
            match return_ {
                Some(r) => push_block_target(out, blocks, &j.tid, r),
                None => {},
            }
            proof {
                assert(out@ =~= mid + return_target(blocks@, j.tid, *return_));
                assert(out@ =~= start + target_violations(subs@, blocks@, *j));
            }
        },
        Jmp::CallInd { target, return_ } => {
            match return_ {
                Some(r) => push_block_target(out, blocks, &j.tid, r),
                None => {},
            }
            proof {
                assert(out@ =~= start + target_violations(subs@, blocks@, *j));
            }
        },
        Jmp::Return(_) => {
            proof {
                assert(out@ =~= start + target_violations(subs@, blocks@, *j));
            }
        },
    }
}

/// Append the report of the effects `defs`, as `defs_violations` states.
fn push_defs(out: &mut Vec<Violation>, defs: &Vec<Term<Def>>)
    ensures
        final(out)@ == old(out)@ + defs_violations(defs@),
{
    let ghost start = out@;
    let mut i: usize = 0;
    proof {
        assert(defs@.take(0) =~= Seq::<Term<Def>>::empty());
        assert(out@ =~= start + defs_violations(defs@.take(0)));
    }
    while i < defs.len()
        invariant
            i <= defs@.len(),
            out@ == start + defs_violations(defs@.take(i as int)),
        decreases defs@.len() - i,
    {
        proof {
            assert(defs@.take(i + 1).drop_last() =~= defs@.take(i as int));
            assert(defs@.take(i + 1).last() == defs@[i as int]);
        }
        let e = defs[i].term.type_error();
        push_type(out, &defs[i].tid, e);
        i = i + 1;
        proof {
            assert(out@ =~= start + defs_violations(defs@.take(i as int)));
        }
    }
    proof {
        assert(defs@.take(defs@.len() as int) =~= defs@);
    }
}

/// Append the report of the jumps `jmps`, as `jmps_violations` states.
fn push_jmps(out: &mut Vec<Violation>, subs: &Vec<Term<Sub>>, blocks: &Vec<Term<Blk>>, jmps: &Vec<Term<Jmp>>)
    ensures
        final(out)@ == old(out)@ + jmps_violations(subs@, blocks@, jmps@),
{
    let ghost start = out@;
    let mut i: usize = 0;
    proof {
        assert(jmps@.take(0) =~= Seq::<Term<Jmp>>::empty());
        assert(out@ =~= start + jmps_violations(subs@, blocks@, jmps@.take(0)));
    }
    while i < jmps.len()
        invariant
            i <= jmps@.len(),
            out@ == start + jmps_violations(subs@, blocks@, jmps@.take(i as int)),
        decreases jmps@.len() - i,
    {
        proof {
            assert(jmps@.take(i + 1).drop_last() =~= jmps@.take(i as int));
            assert(jmps@.take(i + 1).last() == jmps@[i as int]);
        }
        let e = jmps[i].term.type_error();
        push_type(out, &jmps[i].tid, e);
        push_targets(out, subs, blocks, &jmps[i]);
        i = i + 1;
        proof {
            assert(out@ =~= start + jmps_violations(subs@, blocks@, jmps@.take(i as int)));
        }
    }
    proof {
        assert(jmps@.take(jmps@.len() as int) =~= jmps@);
    }
}

/// Whether a block with the jumps `jmps` has its fall-through, as
/// `fallthrough_ok` states.
fn fallthrough_present(jmps: &Vec<Term<Jmp>>) -> (r: bool)
    ensures
        r == fallthrough_ok(jmps@),
{
    let mut i: usize = 0;
    while i < jmps.len()
        invariant
            i <= jmps@.len(),
            forall|k: int| 0 <= k < i ==> !((#[trigger] jmps@[k]).term is CBranch),
        decreases jmps@.len() - i,
    {
        if matches!(jmps[i].term, Jmp::CBranch { .. }) {
            return jmps.len() == 2 && matches!(jmps[0].term, Jmp::CBranch { .. })
                && !matches!(jmps[1].term, Jmp::CBranch { .. });
        }
        i = i + 1;
    }
    true
}


/// Append the report of the block `j` of a function with `blocks`, as
/// `blk_violations` states.
fn push_blk(out: &mut Vec<Violation>, subs: &Vec<Term<Sub>>, blocks: &Vec<Term<Blk>>, j: usize)
    requires
        j < blocks@.len(),
    ensures
        final(out)@ == old(out)@ + blk_violations(subs@, blocks@, blocks@.take(j as int), blocks@[j as int]),
{
    let ghost start = out@;
    let b = &blocks[j];
    if block_among(blocks, j, &b.tid) {
        out.push(Violation::DuplicateTid(b.tid.duplicate()));
    }
    if b.term.jmps.len() == 0 {
        out.push(Violation::NoJump(b.tid.duplicate()));
    }
    if !fallthrough_present(&b.term.jmps) {
        out.push(Violation::MissingFallthrough(b.tid.duplicate()));
    }
    let ghost mid = out@;
    proof {
        assert(mid =~= start + (if has_block(blocks@.take(j as int), b.tid) {
            seq![Violation::DuplicateTid(b.tid)]
        } else {
            seq![]
        }) + structure_violations(*b));
    }
    push_defs(out, &b.term.defs);
    push_jmps(out, subs, blocks, &b.term.jmps);
    proof {
        assert(out@ =~= start + blk_violations(subs@, blocks@, blocks@.take(j as int), *b));
    }
}

/// Append the report of the function `i` of `subs`, as `sub_violations` states.
fn push_sub(out: &mut Vec<Violation>, subs: &Vec<Term<Sub>>, i: usize)
    requires
        i < subs@.len(),
    ensures
        final(out)@ == old(out)@ + sub_violations(subs@, subs@.take(i as int), subs@[i as int]),
{
    let ghost start = out@;
    let s = &subs[i];
    if sub_among(subs, i, &s.tid) {
        out.push(Violation::DuplicateTid(s.tid.duplicate()));
    }
    if !block_exists(&s.term.blocks, &s.term.entry) {
        out.push(Violation::InvalidEntry(s.tid.duplicate()));
    }
    let ghost mid = out@;
    let blocks = &s.term.blocks;
    let mut j: usize = 0;
    proof {
        assert(blocks@.take(0) =~= Seq::<Term<Blk>>::empty());
        assert(out@ =~= mid + blocks_violations(subs@, blocks@, blocks@.take(0)));
    }
    while j < blocks.len()
        invariant
            j <= blocks@.len(),
            out@ == mid + blocks_violations(subs@, blocks@, blocks@.take(j as int)),
        decreases blocks@.len() - j,
    {
        proof {
            assert(blocks@.take(j + 1).drop_last() =~= blocks@.take(j as int));
            assert(blocks@.take(j + 1).last() == blocks@[j as int]);
        }
        push_blk(out, subs, blocks, j);
        j = j + 1;
        proof {
            assert(out@ =~= mid + blocks_violations(subs@, blocks@, blocks@.take(j as int)));
        }
    }
    proof {
        assert(blocks@.take(blocks@.len() as int) =~= blocks@);
    }
    push_unreachable(out, blocks, &s.term.entry);
    proof {
        assert(out@ =~= start + sub_violations(subs@, subs@.take(i as int), *s));
    }
}

impl Project {
    /// Check the whole project and report every defect found, in the order
    /// that `project_violations` states: the pointer size, the entry point,
    /// then each function with its entry and its blocks, each block with its
    /// identifier, its structure, its effects and its jumps.
    pub fn verify(&self) -> (r: Vec<Violation>)
        ensures
            r@ == project_violations(*self),
    {
        let mut out: Vec<Violation> = Vec::new();
        if self.datatype_properties.pointer_size.0 != self.register_size.0 {
            out.push(Violation::PointerSizeMismatch);
        }
        let subs = &self.program.term.subs;
        if !sub_exists(subs, &self.program.term.entry_point) {
            out.push(Violation::InvalidEntry(self.program.tid.duplicate()));
        }
        let ghost mid = out@;
        let mut i: usize = 0;
        proof {
            assert(subs@.take(0) =~= Seq::<Term<Sub>>::empty());
            assert(out@ =~= mid + subs_violations(subs@, subs@.take(0)));
        }
        while i < subs.len()
            invariant
                i <= subs@.len(),
                out@ == mid + subs_violations(subs@, subs@.take(i as int)),
            decreases subs@.len() - i,
        {
            proof {
                assert(subs@.take(i + 1).drop_last() =~= subs@.take(i as int));
                assert(subs@.take(i + 1).last() == subs@[i as int]);
            }
            push_sub(&mut out, subs, i);
            i = i + 1;
            proof {
                assert(out@ =~= mid + subs_violations(subs@, subs@.take(i as int)));
            }
        }
        proof {
            assert(subs@.take(subs@.len() as int) =~= subs@);
            assert(out@ =~= project_violations(*self));
        }
        out
    }
}


/// What one part of a concatenation holds, the whole holds.
proof fn lemma_concat_contains(x: Seq<Violation>, y: Seq<Violation>, v: Violation)
    ensures
        x.contains(v) ==> (x + y).contains(v),
        y.contains(v) ==> (x + y).contains(v),
{
    if x.contains(v) {
        let i = choose|i: int| 0 <= i < x.len() && x[i] == v;
        assert((x + y)[i] == v);
    }
    if y.contains(v) {
        let i = choose|i: int| 0 <= i < y.len() && y[i] == v;
        assert((x + y)[x.len() + i] == v);
    }
}

/// The report of the first blocks `pre` holds the structural report of each.
proof fn lemma_blocks_report_structure(subs: Seq<Term<Sub>>, blocks: Seq<Term<Blk>>, pre: Seq<Term<Blk>>, j: int, v: Violation)
    requires
        0 <= j < pre.len(),
        structure_violations(pre[j]).contains(v),
    ensures
        blocks_violations(subs, blocks, pre).contains(v),
    decreases pre.len(),
{
    let last = pre.last();
    let prior = pre.drop_last();
    let dup = if has_block(prior, last.tid) {
        seq![Violation::DuplicateTid(last.tid)]
    } else {
        seq![]
    };
    if j == pre.len() - 1 {
        lemma_concat_contains(dup, structure_violations(last), v);
        lemma_concat_contains(dup + structure_violations(last), defs_violations(last.term.defs@), v);
        lemma_concat_contains(
            dup + structure_violations(last) + defs_violations(last.term.defs@),
            jmps_violations(subs, blocks, last.term.jmps@),
            v,
        );
        lemma_concat_contains(blocks_violations(subs, blocks, prior), blk_violations(subs, blocks, prior, last), v);
    } else {
        assert(prior[j] == pre[j]);
        lemma_blocks_report_structure(subs, blocks, prior, j, v);
        lemma_concat_contains(blocks_violations(subs, blocks, prior), blk_violations(subs, blocks, prior, last), v);
    }
}

/// The report of the first functions `pre` holds the structural report of
/// each of their blocks.
proof fn lemma_subs_report_structure(subs: Seq<Term<Sub>>, pre: Seq<Term<Sub>>, i: int, j: int, v: Violation)
    requires
        0 <= i < pre.len(),
        0 <= j < pre[i].term.blocks@.len(),
        structure_violations(pre[i].term.blocks@[j]).contains(v),
    ensures
        subs_violations(subs, pre).contains(v),
    decreases pre.len(),
{
    let last = pre.last();
    let prior = pre.drop_last();
    if i == pre.len() - 1 {
        let blocks = last.term.blocks@;
        let head = (if has_sub(prior, last.tid) {
            seq![Violation::DuplicateTid(last.tid)]
        } else {
            seq![]
        }) + (if has_block(blocks, last.term.entry) {
            seq![]
        } else {
            seq![Violation::InvalidEntry(last.tid)]
        });
        lemma_blocks_report_structure(subs, blocks, blocks, j, v);
        lemma_concat_contains(head, blocks_violations(subs, blocks, blocks), v);
        lemma_concat_contains(
            head + blocks_violations(subs, blocks, blocks),
            unreachable_violations(blocks, last.term.entry, blocks.len()),
            v,
        );
        assert(sub_violations(subs, prior, last) == head + blocks_violations(subs, blocks, blocks)
            + unreachable_violations(blocks, last.term.entry, blocks.len()));
        lemma_concat_contains(subs_violations(subs, prior), sub_violations(subs, prior, last), v);
    } else {
        assert(prior[i] == pre[i]);
        lemma_subs_report_structure(subs, prior, i, j, v);
        lemma_concat_contains(subs_violations(subs, prior), sub_violations(subs, prior, last), v);
    }
}

/// A block without a jump makes the check of its project report `NoJump`
/// naming the block; a block whose conditional branch lacks its fall-through
/// sibling makes it report `MissingFallthrough` naming the block.
pub proof fn lemma_structural_defects_reported(p: Project, i: int, j: int)
    requires
        0 <= i < p.program.term.subs@.len(),
        0 <= j < p.program.term.subs@[i].term.blocks@.len(),
    ensures
        ({
            let b = p.program.term.subs@[i].term.blocks@[j];
            &&& b.term.jmps@.len() == 0 ==> project_violations(p).contains(Violation::NoJump(b.tid))
            &&& !fallthrough_ok(b.term.jmps@) ==> project_violations(p).contains(
                Violation::MissingFallthrough(b.tid),
            )
        }),
{
    let subs = p.program.term.subs@;
    let b = subs[i].term.blocks@[j];
    let nj = if b.term.jmps@.len() == 0 {
        seq![Violation::NoJump(b.tid)]
    } else {
        seq![]
    };
    let mf = if fallthrough_ok(b.term.jmps@) {
        seq![]
    } else {
        seq![Violation::MissingFallthrough(b.tid)]
    };
    let head = (if p.datatype_properties.pointer_size == p.register_size {
        seq![]
    } else {
        seq![Violation::PointerSizeMismatch]
    }) + (if has_sub(subs, p.program.term.entry_point) {
        seq![]
    } else {
        seq![Violation::InvalidEntry(p.program.tid)]
    });
    if b.term.jmps@.len() == 0 {
        let v = Violation::NoJump(b.tid);
        assert(nj[0] == v);
        lemma_concat_contains(nj, mf, v);
        lemma_subs_report_structure(subs, subs, i, j, v);
        lemma_concat_contains(head, subs_violations(subs, subs), v);
    }
    if !fallthrough_ok(b.term.jmps@) {
        let v = Violation::MissingFallthrough(b.tid);
        assert(mf[0] == v);
        lemma_concat_contains(nj, mf, v);
        lemma_subs_report_structure(subs, subs, i, j, v);
        lemma_concat_contains(head, subs_violations(subs, subs), v);
    }
}


/// Whether the jump `j` leads to the block `t` of its own function: as a
/// branch target, or as the block that a call returns to.
pub open spec fn jmp_links(j: Jmp, t: Tid) -> bool {
    match j {
        Jmp::Branch(x) => same_tid(x, t),
        Jmp::CBranch { target, condition } => same_tid(target, t),
        Jmp::Call { target, return_ } => return_ is Some && same_tid(return_->Some_0, t),
        Jmp::CallInd { target, return_ } => return_ is Some && same_tid(return_->Some_0, t),
        Jmp::Return(_) => false,
    }
}

/// Whether a jump of block `a` leads to block `k`.
pub open spec fn edge(blocks: Seq<Term<Blk>>, a: int, k: int) -> bool {
    exists|m: int|
        0 <= m < blocks[a].term.jmps@.len() && jmp_links(#[trigger] blocks[a].term.jmps@[m].term, blocks[k].tid)
}

/// The blocks with the identifier `entry`.
pub open spec fn entry_blocks(blocks: Seq<Term<Blk>>, entry: Tid) -> Set<int> {
    Set::new(|k: int| 0 <= k < blocks.len() && same_tid(blocks[k].tid, entry))
}

/// The blocks of `prev`, and those that a jump of a block of `prev` goes to.
pub open spec fn expand(blocks: Seq<Term<Blk>>, prev: Set<int>) -> Set<int> {
    Set::new(
        |k: int|
            prev.contains(k) || (0 <= k < blocks.len() && exists|a: int|
                0 <= a < blocks.len() && #[trigger] prev.contains(a) && edge(blocks, a, k)),
    )
}

/// The blocks reached from the entry `entry` in at most `steps` edges.
pub open spec fn reach_set(blocks: Seq<Term<Blk>>, entry: Tid, steps: nat) -> Set<int>
    decreases steps,
{
    if steps == 0 {
        entry_blocks(blocks, entry)
    } else {
        expand(blocks, reach_set(blocks, entry, (steps - 1) as nat))
    }
}

/// Whether block `k` is reached from the entry: a path without repeated
/// blocks has fewer edges than there are blocks.
pub open spec fn reachable(blocks: Seq<Term<Blk>>, entry: Tid, k: int) -> bool {
    reach_set(blocks, entry, blocks.len()).contains(k)
}

/// The report of the first `c` blocks that cannot be reached from the entry.
pub open spec fn unreachable_violations(blocks: Seq<Term<Blk>>, entry: Tid, c: nat) -> Seq<Violation>
    decreases c,
{
    if c == 0 {
        seq![]
    } else {
        unreachable_violations(blocks, entry, (c - 1) as nat) + (if reachable(blocks, entry, c - 1) {
            seq![]
        } else {
            seq![Violation::UnreachableBlock(blocks[c - 1].tid)]
        })
    }
}

/// Whether the jump `j` leads to the block `t`, as `jmp_links` states.
fn links_to(j: &Jmp, t: &Tid) -> (r: bool)
    ensures
        r == jmp_links(*j, *t),
{
    match j {
        Jmp::Branch(x) => x.same_as(t),
        Jmp::CBranch { target, condition } => target.same_as(t),
        Jmp::Call { target, return_ } => match return_ {
            Some(x) => x.same_as(t),
            None => false,
        },
        Jmp::CallInd { target, return_ } => match return_ {
            Some(x) => x.same_as(t),
            None => false,
        },
        Jmp::Return(_) => false,
    }
}

/// Whether a jump of block `a` leads to block `k`, as `edge` states.
fn has_edge(blocks: &Vec<Term<Blk>>, a: usize, k: usize) -> (r: bool)
    requires
        a < blocks@.len(),
        k < blocks@.len(),
    ensures
        r == edge(blocks@, a as int, k as int),
{
    let jmps = &blocks[a].term.jmps;
    let mut m: usize = 0;
    while m < jmps.len()
        invariant
            m <= jmps@.len(),
            a < blocks@.len(),
            k < blocks@.len(),
            jmps@ == blocks@[a as int].term.jmps@,
            forall|i: int| 0 <= i < m ==> !jmp_links(#[trigger] jmps@[i].term, blocks@[k as int].tid),
        decreases jmps@.len() - m,
    {
        if links_to(&jmps[m].term, &blocks[k].tid) {
            return true;
        }
        m = m + 1;
    }
    false
}

/// One more edge: the blocks reached in at most one more step than `prev` marks.
fn reach_step(blocks: &Vec<Term<Blk>>, entry: &Tid, prev: &Vec<bool>, Ghost(s): Ghost<nat>) -> (r: Vec<bool>)
    requires
        prev@.len() == blocks@.len(),
        forall|k: int| 0 <= k < blocks@.len() ==> prev@[k] == reach_set(blocks@, *entry, s).contains(k),
    ensures
        r@.len() == blocks@.len(),
        forall|k: int| 0 <= k < blocks@.len() ==> r@[k] == reach_set(blocks@, *entry, s + 1).contains(k),
{
    let n = blocks.len();
    let mut r: Vec<bool> = Vec::new();
    let mut k: usize = 0;
    while k < n
        invariant
            n == blocks@.len(),
            k <= n,
            r@.len() == k,
            prev@.len() == n,
            forall|i: int| 0 <= i < n ==> prev@[i] == reach_set(blocks@, *entry, s).contains(i),
            forall|i: int| 0 <= i < k ==> r@[i] == reach_set(blocks@, *entry, s + 1).contains(i),
        decreases n - k,
    {
        let mut found = prev[k];
        let mut a: usize = 0;
        while a < n && !found
            invariant
                n == blocks@.len(),
                k < n,
                a <= n,
                prev@.len() == n,
                forall|i: int| 0 <= i < n ==> prev@[i] == reach_set(blocks@, *entry, s).contains(i),
                found ==> reach_set(blocks@, *entry, s + 1).contains(k as int),
                !found ==> !reach_set(blocks@, *entry, s).contains(k as int),
                !found ==> forall|i: int|
                    0 <= i < a ==> !(reach_set(blocks@, *entry, s).contains(i) && edge(blocks@, i, k as int)),
            decreases n - a,
        {
            if prev[a] && has_edge(blocks, a, k) {
                proof {
                    assert(reach_set(blocks@, *entry, s).contains(a as int));
                    assert(reach_set(blocks@, *entry, s + 1) == expand(blocks@, reach_set(blocks@, *entry, s)));
                }
                found = true;
            }
            a = a + 1;
        }
        r.push(found);
        k = k + 1;
    }
    r
}

/// Which blocks are reached from the entry, as `reachable` states.
fn reachable_blocks(blocks: &Vec<Term<Blk>>, entry: &Tid) -> (r: Vec<bool>)
    ensures
        r@.len() == blocks@.len(),
        forall|k: int| 0 <= k < blocks@.len() ==> r@[k] == reachable(blocks@, *entry, k),
{
    let n = blocks.len();
    let mut cur: Vec<bool> = Vec::new();
    let mut k: usize = 0;
    while k < n
        invariant
            n == blocks@.len(),
            k <= n,
            cur@.len() == k,
            forall|i: int| 0 <= i < k ==> cur@[i] == reach_set(blocks@, *entry, 0).contains(i),
        decreases n - k,
    {
        cur.push(blocks[k].tid.same_as(entry));
        k = k + 1;
    }
    let mut s: usize = 0;
    while s < n
        invariant
            n == blocks@.len(),
            s <= n,
            cur@.len() == n,
            forall|i: int| 0 <= i < n ==> cur@[i] == reach_set(blocks@, *entry, s as nat).contains(i),
        decreases n - s,
    {
        cur = reach_step(blocks, entry, &cur, Ghost(s as nat));
        s = s + 1;
    }
    cur
}

/// Append the report of the blocks that cannot be reached from the entry.
fn push_unreachable(out: &mut Vec<Violation>, blocks: &Vec<Term<Blk>>, entry: &Tid)
    ensures
        final(out)@ == old(out)@ + unreachable_violations(blocks@, *entry, blocks@.len()),
{
    let ghost start = out@;
    let reached = reachable_blocks(blocks, entry);
    let mut k: usize = 0;
    while k < blocks.len()
        invariant
            k <= blocks@.len(),
            reached@.len() == blocks@.len(),
            forall|i: int| 0 <= i < blocks@.len() ==> reached@[i] == reachable(blocks@, *entry, i),
            out@ == start + unreachable_violations(blocks@, *entry, k as nat),
        decreases blocks@.len() - k,
    {
        if !reached[k] {
            out.push(Violation::UnreachableBlock(blocks[k].tid.duplicate()));
        }
        k = k + 1;
        proof {
            assert(out@ =~= start + unreachable_violations(blocks@, *entry, k as nat));
        }
    }
}

} // verus!
