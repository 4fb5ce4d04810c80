use vstd::prelude::*;
use crate::bytesize::{ByteSize, DatatypeProperties};
use crate::error::IrError;
use crate::expression::Expression;
use crate::variable::Variable;

verus! {

/// The identifier of a term: a readable name, the address the term comes
/// from, and an index that tells apart terms split from one address.
#[derive(Debug, Clone, Hash)]
pub struct Tid {
    pub name: String,
    pub address: u64,
    pub sub_index: u64,
}

/// Two `Tid`s are the same identifier: name, address and index agree.
pub open spec fn same_tid(a: Tid, b: Tid) -> bool {
    &&& a.name@ == b.name@
    &&& a.address == b.address
    &&& a.sub_index == b.sub_index
}

impl Tid {
    /// The identifier `name` at `address`, with index zero.
    pub fn new(name: String, address: u64) -> (r: Tid)
        ensures
            r.name@ == name@,
            r.address == address,
            r.sub_index == 0,
    {
        Tid { name, address, sub_index: 0 }
    }

    /// The identifier `name` at `address` with index `sub_index`.
    pub fn with_sub_index(name: String, address: u64, sub_index: u64) -> (r: Tid)
        ensures
            r.name@ == name@,
            r.address == address,
            r.sub_index == sub_index,
    {
        Tid { name, address, sub_index }
    }

    /// Whether `self` and `other` are the same identifier.
    pub fn same_as(&self, other: &Tid) -> (r: bool)
        ensures
            r == same_tid(*self, *other),
    {
        self.name == other.name && self.address == other.address && self.sub_index == other.sub_index
    }

    /// A copy of this identifier.
    pub fn duplicate(&self) -> (r: Tid)
        ensures
            r == *self,
    {
        Tid { name: self.name.clone(), address: self.address, sub_index: self.sub_index }
    }
}

impl PartialEq for Tid {
    fn eq(&self, other: &Tid) -> (r: bool) {
        self.same_as(other)
    }
}

impl vstd::std_specs::cmp::PartialEqSpecImpl for Tid {
    open spec fn obeys_eq_spec() -> bool {
        true
    }

    open spec fn eq_spec(&self, other: &Tid) -> bool {
        same_tid(*self, *other)
    }
}

impl Eq for Tid {
}

/// A payload together with the identifier that addresses it.
#[derive(Debug)]
pub struct Term<T> {
    pub tid: Tid,
    pub term: T,
}

/// An effect.
#[derive(Debug)]
pub enum Def {
    /// `var := value`.
    Assign { var: Variable, value: Expression },
    /// `var := memory[address]`.
    Load { var: Variable, address: Expression },
    /// `memory[address] := value`.
    Store { address: Expression, value: Expression },
}

/// A transfer of control.
#[derive(Debug)]
#[allow(inconsistent_fields)]
pub enum Jmp {
    /// Go to the block `target` of the same function.
    Branch(Tid),
    /// Go to the block `target` of the same function where `condition` is one.
    CBranch { target: Tid, condition: Expression },
    /// Call the function `target`; come back to the block `return_` if given.
    Call { target: Tid, return_: Option<Tid> },
    /// Call the function at the computed address `target`; come back to the
    /// block `return_` if given.
    CallInd { target: Expression, return_: Option<Tid> },
    /// Return to the caller, to the address that `expression` computes.
    Return(Expression),
}

/// A basic block: effects in order, then the jumps that leave it.
#[derive(Debug)]
pub struct Blk {
    pub defs: Vec<Term<Def>>,
    pub jmps: Vec<Term<Jmp>>,
}

/// A function: its blocks and the identifier of its entry block.
#[derive(Debug)]
pub struct Sub {
    pub name: String,
    pub blocks: Vec<Term<Blk>>,
    pub entry: Tid,
}

/// The functions of a binary and the identifier of the function where it starts.
#[derive(Debug)]
pub struct Program {
    pub subs: Vec<Term<Sub>>,
    pub entry_point: Tid,
}

/// A whole binary: its program, the sizes of its C types and its architecture.
#[derive(Debug)]
pub struct Project {
    pub program: Term<Program>,
    pub datatype_properties: DatatypeProperties,
    /// The width of a general-purpose register.
    pub register_size: ByteSize,
    pub big_endian: bool,
}

/// Whether some block of `blocks` has the identifier `t`.
pub open spec fn has_block(blocks: Seq<Term<Blk>>, t: Tid) -> bool {
    exists|k: int| 0 <= k < blocks.len() && same_tid(#[trigger] blocks[k].tid, t)
}

/// Whether some function of `subs` has the identifier `t`.
pub open spec fn has_sub(subs: Seq<Term<Sub>>, t: Tid) -> bool {
    exists|k: int| 0 <= k < subs.len() && same_tid(#[trigger] subs[k].tid, t)
}

/// Whether a call to `t` enters a function of `subs`: `t` names the function
/// itself or its entry block.
pub open spec fn enters_sub(s: Term<Sub>, t: Tid) -> bool {
    same_tid(s.tid, t) || same_tid(s.term.entry, t)
}

/// Whether a call to `t` enters some function of `subs`.
pub open spec fn is_call_target(subs: Seq<Term<Sub>>, t: Tid) -> bool {
    exists|k: int| 0 <= k < subs.len() && enters_sub(#[trigger] subs[k], t)
}

/// The index of the first function of `subs` that a call to `t` enters;
/// `LookupError` where none does.
pub fn find_callee(subs: &Vec<Term<Sub>>, t: &Tid) -> (r: Result<usize, IrError>)
    ensures
        r is Ok <==> is_call_target(subs@, *t),
        r is Ok ==> r->Ok_0 < subs@.len() && enters_sub(subs@[r->Ok_0 as int], *t),
        r is Err ==> r == Err::<usize, IrError>(IrError::LookupError),
{
    let mut i: usize = 0;
    while i < subs.len()
        invariant
            i <= subs@.len(),
            forall|k: int| 0 <= k < i ==> !enters_sub(#[trigger] subs@[k], *t),
        decreases subs@.len() - i,
    {
        if subs[i].tid.same_as(t) || subs[i].term.entry.same_as(t) {
            return Ok(i);
        }
        i = i + 1;
    }
    Err(IrError::LookupError)
}

/// The return block of a call, as a sequence of at most one identifier.
pub open spec fn return_seq(r: Option<Tid>) -> Seq<Tid> {
    match r {
        Some(t) => seq![t],
        None => seq![],
    }
}

/// `r` lists where control can go from the jump `j`: a branch goes to its
/// target; a call enters the entry block of the function it names (where the
/// program has one), then comes back to its return block; an indirect call
/// comes back to its return block; a return leaves the function.
pub open spec fn successors_spec(subs: Seq<Term<Sub>>, j: Jmp, r: Seq<Tid>) -> bool {
    match j {
        Jmp::Branch(t) => r == seq![t],
        Jmp::CBranch { target, condition } => r == seq![target],
        Jmp::Call { target, return_ } => if is_call_target(subs, target) {
            &&& r.len() == 1 + return_seq(return_).len()
            &&& r.subrange(1, r.len() as int) == return_seq(return_)
            &&& exists|k: int| 0 <= k < subs.len() && enters_sub(#[trigger] subs[k], target) && r[0] == subs[k].term.entry
        } else {
            r == return_seq(return_)
        },
        Jmp::CallInd { target, return_ } => r == return_seq(return_),
        Jmp::Return(_) => r.len() == 0,
    }
}

/// Append the return block of a call, if it has one.
fn push_return(out: &mut Vec<Tid>, r: &Option<Tid>)
    ensures
        final(out)@ == old(out)@ + return_seq(*r),
{
    match r {
        Some(t) => out.push(t.duplicate()),
        None => {},
    }
    proof {
        assert(final(out)@ =~= old(out)@ + return_seq(*r));
    }
}

impl Sub {
    /// The index of the block with identifier `t`; `LookupError` where this
    /// function has none.
    pub fn find_block(&self, t: &Tid) -> (r: Result<usize, IrError>)
        ensures
            r is Ok <==> has_block(self.blocks@, *t),
            r is Ok ==> r->Ok_0 < self.blocks@.len() && same_tid(self.blocks@[r->Ok_0 as int].tid, *t),
            r is Err ==> r == Err::<usize, IrError>(IrError::LookupError),
    {
        let mut i: usize = 0;
        while i < self.blocks.len()
            invariant
                i <= self.blocks@.len(),
                forall|k: int| 0 <= k < i ==> !same_tid(#[trigger] self.blocks@[k].tid, *t),
            decreases self.blocks@.len() - i,
        {
            if self.blocks[i].tid.same_as(t) {
                return Ok(i);
            }
            i = i + 1;
        }
        Err(IrError::LookupError)
    }
}

impl Program {
    /// The index of the function with identifier `t`; `LookupError` where
    /// the program has none.
    pub fn find_sub(&self, t: &Tid) -> (r: Result<usize, IrError>)
        ensures
            r is Ok <==> has_sub(self.subs@, *t),
            r is Ok ==> r->Ok_0 < self.subs@.len() && same_tid(self.subs@[r->Ok_0 as int].tid, *t),
            r is Err ==> r == Err::<usize, IrError>(IrError::LookupError),
    {
        let mut i: usize = 0;
        while i < self.subs.len()
            invariant
                i <= self.subs@.len(),
                forall|k: int| 0 <= k < i ==> !same_tid(#[trigger] self.subs@[k].tid, *t),
            decreases self.subs@.len() - i,
        {
            if self.subs[i].tid.same_as(t) {
                return Ok(i);
            }
            i = i + 1;
        }
        Err(IrError::LookupError)
    }

    /// Where control can go from the jump `j`, as `successors_spec` states.
    pub fn successors(&self, j: &Jmp) -> (r: Vec<Tid>)
        ensures
            successors_spec(self.subs@, *j, r@),
    {
        let mut out: Vec<Tid> = Vec::new();
        match j {
            Jmp::Branch(t) => {
                out.push(t.duplicate());
                assert(out@ =~= seq![*t]);
            },
            Jmp::CBranch { target, condition } => {
                out.push(target.duplicate());
                assert(out@ =~= seq![*target]);
            },
            Jmp::Call { target, return_ } => {
                match find_callee(&self.subs, target) {
                    Ok(k) => {
                        out.push(self.subs[k].term.entry.duplicate());
                        push_return(&mut out, return_);
                        assert(out@.subrange(1, out@.len() as int) =~= return_seq(*return_));
                        assert(enters_sub(self.subs@[k as int], *target) && out@[0] == self.subs@[k as int].term.entry);
                    },
                    Err(_) => {
                        push_return(&mut out, return_);
                        assert(out@ =~= return_seq(*return_));
                    },
                }
            },
            Jmp::CallInd { target, return_ } => {
                push_return(&mut out, return_);
                assert(out@ =~= return_seq(*return_));
            },
            Jmp::Return(_) => {},
        }
        out
    }

    /// The entry block of the function that a call to `target` enters,
    /// where `target` names the function or its entry block; `LookupError`
    /// where the program has no such function.
    pub fn call_destination(&self, target: &Tid) -> (r: Result<Tid, IrError>)
        ensures
            r is Ok <==> is_call_target(self.subs@, *target),
            r is Ok ==> exists|k: int|
                0 <= k < self.subs@.len() && enters_sub(#[trigger] self.subs@[k], *target)
                    && r->Ok_0 == self.subs@[k].term.entry,
            r is Err ==> r == Err::<Tid, IrError>(IrError::LookupError),
    {
        let i = find_callee(&self.subs, target)?;
        Ok(self.subs[i].term.entry.duplicate())
    }
}

} // verus!
