//! The interned effect-node catalog: statements whose operands are handles
//! into the node arena.

use crate::bimap::InternValue;
use crate::istring::{spec_mix, mix};
use crate::v2::cilnode::{ArgListIdx, NodeIdx};
use crate::v2::tpe::{FieldIdx, MethodRefIdx, SigIdx, StaticFieldIdx, StringIdx, TypeIdx};
use vstd::prelude::*;

verus! {

/// Handle into the effect arena.
#[derive(Clone, Copy, PartialEq, Eq, Structural, Hash, Debug)]
pub struct RootIdx(pub u64);

/// The eight ordered-comparison kinds a conditional branch may test.
#[derive(Clone, Copy, PartialEq, Eq, Structural, Hash, Debug)]
pub enum CmpKind {
    Eq,
    Ne,
    Lt,
    LtUn,
    Gt,
    GtUn,
    Le,
    Ge,
}

/// The condition of a branch; `Always` is the unconditional jump.
#[derive(Clone, Copy, PartialEq, Eq, Structural, Hash, Debug)]
pub enum BranchCond {
    Always,
    True(NodeIdx),
    False(NodeIdx),
    Cmp(NodeIdx, NodeIdx, CmpKind),
}

/// The width tag of an indirect store.
#[derive(Clone, Copy, PartialEq, Eq, Structural, Hash, Debug)]
pub enum StIndKind {
    I8,
    I16,
    I32,
    I64,
    ISize,
    Ptr(TypeIdx),
    F32,
    F64,
}

/// An interned effect node: a statement with a side effect and/or control
/// transfer, its operands given as node handles.
#[derive(Clone, Copy, PartialEq, Eq, Structural, Hash, Debug)]
pub enum CILRoot {
    StLoc { local: u64, tree: NodeIdx },
    StArg { arg: u64, tree: NodeIdx },
    SetField { addr: NodeIdx, value: NodeIdx, field: FieldIdx },
    SetStaticField { field: StaticFieldIdx, value: NodeIdx },
    StInd { addr: NodeIdx, value: NodeIdx, kind: StIndKind },
    StObj { tpe: TypeIdx, addr: NodeIdx, value: NodeIdx },
    CpBlk { dst: NodeIdx, src: NodeIdx, len: NodeIdx },
    InitBlk { dst: NodeIdx, val: NodeIdx, count: NodeIdx },
    Call { method: MethodRefIdx, args: ArgListIdx },
    CallVirt { method: MethodRefIdx, args: ArgListIdx },
    CallI { fn_ptr: NodeIdx, sig: SigIdx, args: ArgListIdx },
    Ret { tree: NodeIdx },
    VoidRet,
    Pop { tree: NodeIdx },
    Throw(NodeIdx),
    ReThrow,
    Branch { target: u32, sub_target: u32, cond: BranchCond },
    JumpingPad { source: u32, target: u32 },
    Nop,
    Break,
    SourceFileInfo { line_start: u64, line_end: u64, col_start: u64, col_end: u64, file: StringIdx },
    Volatile(RootIdx),
}

/// Hash key of a branch condition.
pub open spec fn spec_cond_key(c: BranchCond) -> u64 {
    match c {
        BranchCond::Always => 80,
        BranchCond::True(n) => spec_mix(81, n.0),
        BranchCond::False(n) => spec_mix(82, n.0),
        BranchCond::Cmp(a, b, k) => spec_mix(
            spec_mix(83, spec_cmp_tag(k)),
            spec_mix(a.0, b.0),
        ),
    }
}

/// Hash tag of a comparison kind.
pub open spec fn spec_cmp_tag(k: CmpKind) -> u64 {
    match k {
        CmpKind::Eq => 1,
        CmpKind::Ne => 2,
        CmpKind::Lt => 3,
        CmpKind::LtUn => 4,
        CmpKind::Gt => 5,
        CmpKind::GtUn => 6,
        CmpKind::Le => 7,
        CmpKind::Ge => 8,
    }
}

/// Computes the hash tag of a comparison kind.
pub fn cmp_tag(k: CmpKind) -> (r: u64)
    ensures
        r == spec_cmp_tag(k),
{
    match k {
        CmpKind::Eq => 1,
        CmpKind::Ne => 2,
        CmpKind::Lt => 3,
        CmpKind::LtUn => 4,
        CmpKind::Gt => 5,
        CmpKind::GtUn => 6,
        CmpKind::Le => 7,
        CmpKind::Ge => 8,
    }
}

/// Computes the hash key of a branch condition.
pub fn cond_key(c: &BranchCond) -> (r: u64)
    ensures
        r == spec_cond_key(*c),
{
    match c {
        BranchCond::Always => 80,
        BranchCond::True(n) => mix(81, n.0),
        BranchCond::False(n) => mix(82, n.0),
        BranchCond::Cmp(a, b, k) => mix(mix(83, cmp_tag(*k)), mix(a.0, b.0)),
    }
}

/// Hash key of an indirect-store width tag.
pub open spec fn spec_stind_key(k: StIndKind) -> u64 {
    match k {
        StIndKind::I8 => 84,
        StIndKind::I16 => 85,
        StIndKind::I32 => 86,
        StIndKind::I64 => 87,
        StIndKind::ISize => 88,
        StIndKind::Ptr(t) => spec_mix(89, t.0),
        StIndKind::F32 => 90,
        StIndKind::F64 => 91,
    }
}

/// Computes the hash key of an indirect-store width tag.
pub fn stind_key(k: &StIndKind) -> (r: u64)
    ensures
        r == spec_stind_key(*k),
{
    match k {
        StIndKind::I8 => 84,
        StIndKind::I16 => 85,
        StIndKind::I32 => 86,
        StIndKind::I64 => 87,
        StIndKind::ISize => 88,
        StIndKind::Ptr(t) => mix(89, t.0),
        StIndKind::F32 => 90,
        StIndKind::F64 => 91,
    }
}

/// Hash key of an effect node.
pub open spec fn spec_root_key(r: CILRoot) -> u64 {
    match r {
        CILRoot::StLoc { local, tree } => spec_mix(100, spec_mix(local, tree.0)),
        CILRoot::StArg { arg, tree } => spec_mix(101, spec_mix(arg, tree.0)),
        CILRoot::SetField { addr, value, field } => spec_mix(
            spec_mix(102, field.0),
            spec_mix(addr.0, value.0),
        ),
        CILRoot::SetStaticField { field, value } => spec_mix(103, spec_mix(field.0, value.0)),
        CILRoot::StInd { addr, value, kind } => spec_mix(
            spec_mix(104, spec_stind_key(kind)),
            spec_mix(addr.0, value.0),
        ),
        CILRoot::StObj { tpe, addr, value } => spec_mix(
            spec_mix(105, tpe.0),
            spec_mix(addr.0, value.0),
        ),
        CILRoot::CpBlk { dst, src, len } => spec_mix(spec_mix(106, dst.0), spec_mix(src.0, len.0)),
        CILRoot::InitBlk { dst, val, count } => spec_mix(
            spec_mix(107, dst.0),
            spec_mix(val.0, count.0),
        ),
        CILRoot::Call { method, args } => spec_mix(108, spec_mix(method.0, args.0)),
        CILRoot::CallVirt { method, args } => spec_mix(109, spec_mix(method.0, args.0)),
        CILRoot::CallI { fn_ptr, sig, args } => spec_mix(
            spec_mix(110, fn_ptr.0),
            spec_mix(sig.0, args.0),
        ),
        CILRoot::Ret { tree } => spec_mix(111, tree.0),
        CILRoot::VoidRet => 112,
        CILRoot::Pop { tree } => spec_mix(113, tree.0),
        CILRoot::Throw(n) => spec_mix(114, n.0),
        CILRoot::ReThrow => 115,
        CILRoot::Branch { target, sub_target, cond } => spec_mix(
            spec_mix(116, spec_cond_key(cond)),
            spec_mix(target as u64, sub_target as u64),
        ),
        CILRoot::JumpingPad { source, target } => spec_mix(
            117,
            spec_mix(source as u64, target as u64),
        ),
        CILRoot::Nop => 118,
        CILRoot::Break => 119,
        CILRoot::SourceFileInfo { line_start, line_end, col_start, col_end, file } => spec_mix(
            spec_mix(120, file.0),
            spec_mix(spec_mix(line_start, line_end), spec_mix(col_start, col_end)),
        ),
        CILRoot::Volatile(r) => spec_mix(121, r.0),
    }
}

/// Computes the hash key of an effect node.
pub fn root_key(r: &CILRoot) -> (k: u64)
    ensures
        k == spec_root_key(*r),
{
    match r {
        CILRoot::StLoc { local, tree } => mix(100, mix(*local, tree.0)),
        CILRoot::StArg { arg, tree } => mix(101, mix(*arg, tree.0)),
        CILRoot::SetField { addr, value, field } => mix(mix(102, field.0), mix(addr.0, value.0)),
        CILRoot::SetStaticField { field, value } => mix(103, mix(field.0, value.0)),
        CILRoot::StInd { addr, value, kind } => mix(mix(104, stind_key(kind)), mix(addr.0, value.0)),
        CILRoot::StObj { tpe, addr, value } => mix(mix(105, tpe.0), mix(addr.0, value.0)),
        CILRoot::CpBlk { dst, src, len } => mix(mix(106, dst.0), mix(src.0, len.0)),
        CILRoot::InitBlk { dst, val, count } => mix(mix(107, dst.0), mix(val.0, count.0)),
        CILRoot::Call { method, args } => mix(108, mix(method.0, args.0)),
        CILRoot::CallVirt { method, args } => mix(109, mix(method.0, args.0)),
        CILRoot::CallI { fn_ptr, sig, args } => mix(mix(110, fn_ptr.0), mix(sig.0, args.0)),
        CILRoot::Ret { tree } => mix(111, tree.0),
        CILRoot::VoidRet => 112,
        CILRoot::Pop { tree } => mix(113, tree.0),
        CILRoot::Throw(n) => mix(114, n.0),
        CILRoot::ReThrow => 115,
        CILRoot::Branch { target, sub_target, cond } => mix(
            mix(116, cond_key(cond)),
            mix(*target as u64, *sub_target as u64),
        ),
        CILRoot::JumpingPad { source, target } => mix(117, mix(*source as u64, *target as u64)),
        CILRoot::Nop => 118,
        CILRoot::Break => 119,
        CILRoot::SourceFileInfo { line_start, line_end, col_start, col_end, file } => mix(
            mix(120, file.0),
            mix(mix(*line_start, *line_end), mix(*col_start, *col_end)),
        ),
        CILRoot::Volatile(r) => mix(121, r.0),
    }
}

impl CILRoot {
    /// The node-arena handles this effect reads: its expression operands.
    pub open spec fn operands(&self) -> Seq<u64> {
        match *self {
            CILRoot::StLoc { tree, .. } => seq![tree.0],
            CILRoot::StArg { tree, .. } => seq![tree.0],
            CILRoot::SetField { addr, value, .. } => seq![addr.0, value.0],
            CILRoot::SetStaticField { value, .. } => seq![value.0],
            CILRoot::StInd { addr, value, .. } => seq![addr.0, value.0],
            CILRoot::StObj { addr, value, .. } => seq![addr.0, value.0],
            CILRoot::CpBlk { dst, src, len } => seq![dst.0, src.0, len.0],
            CILRoot::InitBlk { dst, val, count } => seq![dst.0, val.0, count.0],
            CILRoot::Call { .. } => Seq::empty(),
            CILRoot::CallVirt { .. } => Seq::empty(),
            CILRoot::CallI { fn_ptr, .. } => seq![fn_ptr.0],
            CILRoot::Ret { tree } => seq![tree.0],
            CILRoot::VoidRet => Seq::empty(),
            CILRoot::Pop { tree } => seq![tree.0],
            CILRoot::Throw(n) => seq![n.0],
            CILRoot::ReThrow => Seq::empty(),
            CILRoot::Branch { cond, .. } => match cond {
                BranchCond::Always => Seq::empty(),
                BranchCond::True(n) => seq![n.0],
                BranchCond::False(n) => seq![n.0],
                BranchCond::Cmp(a, b, _) => seq![a.0, b.0],
            },
            CILRoot::JumpingPad { .. } => Seq::empty(),
            CILRoot::Nop => Seq::empty(),
            CILRoot::Break => Seq::empty(),
            CILRoot::SourceFileInfo { .. } => Seq::empty(),
            CILRoot::Volatile(_) => Seq::empty(),
        }
    }
}

impl InternValue for CILRoot {
    open spec fn keq(&self, other: &Self) -> bool {
        *self == *other
    }

    open spec fn skey(&self) -> u64 {
        spec_root_key(*self)
    }

    open spec fn kids(&self) -> Seq<u64> {
        match *self {
            CILRoot::Volatile(r) => seq![r.0],
            _ => Seq::empty(),
        }
    }

    proof fn keq_laws(a: &Self, b: &Self, c: &Self) {
    }

    fn key(&self) -> (k: u64) {
        root_key(self)
    }

    fn same(&self, other: &Self) -> (r: bool) {
        *self == *other
    }
}

} // verus!
