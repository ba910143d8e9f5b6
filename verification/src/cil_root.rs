//! The owned effect tree: the construction-time counterpart of the interned
//! effect catalog, together with the tree-lowering passes that prepare a
//! tree for consumption.

use crate::cil_node::{node_has_free_marker, node_no_markers, node_no_subtrees, node_wf, CILNode};
use crate::istring::IString;
use crate::tpe::{CallSite, FieldDescriptor, FnSig, StaticFieldDescriptor, Type};
use vstd::prelude::*;
use vstd::string::StringSliceAdditionalSpecFns;

verus! {

broadcast use vstd::std_specs::vec::axiom_vec_index_decreases;

/// The width tag of an owned indirect store.
pub enum StIndKind {
    I8,
    I16,
    I32,
    I64,
    ISize,
    Ptr(Box<Type>),
    F32,
    F64,
}

/// An owned statement tree: an effect with its operand expressions owned in
/// place. Conditional branches come in the eight ordered-comparison kinds
/// plus the boolean tests, and every branch carries a `(target, sub_target)`
/// pair. Source-location annotations carry the file name together with the
/// resolved numeric line and column ranges, serving both the symbolic and
/// the pre-resolved form.
pub enum CILRoot {
    STLoc { local: u32, tree: CILNode },
    BTrue { target: u32, sub_target: u32, cond: Box<CILNode> },
    BFalse { target: u32, sub_target: u32, cond: Box<CILNode> },
    BEq { target: u32, sub_target: u32, a: Box<CILNode>, b: Box<CILNode> },
    BNe { target: u32, sub_target: u32, a: Box<CILNode>, b: Box<CILNode> },
    BLt { target: u32, sub_target: u32, a: Box<CILNode>, b: Box<CILNode> },
    BLtUn { target: u32, sub_target: u32, a: Box<CILNode>, b: Box<CILNode> },
    BGt { target: u32, sub_target: u32, a: Box<CILNode>, b: Box<CILNode> },
    BGtUn { target: u32, sub_target: u32, a: Box<CILNode>, b: Box<CILNode> },
    BLe { target: u32, sub_target: u32, a: Box<CILNode>, b: Box<CILNode> },
    BGe { target: u32, sub_target: u32, a: Box<CILNode>, b: Box<CILNode> },
    GoTo { target: u32, sub_target: u32 },
    Call { site: Box<CallSite>, args: Vec<CILNode> },
    CallVirt { site: Box<CallSite>, args: Vec<CILNode> },
    CallI { sig: Box<FnSig>, fn_ptr: Box<CILNode>, args: Vec<CILNode> },
    SetField { addr: Box<CILNode>, value: Box<CILNode>, desc: Box<FieldDescriptor> },
    SetStaticField { descr: Box<StaticFieldDescriptor>, value: CILNode },
    SetTMPLocal { value: CILNode },
    CpBlk { dst: Box<CILNode>, src: Box<CILNode>, len: Box<CILNode> },
    STInd { addr: Box<CILNode>, value: Box<CILNode>, kind: StIndKind },
    STObj { tpe: Box<Type>, addr_calc: Box<CILNode>, value_calc: Box<CILNode> },
    STArg { arg: u32, tree: CILNode },
    Break,
    Nop,
    InitBlk { dst: Box<CILNode>, val: Box<CILNode>, count: Box<CILNode> },
    Ret { tree: CILNode },
    Pop { tree: CILNode },
    VoidRet,
    Throw(CILNode),
    ReThrow,
    JumpingPad { source: u32, target: u32 },
    SourceFileInfo { line_start: u64, line_end: u64, col_start: u64, col_end: u64, file: IString },
    Volatile(Box<CILRoot>),
}

/// Construction-time validity of an owned effect.
pub open spec fn root_wf(r: CILRoot) -> bool
    decreases r,
{
    match r {
        CILRoot::STLoc { tree, .. } => node_wf(tree),
        CILRoot::BTrue { cond, .. } => node_wf(*cond),
        CILRoot::BFalse { cond, .. } => node_wf(*cond),
        CILRoot::BEq { a, b, .. } => node_wf(*a) && node_wf(*b),
        CILRoot::BNe { a, b, .. } => node_wf(*a) && node_wf(*b),
        CILRoot::BLt { a, b, .. } => node_wf(*a) && node_wf(*b),
        CILRoot::BLtUn { a, b, .. } => node_wf(*a) && node_wf(*b),
        CILRoot::BGt { a, b, .. } => node_wf(*a) && node_wf(*b),
        CILRoot::BGtUn { a, b, .. } => node_wf(*a) && node_wf(*b),
        CILRoot::BLe { a, b, .. } => node_wf(*a) && node_wf(*b),
        CILRoot::BGe { a, b, .. } => node_wf(*a) && node_wf(*b),
        CILRoot::Call { site, args } => forall|j: int|
            0 <= j < args.len() ==> node_wf(#[trigger] args[j]),
        CILRoot::CallVirt { site, args } => !site.is_static && forall|j: int|
            0 <= j < args.len() ==> node_wf(#[trigger] args[j]),
        CILRoot::CallI { fn_ptr, args, .. } => node_wf(*fn_ptr) && forall|j: int|
            0 <= j < args.len() ==> node_wf(#[trigger] args[j]),
        CILRoot::SetField { addr, value, .. } => node_wf(*addr) && node_wf(*value),
        CILRoot::SetStaticField { value, .. } => node_wf(value),
        CILRoot::SetTMPLocal { value } => node_wf(value),
        CILRoot::CpBlk { dst, src, len } => node_wf(*dst) && node_wf(*src) && node_wf(*len),
        CILRoot::STInd { addr, value, .. } => node_wf(*addr) && node_wf(*value),
        CILRoot::STObj { addr_calc, value_calc, .. } => node_wf(*addr_calc) && node_wf(
            *value_calc,
        ),
        CILRoot::STArg { tree, .. } => node_wf(tree),
        CILRoot::InitBlk { dst, val, count } => node_wf(*dst) && node_wf(*val) && node_wf(*count),
        CILRoot::Ret { tree } => node_wf(tree),
        CILRoot::Pop { tree } => node_wf(tree),
        CILRoot::Throw(tree) => node_wf(tree),
        CILRoot::SourceFileInfo { col_start, col_end, .. } => col_start < col_end,
        CILRoot::Volatile(inner) => root_wf(*inner),
        _ => true,
    }
}

/// Does the effect contain a temporary marker needing a slot from the
/// surrounding context?
pub open spec fn root_has_free_marker(r: CILRoot) -> bool
    decreases r,
{
    match r {
        CILRoot::STLoc { tree, .. } => node_has_free_marker(tree),
        CILRoot::BTrue { cond, .. } => node_has_free_marker(*cond),
        CILRoot::BFalse { cond, .. } => node_has_free_marker(*cond),
        CILRoot::BEq { a, b, .. } => node_has_free_marker(*a) || node_has_free_marker(*b),
        CILRoot::BNe { a, b, .. } => node_has_free_marker(*a) || node_has_free_marker(*b),
        CILRoot::BLt { a, b, .. } => node_has_free_marker(*a) || node_has_free_marker(*b),
        CILRoot::BLtUn { a, b, .. } => node_has_free_marker(*a) || node_has_free_marker(*b),
        CILRoot::BGt { a, b, .. } => node_has_free_marker(*a) || node_has_free_marker(*b),
        CILRoot::BGtUn { a, b, .. } => node_has_free_marker(*a) || node_has_free_marker(*b),
        CILRoot::BLe { a, b, .. } => node_has_free_marker(*a) || node_has_free_marker(*b),
        CILRoot::BGe { a, b, .. } => node_has_free_marker(*a) || node_has_free_marker(*b),
        CILRoot::Call { args, .. } => exists|j: int|
            0 <= j < args.len() && node_has_free_marker(#[trigger] args[j]),
        CILRoot::CallVirt { args, .. } => exists|j: int|
            0 <= j < args.len() && node_has_free_marker(#[trigger] args[j]),
        CILRoot::CallI { fn_ptr, args, .. } => node_has_free_marker(*fn_ptr) || exists|j: int|
            0 <= j < args.len() && node_has_free_marker(#[trigger] args[j]),
        CILRoot::SetField { addr, value, .. } => node_has_free_marker(*addr)
            || node_has_free_marker(*value),
        CILRoot::SetStaticField { value, .. } => node_has_free_marker(value),
        CILRoot::SetTMPLocal { value } => true,
        CILRoot::CpBlk { dst, src, len } => node_has_free_marker(*dst) || node_has_free_marker(
            *src,
        ) || node_has_free_marker(*len),
        CILRoot::STInd { addr, value, .. } => node_has_free_marker(*addr) || node_has_free_marker(
            *value,
        ),
        CILRoot::STObj { addr_calc, value_calc, .. } => node_has_free_marker(*addr_calc)
            || node_has_free_marker(*value_calc),
        CILRoot::STArg { tree, .. } => node_has_free_marker(tree),
        CILRoot::InitBlk { dst, val, count } => node_has_free_marker(*dst) || node_has_free_marker(
            *val,
        ) || node_has_free_marker(*count),
        CILRoot::Ret { tree } => node_has_free_marker(tree),
        CILRoot::Pop { tree } => node_has_free_marker(tree),
        CILRoot::Throw(tree) => node_has_free_marker(tree),
        CILRoot::Volatile(inner) => root_has_free_marker(*inner),
        _ => false,
    }
}

/// Is the effect free of every temporary marker and temporary-introducing
/// node?
pub open spec fn root_no_markers(r: CILRoot) -> bool
    decreases r,
{
    match r {
        CILRoot::STLoc { tree, .. } => node_no_markers(tree),
        CILRoot::BTrue { cond, .. } => node_no_markers(*cond),
        CILRoot::BFalse { cond, .. } => node_no_markers(*cond),
        CILRoot::BEq { a, b, .. } => node_no_markers(*a) && node_no_markers(*b),
        CILRoot::BNe { a, b, .. } => node_no_markers(*a) && node_no_markers(*b),
        CILRoot::BLt { a, b, .. } => node_no_markers(*a) && node_no_markers(*b),
        CILRoot::BLtUn { a, b, .. } => node_no_markers(*a) && node_no_markers(*b),
        CILRoot::BGt { a, b, .. } => node_no_markers(*a) && node_no_markers(*b),
        CILRoot::BGtUn { a, b, .. } => node_no_markers(*a) && node_no_markers(*b),
        CILRoot::BLe { a, b, .. } => node_no_markers(*a) && node_no_markers(*b),
        CILRoot::BGe { a, b, .. } => node_no_markers(*a) && node_no_markers(*b),
        CILRoot::Call { args, .. } => forall|j: int|
            0 <= j < args.len() ==> node_no_markers(#[trigger] args[j]),
        CILRoot::CallVirt { args, .. } => forall|j: int|
            0 <= j < args.len() ==> node_no_markers(#[trigger] args[j]),
        CILRoot::CallI { fn_ptr, args, .. } => node_no_markers(*fn_ptr) && forall|j: int|
            0 <= j < args.len() ==> node_no_markers(#[trigger] args[j]),
        CILRoot::SetField { addr, value, .. } => node_no_markers(*addr) && node_no_markers(*value),
        CILRoot::SetStaticField { value, .. } => node_no_markers(value),
        CILRoot::SetTMPLocal { .. } => false,
        CILRoot::CpBlk { dst, src, len } => node_no_markers(*dst) && node_no_markers(*src)
            && node_no_markers(*len),
        CILRoot::STInd { addr, value, .. } => node_no_markers(*addr) && node_no_markers(*value),
        CILRoot::STObj { addr_calc, value_calc, .. } => node_no_markers(*addr_calc)
            && node_no_markers(*value_calc),
        CILRoot::STArg { tree, .. } => node_no_markers(tree),
        CILRoot::InitBlk { dst, val, count } => node_no_markers(*dst) && node_no_markers(*val)
            && node_no_markers(*count),
        CILRoot::Ret { tree } => node_no_markers(tree),
        CILRoot::Pop { tree } => node_no_markers(tree),
        CILRoot::Throw(tree) => node_no_markers(tree),
        CILRoot::Volatile(inner) => root_no_markers(*inner),
        _ => true,
    }
}

/// Is this effect a member of the branch/jump family?
pub open spec fn is_branch(r: CILRoot) -> bool {
    match r {
        CILRoot::BTrue { .. } => true,
        CILRoot::BFalse { .. } => true,
        CILRoot::BEq { .. } => true,
        CILRoot::BNe { .. } => true,
        CILRoot::BLt { .. } => true,
        CILRoot::BLtUn { .. } => true,
        CILRoot::BGt { .. } => true,
        CILRoot::BGtUn { .. } => true,
        CILRoot::BLe { .. } => true,
        CILRoot::BGe { .. } => true,
        CILRoot::GoTo { .. } => true,
        _ => false,
    }
}

/// The `(target, sub_target)` pair of a branch.
pub open spec fn branch_pair(r: CILRoot) -> (u32, u32)
    recommends
        is_branch(r),
{
    match r {
        CILRoot::BTrue { target, sub_target, .. } => (target, sub_target),
        CILRoot::BFalse { target, sub_target, .. } => (target, sub_target),
        CILRoot::BEq { target, sub_target, .. } => (target, sub_target),
        CILRoot::BNe { target, sub_target, .. } => (target, sub_target),
        CILRoot::BLt { target, sub_target, .. } => (target, sub_target),
        CILRoot::BLtUn { target, sub_target, .. } => (target, sub_target),
        CILRoot::BGt { target, sub_target, .. } => (target, sub_target),
        CILRoot::BGtUn { target, sub_target, .. } => (target, sub_target),
        CILRoot::BLe { target, sub_target, .. } => (target, sub_target),
        CILRoot::BGe { target, sub_target, .. } => (target, sub_target),
        CILRoot::GoTo { target, sub_target } => (target, sub_target),
        _ => (0, 0),
    }
}

/// The result of routing a branch through an exception-dispatch block `id`:
/// the old target becomes the sub-target and `id` the target; every other
/// effect is unchanged.
pub open spec fn spec_retarget(r: CILRoot, id: u32) -> CILRoot {
    match r {
        CILRoot::BTrue { target, sub_target, cond } => CILRoot::BTrue {
            target: id,
            sub_target: target,
            cond,
        },
        CILRoot::BFalse { target, sub_target, cond } => CILRoot::BFalse {
            target: id,
            sub_target: target,
            cond,
        },
        CILRoot::BEq { target, sub_target, a, b } => CILRoot::BEq {
            target: id,
            sub_target: target,
            a,
            b,
        },
        CILRoot::BNe { target, sub_target, a, b } => CILRoot::BNe {
            target: id,
            sub_target: target,
            a,
            b,
        },
        CILRoot::BLt { target, sub_target, a, b } => CILRoot::BLt {
            target: id,
            sub_target: target,
            a,
            b,
        },
        CILRoot::BLtUn { target, sub_target, a, b } => CILRoot::BLtUn {
            target: id,
            sub_target: target,
            a,
            b,
        },
        CILRoot::BGt { target, sub_target, a, b } => CILRoot::BGt {
            target: id,
            sub_target: target,
            a,
            b,
        },
        CILRoot::BGtUn { target, sub_target, a, b } => CILRoot::BGtUn {
            target: id,
            sub_target: target,
            a,
            b,
        },
        CILRoot::BLe { target, sub_target, a, b } => CILRoot::BLe {
            target: id,
            sub_target: target,
            a,
            b,
        },
        CILRoot::BGe { target, sub_target, a, b } => CILRoot::BGe {
            target: id,
            sub_target: target,
            a,
            b,
        },
        CILRoot::GoTo { target, sub_target } => CILRoot::GoTo { target: id, sub_target: target },
        _ => r,
    }
}

impl CILRoot {
    /// Successor extraction: appends this effect's `(target, sub_target)`
    /// pair to the accumulator if it belongs to the branch/jump family; all
    /// other variants contribute nothing.
    pub fn targets(&self, targets: &mut Vec<(u32, u32)>)
        ensures
            is_branch(*self) ==> final(targets)@ == old(targets)@.push(branch_pair(*self)),
            !is_branch(*self) ==> final(targets)@ == old(targets)@,
    {
        match self {
            CILRoot::BTrue { target, sub_target, .. } => targets.push((*target, *sub_target)),
            CILRoot::BFalse { target, sub_target, .. } => targets.push((*target, *sub_target)),
            CILRoot::BEq { target, sub_target, .. } => targets.push((*target, *sub_target)),
            CILRoot::BNe { target, sub_target, .. } => targets.push((*target, *sub_target)),
            CILRoot::BLt { target, sub_target, .. } => targets.push((*target, *sub_target)),
            CILRoot::BLtUn { target, sub_target, .. } => targets.push((*target, *sub_target)),
            CILRoot::BGt { target, sub_target, .. } => targets.push((*target, *sub_target)),
            CILRoot::BGtUn { target, sub_target, .. } => targets.push((*target, *sub_target)),
            CILRoot::BLe { target, sub_target, .. } => targets.push((*target, *sub_target)),
            CILRoot::BGe { target, sub_target, .. } => targets.push((*target, *sub_target)),
            CILRoot::GoTo { target, sub_target } => targets.push((*target, *sub_target)),
            _ => (),
        }
    }

    /// Exception-handler retargeting: asserts that the branch has not been
    /// retargeted before (`sub_target == 0`), then routes it through the
    /// dispatch block `id`, moving the old target to the sub-target. A
    /// branch already carrying a sub-target would mean a handler inside a
    /// handler, which this encoding does not support; that input is ruled
    /// out by the precondition.
    pub fn fix_for_exception_handler(&mut self, id: u32)
        requires
            is_branch(*old(self)) ==> branch_pair(*old(self)).1 == 0,
        ensures
            *final(self) == spec_retarget(*old(self), id),
    {
        match self {
            CILRoot::BTrue { target, sub_target, .. } => {
                *sub_target = *target;
                *target = id;
            },
            CILRoot::BFalse { target, sub_target, .. } => {
                *sub_target = *target;
                *target = id;
            },
            CILRoot::BEq { target, sub_target, .. } => {
                *sub_target = *target;
                *target = id;
            },
            CILRoot::BNe { target, sub_target, .. } => {
                *sub_target = *target;
                *target = id;
            },
            CILRoot::BLt { target, sub_target, .. } => {
                *sub_target = *target;
                *target = id;
            },
            CILRoot::BLtUn { target, sub_target, .. } => {
                *sub_target = *target;
                *target = id;
            },
            CILRoot::BGt { target, sub_target, .. } => {
                *sub_target = *target;
                *target = id;
            },
            CILRoot::BGtUn { target, sub_target, .. } => {
                *sub_target = *target;
                *target = id;
            },
            CILRoot::BLe { target, sub_target, .. } => {
                *sub_target = *target;
                *target = id;
            },
            CILRoot::BGe { target, sub_target, .. } => {
                *sub_target = *target;
                *target = id;
            },
            CILRoot::GoTo { target, sub_target } => {
                *sub_target = *target;
                *target = id;
            },
            _ => (),
        }
    }

    /// Builds a source-location annotation. Ranges must hold at least one
    /// column.
    pub fn source_info(file: &str, line_start: u64, line_end: u64, col_start: u64, col_end: u64) -> (r: Self)
        requires
            col_start < col_end,
        ensures
            r == (CILRoot::SourceFileInfo {
                line_start,
                line_end,
                col_start,
                col_end,
                file: r->SourceFileInfo_file,
            }),
            match r {
                CILRoot::SourceFileInfo { file: f, .. } => f@ == file.spec_bytes(),
                _ => false,
            },
    {
        CILRoot::SourceFileInfo {
            line_start,
            line_end,
            col_start,
            col_end,
            file: IString::from_str(file),
        }
    }

    /// Builds a field-store effect.
    pub fn set_field(addr: CILNode, value: CILNode, desc: FieldDescriptor) -> (r: Self)
        ensures
            r == (CILRoot::SetField {
                addr: r->SetField_addr,
                value: r->SetField_value,
                desc: r->SetField_desc,
            }),
            match r {
                CILRoot::SetField { addr: a, value: v, desc: d } => *a == addr && *v == value && *d
                    == desc,
                _ => false,
            },
    {
        CILRoot::SetField { addr: Box::new(addr), value: Box::new(value), desc: Box::new(desc) }
    }
}

/// Retargeting guard: one retargeting per branch. After retargeting a
/// branch whose target was not the entry block zero, the sub-target is no
/// longer zero, so retargeting the result again fails the precondition.
pub proof fn lemma_retarget_guard(r: CILRoot, id: u32)
    requires
        is_branch(r),
        branch_pair(r).1 == 0,
        branch_pair(r).0 != 0,
    ensures
        is_branch(spec_retarget(r, id)),
        branch_pair(spec_retarget(r, id)).1 != 0,
        branch_pair(spec_retarget(r, id)).0 == id,
        branch_pair(spec_retarget(r, id)).1 == branch_pair(r).0,
{
}


/// Is the effect free of the embedded multi-tree construct?
pub open spec fn root_no_subtrees(r: CILRoot) -> bool
    decreases r,
{
    match r {
        CILRoot::STLoc { tree, .. } => node_no_subtrees(tree),
        CILRoot::BTrue { cond, .. } => node_no_subtrees(*cond),
        CILRoot::BFalse { cond, .. } => node_no_subtrees(*cond),
        CILRoot::BEq { a, b, .. } => node_no_subtrees(*a) && node_no_subtrees(*b),
        CILRoot::BNe { a, b, .. } => node_no_subtrees(*a) && node_no_subtrees(*b),
        CILRoot::BLt { a, b, .. } => node_no_subtrees(*a) && node_no_subtrees(*b),
        CILRoot::BLtUn { a, b, .. } => node_no_subtrees(*a) && node_no_subtrees(*b),
        CILRoot::BGt { a, b, .. } => node_no_subtrees(*a) && node_no_subtrees(*b),
        CILRoot::BGtUn { a, b, .. } => node_no_subtrees(*a) && node_no_subtrees(*b),
        CILRoot::BLe { a, b, .. } => node_no_subtrees(*a) && node_no_subtrees(*b),
        CILRoot::BGe { a, b, .. } => node_no_subtrees(*a) && node_no_subtrees(*b),
        CILRoot::Call { args, .. } => forall|j: int|
            0 <= j < args.len() ==> node_no_subtrees(#[trigger] args[j]),
        CILRoot::CallVirt { args, .. } => forall|j: int|
            0 <= j < args.len() ==> node_no_subtrees(#[trigger] args[j]),
        CILRoot::CallI { fn_ptr, args, .. } => node_no_subtrees(*fn_ptr) && forall|j: int|
            0 <= j < args.len() ==> node_no_subtrees(#[trigger] args[j]),
        CILRoot::SetField { addr, value, .. } => node_no_subtrees(*addr) && node_no_subtrees(
            *value,
        ),
        CILRoot::SetStaticField { value, .. } => node_no_subtrees(value),
        CILRoot::SetTMPLocal { value } => node_no_subtrees(value),
        CILRoot::CpBlk { dst, src, len } => node_no_subtrees(*dst) && node_no_subtrees(*src)
            && node_no_subtrees(*len),
        CILRoot::STInd { addr, value, .. } => node_no_subtrees(*addr) && node_no_subtrees(*value),
        CILRoot::STObj { addr_calc, value_calc, .. } => node_no_subtrees(*addr_calc)
            && node_no_subtrees(*value_calc),
        CILRoot::STArg { tree, .. } => node_no_subtrees(tree),
        CILRoot::InitBlk { dst, val, count } => node_no_subtrees(*dst) && node_no_subtrees(*val)
            && node_no_subtrees(*count),
        CILRoot::Ret { tree } => node_no_subtrees(tree),
        CILRoot::Pop { tree } => node_no_subtrees(tree),
        CILRoot::Throw(tree) => node_no_subtrees(tree),
        CILRoot::Volatile(inner) => root_no_subtrees(*inner),
        _ => true,
    }
}


/// How many temporary slots materializing this effect allocates.
pub open spec fn root_tmp_count(r: CILRoot) -> nat
    decreases r,
{
    match r {
        CILRoot::STLoc { local, tree } => crate::cil_node::node_tmp_count(tree),
        CILRoot::BTrue { target, sub_target, cond } => crate::cil_node::node_tmp_count(*cond),
        CILRoot::BFalse { target, sub_target, cond } => crate::cil_node::node_tmp_count(*cond),
        CILRoot::BEq { target, sub_target, a, b } => crate::cil_node::node_tmp_count(*a) + crate::cil_node::node_tmp_count(*b),
        CILRoot::BNe { target, sub_target, a, b } => crate::cil_node::node_tmp_count(*a) + crate::cil_node::node_tmp_count(*b),
        CILRoot::BLt { target, sub_target, a, b } => crate::cil_node::node_tmp_count(*a) + crate::cil_node::node_tmp_count(*b),
        CILRoot::BLtUn { target, sub_target, a, b } => crate::cil_node::node_tmp_count(*a) + crate::cil_node::node_tmp_count(*b),
        CILRoot::BGt { target, sub_target, a, b } => crate::cil_node::node_tmp_count(*a) + crate::cil_node::node_tmp_count(*b),
        CILRoot::BGtUn { target, sub_target, a, b } => crate::cil_node::node_tmp_count(*a) + crate::cil_node::node_tmp_count(*b),
        CILRoot::BLe { target, sub_target, a, b } => crate::cil_node::node_tmp_count(*a) + crate::cil_node::node_tmp_count(*b),
        CILRoot::BGe { target, sub_target, a, b } => crate::cil_node::node_tmp_count(*a) + crate::cil_node::node_tmp_count(*b),
        CILRoot::GoTo { target, sub_target } => 0,
        CILRoot::Call { site, args } => crate::cil_node::vec_node_tmp_count(args@),
        CILRoot::CallVirt { site, args } => crate::cil_node::vec_node_tmp_count(args@),
        CILRoot::CallI { sig, fn_ptr, args } => crate::cil_node::node_tmp_count(*fn_ptr) + crate::cil_node::vec_node_tmp_count(args@),
        CILRoot::SetField { addr, value, desc } => crate::cil_node::node_tmp_count(*addr) + crate::cil_node::node_tmp_count(*value),
        CILRoot::SetStaticField { descr, value } => crate::cil_node::node_tmp_count(value),
        CILRoot::CpBlk { dst, src, len } => crate::cil_node::node_tmp_count(*dst) + crate::cil_node::node_tmp_count(*src) + crate::cil_node::node_tmp_count(*len),
        CILRoot::STInd { addr, value, kind } => crate::cil_node::node_tmp_count(*addr) + crate::cil_node::node_tmp_count(*value),
        CILRoot::STObj { tpe, addr_calc, value_calc } => crate::cil_node::node_tmp_count(*addr_calc) + crate::cil_node::node_tmp_count(*value_calc),
        CILRoot::STArg { arg, tree } => crate::cil_node::node_tmp_count(tree),
        CILRoot::Break => 0,
        CILRoot::Nop => 0,
        CILRoot::InitBlk { dst, val, count } => crate::cil_node::node_tmp_count(*dst) + crate::cil_node::node_tmp_count(*val) + crate::cil_node::node_tmp_count(*count),
        CILRoot::Ret { tree } => crate::cil_node::node_tmp_count(tree),
        CILRoot::Pop { tree } => crate::cil_node::node_tmp_count(tree),
        CILRoot::VoidRet => 0,
        CILRoot::Throw(f0) => crate::cil_node::node_tmp_count(f0),
        CILRoot::ReThrow => 0,
        CILRoot::JumpingPad { source, target } => 0,
        CILRoot::SourceFileInfo { line_start, line_end, col_start, col_end, file } => 0,
        CILRoot::Volatile(f0) => root_tmp_count(*f0),
        CILRoot::SetTMPLocal { value } => crate::cil_node::node_tmp_count(value),
    }
}

/// How many temporary slots materializing these effects allocates.
pub open spec fn vec_root_tmp_count(s: Seq<CILRoot>) -> nat
    decreases s,
{
    if s.len() == 0 {
        0
    } else {
        root_tmp_count(s[0]) + vec_root_tmp_count(s.drop_first())
    }
}

/// Does `n` result from materializing the temporaries of `o`? The marker
/// effect becomes a direct store to the supplied slot; every other variant
/// is rebuilt unchanged around its rewritten operands.
pub open spec fn tmps_rel_root(o: CILRoot, n: CILRoot, cur: Option<u32>, base: int) -> bool
    decreases o,
{
    match o {
        CILRoot::STLoc { local, tree } => match n {
            CILRoot::STLoc { local: local2, tree: tree2 } => local2 == local && crate::cil_node::tmps_rel_node(tree, tree2, cur, base),
            _ => false,
        },
        CILRoot::BTrue { target, sub_target, cond } => match n {
            CILRoot::BTrue { target: target2, sub_target: sub_target2, cond: cond2 } => target2 == target && sub_target2 == sub_target && crate::cil_node::tmps_rel_node(*cond, *cond2, cur, base),
            _ => false,
        },
        CILRoot::BFalse { target, sub_target, cond } => match n {
            CILRoot::BFalse { target: target2, sub_target: sub_target2, cond: cond2 } => target2 == target && sub_target2 == sub_target && crate::cil_node::tmps_rel_node(*cond, *cond2, cur, base),
            _ => false,
        },
        CILRoot::BEq { target, sub_target, a, b } => match n {
            CILRoot::BEq { target: target2, sub_target: sub_target2, a: a2, b: b2 } => target2 == target && sub_target2 == sub_target && crate::cil_node::tmps_rel_node(*a, *a2, cur, base) && crate::cil_node::tmps_rel_node(*b, *b2, cur, base + crate::cil_node::node_tmp_count(*a)),
            _ => false,
        },
        CILRoot::BNe { target, sub_target, a, b } => match n {
            CILRoot::BNe { target: target2, sub_target: sub_target2, a: a2, b: b2 } => target2 == target && sub_target2 == sub_target && crate::cil_node::tmps_rel_node(*a, *a2, cur, base) && crate::cil_node::tmps_rel_node(*b, *b2, cur, base + crate::cil_node::node_tmp_count(*a)),
            _ => false,
        },
        CILRoot::BLt { target, sub_target, a, b } => match n {
            CILRoot::BLt { target: target2, sub_target: sub_target2, a: a2, b: b2 } => target2 == target && sub_target2 == sub_target && crate::cil_node::tmps_rel_node(*a, *a2, cur, base) && crate::cil_node::tmps_rel_node(*b, *b2, cur, base + crate::cil_node::node_tmp_count(*a)),
            _ => false,
        },
        CILRoot::BLtUn { target, sub_target, a, b } => match n {
            CILRoot::BLtUn { target: target2, sub_target: sub_target2, a: a2, b: b2 } => target2 == target && sub_target2 == sub_target && crate::cil_node::tmps_rel_node(*a, *a2, cur, base) && crate::cil_node::tmps_rel_node(*b, *b2, cur, base + crate::cil_node::node_tmp_count(*a)),
            _ => false,
        },
        CILRoot::BGt { target, sub_target, a, b } => match n {
            CILRoot::BGt { target: target2, sub_target: sub_target2, a: a2, b: b2 } => target2 == target && sub_target2 == sub_target && crate::cil_node::tmps_rel_node(*a, *a2, cur, base) && crate::cil_node::tmps_rel_node(*b, *b2, cur, base + crate::cil_node::node_tmp_count(*a)),
            _ => false,
        },
        CILRoot::BGtUn { target, sub_target, a, b } => match n {
            CILRoot::BGtUn { target: target2, sub_target: sub_target2, a: a2, b: b2 } => target2 == target && sub_target2 == sub_target && crate::cil_node::tmps_rel_node(*a, *a2, cur, base) && crate::cil_node::tmps_rel_node(*b, *b2, cur, base + crate::cil_node::node_tmp_count(*a)),
            _ => false,
        },
        CILRoot::BLe { target, sub_target, a, b } => match n {
            CILRoot::BLe { target: target2, sub_target: sub_target2, a: a2, b: b2 } => target2 == target && sub_target2 == sub_target && crate::cil_node::tmps_rel_node(*a, *a2, cur, base) && crate::cil_node::tmps_rel_node(*b, *b2, cur, base + crate::cil_node::node_tmp_count(*a)),
            _ => false,
        },
        CILRoot::BGe { target, sub_target, a, b } => match n {
            CILRoot::BGe { target: target2, sub_target: sub_target2, a: a2, b: b2 } => target2 == target && sub_target2 == sub_target && crate::cil_node::tmps_rel_node(*a, *a2, cur, base) && crate::cil_node::tmps_rel_node(*b, *b2, cur, base + crate::cil_node::node_tmp_count(*a)),
            _ => false,
        },
        CILRoot::GoTo { target, sub_target } => match n {
            CILRoot::GoTo { target: target2, sub_target: sub_target2 } => target2 == target && sub_target2 == sub_target,
            _ => false,
        },
        CILRoot::Call { site, args } => match n {
            CILRoot::Call { site: site2, args: args2 } => site2 == site && crate::cil_node::tmps_rel_vec(args@, args2@, cur, base),
            _ => false,
        },
        CILRoot::CallVirt { site, args } => match n {
            CILRoot::CallVirt { site: site2, args: args2 } => site2 == site && crate::cil_node::tmps_rel_vec(args@, args2@, cur, base),
            _ => false,
        },
        CILRoot::CallI { sig, fn_ptr, args } => match n {
            CILRoot::CallI { sig: sig2, fn_ptr: fn_ptr2, args: args2 } => sig2 == sig && crate::cil_node::tmps_rel_node(*fn_ptr, *fn_ptr2, cur, base) && crate::cil_node::tmps_rel_vec(args@, args2@, cur, base + crate::cil_node::node_tmp_count(*fn_ptr)),
            _ => false,
        },
        CILRoot::SetField { addr, value, desc } => match n {
            CILRoot::SetField { addr: addr2, value: value2, desc: desc2 } => crate::cil_node::tmps_rel_node(*addr, *addr2, cur, base) && crate::cil_node::tmps_rel_node(*value, *value2, cur, base + crate::cil_node::node_tmp_count(*addr)) && desc2 == desc,
            _ => false,
        },
        CILRoot::SetStaticField { descr, value } => match n {
            CILRoot::SetStaticField { descr: descr2, value: value2 } => descr2 == descr && crate::cil_node::tmps_rel_node(value, value2, cur, base),
            _ => false,
        },
        CILRoot::CpBlk { dst, src, len } => match n {
            CILRoot::CpBlk { dst: dst2, src: src2, len: len2 } => crate::cil_node::tmps_rel_node(*dst, *dst2, cur, base) && crate::cil_node::tmps_rel_node(*src, *src2, cur, base + crate::cil_node::node_tmp_count(*dst)) && crate::cil_node::tmps_rel_node(*len, *len2, cur, base + crate::cil_node::node_tmp_count(*dst) + crate::cil_node::node_tmp_count(*src)),
            _ => false,
        },
        CILRoot::STInd { addr, value, kind } => match n {
            CILRoot::STInd { addr: addr2, value: value2, kind: kind2 } => crate::cil_node::tmps_rel_node(*addr, *addr2, cur, base) && crate::cil_node::tmps_rel_node(*value, *value2, cur, base + crate::cil_node::node_tmp_count(*addr)) && kind2 == kind,
            _ => false,
        },
        CILRoot::STObj { tpe, addr_calc, value_calc } => match n {
            CILRoot::STObj { tpe: tpe2, addr_calc: addr_calc2, value_calc: value_calc2 } => tpe2 == tpe && crate::cil_node::tmps_rel_node(*addr_calc, *addr_calc2, cur, base) && crate::cil_node::tmps_rel_node(*value_calc, *value_calc2, cur, base + crate::cil_node::node_tmp_count(*addr_calc)),
            _ => false,
        },
        CILRoot::STArg { arg, tree } => match n {
            CILRoot::STArg { arg: arg2, tree: tree2 } => arg2 == arg && crate::cil_node::tmps_rel_node(tree, tree2, cur, base),
            _ => false,
        },
        CILRoot::Break => match n {
            CILRoot::Break => true,
            _ => false,
        },
        CILRoot::Nop => match n {
            CILRoot::Nop => true,
            _ => false,
        },
        CILRoot::InitBlk { dst, val, count } => match n {
            CILRoot::InitBlk { dst: dst2, val: val2, count: count2 } => crate::cil_node::tmps_rel_node(*dst, *dst2, cur, base) && crate::cil_node::tmps_rel_node(*val, *val2, cur, base + crate::cil_node::node_tmp_count(*dst)) && crate::cil_node::tmps_rel_node(*count, *count2, cur, base + crate::cil_node::node_tmp_count(*dst) + crate::cil_node::node_tmp_count(*val)),
            _ => false,
        },
        CILRoot::Ret { tree } => match n {
            CILRoot::Ret { tree: tree2 } => crate::cil_node::tmps_rel_node(tree, tree2, cur, base),
            _ => false,
        },
        CILRoot::Pop { tree } => match n {
            CILRoot::Pop { tree: tree2 } => crate::cil_node::tmps_rel_node(tree, tree2, cur, base),
            _ => false,
        },
        CILRoot::VoidRet => match n {
            CILRoot::VoidRet => true,
            _ => false,
        },
        CILRoot::Throw(f0) => match n {
            CILRoot::Throw(f02) => crate::cil_node::tmps_rel_node(f0, f02, cur, base),
            _ => false,
        },
        CILRoot::ReThrow => match n {
            CILRoot::ReThrow => true,
            _ => false,
        },
        CILRoot::JumpingPad { source, target } => match n {
            CILRoot::JumpingPad { source: source2, target: target2 } => source2 == source && target2 == target,
            _ => false,
        },
        CILRoot::SourceFileInfo { line_start, line_end, col_start, col_end, file } => match n {
            CILRoot::SourceFileInfo { line_start: line_start2, line_end: line_end2, col_start: col_start2, col_end: col_end2, file: file2 } => line_start2 == line_start && line_end2 == line_end && col_start2 == col_start && col_end2 == col_end && file2 == file,
            _ => false,
        },
        CILRoot::Volatile(f0) => match n {
            CILRoot::Volatile(f02) => tmps_rel_root(*f0, *f02, cur, base),
            _ => false,
        },
        CILRoot::SetTMPLocal { value } => match n {
            CILRoot::STLoc { local, tree } => local == crate::cil_node::spec_slot(cur)
                && crate::cil_node::tmps_rel_node(value, tree, cur, base),
            _ => false,
        },
    }
}

/// Elementwise materialization of a sequence of effects, threading the
/// fresh-slot base through the elements in order.
pub open spec fn tmps_rel_roots(os: Seq<CILRoot>, ns: Seq<CILRoot>, cur: Option<u32>, base: int) -> bool
    decreases os,
{
    &&& os.len() == ns.len()
    &&& os.len() > 0 ==> tmps_rel_root(os[0], ns[0], cur, base) && tmps_rel_roots(
        os.drop_first(),
        ns.drop_first(),
        cur,
        base + root_tmp_count(os[0]),
    )
}

/// Appending a related pair extends the elementwise relation.
pub proof fn lemma_tmps_rel_roots_push(
    os: Seq<CILRoot>,
    ns: Seq<CILRoot>,
    cur: Option<u32>,
    base: int,
    o: CILRoot,
    n: CILRoot,
)
    requires
        tmps_rel_roots(os, ns, cur, base),
        tmps_rel_root(o, n, cur, base + vec_root_tmp_count(os)),
    ensures
        tmps_rel_roots(os.push(o), ns.push(n), cur, base),
    decreases os,
{
    if os.len() == 0 {
        assert(os.push(o)[0] == o);
        assert(ns.push(n)[0] == n);
        assert(os.push(o).drop_first() =~= Seq::<CILRoot>::empty());
        assert(ns.push(n).drop_first() =~= Seq::<CILRoot>::empty());
        assert(tmps_rel_roots(
            Seq::<CILRoot>::empty(),
            Seq::<CILRoot>::empty(),
            cur,
            base + root_tmp_count(o),
        ));
    } else {
        assert(os.push(o)[0] == os[0]);
        assert(ns.push(n)[0] == ns[0]);
        assert(os.push(o).drop_first() =~= os.drop_first().push(o));
        assert(ns.push(n).drop_first() =~= ns.drop_first().push(n));
        lemma_tmps_rel_roots_push(
            os.drop_first(),
            ns.drop_first(),
            cur,
            base + root_tmp_count(os[0]),
            o,
            n,
        );
        assert(tmps_rel_roots(os, ns, cur, base));
    }
}

/// The slot count of a sequence with one more element.
pub proof fn lemma_vec_root_tmp_count_push(s: Seq<CILRoot>, x: CILRoot)
    ensures
        vec_root_tmp_count(s.push(x)) == vec_root_tmp_count(s) + root_tmp_count(x),
    decreases s,
{
    if s.len() == 0 {
        assert(s.push(x)[0] == x);
        assert(s.push(x).drop_first() =~= Seq::<CILRoot>::empty());
        assert(vec_root_tmp_count(Seq::<CILRoot>::empty()) == 0);
    } else {
        assert(s.push(x)[0] == s[0]);
        assert(s.push(x).drop_first() =~= s.drop_first().push(x));
        lemma_vec_root_tmp_count_push(s.drop_first(), x);
        assert(vec_root_tmp_count(s) == root_tmp_count(s[0]) + vec_root_tmp_count(s.drop_first()));
    }
}

/// The slot count of a suffix decomposes one element at a time.
pub proof fn lemma_root_skip_count(s: Seq<CILRoot>, i: int)
    requires
        0 <= i < s.len(),
    ensures
        vec_root_tmp_count(s.skip(i)) == root_tmp_count(s[i]) + vec_root_tmp_count(s.skip(i + 1)),
{
    assert(s.skip(i)[0] == s[i]);
    assert(s.skip(i).drop_first() =~= s.skip(i + 1));
}

/// Materializes the temporaries of every effect of a vector, in order.
#[verifier::loop_isolation(false)]
pub fn tmps_roots_vec(
    roots: Vec<CILRoot>,
    curr_loc: Option<u32>,
    locals: &mut Vec<(Option<IString>, Type)>,
) -> (r: Vec<CILRoot>)
    requires
        curr_loc is None ==> forall|j: int|
            0 <= j < roots@.len() ==> !root_has_free_marker(#[trigger] roots@[j]),
        old(locals)@.len() + vec_root_tmp_count(roots@) <= u32::MAX,
    ensures
        final(locals)@.len() == old(locals)@.len() + vec_root_tmp_count(roots@),
        old(locals)@.is_prefix_of(final(locals)@),
        tmps_rel_roots(roots@, r@, curr_loc, old(locals)@.len() as int),
        forall|j: int| 0 <= j < r@.len() ==> root_no_markers(#[trigger] r@[j]),
    decreases roots,
{
    let ghost orig = roots;
    let ghost base = old(locals)@.len() as int;
    let mut roots = roots;
    let mut out: Vec<CILRoot> = Vec::new();
    let mut i: usize = 0;
    let n = roots.len();
    while i < n
        invariant
            n == orig@.len(),
            i <= n,
            roots@ =~= orig@.skip(i as int),
            out@.len() == i,
            locals@.len() == base + vec_root_tmp_count(orig@.take(i as int)),
            base + vec_root_tmp_count(orig@) <= u32::MAX,
            old(locals)@.is_prefix_of(locals@),
            tmps_rel_roots(orig@.take(i as int), out@, curr_loc, base),
            curr_loc is None ==> forall|j: int|
                0 <= j < orig@.len() ==> !root_has_free_marker(#[trigger] orig@[j]),
            forall|j: int| 0 <= j < out@.len() ==> root_no_markers(#[trigger] out@[j]),
        decreases n - i,
    {
        proof {
            lemma_vec_root_tmp_count_split(orig@, i as int);
            assert(orig@.skip(i as int)[0] == orig@[i as int]);
            assert(decreases_to!(orig => orig[i as int]));
        }
        let a = roots.remove(0);
        let ghost l0 = locals@;
        let an = a.allocate_tmps(curr_loc, locals);
        proof {
            lemma_vec_root_tmp_count_push(orig@.take(i as int), orig@[i as int]);
            assert(orig@.take(i as int).push(orig@[i as int]) =~= orig@.take(i + 1));
            lemma_tmps_rel_roots_push(
                orig@.take(i as int),
                out@,
                curr_loc,
                base,
                orig@[i as int],
                an,
            );
            assert(old(locals)@.is_prefix_of(locals@)) by {
                assert(l0.subrange(0, old(locals)@.len() as int) =~= old(locals)@);
                assert(locals@.subrange(0, old(locals)@.len() as int) =~= old(locals)@);
            }
            assert(roots@ =~= orig@.skip(i + 1));
        }
        out.push(an);
        i += 1;
    }
    proof {
        assert(orig@.take(n as int) =~= orig@);
    }
    out
}

/// The slot count of a sequence splits at any index.
pub proof fn lemma_vec_root_tmp_count_split(s: Seq<CILRoot>, i: int)
    requires
        0 <= i < s.len(),
    ensures
        vec_root_tmp_count(s) == vec_root_tmp_count(s.take(i)) + root_tmp_count(s[i])
            + vec_root_tmp_count(s.skip(i + 1)),
        vec_root_tmp_count(s.skip(i)) == root_tmp_count(s[i]) + vec_root_tmp_count(s.skip(i + 1)),
    decreases i,
{
    if i == 0 {
        assert(s.take(0) =~= Seq::<CILRoot>::empty());
        assert(s.skip(0) =~= s);
        assert(s.drop_first() =~= s.skip(1));
    } else {
        assert(s.skip(i - 1).drop_first() =~= s.skip(i));
        lemma_vec_root_tmp_count_split(s, i - 1);
        assert(s.take(i) =~= s.take(i - 1).push(s[i - 1]));
        lemma_vec_root_tmp_count_push(s.take(i - 1), s[i - 1]);
        assert(s.drop_first() =~= s.skip(1));
        lemma_root_skip_count(s, i);
    }
}

impl CILRoot {
    /// Temporary materialization over one statement tree: rewrites the
    /// "materialize temporary" marker into an explicit store to the slot
    /// supplied by the enclosing context and recurses uniformly into every
    /// variant's operands; leaves of the catalog are untouched. A marker
    /// with no supplied slot escaped its scope, which the precondition
    /// rules out; afterwards no marker remains anywhere in the tree.
    pub fn allocate_tmps(
        self,
        curr_loc: Option<u32>,
        locals: &mut Vec<(Option<IString>, Type)>,
    ) -> (r: Self)
        requires
            curr_loc is None ==> !root_has_free_marker(self),
            old(locals)@.len() + root_tmp_count(self) <= u32::MAX,
        ensures
            final(locals)@.len() == old(locals)@.len() + root_tmp_count(self),
            old(locals)@.is_prefix_of(final(locals)@),
            tmps_rel_root(self, r, curr_loc, old(locals)@.len() as int),
            root_no_markers(r),
        decreases self,
    {
        match self {
            CILRoot::STLoc { local, tree } => {
                let treen = tree.allocate_tmps(curr_loc, locals);
                CILRoot::STLoc { local: local, tree: treen }
            },
            CILRoot::BTrue { target, sub_target, cond } => {
                let condn = Box::new(cond.allocate_tmps(curr_loc, locals));
                CILRoot::BTrue { target: target, sub_target: sub_target, cond: condn }
            },
            CILRoot::BFalse { target, sub_target, cond } => {
                let condn = Box::new(cond.allocate_tmps(curr_loc, locals));
                CILRoot::BFalse { target: target, sub_target: sub_target, cond: condn }
            },
            CILRoot::BEq { target, sub_target, a, b } => {
                let an = Box::new(a.allocate_tmps(curr_loc, locals));
                let bn = Box::new(b.allocate_tmps(curr_loc, locals));
                CILRoot::BEq { target: target, sub_target: sub_target, a: an, b: bn }
            },
            CILRoot::BNe { target, sub_target, a, b } => {
                let an = Box::new(a.allocate_tmps(curr_loc, locals));
                let bn = Box::new(b.allocate_tmps(curr_loc, locals));
                CILRoot::BNe { target: target, sub_target: sub_target, a: an, b: bn }
            },
            CILRoot::BLt { target, sub_target, a, b } => {
                let an = Box::new(a.allocate_tmps(curr_loc, locals));
                let bn = Box::new(b.allocate_tmps(curr_loc, locals));
                CILRoot::BLt { target: target, sub_target: sub_target, a: an, b: bn }
            },
            CILRoot::BLtUn { target, sub_target, a, b } => {
                let an = Box::new(a.allocate_tmps(curr_loc, locals));
                let bn = Box::new(b.allocate_tmps(curr_loc, locals));
                CILRoot::BLtUn { target: target, sub_target: sub_target, a: an, b: bn }
            },
            CILRoot::BGt { target, sub_target, a, b } => {
                let an = Box::new(a.allocate_tmps(curr_loc, locals));
                let bn = Box::new(b.allocate_tmps(curr_loc, locals));
                CILRoot::BGt { target: target, sub_target: sub_target, a: an, b: bn }
            },
            CILRoot::BGtUn { target, sub_target, a, b } => {
                let an = Box::new(a.allocate_tmps(curr_loc, locals));
                let bn = Box::new(b.allocate_tmps(curr_loc, locals));
                CILRoot::BGtUn { target: target, sub_target: sub_target, a: an, b: bn }
            },
            CILRoot::BLe { target, sub_target, a, b } => {
                let an = Box::new(a.allocate_tmps(curr_loc, locals));
                let bn = Box::new(b.allocate_tmps(curr_loc, locals));
                CILRoot::BLe { target: target, sub_target: sub_target, a: an, b: bn }
            },
            CILRoot::BGe { target, sub_target, a, b } => {
                let an = Box::new(a.allocate_tmps(curr_loc, locals));
                let bn = Box::new(b.allocate_tmps(curr_loc, locals));
                CILRoot::BGe { target: target, sub_target: sub_target, a: an, b: bn }
            },
            CILRoot::GoTo { target, sub_target } => {

                CILRoot::GoTo { target: target, sub_target: sub_target }
            },
            CILRoot::Call { site, args } => {
                let argsn = crate::cil_node::tmps_vec(args, curr_loc, locals);
                CILRoot::Call { site: site, args: argsn }
            },
            CILRoot::CallVirt { site, args } => {
                let argsn = crate::cil_node::tmps_vec(args, curr_loc, locals);
                CILRoot::CallVirt { site: site, args: argsn }
            },
            CILRoot::CallI { sig, fn_ptr, args } => {
                let fn_ptrn = Box::new(fn_ptr.allocate_tmps(curr_loc, locals));
                let argsn = crate::cil_node::tmps_vec(args, curr_loc, locals);
                CILRoot::CallI { sig: sig, fn_ptr: fn_ptrn, args: argsn }
            },
            CILRoot::SetField { addr, value, desc } => {
                let addrn = Box::new(addr.allocate_tmps(curr_loc, locals));
                let valuen = Box::new(value.allocate_tmps(curr_loc, locals));
                CILRoot::SetField { addr: addrn, value: valuen, desc: desc }
            },
            CILRoot::SetStaticField { descr, value } => {
                let valuen = value.allocate_tmps(curr_loc, locals);
                CILRoot::SetStaticField { descr: descr, value: valuen }
            },
            CILRoot::CpBlk { dst, src, len } => {
                let dstn = Box::new(dst.allocate_tmps(curr_loc, locals));
                let srcn = Box::new(src.allocate_tmps(curr_loc, locals));
                let lenn = Box::new(len.allocate_tmps(curr_loc, locals));
                CILRoot::CpBlk { dst: dstn, src: srcn, len: lenn }
            },
            CILRoot::STInd { addr, value, kind } => {
                let addrn = Box::new(addr.allocate_tmps(curr_loc, locals));
                let valuen = Box::new(value.allocate_tmps(curr_loc, locals));
                CILRoot::STInd { addr: addrn, value: valuen, kind: kind }
            },
            CILRoot::STObj { tpe, addr_calc, value_calc } => {
                let addr_calcn = Box::new(addr_calc.allocate_tmps(curr_loc, locals));
                let value_calcn = Box::new(value_calc.allocate_tmps(curr_loc, locals));
                CILRoot::STObj { tpe: tpe, addr_calc: addr_calcn, value_calc: value_calcn }
            },
            CILRoot::STArg { arg, tree } => {
                let treen = tree.allocate_tmps(curr_loc, locals);
                CILRoot::STArg { arg: arg, tree: treen }
            },
            CILRoot::Break => CILRoot::Break,
            CILRoot::Nop => CILRoot::Nop,
            CILRoot::InitBlk { dst, val, count } => {
                let dstn = Box::new(dst.allocate_tmps(curr_loc, locals));
                let valn = Box::new(val.allocate_tmps(curr_loc, locals));
                let countn = Box::new(count.allocate_tmps(curr_loc, locals));
                CILRoot::InitBlk { dst: dstn, val: valn, count: countn }
            },
            CILRoot::Ret { tree } => {
                let treen = tree.allocate_tmps(curr_loc, locals);
                CILRoot::Ret { tree: treen }
            },
            CILRoot::Pop { tree } => {
                let treen = tree.allocate_tmps(curr_loc, locals);
                CILRoot::Pop { tree: treen }
            },
            CILRoot::VoidRet => CILRoot::VoidRet,
            CILRoot::Throw(f0) => {
                let f0n = f0.allocate_tmps(curr_loc, locals);
                CILRoot::Throw(f0n)
            },
            CILRoot::ReThrow => CILRoot::ReThrow,
            CILRoot::JumpingPad { source, target } => {

                CILRoot::JumpingPad { source: source, target: target }
            },
            CILRoot::SourceFileInfo { line_start, line_end, col_start, col_end, file } => {

                CILRoot::SourceFileInfo { line_start: line_start, line_end: line_end, col_start: col_start, col_end: col_end, file: file }
            },
            CILRoot::Volatile(f0) => {
                let f0n = Box::new(f0.allocate_tmps(curr_loc, locals));
                CILRoot::Volatile(f0n)
            },
            CILRoot::SetTMPLocal { value } => {
                let c = match curr_loc {
                    Option::Some(c) => c,
                    Option::None => {
                        proof {
                            assert(false);
                        }
                        0
                    },
                };
                let treen = value.allocate_tmps(curr_loc, locals);
                CILRoot::STLoc { local: c, tree: treen }
            },
        }
    }
}


/// How many side-effect trees splitting this effect extracts.
pub open spec fn root_side_count(r: CILRoot) -> nat
    decreases r,
{
    match r {
        CILRoot::STLoc { local, tree } => crate::cil_node::node_side_count(tree),
        CILRoot::BTrue { target, sub_target, cond } => crate::cil_node::node_side_count(*cond),
        CILRoot::BFalse { target, sub_target, cond } => crate::cil_node::node_side_count(*cond),
        CILRoot::BEq { target, sub_target, a, b } => crate::cil_node::node_side_count(*a) + crate::cil_node::node_side_count(*b),
        CILRoot::BNe { target, sub_target, a, b } => crate::cil_node::node_side_count(*a) + crate::cil_node::node_side_count(*b),
        CILRoot::BLt { target, sub_target, a, b } => crate::cil_node::node_side_count(*a) + crate::cil_node::node_side_count(*b),
        CILRoot::BLtUn { target, sub_target, a, b } => crate::cil_node::node_side_count(*a) + crate::cil_node::node_side_count(*b),
        CILRoot::BGt { target, sub_target, a, b } => crate::cil_node::node_side_count(*a) + crate::cil_node::node_side_count(*b),
        CILRoot::BGtUn { target, sub_target, a, b } => crate::cil_node::node_side_count(*a) + crate::cil_node::node_side_count(*b),
        CILRoot::BLe { target, sub_target, a, b } => crate::cil_node::node_side_count(*a) + crate::cil_node::node_side_count(*b),
        CILRoot::BGe { target, sub_target, a, b } => crate::cil_node::node_side_count(*a) + crate::cil_node::node_side_count(*b),
        CILRoot::GoTo { target, sub_target } => 0,
        CILRoot::Call { site, args } => crate::cil_node::vec_node_side_count(args@),
        CILRoot::CallVirt { site, args } => crate::cil_node::vec_node_side_count(args@),
        CILRoot::CallI { sig, fn_ptr, args } => crate::cil_node::node_side_count(*fn_ptr) + crate::cil_node::vec_node_side_count(args@),
        CILRoot::SetField { addr, value, desc } => crate::cil_node::node_side_count(*addr) + crate::cil_node::node_side_count(*value),
        CILRoot::SetStaticField { descr, value } => crate::cil_node::node_side_count(value),
        CILRoot::CpBlk { dst, src, len } => crate::cil_node::node_side_count(*dst) + crate::cil_node::node_side_count(*src) + crate::cil_node::node_side_count(*len),
        CILRoot::STInd { addr, value, kind } => crate::cil_node::node_side_count(*addr) + crate::cil_node::node_side_count(*value),
        CILRoot::STObj { tpe, addr_calc, value_calc } => crate::cil_node::node_side_count(*addr_calc) + crate::cil_node::node_side_count(*value_calc),
        CILRoot::STArg { arg, tree } => crate::cil_node::node_side_count(tree),
        CILRoot::Break => 0,
        CILRoot::Nop => 0,
        CILRoot::InitBlk { dst, val, count } => crate::cil_node::node_side_count(*dst) + crate::cil_node::node_side_count(*val) + crate::cil_node::node_side_count(*count),
        CILRoot::Ret { tree } => crate::cil_node::node_side_count(tree),
        CILRoot::Pop { tree } => crate::cil_node::node_side_count(tree),
        CILRoot::VoidRet => 0,
        CILRoot::Throw(f0) => crate::cil_node::node_side_count(f0),
        CILRoot::ReThrow => 0,
        CILRoot::JumpingPad { source, target } => 0,
        CILRoot::SourceFileInfo { line_start, line_end, col_start, col_end, file } => 0,
        CILRoot::Volatile(f0) => root_side_count(*f0),
        CILRoot::SetTMPLocal { value } => crate::cil_node::node_side_count(value),
    }
}

/// Total output trees contributed by splitting each of these effects: each
/// contributes its own extracted trees plus itself.
pub open spec fn roots_sides_count(s: Seq<CILRoot>) -> nat
    decreases s,
{
    if s.len() == 0 {
        0
    } else {
        (root_side_count(s[0]) + 1) + roots_sides_count(s.drop_first())
    }
}

/// The contribution sum grows by one element's share when pushing.
pub proof fn lemma_roots_sides_count_push(s: Seq<CILRoot>, x: CILRoot)
    ensures
        roots_sides_count(s.push(x)) == roots_sides_count(s) + root_side_count(x) + 1,
    decreases s,
{
    if s.len() == 0 {
        assert(s.push(x)[0] == x);
        assert(s.push(x).drop_first() =~= Seq::<CILRoot>::empty());
        assert(roots_sides_count(Seq::<CILRoot>::empty()) == 0);
    } else {
        assert(s.push(x)[0] == s[0]);
        assert(s.push(x).drop_first() =~= s.drop_first().push(x));
        lemma_roots_sides_count_push(s.drop_first(), x);
        assert(roots_sides_count(s) == (root_side_count(s[0]) + 1) + roots_sides_count(
            s.drop_first(),
        ));
    }
}

/// Is `n` the effect `o` with every embedded multi-tree construct replaced
/// by its main value only?
pub open spec fn strip_rel_root(o: CILRoot, n: CILRoot) -> bool
    decreases o,
{
    match o {
        CILRoot::STLoc { local, tree } => match n {
            CILRoot::STLoc { local: local2, tree: tree2 } => local2 == local && crate::cil_node::strip_rel_node(tree, tree2),
            _ => false,
        },
        CILRoot::BTrue { target, sub_target, cond } => match n {
            CILRoot::BTrue { target: target2, sub_target: sub_target2, cond: cond2 } => target2 == target && sub_target2 == sub_target && crate::cil_node::strip_rel_node(*cond, *cond2),
            _ => false,
        },
        CILRoot::BFalse { target, sub_target, cond } => match n {
            CILRoot::BFalse { target: target2, sub_target: sub_target2, cond: cond2 } => target2 == target && sub_target2 == sub_target && crate::cil_node::strip_rel_node(*cond, *cond2),
            _ => false,
        },
        CILRoot::BEq { target, sub_target, a, b } => match n {
            CILRoot::BEq { target: target2, sub_target: sub_target2, a: a2, b: b2 } => target2 == target && sub_target2 == sub_target && crate::cil_node::strip_rel_node(*a, *a2) && crate::cil_node::strip_rel_node(*b, *b2),
            _ => false,
        },
        CILRoot::BNe { target, sub_target, a, b } => match n {
            CILRoot::BNe { target: target2, sub_target: sub_target2, a: a2, b: b2 } => target2 == target && sub_target2 == sub_target && crate::cil_node::strip_rel_node(*a, *a2) && crate::cil_node::strip_rel_node(*b, *b2),
            _ => false,
        },
        CILRoot::BLt { target, sub_target, a, b } => match n {
            CILRoot::BLt { target: target2, sub_target: sub_target2, a: a2, b: b2 } => target2 == target && sub_target2 == sub_target && crate::cil_node::strip_rel_node(*a, *a2) && crate::cil_node::strip_rel_node(*b, *b2),
            _ => false,
        },
        CILRoot::BLtUn { target, sub_target, a, b } => match n {
            CILRoot::BLtUn { target: target2, sub_target: sub_target2, a: a2, b: b2 } => target2 == target && sub_target2 == sub_target && crate::cil_node::strip_rel_node(*a, *a2) && crate::cil_node::strip_rel_node(*b, *b2),
            _ => false,
        },
        CILRoot::BGt { target, sub_target, a, b } => match n {
            CILRoot::BGt { target: target2, sub_target: sub_target2, a: a2, b: b2 } => target2 == target && sub_target2 == sub_target && crate::cil_node::strip_rel_node(*a, *a2) && crate::cil_node::strip_rel_node(*b, *b2),
            _ => false,
        },
        CILRoot::BGtUn { target, sub_target, a, b } => match n {
            CILRoot::BGtUn { target: target2, sub_target: sub_target2, a: a2, b: b2 } => target2 == target && sub_target2 == sub_target && crate::cil_node::strip_rel_node(*a, *a2) && crate::cil_node::strip_rel_node(*b, *b2),
            _ => false,
        },
        CILRoot::BLe { target, sub_target, a, b } => match n {
            CILRoot::BLe { target: target2, sub_target: sub_target2, a: a2, b: b2 } => target2 == target && sub_target2 == sub_target && crate::cil_node::strip_rel_node(*a, *a2) && crate::cil_node::strip_rel_node(*b, *b2),
            _ => false,
        },
        CILRoot::BGe { target, sub_target, a, b } => match n {
            CILRoot::BGe { target: target2, sub_target: sub_target2, a: a2, b: b2 } => target2 == target && sub_target2 == sub_target && crate::cil_node::strip_rel_node(*a, *a2) && crate::cil_node::strip_rel_node(*b, *b2),
            _ => false,
        },
        CILRoot::GoTo { target, sub_target } => match n {
            CILRoot::GoTo { target: target2, sub_target: sub_target2 } => target2 == target && sub_target2 == sub_target,
            _ => false,
        },
        CILRoot::Call { site, args } => match n {
            CILRoot::Call { site: site2, args: args2 } => site2 == site && crate::cil_node::strip_rel_vec(args@, args2@),
            _ => false,
        },
        CILRoot::CallVirt { site, args } => match n {
            CILRoot::CallVirt { site: site2, args: args2 } => site2 == site && crate::cil_node::strip_rel_vec(args@, args2@),
            _ => false,
        },
        CILRoot::CallI { sig, fn_ptr, args } => match n {
            CILRoot::CallI { sig: sig2, fn_ptr: fn_ptr2, args: args2 } => sig2 == sig && crate::cil_node::strip_rel_node(*fn_ptr, *fn_ptr2) && crate::cil_node::strip_rel_vec(args@, args2@),
            _ => false,
        },
        CILRoot::SetField { addr, value, desc } => match n {
            CILRoot::SetField { addr: addr2, value: value2, desc: desc2 } => crate::cil_node::strip_rel_node(*addr, *addr2) && crate::cil_node::strip_rel_node(*value, *value2) && desc2 == desc,
            _ => false,
        },
        CILRoot::SetStaticField { descr, value } => match n {
            CILRoot::SetStaticField { descr: descr2, value: value2 } => descr2 == descr && crate::cil_node::strip_rel_node(value, value2),
            _ => false,
        },
        CILRoot::CpBlk { dst, src, len } => match n {
            CILRoot::CpBlk { dst: dst2, src: src2, len: len2 } => crate::cil_node::strip_rel_node(*dst, *dst2) && crate::cil_node::strip_rel_node(*src, *src2) && crate::cil_node::strip_rel_node(*len, *len2),
            _ => false,
        },
        CILRoot::STInd { addr, value, kind } => match n {
            CILRoot::STInd { addr: addr2, value: value2, kind: kind2 } => crate::cil_node::strip_rel_node(*addr, *addr2) && crate::cil_node::strip_rel_node(*value, *value2) && kind2 == kind,
            _ => false,
        },
        CILRoot::STObj { tpe, addr_calc, value_calc } => match n {
            CILRoot::STObj { tpe: tpe2, addr_calc: addr_calc2, value_calc: value_calc2 } => tpe2 == tpe && crate::cil_node::strip_rel_node(*addr_calc, *addr_calc2) && crate::cil_node::strip_rel_node(*value_calc, *value_calc2),
            _ => false,
        },
        CILRoot::STArg { arg, tree } => match n {
            CILRoot::STArg { arg: arg2, tree: tree2 } => arg2 == arg && crate::cil_node::strip_rel_node(tree, tree2),
            _ => false,
        },
        CILRoot::Break => match n {
            CILRoot::Break => true,
            _ => false,
        },
        CILRoot::Nop => match n {
            CILRoot::Nop => true,
            _ => false,
        },
        CILRoot::InitBlk { dst, val, count } => match n {
            CILRoot::InitBlk { dst: dst2, val: val2, count: count2 } => crate::cil_node::strip_rel_node(*dst, *dst2) && crate::cil_node::strip_rel_node(*val, *val2) && crate::cil_node::strip_rel_node(*count, *count2),
            _ => false,
        },
        CILRoot::Ret { tree } => match n {
            CILRoot::Ret { tree: tree2 } => crate::cil_node::strip_rel_node(tree, tree2),
            _ => false,
        },
        CILRoot::Pop { tree } => match n {
            CILRoot::Pop { tree: tree2 } => crate::cil_node::strip_rel_node(tree, tree2),
            _ => false,
        },
        CILRoot::VoidRet => match n {
            CILRoot::VoidRet => true,
            _ => false,
        },
        CILRoot::Throw(f0) => match n {
            CILRoot::Throw(f02) => crate::cil_node::strip_rel_node(f0, f02),
            _ => false,
        },
        CILRoot::ReThrow => match n {
            CILRoot::ReThrow => true,
            _ => false,
        },
        CILRoot::JumpingPad { source, target } => match n {
            CILRoot::JumpingPad { source: source2, target: target2 } => source2 == source && target2 == target,
            _ => false,
        },
        CILRoot::SourceFileInfo { line_start, line_end, col_start, col_end, file } => match n {
            CILRoot::SourceFileInfo { line_start: line_start2, line_end: line_end2, col_start: col_start2, col_end: col_end2, file: file2 } => line_start2 == line_start && line_end2 == line_end && col_start2 == col_start && col_end2 == col_end && file2 == file,
            _ => false,
        },
        CILRoot::Volatile(f0) => match n {
            CILRoot::Volatile(f02) => strip_rel_root(*f0, *f02),
            _ => false,
        },
        CILRoot::SetTMPLocal { .. } => false,
    }
}

/// Fully splits each of these effects in order, appending every resulting
/// tree (extracted trees, then the stripped effect itself) to `out`.
#[verifier::loop_isolation(false)]
pub fn sheed_roots_into(roots: Vec<CILRoot>, out: &mut Vec<CILRoot>)
    requires
        forall|j: int| 0 <= j < roots@.len() ==> root_no_markers(#[trigger] roots@[j]),
        forall|j: int|
            0 <= j < old(out)@.len() ==> root_no_subtrees(#[trigger] old(out)@[j])
                && root_no_markers(old(out)@[j]),
    ensures
        final(out)@.len() == old(out)@.len() + roots_sides_count(roots@),
        old(out)@.is_prefix_of(final(out)@),
        sides_rel_roots(roots@, final(out)@, old(out)@.len() as int),
        forall|j: int|
            0 <= j < final(out)@.len() ==> root_no_subtrees(#[trigger] final(out)@[j])
                && root_no_markers(final(out)@[j]),
    decreases roots,
{
    let ghost orig = roots;
    let ghost base = old(out)@.len() as int;
    let mut roots = roots;
    let mut i: usize = 0;
    let n = roots.len();
    while i < n
        invariant
            n == orig@.len(),
            i <= n,
            roots@ =~= orig@.skip(i as int),
            out@.len() == base + roots_sides_count(orig@.take(i as int)),
            old(out)@.is_prefix_of(out@),
            sides_rel_roots(orig@.take(i as int), out@, base),
            forall|j: int|
                0 <= j < out@.len() ==> root_no_subtrees(#[trigger] out@[j]) && root_no_markers(
                    out@[j],
                ),
        decreases n - i,
    {
        proof {
            assert(orig@.skip(i as int)[0] == orig@[i as int]);
            assert(decreases_to!(orig => orig[i as int]));
        }
        let a = roots.remove(0);
        let ghost ga = orig@[i as int];
        let ghost o_pre = out@;
        let an = a.sheed_root(out);
        let ghost o_mid = out@;
        out.push(an);
        proof {
            lemma_roots_sides_count_push(orig@.take(i as int), orig@[i as int]);
            assert(orig@.take(i as int).push(orig@[i as int]) =~= orig@.take(i + 1));
            assert(old(out)@.is_prefix_of(out@)) by {
                assert(out@.subrange(0, old(out)@.len() as int) =~= old(out)@);
            }
            assert(o_mid.is_prefix_of(out@)) by {
                assert(out@.subrange(0, o_mid.len() as int) =~= o_mid);
            }
            lemma_sides_rel_roots_prefix(orig@.take(i as int), o_pre, out@, base);
            lemma_sides_rel_root_prefix(ga, o_mid, out@, o_pre.len() as int);
            assert(out@[o_mid.len() as int] == an);
            lemma_sides_rel_roots_push(orig@.take(i as int), out@, base, ga);
            assert(roots@ =~= orig@.skip(i + 1));
        }
        i += 1;
    }
    proof {
        assert(orig@.take(n as int) =~= orig@);
    }
}

impl CILRoot {
    /// Splits this effect: extracted side-effect trees are appended to
    /// `out`, and the result is this effect with every multi-tree construct
    /// replaced by its main value.
    pub fn sheed_root(self, out: &mut Vec<CILRoot>) -> (r: Self)
        requires
            root_no_markers(self),
            forall|j: int|
                0 <= j < old(out)@.len() ==> root_no_subtrees(#[trigger] old(out)@[j])
                    && root_no_markers(old(out)@[j]),
        ensures
            final(out)@.len() == old(out)@.len() + root_side_count(self),
            old(out)@.is_prefix_of(final(out)@),
            forall|j: int|
                0 <= j < final(out)@.len() ==> root_no_subtrees(#[trigger] final(out)@[j])
                    && root_no_markers(final(out)@[j]),
            strip_rel_root(self, r),
            sides_rel_root(self, final(out)@, old(out)@.len() as int),
            root_no_subtrees(r),
            root_no_markers(r),
        decreases self,
    {
        match self {
            CILRoot::STLoc { local, tree } => {
                let treen = tree.sheed_node(out);
                CILRoot::STLoc { local: local, tree: treen }
            },
            CILRoot::BTrue { target, sub_target, cond } => {
                let condn = Box::new(cond.sheed_node(out));
                CILRoot::BTrue { target: target, sub_target: sub_target, cond: condn }
            },
            CILRoot::BFalse { target, sub_target, cond } => {
                let condn = Box::new(cond.sheed_node(out));
                CILRoot::BFalse { target: target, sub_target: sub_target, cond: condn }
            },
            CILRoot::BEq { target, sub_target, a, b } => {
                let ghost g_a = *a;
                let ghost s_a = out@;
                let an = Box::new(a.sheed_node(out));
                let ghost g_b = *b;
                let ghost s_b = out@;
                let bn = Box::new(b.sheed_node(out));
                proof {
                    crate::cil_node::lemma_sides_rel_node_prefix(g_a, s_b, out@, s_a.len() as int);
                }
                CILRoot::BEq { target: target, sub_target: sub_target, a: an, b: bn }
            },
            CILRoot::BNe { target, sub_target, a, b } => {
                let ghost g_a = *a;
                let ghost s_a = out@;
                let an = Box::new(a.sheed_node(out));
                let ghost g_b = *b;
                let ghost s_b = out@;
                let bn = Box::new(b.sheed_node(out));
                proof {
                    crate::cil_node::lemma_sides_rel_node_prefix(g_a, s_b, out@, s_a.len() as int);
                }
                CILRoot::BNe { target: target, sub_target: sub_target, a: an, b: bn }
            },
            CILRoot::BLt { target, sub_target, a, b } => {
                let ghost g_a = *a;
                let ghost s_a = out@;
                let an = Box::new(a.sheed_node(out));
                let ghost g_b = *b;
                let ghost s_b = out@;
                let bn = Box::new(b.sheed_node(out));
                proof {
                    crate::cil_node::lemma_sides_rel_node_prefix(g_a, s_b, out@, s_a.len() as int);
                }
                CILRoot::BLt { target: target, sub_target: sub_target, a: an, b: bn }
            },
            CILRoot::BLtUn { target, sub_target, a, b } => {
                let ghost g_a = *a;
                let ghost s_a = out@;
                let an = Box::new(a.sheed_node(out));
                let ghost g_b = *b;
                let ghost s_b = out@;
                let bn = Box::new(b.sheed_node(out));
                proof {
                    crate::cil_node::lemma_sides_rel_node_prefix(g_a, s_b, out@, s_a.len() as int);
                }
                CILRoot::BLtUn { target: target, sub_target: sub_target, a: an, b: bn }
            },
            CILRoot::BGt { target, sub_target, a, b } => {
                let ghost g_a = *a;
                let ghost s_a = out@;
                let an = Box::new(a.sheed_node(out));
                let ghost g_b = *b;
                let ghost s_b = out@;
                let bn = Box::new(b.sheed_node(out));
                proof {
                    crate::cil_node::lemma_sides_rel_node_prefix(g_a, s_b, out@, s_a.len() as int);
                }
                CILRoot::BGt { target: target, sub_target: sub_target, a: an, b: bn }
            },
            CILRoot::BGtUn { target, sub_target, a, b } => {
                let ghost g_a = *a;
                let ghost s_a = out@;
                let an = Box::new(a.sheed_node(out));
                let ghost g_b = *b;
                let ghost s_b = out@;
                let bn = Box::new(b.sheed_node(out));
                proof {
                    crate::cil_node::lemma_sides_rel_node_prefix(g_a, s_b, out@, s_a.len() as int);
                }
                CILRoot::BGtUn { target: target, sub_target: sub_target, a: an, b: bn }
            },
            CILRoot::BLe { target, sub_target, a, b } => {
                let ghost g_a = *a;
                let ghost s_a = out@;
                let an = Box::new(a.sheed_node(out));
                let ghost g_b = *b;
                let ghost s_b = out@;
                let bn = Box::new(b.sheed_node(out));
                proof {
                    crate::cil_node::lemma_sides_rel_node_prefix(g_a, s_b, out@, s_a.len() as int);
                }
                CILRoot::BLe { target: target, sub_target: sub_target, a: an, b: bn }
            },
            CILRoot::BGe { target, sub_target, a, b } => {
                let ghost g_a = *a;
                let ghost s_a = out@;
                let an = Box::new(a.sheed_node(out));
                let ghost g_b = *b;
                let ghost s_b = out@;
                let bn = Box::new(b.sheed_node(out));
                proof {
                    crate::cil_node::lemma_sides_rel_node_prefix(g_a, s_b, out@, s_a.len() as int);
                }
                CILRoot::BGe { target: target, sub_target: sub_target, a: an, b: bn }
            },
            CILRoot::GoTo { target, sub_target } => {

                CILRoot::GoTo { target: target, sub_target: sub_target }
            },
            CILRoot::Call { site, args } => {
                let argsn = crate::cil_node::sheed_vec(args, out);
                CILRoot::Call { site: site, args: argsn }
            },
            CILRoot::CallVirt { site, args } => {
                let argsn = crate::cil_node::sheed_vec(args, out);
                CILRoot::CallVirt { site: site, args: argsn }
            },
            CILRoot::CallI { sig, fn_ptr, args } => {
                let ghost g_fn_ptr = *fn_ptr;
                let ghost s_fn_ptr = out@;
                let fn_ptrn = Box::new(fn_ptr.sheed_node(out));
                let ghost g_args = args@;
                let ghost s_args = out@;
                let argsn = crate::cil_node::sheed_vec(args, out);
                proof {
                    crate::cil_node::lemma_sides_rel_node_prefix(g_fn_ptr, s_args, out@, s_fn_ptr.len() as int);
                }
                CILRoot::CallI { sig: sig, fn_ptr: fn_ptrn, args: argsn }
            },
            CILRoot::SetField { addr, value, desc } => {
                let ghost g_addr = *addr;
                let ghost s_addr = out@;
                let addrn = Box::new(addr.sheed_node(out));
                let ghost g_value = *value;
                let ghost s_value = out@;
                let valuen = Box::new(value.sheed_node(out));
                proof {
                    crate::cil_node::lemma_sides_rel_node_prefix(g_addr, s_value, out@, s_addr.len() as int);
                }
                CILRoot::SetField { addr: addrn, value: valuen, desc: desc }
            },
            CILRoot::SetStaticField { descr, value } => {
                let valuen = value.sheed_node(out);
                CILRoot::SetStaticField { descr: descr, value: valuen }
            },
            CILRoot::CpBlk { dst, src, len } => {
                let ghost g_dst = *dst;
                let ghost s_dst = out@;
                let dstn = Box::new(dst.sheed_node(out));
                let ghost g_src = *src;
                let ghost s_src = out@;
                let srcn = Box::new(src.sheed_node(out));
                let ghost g_len = *len;
                let ghost s_len = out@;
                let lenn = Box::new(len.sheed_node(out));
                proof {
                    crate::cil_node::lemma_sides_rel_node_prefix(g_dst, s_src, out@, s_dst.len() as int);
                    crate::cil_node::lemma_sides_rel_node_prefix(g_src, s_len, out@, s_src.len() as int);
                }
                CILRoot::CpBlk { dst: dstn, src: srcn, len: lenn }
            },
            CILRoot::STInd { addr, value, kind } => {
                let ghost g_addr = *addr;
                let ghost s_addr = out@;
                let addrn = Box::new(addr.sheed_node(out));
                let ghost g_value = *value;
                let ghost s_value = out@;
                let valuen = Box::new(value.sheed_node(out));
                proof {
                    crate::cil_node::lemma_sides_rel_node_prefix(g_addr, s_value, out@, s_addr.len() as int);
                }
                CILRoot::STInd { addr: addrn, value: valuen, kind: kind }
            },
            CILRoot::STObj { tpe, addr_calc, value_calc } => {
                let ghost g_addr_calc = *addr_calc;
                let ghost s_addr_calc = out@;
                let addr_calcn = Box::new(addr_calc.sheed_node(out));
                let ghost g_value_calc = *value_calc;
                let ghost s_value_calc = out@;
                let value_calcn = Box::new(value_calc.sheed_node(out));
                proof {
                    crate::cil_node::lemma_sides_rel_node_prefix(g_addr_calc, s_value_calc, out@, s_addr_calc.len() as int);
                }
                CILRoot::STObj { tpe: tpe, addr_calc: addr_calcn, value_calc: value_calcn }
            },
            CILRoot::STArg { arg, tree } => {
                let treen = tree.sheed_node(out);
                CILRoot::STArg { arg: arg, tree: treen }
            },
            CILRoot::Break => CILRoot::Break,
            CILRoot::Nop => CILRoot::Nop,
            CILRoot::InitBlk { dst, val, count } => {
                let ghost g_dst = *dst;
                let ghost s_dst = out@;
                let dstn = Box::new(dst.sheed_node(out));
                let ghost g_val = *val;
                let ghost s_val = out@;
                let valn = Box::new(val.sheed_node(out));
                let ghost g_count = *count;
                let ghost s_count = out@;
                let countn = Box::new(count.sheed_node(out));
                proof {
                    crate::cil_node::lemma_sides_rel_node_prefix(g_dst, s_val, out@, s_dst.len() as int);
                    crate::cil_node::lemma_sides_rel_node_prefix(g_val, s_count, out@, s_val.len() as int);
                }
                CILRoot::InitBlk { dst: dstn, val: valn, count: countn }
            },
            CILRoot::Ret { tree } => {
                let treen = tree.sheed_node(out);
                CILRoot::Ret { tree: treen }
            },
            CILRoot::Pop { tree } => {
                let treen = tree.sheed_node(out);
                CILRoot::Pop { tree: treen }
            },
            CILRoot::VoidRet => CILRoot::VoidRet,
            CILRoot::Throw(f0) => {
                let f0n = f0.sheed_node(out);
                CILRoot::Throw(f0n)
            },
            CILRoot::ReThrow => CILRoot::ReThrow,
            CILRoot::JumpingPad { source, target } => {

                CILRoot::JumpingPad { source: source, target: target }
            },
            CILRoot::SourceFileInfo { line_start, line_end, col_start, col_end, file } => {

                CILRoot::SourceFileInfo { line_start: line_start, line_end: line_end, col_start: col_start, col_end: col_end, file: file }
            },
            CILRoot::Volatile(f0) => {
                let f0n = Box::new(f0.sheed_root(out));
                CILRoot::Volatile(f0n)
            },
            CILRoot::SetTMPLocal { .. } => {
                proof {
                    assert(false);
                }
                CILRoot::Nop
            },
        }
    }

    /// Tree splitting: finds every embedded "alternative side-effect
    /// subtrees plus main value" construct, recursively flattens each
    /// alternative subtree, and returns the flattened side-effect trees
    /// followed by this tree with each construct replaced by its main value
    /// only. Extracted trees are sequenced before the tree that consumes
    /// their value, and no tree of the result contains a nested construct.
    /// Splitting runs after temporary materialization, so the input is
    /// required to be marker-free.
    pub fn sheed_trees(self) -> (r: Vec<CILRoot>)
        requires
            root_no_markers(self),
        ensures
            r@.len() == root_side_count(self) + 1,
            forall|j: int|
                0 <= j < r@.len() ==> root_no_subtrees(#[trigger] r@[j]) && root_no_markers(r@[j]),
            sides_rel_root(self, r@, 0),
            strip_rel_root(self, r@[r@.len() - 1]),
    {
        let ghost g = self;
        let mut out: Vec<CILRoot> = Vec::new();
        let s = self.sheed_root(&mut out);
        let ghost o_mid = out@;
        out.push(s);
        proof {
            assert(o_mid.is_prefix_of(out@)) by {
                assert(out@.subrange(0, o_mid.len() as int) =~= o_mid);
            }
            lemma_sides_rel_root_prefix(g, o_mid, out@, 0);
        }
        out
    }
}


impl CILRoot {
    /// Builds the effect that throws a freshly constructed exception
    /// carrying `msg`: a throw of a constructor call on the platform
    /// exception class, whose signature takes the exception receiver and
    /// the platform string, with the message string as its one argument.
    pub fn throw(msg: &str) -> (r: Self)
        ensures
            match r {
                CILRoot::Throw(n) => match n {
                    CILNode::NewObj { site, args } => {
                        &&& !site.is_static
                        &&& site.name@ == ".ctor".spec_bytes()
                        &&& match site.class {
                            Option::Some(c) => c.name@ == "System.Exception".spec_bytes()
                                && c.rasm is None && !c.is_valuetype,
                            Option::None => false,
                        }
                        &&& site.signature.inputs@.len() == 2
                        &&& match site.signature.inputs@[0] {
                            crate::tpe::Type::DotnetType(c) => c.name@
                                == "System.Exception".spec_bytes(),
                            _ => false,
                        }
                        &&& site.signature.inputs@[1] is PlatformString
                        &&& *site.signature.output is Void
                        &&& args@.len() == 1
                        &&& match args@[0] {
                            CILNode::LdStr(s) => s@ == msg.spec_bytes(),
                            _ => false,
                        }
                    },
                    _ => false,
                },
                _ => false,
            },
            root_wf(r),
            root_no_markers(r),
            root_no_subtrees(r),
    {
        let exception = crate::tpe::DotnetTypeRef {
            name: IString::from_str("System.Exception"),
            rasm: Option::None,
            is_valuetype: false,
        };
        let receiver = crate::tpe::DotnetTypeRef {
            name: IString::from_str("System.Exception"),
            rasm: Option::None,
            is_valuetype: false,
        };
        let signature = crate::tpe::FnSig::new(
            vec![crate::tpe::Type::DotnetType(receiver), crate::tpe::Type::PlatformString],
            crate::tpe::Type::Void,
        );
        let site = crate::tpe::CallSite::new(
            Option::Some(exception),
            IString::from_str(".ctor"),
            signature,
            false,
        );
        let args = vec![CILNode::LdStr(IString::from_str(msg))];
        proof {
            assert(args@.len() == 1);
            assert forall|j: int| 0 <= j < args@.len() implies node_wf(#[trigger] args@[j])
                && node_no_markers(args@[j]) && node_no_subtrees(args@[j]) by {
                assert(args@[j] == args@[0]);
            }
        }
        let node = CILNode::NewObj { site: Box::new(site), args };
        proof {
            assert(node_wf(node));
            assert(node_no_markers(node));
            assert(node_no_subtrees(node));
        }
        CILRoot::Throw(node)
    }

    /// Builds the effect that prints `msg` on the platform console: a
    /// static call to the console write line method with the message string
    /// as its one argument. The message is passed as one string literal;
    /// splitting long messages into concatenation calls is a workaround for
    /// platform literal-length limits and is left to the caller.
    pub fn debug(msg: &str) -> (r: Self)
        ensures
            match r {
                CILRoot::Call { site, args } => {
                    &&& site.is_static
                    &&& site.name@ == "WriteLine".spec_bytes()
                    &&& match site.class {
                        Option::Some(c) => c.name@ == "System.Console".spec_bytes()
                            && c.rasm is None && !c.is_valuetype,
                        Option::None => false,
                    }
                    &&& site.signature.inputs@.len() == 1
                    &&& site.signature.inputs@[0] is PlatformString
                    &&& *site.signature.output is Void
                    &&& args@.len() == 1
                    &&& match args@[0] {
                        CILNode::LdStr(s) => s@ == msg.spec_bytes(),
                        _ => false,
                    }
                },
                _ => false,
            },
            root_wf(r),
            root_no_markers(r),
            root_no_subtrees(r),
    {
        let console = crate::tpe::DotnetTypeRef {
            name: IString::from_str("System.Console"),
            rasm: Option::None,
            is_valuetype: false,
        };
        let signature = crate::tpe::FnSig::new(
            vec![crate::tpe::Type::PlatformString],
            crate::tpe::Type::Void,
        );
        let site = crate::tpe::CallSite::new(
            Option::Some(console),
            IString::from_str("WriteLine"),
            signature,
            true,
        );
        let args = vec![CILNode::LdStr(IString::from_str(msg))];
        proof {
            assert(args@.len() == 1);
            assert forall|j: int| 0 <= j < args@.len() implies node_wf(#[trigger] args@[j])
                && node_no_markers(args@[j]) && node_no_subtrees(args@[j]) by {
                assert(args@[j] == args@[0]);
            }
        }
        CILRoot::Call { site: Box::new(site), args }
    }
}


/// Are the entries of `out` from `base` on exactly the side-effect trees
/// that splitting this effect extracts, in traversal order?
pub open spec fn sides_rel_root(o: CILRoot, out: Seq<CILRoot>, base: int) -> bool
    decreases o,
{
    match o {
        CILRoot::STLoc { local, tree } => crate::cil_node::sides_rel_node(tree, out, base),
        CILRoot::BTrue { target, sub_target, cond } => crate::cil_node::sides_rel_node(*cond, out, base),
        CILRoot::BFalse { target, sub_target, cond } => crate::cil_node::sides_rel_node(*cond, out, base),
        CILRoot::BEq { target, sub_target, a, b } => crate::cil_node::sides_rel_node(*a, out, base) && crate::cil_node::sides_rel_node(*b, out, base + crate::cil_node::node_side_count(*a)),
        CILRoot::BNe { target, sub_target, a, b } => crate::cil_node::sides_rel_node(*a, out, base) && crate::cil_node::sides_rel_node(*b, out, base + crate::cil_node::node_side_count(*a)),
        CILRoot::BLt { target, sub_target, a, b } => crate::cil_node::sides_rel_node(*a, out, base) && crate::cil_node::sides_rel_node(*b, out, base + crate::cil_node::node_side_count(*a)),
        CILRoot::BLtUn { target, sub_target, a, b } => crate::cil_node::sides_rel_node(*a, out, base) && crate::cil_node::sides_rel_node(*b, out, base + crate::cil_node::node_side_count(*a)),
        CILRoot::BGt { target, sub_target, a, b } => crate::cil_node::sides_rel_node(*a, out, base) && crate::cil_node::sides_rel_node(*b, out, base + crate::cil_node::node_side_count(*a)),
        CILRoot::BGtUn { target, sub_target, a, b } => crate::cil_node::sides_rel_node(*a, out, base) && crate::cil_node::sides_rel_node(*b, out, base + crate::cil_node::node_side_count(*a)),
        CILRoot::BLe { target, sub_target, a, b } => crate::cil_node::sides_rel_node(*a, out, base) && crate::cil_node::sides_rel_node(*b, out, base + crate::cil_node::node_side_count(*a)),
        CILRoot::BGe { target, sub_target, a, b } => crate::cil_node::sides_rel_node(*a, out, base) && crate::cil_node::sides_rel_node(*b, out, base + crate::cil_node::node_side_count(*a)),
        CILRoot::GoTo { target, sub_target } => true,
        CILRoot::Call { site, args } => crate::cil_node::sides_rel_vec(args@, out, base),
        CILRoot::CallVirt { site, args } => crate::cil_node::sides_rel_vec(args@, out, base),
        CILRoot::CallI { sig, fn_ptr, args } => crate::cil_node::sides_rel_node(*fn_ptr, out, base) && crate::cil_node::sides_rel_vec(args@, out, base + crate::cil_node::node_side_count(*fn_ptr)),
        CILRoot::SetField { addr, value, desc } => crate::cil_node::sides_rel_node(*addr, out, base) && crate::cil_node::sides_rel_node(*value, out, base + crate::cil_node::node_side_count(*addr)),
        CILRoot::SetStaticField { descr, value } => crate::cil_node::sides_rel_node(value, out, base),
        CILRoot::CpBlk { dst, src, len } => crate::cil_node::sides_rel_node(*dst, out, base) && crate::cil_node::sides_rel_node(*src, out, base + crate::cil_node::node_side_count(*dst)) && crate::cil_node::sides_rel_node(*len, out, base + crate::cil_node::node_side_count(*dst) + crate::cil_node::node_side_count(*src)),
        CILRoot::STInd { addr, value, kind } => crate::cil_node::sides_rel_node(*addr, out, base) && crate::cil_node::sides_rel_node(*value, out, base + crate::cil_node::node_side_count(*addr)),
        CILRoot::STObj { tpe, addr_calc, value_calc } => crate::cil_node::sides_rel_node(*addr_calc, out, base) && crate::cil_node::sides_rel_node(*value_calc, out, base + crate::cil_node::node_side_count(*addr_calc)),
        CILRoot::STArg { arg, tree } => crate::cil_node::sides_rel_node(tree, out, base),
        CILRoot::Break => true,
        CILRoot::Nop => true,
        CILRoot::InitBlk { dst, val, count } => crate::cil_node::sides_rel_node(*dst, out, base) && crate::cil_node::sides_rel_node(*val, out, base + crate::cil_node::node_side_count(*dst)) && crate::cil_node::sides_rel_node(*count, out, base + crate::cil_node::node_side_count(*dst) + crate::cil_node::node_side_count(*val)),
        CILRoot::Ret { tree } => crate::cil_node::sides_rel_node(tree, out, base),
        CILRoot::Pop { tree } => crate::cil_node::sides_rel_node(tree, out, base),
        CILRoot::VoidRet => true,
        CILRoot::Throw(f0) => crate::cil_node::sides_rel_node(f0, out, base),
        CILRoot::ReThrow => true,
        CILRoot::JumpingPad { source, target } => true,
        CILRoot::SourceFileInfo { line_start, line_end, col_start, col_end, file } => true,
        CILRoot::Volatile(f0) => sides_rel_root(*f0, out, base),
        CILRoot::SetTMPLocal { .. } => false,
    }
}

/// The full splitting of each effect in order: its own extracted trees,
/// then its stripped form, at consecutive positions of `out`.
pub open spec fn sides_rel_roots(ts: Seq<CILRoot>, out: Seq<CILRoot>, base: int) -> bool
    decreases ts,
{
    ts.len() == 0 || {
        &&& sides_rel_root(ts[0], out, base)
        &&& 0 <= base + root_side_count(ts[0]) < out.len()
        &&& strip_rel_root(ts[0], out[base + root_side_count(ts[0])])
        &&& sides_rel_roots(ts.drop_first(), out, base + root_side_count(ts[0]) + 1)
    }
}

/// The extraction relation survives appending.
pub proof fn lemma_sides_rel_root_prefix(o: CILRoot, out1: Seq<CILRoot>, out2: Seq<CILRoot>, base: int)
    requires
        sides_rel_root(o, out1, base),
        out1.is_prefix_of(out2),
    ensures
        sides_rel_root(o, out2, base),
    decreases o,
{
    match o {
        CILRoot::STLoc { local, tree } => {
            crate::cil_node::lemma_sides_rel_node_prefix(tree, out1, out2, base);
        },
        CILRoot::BTrue { target, sub_target, cond } => {
            crate::cil_node::lemma_sides_rel_node_prefix(*cond, out1, out2, base);
        },
        CILRoot::BFalse { target, sub_target, cond } => {
            crate::cil_node::lemma_sides_rel_node_prefix(*cond, out1, out2, base);
        },
        CILRoot::BEq { target, sub_target, a, b } => {
            crate::cil_node::lemma_sides_rel_node_prefix(*a, out1, out2, base);
            crate::cil_node::lemma_sides_rel_node_prefix(*b, out1, out2, base + crate::cil_node::node_side_count(*a));
        },
        CILRoot::BNe { target, sub_target, a, b } => {
            crate::cil_node::lemma_sides_rel_node_prefix(*a, out1, out2, base);
            crate::cil_node::lemma_sides_rel_node_prefix(*b, out1, out2, base + crate::cil_node::node_side_count(*a));
        },
        CILRoot::BLt { target, sub_target, a, b } => {
            crate::cil_node::lemma_sides_rel_node_prefix(*a, out1, out2, base);
            crate::cil_node::lemma_sides_rel_node_prefix(*b, out1, out2, base + crate::cil_node::node_side_count(*a));
        },
        CILRoot::BLtUn { target, sub_target, a, b } => {
            crate::cil_node::lemma_sides_rel_node_prefix(*a, out1, out2, base);
            crate::cil_node::lemma_sides_rel_node_prefix(*b, out1, out2, base + crate::cil_node::node_side_count(*a));
        },
        CILRoot::BGt { target, sub_target, a, b } => {
            crate::cil_node::lemma_sides_rel_node_prefix(*a, out1, out2, base);
            crate::cil_node::lemma_sides_rel_node_prefix(*b, out1, out2, base + crate::cil_node::node_side_count(*a));
        },
        CILRoot::BGtUn { target, sub_target, a, b } => {
            crate::cil_node::lemma_sides_rel_node_prefix(*a, out1, out2, base);
            crate::cil_node::lemma_sides_rel_node_prefix(*b, out1, out2, base + crate::cil_node::node_side_count(*a));
        },
        CILRoot::BLe { target, sub_target, a, b } => {
            crate::cil_node::lemma_sides_rel_node_prefix(*a, out1, out2, base);
            crate::cil_node::lemma_sides_rel_node_prefix(*b, out1, out2, base + crate::cil_node::node_side_count(*a));
        },
        CILRoot::BGe { target, sub_target, a, b } => {
            crate::cil_node::lemma_sides_rel_node_prefix(*a, out1, out2, base);
            crate::cil_node::lemma_sides_rel_node_prefix(*b, out1, out2, base + crate::cil_node::node_side_count(*a));
        },
        CILRoot::GoTo { target, sub_target } => {},
        CILRoot::Call { site, args } => {
            crate::cil_node::lemma_sides_rel_vec_prefix(args@, out1, out2, base);
        },
        CILRoot::CallVirt { site, args } => {
            crate::cil_node::lemma_sides_rel_vec_prefix(args@, out1, out2, base);
        },
        CILRoot::CallI { sig, fn_ptr, args } => {
            crate::cil_node::lemma_sides_rel_node_prefix(*fn_ptr, out1, out2, base);
            crate::cil_node::lemma_sides_rel_vec_prefix(args@, out1, out2, base + crate::cil_node::node_side_count(*fn_ptr));
        },
        CILRoot::SetField { addr, value, desc } => {
            crate::cil_node::lemma_sides_rel_node_prefix(*addr, out1, out2, base);
            crate::cil_node::lemma_sides_rel_node_prefix(*value, out1, out2, base + crate::cil_node::node_side_count(*addr));
        },
        CILRoot::SetStaticField { descr, value } => {
            crate::cil_node::lemma_sides_rel_node_prefix(value, out1, out2, base);
        },
        CILRoot::CpBlk { dst, src, len } => {
            crate::cil_node::lemma_sides_rel_node_prefix(*dst, out1, out2, base);
            crate::cil_node::lemma_sides_rel_node_prefix(*src, out1, out2, base + crate::cil_node::node_side_count(*dst));
            crate::cil_node::lemma_sides_rel_node_prefix(*len, out1, out2, base + crate::cil_node::node_side_count(*dst) + crate::cil_node::node_side_count(*src));
        },
        CILRoot::STInd { addr, value, kind } => {
            crate::cil_node::lemma_sides_rel_node_prefix(*addr, out1, out2, base);
            crate::cil_node::lemma_sides_rel_node_prefix(*value, out1, out2, base + crate::cil_node::node_side_count(*addr));
        },
        CILRoot::STObj { tpe, addr_calc, value_calc } => {
            crate::cil_node::lemma_sides_rel_node_prefix(*addr_calc, out1, out2, base);
            crate::cil_node::lemma_sides_rel_node_prefix(*value_calc, out1, out2, base + crate::cil_node::node_side_count(*addr_calc));
        },
        CILRoot::STArg { arg, tree } => {
            crate::cil_node::lemma_sides_rel_node_prefix(tree, out1, out2, base);
        },
        CILRoot::Break => {},
        CILRoot::Nop => {},
        CILRoot::InitBlk { dst, val, count } => {
            crate::cil_node::lemma_sides_rel_node_prefix(*dst, out1, out2, base);
            crate::cil_node::lemma_sides_rel_node_prefix(*val, out1, out2, base + crate::cil_node::node_side_count(*dst));
            crate::cil_node::lemma_sides_rel_node_prefix(*count, out1, out2, base + crate::cil_node::node_side_count(*dst) + crate::cil_node::node_side_count(*val));
        },
        CILRoot::Ret { tree } => {
            crate::cil_node::lemma_sides_rel_node_prefix(tree, out1, out2, base);
        },
        CILRoot::Pop { tree } => {
            crate::cil_node::lemma_sides_rel_node_prefix(tree, out1, out2, base);
        },
        CILRoot::VoidRet => {},
        CILRoot::Throw(f0) => {
            crate::cil_node::lemma_sides_rel_node_prefix(f0, out1, out2, base);
        },
        CILRoot::ReThrow => {},
        CILRoot::JumpingPad { source, target } => {},
        CILRoot::SourceFileInfo { line_start, line_end, col_start, col_end, file } => {},
        CILRoot::Volatile(f0) => {
            lemma_sides_rel_root_prefix(*f0, out1, out2, base);
        },
        CILRoot::SetTMPLocal { .. } => {},
    }
}

/// The full-splitting relation survives appending.
pub proof fn lemma_sides_rel_roots_prefix(
    ts: Seq<CILRoot>,
    out1: Seq<CILRoot>,
    out2: Seq<CILRoot>,
    base: int,
)
    requires
        sides_rel_roots(ts, out1, base),
        out1.is_prefix_of(out2),
    ensures
        sides_rel_roots(ts, out2, base),
    decreases ts,
{
    if ts.len() > 0 {
        lemma_sides_rel_root_prefix(ts[0], out1, out2, base);
        assert(out2[base + root_side_count(ts[0])] == out1.subrange(0, out1.len() as int)[base
            + root_side_count(ts[0])]);
        assert(out2[base + root_side_count(ts[0])] == out1[base + root_side_count(ts[0])]);
        lemma_sides_rel_roots_prefix(ts.drop_first(), out1, out2, base + root_side_count(ts[0]) + 1);
    }
}

/// Appending one fully split effect extends the full-splitting relation.
pub proof fn lemma_sides_rel_roots_push(
    ts: Seq<CILRoot>,
    out: Seq<CILRoot>,
    base: int,
    t: CILRoot,
)
    requires
        sides_rel_roots(ts, out, base),
        sides_rel_root(t, out, base + roots_sides_count(ts)),
        0 <= base + roots_sides_count(ts) + root_side_count(t) < out.len(),
        strip_rel_root(t, out[base + roots_sides_count(ts) + root_side_count(t)]),
    ensures
        sides_rel_roots(ts.push(t), out, base),
    decreases ts,
{
    if ts.len() == 0 {
        assert(ts.push(t)[0] == t);
        assert(ts.push(t).drop_first() =~= Seq::<CILRoot>::empty());
        assert(roots_sides_count(ts) == 0);
        assert(sides_rel_roots(
            Seq::<CILRoot>::empty(),
            out,
            base + root_side_count(t) + 1,
        ));
    } else {
        assert(ts.push(t)[0] == ts[0]);
        assert(ts.push(t).drop_first() =~= ts.drop_first().push(t));
        assert(roots_sides_count(ts) == (root_side_count(ts[0]) + 1) + roots_sides_count(
            ts.drop_first(),
        ));
        lemma_sides_rel_roots_push(ts.drop_first(), out, base + root_side_count(ts[0]) + 1, t);
    }
}

} // verus!
