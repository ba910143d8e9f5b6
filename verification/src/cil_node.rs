//! The owned operation-node tree: the construction-time counterpart of the
//! interned node catalog, with children owned in place, plus the
//! "materialize temporary" marker nodes that are eliminated before
//! interning.

use crate::istring::IString;
use crate::tpe::{CallSite, FieldDescriptor, StaticFieldDescriptor, Type, ptr_castable};
use crate::v2::cilnode::{BinOp, Const, ExtendKind, UnOp};
use crate::v2::tpe::{Float, Int};
use vstd::prelude::*;

verus! {

broadcast use vstd::std_specs::vec::axiom_vec_index_decreases;

/// An owned expression tree. The variant space mirrors the interned
/// operation catalog, with handles replaced by owned children; the marker
/// variants at the end exist only at construction time.
pub enum CILNode {
    LdLoc(u32),
    LdLocA(u32),
    LdArg(u32),
    LdArgA(u32),
    Ldc(Const),
    LdStr(IString),
    BinOp(Box<CILNode>, Box<CILNode>, BinOp),
    UnOp(Box<CILNode>, UnOp),
    IntCast { input: Box<CILNode>, target: Int, extend: ExtendKind },
    FloatCast { input: Box<CILNode>, target: Float, is_signed: bool },
    RefToPtr(Box<CILNode>),
    CastPtr { val: Box<CILNode>, new_ptr: Box<Type> },
    LdFieldAddress { addr: Box<CILNode>, field: Box<FieldDescriptor> },
    LdField { addr: Box<CILNode>, field: Box<FieldDescriptor> },
    LdInd { ptr: Box<CILNode>, tpe: Box<Type>, is_volatile: bool },
    SizeOf(Box<Type>),
    GetException,
    IsInst { val: Box<CILNode>, tpe: Box<Type> },
    CheckedCast { val: Box<CILNode>, tpe: Box<Type> },
    Call { site: Box<CallSite>, args: Vec<CILNode> },
    CallVirt { site: Box<CallSite>, args: Vec<CILNode> },
    NewObj { site: Box<CallSite>, args: Vec<CILNode> },
    CallI { sig: Box<crate::tpe::FnSig>, fn_ptr: Box<CILNode>, args: Vec<CILNode> },
    LocAlloc { size: Box<CILNode> },
    LocAllocAligned { tpe: Box<Type>, align: u64 },
    LdStaticField(Box<StaticFieldDescriptor>),
    LdFtn(Box<CallSite>),
    LdTypeToken(Box<Type>),
    LdLen(Box<CILNode>),
    LdElemRef { array: Box<CILNode>, index: Box<CILNode> },
    UnboxAny { object: Box<CILNode>, tpe: Box<Type> },
    LoadTMPLocal,
    LoadAddresOfTMPLocal,
    TemporaryLocal(Box<(Type, Vec<crate::cil_root::CILRoot>, CILNode)>),
    SubTrees(Box<(Vec<crate::cil_root::CILRoot>, CILNode)>),
}

/// Construction-time validity of an owned expression: a virtual call or a
/// constructor call whose target descriptor is marked static is a
/// miscompilation, as is a pointer reinterpretation to a non-pointer type
/// or a platform-string constant smuggled in by handle.
pub open spec fn node_wf(n: CILNode) -> bool
    decreases n,
{
    match n {
        CILNode::Ldc(c) => !(c is PlatformString),
        CILNode::BinOp(a, b, _) => node_wf(*a) && node_wf(*b),
        CILNode::UnOp(a, _) => node_wf(*a),
        CILNode::IntCast { input, .. } => node_wf(*input),
        CILNode::FloatCast { input, .. } => node_wf(*input),
        CILNode::RefToPtr(a) => node_wf(*a),
        CILNode::CastPtr { val, new_ptr } => node_wf(*val) && ptr_castable(*new_ptr),
        CILNode::LdFieldAddress { addr, .. } => node_wf(*addr),
        CILNode::LdField { addr, .. } => node_wf(*addr),
        CILNode::LdInd { ptr, .. } => node_wf(*ptr),
        CILNode::IsInst { val, .. } => node_wf(*val),
        CILNode::CheckedCast { val, .. } => node_wf(*val),
        CILNode::Call { site, args } => forall|j: int|
            0 <= j < args.len() ==> node_wf(#[trigger] args[j]),
        CILNode::CallVirt { site, args } => !site.is_static && forall|j: int|
            0 <= j < args.len() ==> node_wf(#[trigger] args[j]),
        CILNode::NewObj { site, args } => !site.is_static && forall|j: int|
            0 <= j < args.len() ==> node_wf(#[trigger] args[j]),
        CILNode::CallI { fn_ptr, args, .. } => node_wf(*fn_ptr) && forall|j: int|
            0 <= j < args.len() ==> node_wf(#[trigger] args[j]),
        CILNode::LocAlloc { size } => node_wf(*size),
        CILNode::LdLen(a) => node_wf(*a),
        CILNode::LdElemRef { array, index } => node_wf(*array) && node_wf(*index),
        CILNode::UnboxAny { object, .. } => node_wf(*object),
        CILNode::TemporaryLocal(b) => {
            &&& forall|j: int| 0 <= j < b.1.len() ==> crate::cil_root::root_wf(#[trigger] b.1[j])
            &&& node_wf(b.2)
        },
        CILNode::SubTrees(b) => {
            &&& forall|j: int| 0 <= j < b.0.len() ==> crate::cil_root::root_wf(#[trigger] b.0[j])
            &&& node_wf(b.1)
        },
        _ => true,
    }
}

/// Does the expression contain a "materialize temporary" marker that is not
/// enclosed by a temporary-introducing node, so that it needs a slot from
/// the surrounding context?
pub open spec fn node_has_free_marker(n: CILNode) -> bool
    decreases n,
{
    match n {
        CILNode::LoadTMPLocal => true,
        CILNode::LoadAddresOfTMPLocal => true,
        CILNode::TemporaryLocal(_) => false,
        CILNode::BinOp(a, b, _) => node_has_free_marker(*a) || node_has_free_marker(*b),
        CILNode::UnOp(a, _) => node_has_free_marker(*a),
        CILNode::IntCast { input, .. } => node_has_free_marker(*input),
        CILNode::FloatCast { input, .. } => node_has_free_marker(*input),
        CILNode::RefToPtr(a) => node_has_free_marker(*a),
        CILNode::CastPtr { val, .. } => node_has_free_marker(*val),
        CILNode::LdFieldAddress { addr, .. } => node_has_free_marker(*addr),
        CILNode::LdField { addr, .. } => node_has_free_marker(*addr),
        CILNode::LdInd { ptr, .. } => node_has_free_marker(*ptr),
        CILNode::IsInst { val, .. } => node_has_free_marker(*val),
        CILNode::CheckedCast { val, .. } => node_has_free_marker(*val),
        CILNode::Call { args, .. } => exists|j: int|
            0 <= j < args.len() && node_has_free_marker(#[trigger] args[j]),
        CILNode::CallVirt { args, .. } => exists|j: int|
            0 <= j < args.len() && node_has_free_marker(#[trigger] args[j]),
        CILNode::NewObj { args, .. } => exists|j: int|
            0 <= j < args.len() && node_has_free_marker(#[trigger] args[j]),
        CILNode::CallI { fn_ptr, args, .. } => node_has_free_marker(*fn_ptr) || exists|j: int|
            0 <= j < args.len() && node_has_free_marker(#[trigger] args[j]),
        CILNode::LocAlloc { size } => node_has_free_marker(*size),
        CILNode::LdLen(a) => node_has_free_marker(*a),
        CILNode::LdElemRef { array, index } => node_has_free_marker(*array)
            || node_has_free_marker(*index),
        CILNode::UnboxAny { object, .. } => node_has_free_marker(*object),
        CILNode::SubTrees(b) => (exists|j: int|
            0 <= j < b.0.len() && crate::cil_root::root_has_free_marker(#[trigger] b.0[j]))
            || node_has_free_marker(b.1),
        _ => false,
    }
}

/// Is the expression free of every temporary marker and every
/// temporary-introducing node? This is what the temporary-materialization
/// pass establishes.
pub open spec fn node_no_markers(n: CILNode) -> bool
    decreases n,
{
    match n {
        CILNode::LoadTMPLocal => false,
        CILNode::LoadAddresOfTMPLocal => false,
        CILNode::TemporaryLocal(_) => false,
        CILNode::BinOp(a, b, _) => node_no_markers(*a) && node_no_markers(*b),
        CILNode::UnOp(a, _) => node_no_markers(*a),
        CILNode::IntCast { input, .. } => node_no_markers(*input),
        CILNode::FloatCast { input, .. } => node_no_markers(*input),
        CILNode::RefToPtr(a) => node_no_markers(*a),
        CILNode::CastPtr { val, .. } => node_no_markers(*val),
        CILNode::LdFieldAddress { addr, .. } => node_no_markers(*addr),
        CILNode::LdField { addr, .. } => node_no_markers(*addr),
        CILNode::LdInd { ptr, .. } => node_no_markers(*ptr),
        CILNode::IsInst { val, .. } => node_no_markers(*val),
        CILNode::CheckedCast { val, .. } => node_no_markers(*val),
        CILNode::Call { args, .. } => forall|j: int|
            0 <= j < args.len() ==> node_no_markers(#[trigger] args[j]),
        CILNode::CallVirt { args, .. } => forall|j: int|
            0 <= j < args.len() ==> node_no_markers(#[trigger] args[j]),
        CILNode::NewObj { args, .. } => forall|j: int|
            0 <= j < args.len() ==> node_no_markers(#[trigger] args[j]),
        CILNode::CallI { fn_ptr, args, .. } => node_no_markers(*fn_ptr) && forall|j: int|
            0 <= j < args.len() ==> node_no_markers(#[trigger] args[j]),
        CILNode::LocAlloc { size } => node_no_markers(*size),
        CILNode::LdLen(a) => node_no_markers(*a),
        CILNode::LdElemRef { array, index } => node_no_markers(*array) && node_no_markers(*index),
        CILNode::UnboxAny { object, .. } => node_no_markers(*object),
        CILNode::SubTrees(b) => {
            &&& forall|j: int|
                0 <= j < b.0.len() ==> crate::cil_root::root_no_markers(#[trigger] b.0[j])
            &&& node_no_markers(b.1)
        },
        _ => true,
    }
}


/// Is the expression free of the embedded multi-tree construct? This is
/// what tree splitting establishes.
pub open spec fn node_no_subtrees(n: CILNode) -> bool
    decreases n,
{
    match n {
        CILNode::SubTrees(_) => false,
        CILNode::BinOp(a, b, _) => node_no_subtrees(*a) && node_no_subtrees(*b),
        CILNode::UnOp(a, _) => node_no_subtrees(*a),
        CILNode::IntCast { input, .. } => node_no_subtrees(*input),
        CILNode::FloatCast { input, .. } => node_no_subtrees(*input),
        CILNode::RefToPtr(a) => node_no_subtrees(*a),
        CILNode::CastPtr { val, .. } => node_no_subtrees(*val),
        CILNode::LdFieldAddress { addr, .. } => node_no_subtrees(*addr),
        CILNode::LdField { addr, .. } => node_no_subtrees(*addr),
        CILNode::LdInd { ptr, .. } => node_no_subtrees(*ptr),
        CILNode::IsInst { val, .. } => node_no_subtrees(*val),
        CILNode::CheckedCast { val, .. } => node_no_subtrees(*val),
        CILNode::Call { args, .. } => forall|j: int|
            0 <= j < args.len() ==> node_no_subtrees(#[trigger] args[j]),
        CILNode::CallVirt { args, .. } => forall|j: int|
            0 <= j < args.len() ==> node_no_subtrees(#[trigger] args[j]),
        CILNode::NewObj { args, .. } => forall|j: int|
            0 <= j < args.len() ==> node_no_subtrees(#[trigger] args[j]),
        CILNode::CallI { fn_ptr, args, .. } => node_no_subtrees(*fn_ptr) && forall|j: int|
            0 <= j < args.len() ==> node_no_subtrees(#[trigger] args[j]),
        CILNode::LocAlloc { size } => node_no_subtrees(*size),
        CILNode::LdLen(a) => node_no_subtrees(*a),
        CILNode::LdElemRef { array, index } => node_no_subtrees(*array) && node_no_subtrees(
            *index,
        ),
        CILNode::UnboxAny { object, .. } => node_no_subtrees(*object),
        CILNode::TemporaryLocal(b) => {
            &&& forall|j: int|
                0 <= j < b.1.len() ==> crate::cil_root::root_no_subtrees(#[trigger] b.1[j])
            &&& node_no_subtrees(b.2)
        },
        _ => true,
    }
}


/// The slot a free temporary marker resolves to.
pub open spec fn spec_slot(cur: Option<u32>) -> u32 {
    match cur {
        Option::Some(c) => c,
        Option::None => 0,
    }
}

/// How many temporary slots materializing this expression allocates.
pub open spec fn node_tmp_count(n: CILNode) -> nat
    decreases n,
{
    match n {
        CILNode::LdLoc(f0) => 0,
        CILNode::LdLocA(f0) => 0,
        CILNode::LdArg(f0) => 0,
        CILNode::LdArgA(f0) => 0,
        CILNode::Ldc(f0) => 0,
        CILNode::LdStr(f0) => 0,
        CILNode::BinOp(f0, f1, f2) => node_tmp_count(*f0) + node_tmp_count(*f1),
        CILNode::UnOp(f0, f1) => node_tmp_count(*f0),
        CILNode::IntCast { input, target, extend } => node_tmp_count(*input),
        CILNode::FloatCast { input, target, is_signed } => node_tmp_count(*input),
        CILNode::RefToPtr(f0) => node_tmp_count(*f0),
        CILNode::CastPtr { val, new_ptr } => node_tmp_count(*val),
        CILNode::LdFieldAddress { addr, field } => node_tmp_count(*addr),
        CILNode::LdField { addr, field } => node_tmp_count(*addr),
        CILNode::LdInd { ptr, tpe, is_volatile } => node_tmp_count(*ptr),
        CILNode::SizeOf(f0) => 0,
        CILNode::GetException => 0,
        CILNode::IsInst { val, tpe } => node_tmp_count(*val),
        CILNode::CheckedCast { val, tpe } => node_tmp_count(*val),
        CILNode::Call { site, args } => vec_node_tmp_count(args@),
        CILNode::CallVirt { site, args } => vec_node_tmp_count(args@),
        CILNode::NewObj { site, args } => vec_node_tmp_count(args@),
        CILNode::CallI { sig, fn_ptr, args } => node_tmp_count(*fn_ptr) + vec_node_tmp_count(args@),
        CILNode::LocAlloc { size } => node_tmp_count(*size),
        CILNode::LocAllocAligned { tpe, align } => 0,
        CILNode::LdStaticField(f0) => 0,
        CILNode::LdFtn(f0) => 0,
        CILNode::LdTypeToken(f0) => 0,
        CILNode::LdLen(f0) => node_tmp_count(*f0),
        CILNode::LdElemRef { array, index } => node_tmp_count(*array) + node_tmp_count(*index),
        CILNode::UnboxAny { object, tpe } => node_tmp_count(*object),
        CILNode::LoadTMPLocal => 0,
        CILNode::LoadAddresOfTMPLocal => 0,
        CILNode::TemporaryLocal(b) => 1 + crate::cil_root::vec_root_tmp_count(b.1@) + node_tmp_count(b.2),
        CILNode::SubTrees(b) => crate::cil_root::vec_root_tmp_count(b.0@) + node_tmp_count(b.1),
    }
}

/// How many temporary slots materializing these expressions allocates.
pub open spec fn vec_node_tmp_count(s: Seq<CILNode>) -> nat
    decreases s,
{
    if s.len() == 0 {
        0
    } else {
        node_tmp_count(s[0]) + vec_node_tmp_count(s.drop_first())
    }
}

/// Does `n` result from materializing the temporaries of `o`, with the
/// context slot `cur` and fresh slots numbered from `base` in traversal
/// order? Markers become direct slot accesses, each temporary-introducing
/// node becomes the plain multi-tree construct over a fresh slot, and every
/// other variant is rebuilt unchanged around its rewritten children.
pub open spec fn tmps_rel_node(o: CILNode, n: CILNode, cur: Option<u32>, base: int) -> bool
    decreases o,
{
    match o {
        CILNode::LdLoc(f0) => match n {
            CILNode::LdLoc(f02) => f02 == f0,
            _ => false,
        },
        CILNode::LdLocA(f0) => match n {
            CILNode::LdLocA(f02) => f02 == f0,
            _ => false,
        },
        CILNode::LdArg(f0) => match n {
            CILNode::LdArg(f02) => f02 == f0,
            _ => false,
        },
        CILNode::LdArgA(f0) => match n {
            CILNode::LdArgA(f02) => f02 == f0,
            _ => false,
        },
        CILNode::Ldc(f0) => match n {
            CILNode::Ldc(f02) => f02 == f0,
            _ => false,
        },
        CILNode::LdStr(f0) => match n {
            CILNode::LdStr(f02) => f02 == f0,
            _ => false,
        },
        CILNode::BinOp(f0, f1, f2) => match n {
            CILNode::BinOp(f02, f12, f22) => tmps_rel_node(*f0, *f02, cur, base) && tmps_rel_node(*f1, *f12, cur, base + node_tmp_count(*f0)) && f22 == f2,
            _ => false,
        },
        CILNode::UnOp(f0, f1) => match n {
            CILNode::UnOp(f02, f12) => tmps_rel_node(*f0, *f02, cur, base) && f12 == f1,
            _ => false,
        },
        CILNode::IntCast { input, target, extend } => match n {
            CILNode::IntCast { input: input2, target: target2, extend: extend2 } => tmps_rel_node(*input, *input2, cur, base) && target2 == target && extend2 == extend,
            _ => false,
        },
        CILNode::FloatCast { input, target, is_signed } => match n {
            CILNode::FloatCast { input: input2, target: target2, is_signed: is_signed2 } => tmps_rel_node(*input, *input2, cur, base) && target2 == target && is_signed2 == is_signed,
            _ => false,
        },
        CILNode::RefToPtr(f0) => match n {
            CILNode::RefToPtr(f02) => tmps_rel_node(*f0, *f02, cur, base),
            _ => false,
        },
        CILNode::CastPtr { val, new_ptr } => match n {
            CILNode::CastPtr { val: val2, new_ptr: new_ptr2 } => tmps_rel_node(*val, *val2, cur, base) && new_ptr2 == new_ptr,
            _ => false,
        },
        CILNode::LdFieldAddress { addr, field } => match n {
            CILNode::LdFieldAddress { addr: addr2, field: field2 } => tmps_rel_node(*addr, *addr2, cur, base) && field2 == field,
            _ => false,
        },
        CILNode::LdField { addr, field } => match n {
            CILNode::LdField { addr: addr2, field: field2 } => tmps_rel_node(*addr, *addr2, cur, base) && field2 == field,
            _ => false,
        },
        CILNode::LdInd { ptr, tpe, is_volatile } => match n {
            CILNode::LdInd { ptr: ptr2, tpe: tpe2, is_volatile: is_volatile2 } => tmps_rel_node(*ptr, *ptr2, cur, base) && tpe2 == tpe && is_volatile2 == is_volatile,
            _ => false,
        },
        CILNode::SizeOf(f0) => match n {
            CILNode::SizeOf(f02) => f02 == f0,
            _ => false,
        },
        CILNode::GetException => match n {
            CILNode::GetException => true,
            _ => false,
        },
        CILNode::IsInst { val, tpe } => match n {
            CILNode::IsInst { val: val2, tpe: tpe2 } => tmps_rel_node(*val, *val2, cur, base) && tpe2 == tpe,
            _ => false,
        },
        CILNode::CheckedCast { val, tpe } => match n {
            CILNode::CheckedCast { val: val2, tpe: tpe2 } => tmps_rel_node(*val, *val2, cur, base) && tpe2 == tpe,
            _ => false,
        },
        CILNode::Call { site, args } => match n {
            CILNode::Call { site: site2, args: args2 } => site2 == site && tmps_rel_vec(args@, args2@, cur, base),
            _ => false,
        },
        CILNode::CallVirt { site, args } => match n {
            CILNode::CallVirt { site: site2, args: args2 } => site2 == site && tmps_rel_vec(args@, args2@, cur, base),
            _ => false,
        },
        CILNode::NewObj { site, args } => match n {
            CILNode::NewObj { site: site2, args: args2 } => site2 == site && tmps_rel_vec(args@, args2@, cur, base),
            _ => false,
        },
        CILNode::CallI { sig, fn_ptr, args } => match n {
            CILNode::CallI { sig: sig2, fn_ptr: fn_ptr2, args: args2 } => sig2 == sig && tmps_rel_node(*fn_ptr, *fn_ptr2, cur, base) && tmps_rel_vec(args@, args2@, cur, base + node_tmp_count(*fn_ptr)),
            _ => false,
        },
        CILNode::LocAlloc { size } => match n {
            CILNode::LocAlloc { size: size2 } => tmps_rel_node(*size, *size2, cur, base),
            _ => false,
        },
        CILNode::LocAllocAligned { tpe, align } => match n {
            CILNode::LocAllocAligned { tpe: tpe2, align: align2 } => tpe2 == tpe && align2 == align,
            _ => false,
        },
        CILNode::LdStaticField(f0) => match n {
            CILNode::LdStaticField(f02) => f02 == f0,
            _ => false,
        },
        CILNode::LdFtn(f0) => match n {
            CILNode::LdFtn(f02) => f02 == f0,
            _ => false,
        },
        CILNode::LdTypeToken(f0) => match n {
            CILNode::LdTypeToken(f02) => f02 == f0,
            _ => false,
        },
        CILNode::LdLen(f0) => match n {
            CILNode::LdLen(f02) => tmps_rel_node(*f0, *f02, cur, base),
            _ => false,
        },
        CILNode::LdElemRef { array, index } => match n {
            CILNode::LdElemRef { array: array2, index: index2 } => tmps_rel_node(*array, *array2, cur, base) && tmps_rel_node(*index, *index2, cur, base + node_tmp_count(*array)),
            _ => false,
        },
        CILNode::UnboxAny { object, tpe } => match n {
            CILNode::UnboxAny { object: object2, tpe: tpe2 } => tmps_rel_node(*object, *object2, cur, base) && tpe2 == tpe,
            _ => false,
        },
        CILNode::LoadTMPLocal => n == CILNode::LdLoc(spec_slot(cur)),
        CILNode::LoadAddresOfTMPLocal => n == CILNode::LdLocA(spec_slot(cur)),
        CILNode::TemporaryLocal(b) => match n {
            CILNode::SubTrees(b2) => {
                &&& crate::cil_root::tmps_rel_roots(
                    b.1@,
                    b2.0@,
                    Option::Some(base as u32),
                    base + 1,
                )
                &&& tmps_rel_node(
                    b.2,
                    b2.1,
                    Option::Some(base as u32),
                    base + 1 + crate::cil_root::vec_root_tmp_count(b.1@),
                )
            },
            _ => false,
        },
        CILNode::SubTrees(b) => match n {
            CILNode::SubTrees(b2) => {
                &&& crate::cil_root::tmps_rel_roots(b.0@, b2.0@, cur, base)
                &&& tmps_rel_node(b.1, b2.1, cur, base + crate::cil_root::vec_root_tmp_count(b.0@))
            },
            _ => false,
        },
    }
}

/// Elementwise materialization of a sequence of expressions, threading the
/// fresh-slot base through the elements in order.
pub open spec fn tmps_rel_vec(os: Seq<CILNode>, ns: Seq<CILNode>, cur: Option<u32>, base: int) -> bool
    decreases os,
{
    &&& os.len() == ns.len()
    &&& os.len() > 0 ==> tmps_rel_node(os[0], ns[0], cur, base) && tmps_rel_vec(
        os.drop_first(),
        ns.drop_first(),
        cur,
        base + node_tmp_count(os[0]),
    )
}

/// Appending a related pair extends an elementwise relation.
pub proof fn lemma_tmps_rel_vec_push(
    os: Seq<CILNode>,
    ns: Seq<CILNode>,
    cur: Option<u32>,
    base: int,
    o: CILNode,
    n: CILNode,
)
    requires
        tmps_rel_vec(os, ns, cur, base),
        tmps_rel_node(o, n, cur, base + vec_node_tmp_count(os)),
    ensures
        tmps_rel_vec(os.push(o), ns.push(n), cur, base),
    decreases os,
{
    if os.len() == 0 {
        assert(os.push(o)[0] == o);
        assert(ns.push(n)[0] == n);
        assert(os.push(o).drop_first() =~= Seq::<CILNode>::empty());
        assert(ns.push(n).drop_first() =~= Seq::<CILNode>::empty());
        assert(tmps_rel_vec(
            Seq::<CILNode>::empty(),
            Seq::<CILNode>::empty(),
            cur,
            base + node_tmp_count(o),
        ));
    } else {
        assert(os.push(o)[0] == os[0]);
        assert(ns.push(n)[0] == ns[0]);
        assert(os.push(o).drop_first() =~= os.drop_first().push(o));
        assert(ns.push(n).drop_first() =~= ns.drop_first().push(n));
        lemma_tmps_rel_vec_push(
            os.drop_first(),
            ns.drop_first(),
            cur,
            base + node_tmp_count(os[0]),
            o,
            n,
        );
        assert(tmps_rel_vec(os, ns, cur, base));
    }
}

/// The slot count of a sequence with one more element.
pub proof fn lemma_vec_node_tmp_count_push(s: Seq<CILNode>, x: CILNode)
    ensures
        vec_node_tmp_count(s.push(x)) == vec_node_tmp_count(s) + node_tmp_count(x),
    decreases s,
{
    if s.len() == 0 {
        assert(s.push(x)[0] == x);
        assert(s.push(x).drop_first() =~= Seq::<CILNode>::empty());
        assert(vec_node_tmp_count(Seq::<CILNode>::empty()) == 0);
    } else {
        assert(s.push(x)[0] == s[0]);
        assert(s.push(x).drop_first() =~= s.drop_first().push(x));
        lemma_vec_node_tmp_count_push(s.drop_first(), x);
        assert(vec_node_tmp_count(s) == node_tmp_count(s[0]) + vec_node_tmp_count(s.drop_first()));
    }
}

/// Materializes the temporaries of every expression of a vector, in order.
#[verifier::loop_isolation(false)]
pub fn tmps_vec(
    args: Vec<CILNode>,
    curr_loc: Option<u32>,
    locals: &mut Vec<(Option<IString>, Type)>,
) -> (r: Vec<CILNode>)
    requires
        curr_loc is None ==> forall|j: int|
            0 <= j < args@.len() ==> !node_has_free_marker(#[trigger] args@[j]),
        old(locals)@.len() + vec_node_tmp_count(args@) <= u32::MAX,
    ensures
        final(locals)@.len() == old(locals)@.len() + vec_node_tmp_count(args@),
        old(locals)@.is_prefix_of(final(locals)@),
        tmps_rel_vec(args@, r@, curr_loc, old(locals)@.len() as int),
        forall|j: int| 0 <= j < r@.len() ==> node_no_markers(#[trigger] r@[j]),
    decreases args,
{
    let ghost orig = args;
    let ghost base = old(locals)@.len() as int;
    let mut args = args;
    let mut out: Vec<CILNode> = Vec::new();
    let mut i: usize = 0;
    let n = args.len();
    while i < n
        invariant
            n == orig@.len(),
            i <= n,
            args@ =~= orig@.skip(i as int),
            out@.len() == i,
            locals@.len() == base + vec_node_tmp_count(orig@.take(i as int)),
            base + vec_node_tmp_count(orig@) <= u32::MAX,
            old(locals)@.is_prefix_of(locals@),
            tmps_rel_vec(orig@.take(i as int), out@, curr_loc, base),
            curr_loc is None ==> forall|j: int|
                0 <= j < orig@.len() ==> !node_has_free_marker(#[trigger] orig@[j]),
            forall|j: int| 0 <= j < out@.len() ==> node_no_markers(#[trigger] out@[j]),
        decreases n - i,
    {
        proof {
            lemma_vec_node_tmp_count_split(orig@, i as int);
            assert(orig@.skip(i as int)[0] == orig@[i as int]);
            assert(decreases_to!(orig => orig[i as int]));
        }
        let a = args.remove(0);
        let ghost l0 = locals@;
        let an = a.allocate_tmps(curr_loc, locals);
        proof {
            lemma_vec_node_tmp_count_push(orig@.take(i as int), orig@[i as int]);
            assert(orig@.take(i as int).push(orig@[i as int]) =~= orig@.take(i + 1));
            lemma_tmps_rel_vec_push(orig@.take(i as int), out@, curr_loc, base, orig@[i as int], an);
            assert(old(locals)@.is_prefix_of(locals@)) by {
                assert(l0.subrange(0, old(locals)@.len() as int) =~= old(locals)@);
                assert(locals@.subrange(0, old(locals)@.len() as int) =~= old(
                    locals,
                )@.subrange(0, old(locals)@.len() as int));
            }
            assert(args@ =~= orig@.skip(i + 1));
        }
        out.push(an);
        i += 1;
    }
    proof {
        assert(orig@.take(n as int) =~= orig@);
    }
    out
}

/// The slot count of a sequence splits at any index.
pub proof fn lemma_vec_node_tmp_count_split(s: Seq<CILNode>, i: int)
    requires
        0 <= i < s.len(),
    ensures
        vec_node_tmp_count(s) == vec_node_tmp_count(s.take(i)) + node_tmp_count(s[i])
            + vec_node_tmp_count(s.skip(i + 1)),
        vec_node_tmp_count(s.skip(i)) == node_tmp_count(s[i]) + vec_node_tmp_count(s.skip(i + 1)),
    decreases i,
{
    if i == 0 {
        assert(s.take(0) =~= Seq::<CILNode>::empty());
        assert(s.skip(0) =~= s);
        assert(s.drop_first() =~= s.skip(1));
    } else {
        assert(s.skip(i - 1).drop_first() =~= s.skip(i));
        lemma_vec_node_tmp_count_split(s, i - 1);
        assert(s.take(i) =~= s.take(i - 1).push(s[i - 1]));
        lemma_vec_node_tmp_count_push(s.take(i - 1), s[i - 1]);
        assert(s.drop_first() =~= s.skip(1));
        lemma_skip_count(s, i);
    }
}

/// The slot count of a suffix decomposes one element at a time.
pub proof fn lemma_skip_count(s: Seq<CILNode>, i: int)
    requires
        0 <= i < s.len(),
    ensures
        vec_node_tmp_count(s.skip(i)) == node_tmp_count(s[i]) + vec_node_tmp_count(s.skip(i + 1)),
{
    assert(s.skip(i)[0] == s[i]);
    assert(s.skip(i).drop_first() =~= s.skip(i + 1));
}

impl CILNode {
    /// Temporary materialization: rewrites every "materialize temporary"
    /// marker into a direct access of the slot supplied by the enclosing
    /// context, and turns each temporary-introducing node into the plain
    /// multi-tree construct over a freshly allocated local slot. A free
    /// marker with no supplied slot is a contract failure, ruled out by the
    /// precondition; afterwards no marker remains anywhere in the tree.
    pub fn allocate_tmps(
        self,
        curr_loc: Option<u32>,
        locals: &mut Vec<(Option<IString>, Type)>,
    ) -> (r: Self)
        requires
            curr_loc is None ==> !node_has_free_marker(self),
            old(locals)@.len() + node_tmp_count(self) <= u32::MAX,
        ensures
            final(locals)@.len() == old(locals)@.len() + node_tmp_count(self),
            old(locals)@.is_prefix_of(final(locals)@),
            tmps_rel_node(self, r, curr_loc, old(locals)@.len() as int),
            node_no_markers(r),
        decreases self,
    {
        match self {
            CILNode::LdLoc(f0) => {

                CILNode::LdLoc(f0)
            },
            CILNode::LdLocA(f0) => {

                CILNode::LdLocA(f0)
            },
            CILNode::LdArg(f0) => {

                CILNode::LdArg(f0)
            },
            CILNode::LdArgA(f0) => {

                CILNode::LdArgA(f0)
            },
            CILNode::Ldc(f0) => {

                CILNode::Ldc(f0)
            },
            CILNode::LdStr(f0) => {

                CILNode::LdStr(f0)
            },
            CILNode::BinOp(f0, f1, f2) => {
                let f0n = Box::new(f0.allocate_tmps(curr_loc, locals));
                let f1n = Box::new(f1.allocate_tmps(curr_loc, locals));
                CILNode::BinOp(f0n, f1n, f2)
            },
            CILNode::UnOp(f0, f1) => {
                let f0n = Box::new(f0.allocate_tmps(curr_loc, locals));
                CILNode::UnOp(f0n, f1)
            },
            CILNode::IntCast { input, target, extend } => {
                let inputn = Box::new(input.allocate_tmps(curr_loc, locals));
                CILNode::IntCast { input: inputn, target: target, extend: extend }
            },
            CILNode::FloatCast { input, target, is_signed } => {
                let inputn = Box::new(input.allocate_tmps(curr_loc, locals));
                CILNode::FloatCast { input: inputn, target: target, is_signed: is_signed }
            },
            CILNode::RefToPtr(f0) => {
                let f0n = Box::new(f0.allocate_tmps(curr_loc, locals));
                CILNode::RefToPtr(f0n)
            },
            CILNode::CastPtr { val, new_ptr } => {
                let valn = Box::new(val.allocate_tmps(curr_loc, locals));
                CILNode::CastPtr { val: valn, new_ptr: new_ptr }
            },
            CILNode::LdFieldAddress { addr, field } => {
                let addrn = Box::new(addr.allocate_tmps(curr_loc, locals));
                CILNode::LdFieldAddress { addr: addrn, field: field }
            },
            CILNode::LdField { addr, field } => {
                let addrn = Box::new(addr.allocate_tmps(curr_loc, locals));
                CILNode::LdField { addr: addrn, field: field }
            },
            CILNode::LdInd { ptr, tpe, is_volatile } => {
                let ptrn = Box::new(ptr.allocate_tmps(curr_loc, locals));
                CILNode::LdInd { ptr: ptrn, tpe: tpe, is_volatile: is_volatile }
            },
            CILNode::SizeOf(f0) => {

                CILNode::SizeOf(f0)
            },
            CILNode::GetException => CILNode::GetException,
            CILNode::IsInst { val, tpe } => {
                let valn = Box::new(val.allocate_tmps(curr_loc, locals));
                CILNode::IsInst { val: valn, tpe: tpe }
            },
            CILNode::CheckedCast { val, tpe } => {
                let valn = Box::new(val.allocate_tmps(curr_loc, locals));
                CILNode::CheckedCast { val: valn, tpe: tpe }
            },
            CILNode::Call { site, args } => {
                let argsn = tmps_vec(args, curr_loc, locals);
                CILNode::Call { site: site, args: argsn }
            },
            CILNode::CallVirt { site, args } => {
                let argsn = tmps_vec(args, curr_loc, locals);
                CILNode::CallVirt { site: site, args: argsn }
            },
            CILNode::NewObj { site, args } => {
                let argsn = tmps_vec(args, curr_loc, locals);
                CILNode::NewObj { site: site, args: argsn }
            },
            CILNode::CallI { sig, fn_ptr, args } => {
                let fn_ptrn = Box::new(fn_ptr.allocate_tmps(curr_loc, locals));
                let argsn = tmps_vec(args, curr_loc, locals);
                CILNode::CallI { sig: sig, fn_ptr: fn_ptrn, args: argsn }
            },
            CILNode::LocAlloc { size } => {
                let sizen = Box::new(size.allocate_tmps(curr_loc, locals));
                CILNode::LocAlloc { size: sizen }
            },
            CILNode::LocAllocAligned { tpe, align } => {

                CILNode::LocAllocAligned { tpe: tpe, align: align }
            },
            CILNode::LdStaticField(f0) => {

                CILNode::LdStaticField(f0)
            },
            CILNode::LdFtn(f0) => {

                CILNode::LdFtn(f0)
            },
            CILNode::LdTypeToken(f0) => {

                CILNode::LdTypeToken(f0)
            },
            CILNode::LdLen(f0) => {
                let f0n = Box::new(f0.allocate_tmps(curr_loc, locals));
                CILNode::LdLen(f0n)
            },
            CILNode::LdElemRef { array, index } => {
                let arrayn = Box::new(array.allocate_tmps(curr_loc, locals));
                let indexn = Box::new(index.allocate_tmps(curr_loc, locals));
                CILNode::LdElemRef { array: arrayn, index: indexn }
            },
            CILNode::UnboxAny { object, tpe } => {
                let objectn = Box::new(object.allocate_tmps(curr_loc, locals));
                CILNode::UnboxAny { object: objectn, tpe: tpe }
            },
            CILNode::LoadTMPLocal => {
                proof {
                    lemma_prefix_refl_locals(locals@);
                }
                let c = match curr_loc {
                    Option::Some(c) => c,
                    Option::None => {
                        proof {
                            assert(false);
                        }
                        0
                    },
                };
                CILNode::LdLoc(c)
            },
            CILNode::LoadAddresOfTMPLocal => {
                proof {
                    lemma_prefix_refl_locals(locals@);
                }
                let c = match curr_loc {
                    Option::Some(c) => c,
                    Option::None => {
                        proof {
                            assert(false);
                        }
                        0
                    },
                };
                CILNode::LdLocA(c)
            },
            CILNode::TemporaryLocal(b) => {
                let (tpe, ts, main) = *b;
                let slot_usize = locals.len();
                let slot = slot_usize as u32;
                locals.push((Option::None, tpe));
                let ghost l1 = locals@;
                let tsn = crate::cil_root::tmps_roots_vec(ts, Option::Some(slot), locals);
                let ghost l2 = locals@;
                let mainn = main.allocate_tmps(Option::Some(slot), locals);
                proof {
                    assert(old(locals)@.is_prefix_of(locals@)) by {
                        assert(l1.subrange(0, old(locals)@.len() as int) =~= old(locals)@);
                        assert(l2.subrange(0, old(locals)@.len() as int) =~= old(locals)@);
                        assert(locals@.subrange(0, old(locals)@.len() as int) =~= old(locals)@);
                    }
                }
                CILNode::SubTrees(Box::new((tsn, mainn)))
            },
            CILNode::SubTrees(b) => {
                let (ts, main) = *b;
                let tsn = crate::cil_root::tmps_roots_vec(ts, curr_loc, locals);
                let ghost l1 = locals@;
                let mainn = main.allocate_tmps(curr_loc, locals);
                proof {
                    assert(old(locals)@.is_prefix_of(locals@)) by {
                        assert(l1.subrange(0, old(locals)@.len() as int) =~= old(locals)@);
                        assert(locals@.subrange(0, old(locals)@.len() as int) =~= old(locals)@);
                    }
                }
                CILNode::SubTrees(Box::new((tsn, mainn)))
            },
        }
    }
}

/// A sequence is a prefix of itself.
pub proof fn lemma_prefix_refl_locals(s: Seq<(Option<IString>, Type)>)
    ensures
        s.is_prefix_of(s),
{
    assert(s.subrange(0, s.len() as int) =~= s);
}


/// How many side-effect trees splitting this expression extracts.
pub open spec fn node_side_count(n: CILNode) -> nat
    decreases n,
{
    match n {
        CILNode::LdLoc(f0) => 0,
        CILNode::LdLocA(f0) => 0,
        CILNode::LdArg(f0) => 0,
        CILNode::LdArgA(f0) => 0,
        CILNode::Ldc(f0) => 0,
        CILNode::LdStr(f0) => 0,
        CILNode::BinOp(f0, f1, f2) => node_side_count(*f0) + node_side_count(*f1),
        CILNode::UnOp(f0, f1) => node_side_count(*f0),
        CILNode::IntCast { input, target, extend } => node_side_count(*input),
        CILNode::FloatCast { input, target, is_signed } => node_side_count(*input),
        CILNode::RefToPtr(f0) => node_side_count(*f0),
        CILNode::CastPtr { val, new_ptr } => node_side_count(*val),
        CILNode::LdFieldAddress { addr, field } => node_side_count(*addr),
        CILNode::LdField { addr, field } => node_side_count(*addr),
        CILNode::LdInd { ptr, tpe, is_volatile } => node_side_count(*ptr),
        CILNode::SizeOf(f0) => 0,
        CILNode::GetException => 0,
        CILNode::IsInst { val, tpe } => node_side_count(*val),
        CILNode::CheckedCast { val, tpe } => node_side_count(*val),
        CILNode::Call { site, args } => vec_node_side_count(args@),
        CILNode::CallVirt { site, args } => vec_node_side_count(args@),
        CILNode::NewObj { site, args } => vec_node_side_count(args@),
        CILNode::CallI { sig, fn_ptr, args } => node_side_count(*fn_ptr) + vec_node_side_count(args@),
        CILNode::LocAlloc { size } => node_side_count(*size),
        CILNode::LocAllocAligned { tpe, align } => 0,
        CILNode::LdStaticField(f0) => 0,
        CILNode::LdFtn(f0) => 0,
        CILNode::LdTypeToken(f0) => 0,
        CILNode::LdLen(f0) => node_side_count(*f0),
        CILNode::LdElemRef { array, index } => node_side_count(*array) + node_side_count(*index),
        CILNode::UnboxAny { object, tpe } => node_side_count(*object),
        CILNode::LoadTMPLocal => 0,
        CILNode::LoadAddresOfTMPLocal => 0,
        CILNode::TemporaryLocal(_) => 0,
        CILNode::SubTrees(b) => crate::cil_root::roots_sides_count(b.0@) + node_side_count(b.1),
    }
}

/// Total side-effect trees extracted from a sequence of expressions.
pub open spec fn vec_node_side_count(s: Seq<CILNode>) -> nat
    decreases s,
{
    if s.len() == 0 {
        0
    } else {
        node_side_count(s[0]) + vec_node_side_count(s.drop_first())
    }
}

/// The sum of extracted trees grows by one element's count when pushing.
pub proof fn lemma_vec_node_side_count_push(s: Seq<CILNode>, x: CILNode)
    ensures
        vec_node_side_count(s.push(x)) == vec_node_side_count(s) + node_side_count(x),
    decreases s,
{
    if s.len() == 0 {
        assert(s.push(x)[0] == x);
        assert(s.push(x).drop_first() =~= Seq::<CILNode>::empty());
        assert(vec_node_side_count(Seq::<CILNode>::empty()) == 0);
    } else {
        assert(s.push(x)[0] == s[0]);
        assert(s.push(x).drop_first() =~= s.drop_first().push(x));
        lemma_vec_node_side_count_push(s.drop_first(), x);
        assert(vec_node_side_count(s) == node_side_count(s[0]) + vec_node_side_count(
            s.drop_first(),
        ));
    }
}

/// Is `n` the expression `o` with every embedded multi-tree construct
/// replaced by its main value only?
pub open spec fn strip_rel_node(o: CILNode, n: CILNode) -> bool
    decreases o,
{
    match o {
        CILNode::LdLoc(f0) => match n {
            CILNode::LdLoc(f02) => f02 == f0,
            _ => false,
        },
        CILNode::LdLocA(f0) => match n {
            CILNode::LdLocA(f02) => f02 == f0,
            _ => false,
        },
        CILNode::LdArg(f0) => match n {
            CILNode::LdArg(f02) => f02 == f0,
            _ => false,
        },
        CILNode::LdArgA(f0) => match n {
            CILNode::LdArgA(f02) => f02 == f0,
            _ => false,
        },
        CILNode::Ldc(f0) => match n {
            CILNode::Ldc(f02) => f02 == f0,
            _ => false,
        },
        CILNode::LdStr(f0) => match n {
            CILNode::LdStr(f02) => f02 == f0,
            _ => false,
        },
        CILNode::BinOp(f0, f1, f2) => match n {
            CILNode::BinOp(f02, f12, f22) => strip_rel_node(*f0, *f02) && strip_rel_node(*f1, *f12) && f22 == f2,
            _ => false,
        },
        CILNode::UnOp(f0, f1) => match n {
            CILNode::UnOp(f02, f12) => strip_rel_node(*f0, *f02) && f12 == f1,
            _ => false,
        },
        CILNode::IntCast { input, target, extend } => match n {
            CILNode::IntCast { input: input2, target: target2, extend: extend2 } => strip_rel_node(*input, *input2) && target2 == target && extend2 == extend,
            _ => false,
        },
        CILNode::FloatCast { input, target, is_signed } => match n {
            CILNode::FloatCast { input: input2, target: target2, is_signed: is_signed2 } => strip_rel_node(*input, *input2) && target2 == target && is_signed2 == is_signed,
            _ => false,
        },
        CILNode::RefToPtr(f0) => match n {
            CILNode::RefToPtr(f02) => strip_rel_node(*f0, *f02),
            _ => false,
        },
        CILNode::CastPtr { val, new_ptr } => match n {
            CILNode::CastPtr { val: val2, new_ptr: new_ptr2 } => strip_rel_node(*val, *val2) && new_ptr2 == new_ptr,
            _ => false,
        },
        CILNode::LdFieldAddress { addr, field } => match n {
            CILNode::LdFieldAddress { addr: addr2, field: field2 } => strip_rel_node(*addr, *addr2) && field2 == field,
            _ => false,
        },
        CILNode::LdField { addr, field } => match n {
            CILNode::LdField { addr: addr2, field: field2 } => strip_rel_node(*addr, *addr2) && field2 == field,
            _ => false,
        },
        CILNode::LdInd { ptr, tpe, is_volatile } => match n {
            CILNode::LdInd { ptr: ptr2, tpe: tpe2, is_volatile: is_volatile2 } => strip_rel_node(*ptr, *ptr2) && tpe2 == tpe && is_volatile2 == is_volatile,
            _ => false,
        },
        CILNode::SizeOf(f0) => match n {
            CILNode::SizeOf(f02) => f02 == f0,
            _ => false,
        },
        CILNode::GetException => match n {
            CILNode::GetException => true,
            _ => false,
        },
        CILNode::IsInst { val, tpe } => match n {
            CILNode::IsInst { val: val2, tpe: tpe2 } => strip_rel_node(*val, *val2) && tpe2 == tpe,
            _ => false,
        },
        CILNode::CheckedCast { val, tpe } => match n {
            CILNode::CheckedCast { val: val2, tpe: tpe2 } => strip_rel_node(*val, *val2) && tpe2 == tpe,
            _ => false,
        },
        CILNode::Call { site, args } => match n {
            CILNode::Call { site: site2, args: args2 } => site2 == site && strip_rel_vec(args@, args2@),
            _ => false,
        },
        CILNode::CallVirt { site, args } => match n {
            CILNode::CallVirt { site: site2, args: args2 } => site2 == site && strip_rel_vec(args@, args2@),
            _ => false,
        },
        CILNode::NewObj { site, args } => match n {
            CILNode::NewObj { site: site2, args: args2 } => site2 == site && strip_rel_vec(args@, args2@),
            _ => false,
        },
        CILNode::CallI { sig, fn_ptr, args } => match n {
            CILNode::CallI { sig: sig2, fn_ptr: fn_ptr2, args: args2 } => sig2 == sig && strip_rel_node(*fn_ptr, *fn_ptr2) && strip_rel_vec(args@, args2@),
            _ => false,
        },
        CILNode::LocAlloc { size } => match n {
            CILNode::LocAlloc { size: size2 } => strip_rel_node(*size, *size2),
            _ => false,
        },
        CILNode::LocAllocAligned { tpe, align } => match n {
            CILNode::LocAllocAligned { tpe: tpe2, align: align2 } => tpe2 == tpe && align2 == align,
            _ => false,
        },
        CILNode::LdStaticField(f0) => match n {
            CILNode::LdStaticField(f02) => f02 == f0,
            _ => false,
        },
        CILNode::LdFtn(f0) => match n {
            CILNode::LdFtn(f02) => f02 == f0,
            _ => false,
        },
        CILNode::LdTypeToken(f0) => match n {
            CILNode::LdTypeToken(f02) => f02 == f0,
            _ => false,
        },
        CILNode::LdLen(f0) => match n {
            CILNode::LdLen(f02) => strip_rel_node(*f0, *f02),
            _ => false,
        },
        CILNode::LdElemRef { array, index } => match n {
            CILNode::LdElemRef { array: array2, index: index2 } => strip_rel_node(*array, *array2) && strip_rel_node(*index, *index2),
            _ => false,
        },
        CILNode::UnboxAny { object, tpe } => match n {
            CILNode::UnboxAny { object: object2, tpe: tpe2 } => strip_rel_node(*object, *object2) && tpe2 == tpe,
            _ => false,
        },
        CILNode::LoadTMPLocal => false,
        CILNode::LoadAddresOfTMPLocal => false,
        CILNode::TemporaryLocal(_) => false,
        CILNode::SubTrees(b) => strip_rel_node(b.1, n),
    }
}

/// Elementwise stripping of a sequence of expressions.
pub open spec fn strip_rel_vec(os: Seq<CILNode>, ns: Seq<CILNode>) -> bool
    decreases os,
{
    &&& os.len() == ns.len()
    &&& forall|j: int| 0 <= j < os.len() ==> strip_rel_node(#[trigger] os[j], ns[j])
}

/// Splits every expression of a vector, appending the extracted trees to
/// `out` in order.
#[verifier::loop_isolation(false)]
pub fn sheed_vec(args: Vec<CILNode>, out: &mut Vec<crate::cil_root::CILRoot>) -> (r: Vec<CILNode>)
    requires
        forall|j: int| 0 <= j < args@.len() ==> node_no_markers(#[trigger] args@[j]),
        forall|j: int|
            0 <= j < old(out)@.len() ==> crate::cil_root::root_no_subtrees(#[trigger] old(out)@[j])
                && crate::cil_root::root_no_markers(old(out)@[j]),
    ensures
        final(out)@.len() == old(out)@.len() + vec_node_side_count(args@),
        old(out)@.is_prefix_of(final(out)@),
        forall|j: int|
            0 <= j < final(out)@.len() ==> crate::cil_root::root_no_subtrees(
                #[trigger] final(out)@[j],
            ) && crate::cil_root::root_no_markers(final(out)@[j]),
        strip_rel_vec(args@, r@),
        sides_rel_vec(args@, final(out)@, old(out)@.len() as int),
        forall|j: int|
            0 <= j < r@.len() ==> node_no_subtrees(#[trigger] r@[j]) && node_no_markers(r@[j]),
    decreases args,
{
    let ghost orig = args;
    let ghost base = old(out)@.len() as int;
    let mut args = args;
    let mut res: Vec<CILNode> = Vec::new();
    let mut i: usize = 0;
    let n = args.len();
    while i < n
        invariant
            n == orig@.len(),
            i <= n,
            args@ =~= orig@.skip(i as int),
            res@.len() == i,
            out@.len() == base + vec_node_side_count(orig@.take(i as int)),
            old(out)@.is_prefix_of(out@),
            forall|j: int|
                0 <= j < out@.len() ==> crate::cil_root::root_no_subtrees(#[trigger] out@[j])
                    && crate::cil_root::root_no_markers(out@[j]),
            forall|j: int| 0 <= j < i ==> strip_rel_node(#[trigger] orig@[j], res@[j]),
            sides_rel_vec(orig@.take(i as int), out@, base),
            forall|j: int|
                0 <= j < res@.len() ==> node_no_subtrees(#[trigger] res@[j]) && node_no_markers(
                    res@[j],
                ),
        decreases n - i,
    {
        proof {
            assert(orig@.skip(i as int)[0] == orig@[i as int]);
            assert(decreases_to!(orig => orig[i as int]));
        }
        let a = args.remove(0);
        let ghost ga = orig@[i as int];
        let ghost o_pre = out@;
        let an = a.sheed_node(out);
        proof {
            lemma_vec_node_side_count_push(orig@.take(i as int), orig@[i as int]);
            assert(orig@.take(i as int).push(orig@[i as int]) =~= orig@.take(i + 1));
            assert(old(out)@.is_prefix_of(out@)) by {
                assert(out@.subrange(0, old(out)@.len() as int) =~= old(out)@);
            }
            lemma_sides_rel_vec_prefix(orig@.take(i as int), o_pre, out@, base);
            lemma_sides_rel_vec_push(orig@.take(i as int), out@, base, ga);
            assert(args@ =~= orig@.skip(i + 1));
        }
        res.push(an);
        i += 1;
    }
    proof {
        assert(orig@.take(n as int) =~= orig@);
    }
    res
}

impl CILNode {
    /// Splits this expression: extracted side-effect trees are appended to
    /// `out` (each itself fully split), and the result is this expression
    /// with every multi-tree construct replaced by its main value.
    pub fn sheed_node(self, out: &mut Vec<crate::cil_root::CILRoot>) -> (r: Self)
        requires
            node_no_markers(self),
            forall|j: int|
                0 <= j < old(out)@.len() ==> crate::cil_root::root_no_subtrees(
                    #[trigger] old(out)@[j],
                ) && crate::cil_root::root_no_markers(old(out)@[j]),
        ensures
            final(out)@.len() == old(out)@.len() + node_side_count(self),
            old(out)@.is_prefix_of(final(out)@),
            forall|j: int|
                0 <= j < final(out)@.len() ==> crate::cil_root::root_no_subtrees(
                    #[trigger] final(out)@[j],
                ) && crate::cil_root::root_no_markers(final(out)@[j]),
            strip_rel_node(self, r),
            sides_rel_node(self, final(out)@, old(out)@.len() as int),
            node_no_subtrees(r),
            node_no_markers(r),
        decreases self,
    {
        match self {
            CILNode::LdLoc(f0) => {

                CILNode::LdLoc(f0)
            },
            CILNode::LdLocA(f0) => {

                CILNode::LdLocA(f0)
            },
            CILNode::LdArg(f0) => {

                CILNode::LdArg(f0)
            },
            CILNode::LdArgA(f0) => {

                CILNode::LdArgA(f0)
            },
            CILNode::Ldc(f0) => {

                CILNode::Ldc(f0)
            },
            CILNode::LdStr(f0) => {

                CILNode::LdStr(f0)
            },
            CILNode::BinOp(f0, f1, f2) => {
                let ghost g_f0 = *f0;
                let ghost s_f0 = out@;
                let f0n = Box::new(f0.sheed_node(out));
                let ghost g_f1 = *f1;
                let ghost s_f1 = out@;
                let f1n = Box::new(f1.sheed_node(out));
                proof {
                    lemma_sides_rel_node_prefix(g_f0, s_f1, out@, s_f0.len() as int);
                }
                CILNode::BinOp(f0n, f1n, f2)
            },
            CILNode::UnOp(f0, f1) => {
                let f0n = Box::new(f0.sheed_node(out));
                CILNode::UnOp(f0n, f1)
            },
            CILNode::IntCast { input, target, extend } => {
                let inputn = Box::new(input.sheed_node(out));
                CILNode::IntCast { input: inputn, target: target, extend: extend }
            },
            CILNode::FloatCast { input, target, is_signed } => {
                let inputn = Box::new(input.sheed_node(out));
                CILNode::FloatCast { input: inputn, target: target, is_signed: is_signed }
            },
            CILNode::RefToPtr(f0) => {
                let f0n = Box::new(f0.sheed_node(out));
                CILNode::RefToPtr(f0n)
            },
            CILNode::CastPtr { val, new_ptr } => {
                let valn = Box::new(val.sheed_node(out));
                CILNode::CastPtr { val: valn, new_ptr: new_ptr }
            },
            CILNode::LdFieldAddress { addr, field } => {
                let addrn = Box::new(addr.sheed_node(out));
                CILNode::LdFieldAddress { addr: addrn, field: field }
            },
            CILNode::LdField { addr, field } => {
                let addrn = Box::new(addr.sheed_node(out));
                CILNode::LdField { addr: addrn, field: field }
            },
            CILNode::LdInd { ptr, tpe, is_volatile } => {
                let ptrn = Box::new(ptr.sheed_node(out));
                CILNode::LdInd { ptr: ptrn, tpe: tpe, is_volatile: is_volatile }
            },
            CILNode::SizeOf(f0) => {

                CILNode::SizeOf(f0)
            },
            CILNode::GetException => CILNode::GetException,
            CILNode::IsInst { val, tpe } => {
                let valn = Box::new(val.sheed_node(out));
                CILNode::IsInst { val: valn, tpe: tpe }
            },
            CILNode::CheckedCast { val, tpe } => {
                let valn = Box::new(val.sheed_node(out));
                CILNode::CheckedCast { val: valn, tpe: tpe }
            },
            CILNode::Call { site, args } => {
                let argsn = sheed_vec(args, out);
                CILNode::Call { site: site, args: argsn }
            },
            CILNode::CallVirt { site, args } => {
                let argsn = sheed_vec(args, out);
                CILNode::CallVirt { site: site, args: argsn }
            },
            CILNode::NewObj { site, args } => {
                let argsn = sheed_vec(args, out);
                CILNode::NewObj { site: site, args: argsn }
            },
            CILNode::CallI { sig, fn_ptr, args } => {
                let ghost g_fn_ptr = *fn_ptr;
                let ghost s_fn_ptr = out@;
                let fn_ptrn = Box::new(fn_ptr.sheed_node(out));
                let ghost g_args = args@;
                let ghost s_args = out@;
                let argsn = sheed_vec(args, out);
                proof {
                    lemma_sides_rel_node_prefix(g_fn_ptr, s_args, out@, s_fn_ptr.len() as int);
                }
                CILNode::CallI { sig: sig, fn_ptr: fn_ptrn, args: argsn }
            },
            CILNode::LocAlloc { size } => {
                let sizen = Box::new(size.sheed_node(out));
                CILNode::LocAlloc { size: sizen }
            },
            CILNode::LocAllocAligned { tpe, align } => {

                CILNode::LocAllocAligned { tpe: tpe, align: align }
            },
            CILNode::LdStaticField(f0) => {

                CILNode::LdStaticField(f0)
            },
            CILNode::LdFtn(f0) => {

                CILNode::LdFtn(f0)
            },
            CILNode::LdTypeToken(f0) => {

                CILNode::LdTypeToken(f0)
            },
            CILNode::LdLen(f0) => {
                let f0n = Box::new(f0.sheed_node(out));
                CILNode::LdLen(f0n)
            },
            CILNode::LdElemRef { array, index } => {
                let ghost g_array = *array;
                let ghost s_array = out@;
                let arrayn = Box::new(array.sheed_node(out));
                let ghost g_index = *index;
                let ghost s_index = out@;
                let indexn = Box::new(index.sheed_node(out));
                proof {
                    lemma_sides_rel_node_prefix(g_array, s_index, out@, s_array.len() as int);
                }
                CILNode::LdElemRef { array: arrayn, index: indexn }
            },
            CILNode::UnboxAny { object, tpe } => {
                let objectn = Box::new(object.sheed_node(out));
                CILNode::UnboxAny { object: objectn, tpe: tpe }
            },
            CILNode::SubTrees(b) => {
                let (ts, main) = *b;
                let ghost gts = ts@;
                let ghost s0 = out@;
                crate::cil_root::sheed_roots_into(ts, out);
                let ghost s1 = out@;
                let mainn = main.sheed_node(out);
                proof {
                    assert(old(out)@.is_prefix_of(out@)) by {
                        assert(out@.subrange(0, old(out)@.len() as int) =~= old(out)@);
                    }
                    crate::cil_root::lemma_sides_rel_roots_prefix(gts, s1, out@, s0.len() as int);
                }
                mainn
            },
            CILNode::LoadTMPLocal => {
                proof {
                    assert(false);
                }
                CILNode::GetException
            },
            CILNode::LoadAddresOfTMPLocal => {
                proof {
                    assert(false);
                }
                CILNode::GetException
            },
            CILNode::TemporaryLocal(_) => {
                proof {
                    assert(false);
                }
                CILNode::GetException
            },
        }
    }
}


/// Are the entries of `out` from `base` on exactly the side-effect trees
/// that splitting this expression extracts, in traversal order? Each
/// multi-tree construct contributes, for each alternative subtree, that
/// subtree's own extracted trees followed by its stripped form, and then
/// whatever the main value contributes.
pub open spec fn sides_rel_node(o: CILNode, out: Seq<crate::cil_root::CILRoot>, base: int) -> bool
    decreases o,
{
    match o {
        CILNode::LdLoc(f0) => true,
        CILNode::LdLocA(f0) => true,
        CILNode::LdArg(f0) => true,
        CILNode::LdArgA(f0) => true,
        CILNode::Ldc(f0) => true,
        CILNode::LdStr(f0) => true,
        CILNode::BinOp(f0, f1, f2) => sides_rel_node(*f0, out, base) && sides_rel_node(*f1, out, base + node_side_count(*f0)),
        CILNode::UnOp(f0, f1) => sides_rel_node(*f0, out, base),
        CILNode::IntCast { input, target, extend } => sides_rel_node(*input, out, base),
        CILNode::FloatCast { input, target, is_signed } => sides_rel_node(*input, out, base),
        CILNode::RefToPtr(f0) => sides_rel_node(*f0, out, base),
        CILNode::CastPtr { val, new_ptr } => sides_rel_node(*val, out, base),
        CILNode::LdFieldAddress { addr, field } => sides_rel_node(*addr, out, base),
        CILNode::LdField { addr, field } => sides_rel_node(*addr, out, base),
        CILNode::LdInd { ptr, tpe, is_volatile } => sides_rel_node(*ptr, out, base),
        CILNode::SizeOf(f0) => true,
        CILNode::GetException => true,
        CILNode::IsInst { val, tpe } => sides_rel_node(*val, out, base),
        CILNode::CheckedCast { val, tpe } => sides_rel_node(*val, out, base),
        CILNode::Call { site, args } => sides_rel_vec(args@, out, base),
        CILNode::CallVirt { site, args } => sides_rel_vec(args@, out, base),
        CILNode::NewObj { site, args } => sides_rel_vec(args@, out, base),
        CILNode::CallI { sig, fn_ptr, args } => sides_rel_node(*fn_ptr, out, base) && sides_rel_vec(args@, out, base + node_side_count(*fn_ptr)),
        CILNode::LocAlloc { size } => sides_rel_node(*size, out, base),
        CILNode::LocAllocAligned { tpe, align } => true,
        CILNode::LdStaticField(f0) => true,
        CILNode::LdFtn(f0) => true,
        CILNode::LdTypeToken(f0) => true,
        CILNode::LdLen(f0) => sides_rel_node(*f0, out, base),
        CILNode::LdElemRef { array, index } => sides_rel_node(*array, out, base) && sides_rel_node(*index, out, base + node_side_count(*array)),
        CILNode::UnboxAny { object, tpe } => sides_rel_node(*object, out, base),
        CILNode::LoadTMPLocal => false,
        CILNode::LoadAddresOfTMPLocal => false,
        CILNode::TemporaryLocal(_) => false,
        CILNode::SubTrees(b) => crate::cil_root::sides_rel_roots(b.0@, out, base)
            && sides_rel_node(b.1, out, base + crate::cil_root::roots_sides_count(b.0@)),
    }
}

/// Elementwise extraction accounting for a sequence of expressions.
pub open spec fn sides_rel_vec(
    os: Seq<CILNode>,
    out: Seq<crate::cil_root::CILRoot>,
    base: int,
) -> bool
    decreases os,
{
    os.len() == 0 || (sides_rel_node(os[0], out, base) && sides_rel_vec(
        os.drop_first(),
        out,
        base + node_side_count(os[0]),
    ))
}

/// The extraction relation only reads entries below the original output
/// length, so it survives appending.
pub proof fn lemma_sides_rel_node_prefix(
    o: CILNode,
    out1: Seq<crate::cil_root::CILRoot>,
    out2: Seq<crate::cil_root::CILRoot>,
    base: int,
)
    requires
        sides_rel_node(o, out1, base),
        out1.is_prefix_of(out2),
    ensures
        sides_rel_node(o, out2, base),
    decreases o,
{
    match o {
        CILNode::LdLoc(f0) => {},
        CILNode::LdLocA(f0) => {},
        CILNode::LdArg(f0) => {},
        CILNode::LdArgA(f0) => {},
        CILNode::Ldc(f0) => {},
        CILNode::LdStr(f0) => {},
        CILNode::BinOp(f0, f1, f2) => {
            lemma_sides_rel_node_prefix(*f0, out1, out2, base);
            lemma_sides_rel_node_prefix(*f1, out1, out2, base + node_side_count(*f0));
        },
        CILNode::UnOp(f0, f1) => {
            lemma_sides_rel_node_prefix(*f0, out1, out2, base);
        },
        CILNode::IntCast { input, target, extend } => {
            lemma_sides_rel_node_prefix(*input, out1, out2, base);
        },
        CILNode::FloatCast { input, target, is_signed } => {
            lemma_sides_rel_node_prefix(*input, out1, out2, base);
        },
        CILNode::RefToPtr(f0) => {
            lemma_sides_rel_node_prefix(*f0, out1, out2, base);
        },
        CILNode::CastPtr { val, new_ptr } => {
            lemma_sides_rel_node_prefix(*val, out1, out2, base);
        },
        CILNode::LdFieldAddress { addr, field } => {
            lemma_sides_rel_node_prefix(*addr, out1, out2, base);
        },
        CILNode::LdField { addr, field } => {
            lemma_sides_rel_node_prefix(*addr, out1, out2, base);
        },
        CILNode::LdInd { ptr, tpe, is_volatile } => {
            lemma_sides_rel_node_prefix(*ptr, out1, out2, base);
        },
        CILNode::SizeOf(f0) => {},
        CILNode::GetException => {},
        CILNode::IsInst { val, tpe } => {
            lemma_sides_rel_node_prefix(*val, out1, out2, base);
        },
        CILNode::CheckedCast { val, tpe } => {
            lemma_sides_rel_node_prefix(*val, out1, out2, base);
        },
        CILNode::Call { site, args } => {
            lemma_sides_rel_vec_prefix(args@, out1, out2, base);
        },
        CILNode::CallVirt { site, args } => {
            lemma_sides_rel_vec_prefix(args@, out1, out2, base);
        },
        CILNode::NewObj { site, args } => {
            lemma_sides_rel_vec_prefix(args@, out1, out2, base);
        },
        CILNode::CallI { sig, fn_ptr, args } => {
            lemma_sides_rel_node_prefix(*fn_ptr, out1, out2, base);
            lemma_sides_rel_vec_prefix(args@, out1, out2, base + node_side_count(*fn_ptr));
        },
        CILNode::LocAlloc { size } => {
            lemma_sides_rel_node_prefix(*size, out1, out2, base);
        },
        CILNode::LocAllocAligned { tpe, align } => {},
        CILNode::LdStaticField(f0) => {},
        CILNode::LdFtn(f0) => {},
        CILNode::LdTypeToken(f0) => {},
        CILNode::LdLen(f0) => {
            lemma_sides_rel_node_prefix(*f0, out1, out2, base);
        },
        CILNode::LdElemRef { array, index } => {
            lemma_sides_rel_node_prefix(*array, out1, out2, base);
            lemma_sides_rel_node_prefix(*index, out1, out2, base + node_side_count(*array));
        },
        CILNode::UnboxAny { object, tpe } => {
            lemma_sides_rel_node_prefix(*object, out1, out2, base);
        },
        CILNode::LoadTMPLocal => {},
        CILNode::LoadAddresOfTMPLocal => {},
        CILNode::TemporaryLocal(_) => {},
        CILNode::SubTrees(b) => {
            crate::cil_root::lemma_sides_rel_roots_prefix(b.0@, out1, out2, base);
            lemma_sides_rel_node_prefix(
                b.1,
                out1,
                out2,
                base + crate::cil_root::roots_sides_count(b.0@),
            );
        },
    }
}

/// The elementwise extraction relation survives appending.
pub proof fn lemma_sides_rel_vec_prefix(
    os: Seq<CILNode>,
    out1: Seq<crate::cil_root::CILRoot>,
    out2: Seq<crate::cil_root::CILRoot>,
    base: int,
)
    requires
        sides_rel_vec(os, out1, base),
        out1.is_prefix_of(out2),
    ensures
        sides_rel_vec(os, out2, base),
    decreases os,
{
    if os.len() > 0 {
        lemma_sides_rel_node_prefix(os[0], out1, out2, base);
        lemma_sides_rel_vec_prefix(os.drop_first(), out1, out2, base + node_side_count(os[0]));
    }
}

/// Appending a related element extends the elementwise extraction relation.
pub proof fn lemma_sides_rel_vec_push(
    os: Seq<CILNode>,
    out: Seq<crate::cil_root::CILRoot>,
    base: int,
    o: CILNode,
)
    requires
        sides_rel_vec(os, out, base),
        sides_rel_node(o, out, base + vec_node_side_count(os)),
    ensures
        sides_rel_vec(os.push(o), out, base),
    decreases os,
{
    if os.len() == 0 {
        assert(os.push(o)[0] == o);
        assert(os.push(o).drop_first() =~= Seq::<CILNode>::empty());
        assert(sides_rel_vec(Seq::<CILNode>::empty(), out, base + node_side_count(o)));
        assert(vec_node_side_count(os) == 0);
    } else {
        assert(os.push(o)[0] == os[0]);
        assert(os.push(o).drop_first() =~= os.drop_first().push(o));
        assert(vec_node_side_count(os) == node_side_count(os[0]) + vec_node_side_count(
            os.drop_first(),
        ));
        lemma_sides_rel_vec_push(os.drop_first(), out, base + node_side_count(os[0]), o);
    }
}

} // verus!
