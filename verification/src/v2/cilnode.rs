//! The interned operation-node catalog: pure expressions whose children are
//! handles into the node arena, forming a DAG.

use crate::bimap::InternValue;
use crate::istring::{spec_mix, mix};
use crate::v2::tpe::{
    spec_int_tag, int_tag, spec_type_key, Float, FieldIdx, Int, MethodRefIdx, SigIdx,
    StaticFieldIdx, StringIdx, TypeIdx,
};
use vstd::prelude::*;

verus! {

/// Handle into the node arena.
#[derive(Clone, Copy, PartialEq, Eq, Structural, Hash, Debug)]
pub struct NodeIdx(pub u64);

/// Handle into the argument-list arena.
#[derive(Clone, Copy, PartialEq, Eq, Structural, Hash, Debug)]
pub struct ArgListIdx(pub u64);

/// The result type of a pointer reinterpretation.
#[derive(Clone, Copy, PartialEq, Eq, Structural, Hash, Debug)]
pub enum PtrCastRes {
    Ptr(TypeIdx),
    Ref(TypeIdx),
    FnPtr(SigIdx),
    USize,
    ISize,
}

/// How an integer cast fills the new high bits.
#[derive(Clone, Copy, PartialEq, Eq, Structural, Hash, Debug)]
pub enum ExtendKind {
    ZeroExtend,
    SignExtend,
}

/// Unary operations.
#[derive(Clone, Copy, PartialEq, Eq, Structural, Hash, Debug)]
pub enum UnOp {
    Not,
    Neg,
}

/// Binary operations.
#[derive(Clone, Copy, PartialEq, Eq, Structural, Hash, Debug)]
pub enum BinOp {
    Add,
    Eq,
    Sub,
    Mul,
    LtUn,
    Lt,
    GtUn,
    Gt,
    Or,
    XOr,
    And,
    Rem,
    RemUn,
    Shl,
    Shr,
    ShrUn,
    DivUn,
    Div,
}

/// An interned constant. Floating-point constants carry their bit patterns;
/// the library never computes with them.
#[derive(Clone, Copy, PartialEq, Eq, Structural, Hash, Debug)]
pub enum Const {
    Bool(bool),
    U8(u8),
    U16(u16),
    U32(u32),
    U64(u64),
    USize(u64),
    I8(i8),
    I16(i16),
    I32(i32),
    I64(i64),
    ISize(i64),
    F32Bits(u32),
    F64Bits(u64),
    PlatformString(StringIdx),
}

/// An interned, ordered argument list of a call.
#[derive(Clone, Debug)]
pub struct ArgList {
    pub args: Vec<NodeIdx>,
}

/// An interned operation node: a pure expression whose children are handles
/// allocated earlier in the same arena.
#[derive(Clone, Copy, PartialEq, Eq, Structural, Hash, Debug)]
pub enum CILNode {
    Const(Const),
    BinOp(NodeIdx, NodeIdx, BinOp),
    UnOp(NodeIdx, UnOp),
    LdLoc(u64),
    LdLocA(u64),
    LdArg(u64),
    LdArgA(u64),
    Call(MethodRefIdx, ArgListIdx),
    IntCast { input: NodeIdx, target: Int, extend: ExtendKind },
    FloatCast { input: NodeIdx, target: Float, is_signed: bool },
    RefToPtr(NodeIdx),
    PtrCast(NodeIdx, PtrCastRes),
    LdFieldAddress { addr: NodeIdx, field: FieldIdx },
    LdField { addr: NodeIdx, field: FieldIdx },
    LdInd { addr: NodeIdx, tpe: TypeIdx, is_volatile: bool },
    SizeOf(TypeIdx),
    GetException,
    IsInst(NodeIdx, TypeIdx),
    CheckedCast(NodeIdx, TypeIdx),
    CallI(NodeIdx, SigIdx, ArgListIdx),
    LocAlloc { size: NodeIdx },
    LdStaticField(StaticFieldIdx),
    LdFtn(MethodRefIdx),
    LdTypeToken(TypeIdx),
    LdLen(NodeIdx),
    LocAllocAligned { tpe: TypeIdx, align: u64 },
    LdElemRef { array: NodeIdx, index: NodeIdx },
    UnboxAny { object: NodeIdx, tpe: TypeIdx },
}

/// Hash key of a constant.
pub open spec fn spec_const_key(c: Const) -> u64 {
    match c {
        Const::Bool(b) => spec_mix(30, if b { 1u64 } else { 0u64 }),
        Const::U8(v) => spec_mix(31, v as u64),
        Const::U16(v) => spec_mix(32, v as u64),
        Const::U32(v) => spec_mix(33, v as u64),
        Const::U64(v) => spec_mix(34, v),
        Const::USize(v) => spec_mix(35, v),
        Const::I8(v) => spec_mix(36, v as u8 as u64),
        Const::I16(v) => spec_mix(37, v as u16 as u64),
        Const::I32(v) => spec_mix(38, v as u32 as u64),
        Const::I64(v) => spec_mix(39, v as u64),
        Const::ISize(v) => spec_mix(40, v as u64),
        Const::F32Bits(v) => spec_mix(41, v as u64),
        Const::F64Bits(v) => spec_mix(42, v),
        Const::PlatformString(s) => spec_mix(43, s.0),
    }
}

/// Computes the hash key of a constant.
pub fn const_key(c: &Const) -> (r: u64)
    ensures
        r == spec_const_key(*c),
{
    match c {
        Const::Bool(b) => mix(30, if *b { 1 } else { 0 }),
        Const::U8(v) => mix(31, *v as u64),
        Const::U16(v) => mix(32, *v as u64),
        Const::U32(v) => mix(33, *v as u64),
        Const::U64(v) => mix(34, *v),
        Const::USize(v) => mix(35, *v),
        Const::I8(v) => mix(36, *v as u8 as u64),
        Const::I16(v) => mix(37, *v as u16 as u64),
        Const::I32(v) => mix(38, *v as u32 as u64),
        Const::I64(v) => mix(39, *v as u64),
        Const::ISize(v) => mix(40, *v as u64),
        Const::F32Bits(v) => mix(41, *v as u64),
        Const::F64Bits(v) => mix(42, *v),
        Const::PlatformString(s) => mix(43, s.0),
    }
}

/// Hash tag of a binary operation.
pub open spec fn spec_binop_tag(op: BinOp) -> u64 {
    match op {
        BinOp::Add => 1,
        BinOp::Eq => 2,
        BinOp::Sub => 3,
        BinOp::Mul => 4,
        BinOp::LtUn => 5,
        BinOp::Lt => 6,
        BinOp::GtUn => 7,
        BinOp::Gt => 8,
        BinOp::Or => 9,
        BinOp::XOr => 10,
        BinOp::And => 11,
        BinOp::Rem => 12,
        BinOp::RemUn => 13,
        BinOp::Shl => 14,
        BinOp::Shr => 15,
        BinOp::ShrUn => 16,
        BinOp::DivUn => 17,
        BinOp::Div => 18,
    }
}

/// Computes the hash tag of a binary operation.
pub fn binop_tag(op: BinOp) -> (r: u64)
    ensures
        r == spec_binop_tag(op),
{
    match op {
        BinOp::Add => 1,
        BinOp::Eq => 2,
        BinOp::Sub => 3,
        BinOp::Mul => 4,
        BinOp::LtUn => 5,
        BinOp::Lt => 6,
        BinOp::GtUn => 7,
        BinOp::Gt => 8,
        BinOp::Or => 9,
        BinOp::XOr => 10,
        BinOp::And => 11,
        BinOp::Rem => 12,
        BinOp::RemUn => 13,
        BinOp::Shl => 14,
        BinOp::Shr => 15,
        BinOp::ShrUn => 16,
        BinOp::DivUn => 17,
        BinOp::Div => 18,
    }
}

/// Hash key of a pointer-cast result.
pub open spec fn spec_ptr_cast_key(p: PtrCastRes) -> u64 {
    match p {
        PtrCastRes::Ptr(t) => spec_mix(44, t.0),
        PtrCastRes::Ref(t) => spec_mix(45, t.0),
        PtrCastRes::FnPtr(s) => spec_mix(46, s.0),
        PtrCastRes::USize => 47,
        PtrCastRes::ISize => 48,
    }
}

/// Computes the hash key of a pointer-cast result.
pub fn ptr_cast_key(p: &PtrCastRes) -> (r: u64)
    ensures
        r == spec_ptr_cast_key(*p),
{
    match p {
        PtrCastRes::Ptr(t) => mix(44, t.0),
        PtrCastRes::Ref(t) => mix(45, t.0),
        PtrCastRes::FnPtr(s) => mix(46, s.0),
        PtrCastRes::USize => 47,
        PtrCastRes::ISize => 48,
    }
}

/// Hash key of an operation node.
pub open spec fn spec_node_key(n: CILNode) -> u64 {
    match n {
        CILNode::Const(c) => spec_mix(50, spec_const_key(c)),
        CILNode::BinOp(a, b, op) => spec_mix(spec_mix(51, spec_binop_tag(op)), spec_mix(a.0, b.0)),
        CILNode::UnOp(a, op) => spec_mix(52, spec_mix(a.0, if op is Not { 1u64 } else { 2u64 })),
        CILNode::LdLoc(l) => spec_mix(53, l),
        CILNode::LdLocA(l) => spec_mix(54, l),
        CILNode::LdArg(a) => spec_mix(55, a),
        CILNode::LdArgA(a) => spec_mix(56, a),
        CILNode::Call(m, args) => spec_mix(57, spec_mix(m.0, args.0)),
        CILNode::IntCast { input, target, extend } => spec_mix(
            spec_mix(58, input.0),
            spec_mix(spec_int_tag(target), if extend is ZeroExtend { 1u64 } else { 2u64 }),
        ),
        CILNode::FloatCast { input, target, is_signed } => spec_mix(
            spec_mix(59, input.0),
            spec_mix(if target is F32 { 1u64 } else { 2u64 }, if is_signed { 1u64 } else { 0u64 }),
        ),
        CILNode::RefToPtr(a) => spec_mix(60, a.0),
        CILNode::PtrCast(a, p) => spec_mix(61, spec_mix(a.0, spec_ptr_cast_key(p))),
        CILNode::LdFieldAddress { addr, field } => spec_mix(62, spec_mix(addr.0, field.0)),
        CILNode::LdField { addr, field } => spec_mix(63, spec_mix(addr.0, field.0)),
        CILNode::LdInd { addr, tpe, is_volatile } => spec_mix(
            spec_mix(64, addr.0),
            spec_mix(tpe.0, if is_volatile { 1u64 } else { 0u64 }),
        ),
        CILNode::SizeOf(t) => spec_mix(65, t.0),
        CILNode::GetException => 66,
        CILNode::IsInst(a, t) => spec_mix(67, spec_mix(a.0, t.0)),
        CILNode::CheckedCast(a, t) => spec_mix(68, spec_mix(a.0, t.0)),
        CILNode::CallI(f, s, args) => spec_mix(69, spec_mix(f.0, spec_mix(s.0, args.0))),
        CILNode::LocAlloc { size } => spec_mix(70, size.0),
        CILNode::LdStaticField(s) => spec_mix(71, s.0),
        CILNode::LdFtn(m) => spec_mix(72, m.0),
        CILNode::LdTypeToken(t) => spec_mix(73, t.0),
        CILNode::LdLen(a) => spec_mix(74, a.0),
        CILNode::LocAllocAligned { tpe, align } => spec_mix(75, spec_mix(tpe.0, align)),
        CILNode::LdElemRef { array, index } => spec_mix(76, spec_mix(array.0, index.0)),
        CILNode::UnboxAny { object, tpe } => spec_mix(77, spec_mix(object.0, tpe.0)),
    }
}

/// Computes the hash key of an operation node.
pub fn node_key(n: &CILNode) -> (r: u64)
    ensures
        r == spec_node_key(*n),
{
    match n {
        CILNode::Const(c) => mix(50, const_key(c)),
        CILNode::BinOp(a, b, op) => mix(mix(51, binop_tag(*op)), mix(a.0, b.0)),
        CILNode::UnOp(a, op) => mix(
            52,
            mix(
                a.0,
                match op {
                    UnOp::Not => 1,
                    UnOp::Neg => 2,
                },
            ),
        ),
        CILNode::LdLoc(l) => mix(53, *l),
        CILNode::LdLocA(l) => mix(54, *l),
        CILNode::LdArg(a) => mix(55, *a),
        CILNode::LdArgA(a) => mix(56, *a),
        CILNode::Call(m, args) => mix(57, mix(m.0, args.0)),
        CILNode::IntCast { input, target, extend } => mix(
            mix(58, input.0),
            mix(
                int_tag(*target),
                match extend {
                    ExtendKind::ZeroExtend => 1,
                    ExtendKind::SignExtend => 2,
                },
            ),
        ),
        CILNode::FloatCast { input, target, is_signed } => mix(
            mix(59, input.0),
            mix(
                match target {
                    Float::F32 => 1,
                    Float::F64 => 2,
                },
                if *is_signed { 1 } else { 0 },
            ),
        ),
        CILNode::RefToPtr(a) => mix(60, a.0),
        CILNode::PtrCast(a, p) => mix(61, mix(a.0, ptr_cast_key(p))),
        CILNode::LdFieldAddress { addr, field } => mix(62, mix(addr.0, field.0)),
        CILNode::LdField { addr, field } => mix(63, mix(addr.0, field.0)),
        CILNode::LdInd { addr, tpe, is_volatile } => mix(
            mix(64, addr.0),
            mix(tpe.0, if *is_volatile { 1 } else { 0 }),
        ),
        CILNode::SizeOf(t) => mix(65, t.0),
        CILNode::GetException => 66,
        CILNode::IsInst(a, t) => mix(67, mix(a.0, t.0)),
        CILNode::CheckedCast(a, t) => mix(68, mix(a.0, t.0)),
        CILNode::CallI(f, s, args) => mix(69, mix(f.0, mix(s.0, args.0))),
        CILNode::LocAlloc { size } => mix(70, size.0),
        CILNode::LdStaticField(s) => mix(71, s.0),
        CILNode::LdFtn(m) => mix(72, m.0),
        CILNode::LdTypeToken(t) => mix(73, t.0),
        CILNode::LdLen(a) => mix(74, a.0),
        CILNode::LocAllocAligned { tpe, align } => mix(75, mix(tpe.0, *align)),
        CILNode::LdElemRef { array, index } => mix(76, mix(array.0, index.0)),
        CILNode::UnboxAny { object, tpe } => mix(77, mix(object.0, tpe.0)),
    }
}

impl CILNode {
    /// The node-arena handles this node references: its direct children in
    /// the operation DAG.
    pub open spec fn children(&self) -> Seq<u64> {
        match *self {
            CILNode::Const(_) => Seq::empty(),
            CILNode::BinOp(a, b, _) => seq![a.0, b.0],
            CILNode::UnOp(a, _) => seq![a.0],
            CILNode::LdLoc(_) => Seq::empty(),
            CILNode::LdLocA(_) => Seq::empty(),
            CILNode::LdArg(_) => Seq::empty(),
            CILNode::LdArgA(_) => Seq::empty(),
            CILNode::Call(_, _) => Seq::empty(),
            CILNode::IntCast { input, .. } => seq![input.0],
            CILNode::FloatCast { input, .. } => seq![input.0],
            CILNode::RefToPtr(a) => seq![a.0],
            CILNode::PtrCast(a, _) => seq![a.0],
            CILNode::LdFieldAddress { addr, .. } => seq![addr.0],
            CILNode::LdField { addr, .. } => seq![addr.0],
            CILNode::LdInd { addr, .. } => seq![addr.0],
            CILNode::SizeOf(_) => Seq::empty(),
            CILNode::GetException => Seq::empty(),
            CILNode::IsInst(a, _) => seq![a.0],
            CILNode::CheckedCast(a, _) => seq![a.0],
            CILNode::CallI(f, _, _) => seq![f.0],
            CILNode::LocAlloc { size } => seq![size.0],
            CILNode::LdStaticField(_) => Seq::empty(),
            CILNode::LdFtn(_) => Seq::empty(),
            CILNode::LdTypeToken(_) => Seq::empty(),
            CILNode::LdLen(a) => seq![a.0],
            CILNode::LocAllocAligned { .. } => Seq::empty(),
            CILNode::LdElemRef { array, index } => seq![array.0, index.0],
            CILNode::UnboxAny { object, .. } => seq![object.0],
        }
    }
}

impl InternValue for CILNode {
    open spec fn keq(&self, other: &Self) -> bool {
        *self == *other
    }

    open spec fn skey(&self) -> u64 {
        spec_node_key(*self)
    }

    open spec fn kids(&self) -> Seq<u64> {
        self.children()
    }

    proof fn keq_laws(a: &Self, b: &Self, c: &Self) {
    }

    fn key(&self) -> (k: u64) {
        node_key(self)
    }

    fn same(&self, other: &Self) -> (r: bool) {
        *self == *other
    }
}

/// Hash key of a node-handle sequence.
pub open spec fn spec_args_key(s: Seq<NodeIdx>) -> u64
    decreases s.len(),
{
    if s.len() == 0 {
        78u64
    } else {
        spec_mix(spec_args_key(s.drop_last()), s.last().0)
    }
}

impl InternValue for ArgList {
    open spec fn keq(&self, other: &Self) -> bool {
        self.args@ == other.args@
    }

    open spec fn skey(&self) -> u64 {
        spec_args_key(self.args@)
    }

    open spec fn kids(&self) -> Seq<u64> {
        Seq::empty()
    }

    proof fn keq_laws(a: &Self, b: &Self, c: &Self) {
    }

    fn key(&self) -> (k: u64) {
        let n = self.args.len();
        let mut h: u64 = 78;
        let mut i: usize = 0;
        while i < n
            invariant
                n == self.args@.len(),
                i <= n,
                h == spec_args_key(self.args@.take(i as int)),
            decreases n - i,
        {
            proof {
                assert(self.args@.take(i + 1).drop_last() =~= self.args@.take(i as int));
                assert(self.args@.take(i + 1).last() == self.args@[i as int]);
            }
            h = mix(h, self.args[i].0);
            i += 1;
        }
        proof {
            assert(self.args@.take(n as int) =~= self.args@);
        }
        h
    }

    fn same(&self, other: &Self) -> (r: bool) {
        let n = self.args.len();
        if n != other.args.len() {
            proof {
                assert(self.args@ != other.args@);
            }
            return false;
        }
        let mut i: usize = 0;
        while i < n
            invariant
                n == self.args@.len(),
                n == other.args@.len(),
                i <= n,
                forall|t: int| 0 <= t < i ==> self.args@[t] == other.args@[t],
            decreases n - i,
        {
            if self.args[i] != other.args[i] {
                return false;
            }
            i += 1;
        }
        proof {
            assert(self.args@ =~= other.args@);
        }
        true
    }
}

} // verus!
