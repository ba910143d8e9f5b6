//! Interned entity kinds shared by the whole assembly: strings, types,
//! class references, signatures, method references and field descriptors.

use crate::bimap::InternValue;
use crate::istring::{spec_mix, mix};
use vstd::prelude::*;

verus! {

/// Handle into the string arena.
#[derive(Clone, Copy, PartialEq, Eq, Structural, Hash, Debug)]
pub struct StringIdx(pub u64);

/// Handle into the type arena.
#[derive(Clone, Copy, PartialEq, Eq, Structural, Hash, Debug)]
pub struct TypeIdx(pub u64);

/// Handle into the signature arena.
#[derive(Clone, Copy, PartialEq, Eq, Structural, Hash, Debug)]
pub struct SigIdx(pub u64);

/// Handle into the class-reference arena.
#[derive(Clone, Copy, PartialEq, Eq, Structural, Hash, Debug)]
pub struct ClassRefIdx(pub u64);

/// Handle into the method-reference arena.
#[derive(Clone, Copy, PartialEq, Eq, Structural, Hash, Debug)]
pub struct MethodRefIdx(pub u64);

/// Handle into the field-descriptor arena.
#[derive(Clone, Copy, PartialEq, Eq, Structural, Hash, Debug)]
pub struct FieldIdx(pub u64);

/// Handle into the static-field-descriptor arena.
#[derive(Clone, Copy, PartialEq, Eq, Structural, Hash, Debug)]
pub struct StaticFieldIdx(pub u64);

/// A registered class definition, keyed by the handle of its reference form.
#[derive(Clone, Copy, PartialEq, Eq, Structural, Hash, Debug)]
pub struct ClassDefIdx(pub ClassRefIdx);

/// A registered method definition, keyed by the handle of its reference form.
#[derive(Clone, Copy, PartialEq, Eq, Structural, Hash, Debug)]
pub struct MethodDefIdx(pub MethodRefIdx);

/// Integer kinds of the target machine.
#[derive(Clone, Copy, PartialEq, Eq, Structural, Hash, Debug)]
pub enum Int {
    U8,
    U16,
    U32,
    U64,
    USize,
    I8,
    I16,
    I32,
    I64,
    ISize,
}

/// Floating-point kinds of the target machine (tags only; the library never
/// computes with floating-point values).
#[derive(Clone, Copy, PartialEq, Eq, Structural, Hash, Debug)]
pub enum Float {
    F32,
    F64,
}

/// Visibility of a definition.
#[derive(Clone, Copy, PartialEq, Eq, Structural, Hash, Debug)]
pub enum Access {
    Public,
    Private,
}

/// An interned type. Composite types hold handles to their component types,
/// which are always interned first.
#[derive(Clone, Copy, PartialEq, Eq, Structural, Hash, Debug)]
pub enum Type {
    Void,
    Bool,
    PlatformChar,
    PlatformString,
    PlatformObject,
    Int(Int),
    Float(Float),
    Ptr(TypeIdx),
    Ref(TypeIdx),
    ClassRef(ClassRefIdx),
    FnPtr(SigIdx),
}

/// A reference to a class, possibly from another assembly.
#[derive(Clone, Copy, PartialEq, Eq, Structural, Hash, Debug)]
pub struct ClassRef {
    pub name: StringIdx,
    pub rasm: Option<StringIdx>,
    pub is_valuetype: bool,
}

/// A function signature: ordered input types and one output type.
#[derive(Clone, Debug)]
pub struct FnSig {
    pub inputs: Vec<Type>,
    pub output: Type,
}

/// How a method is dispatched.
#[derive(Clone, Copy, PartialEq, Eq, Structural, Hash, Debug)]
pub enum MethodKind {
    Static,
    Instance,
    Virtual,
    Constructor,
}

/// A reference to a method: owning class (none for a free function), name,
/// signature and dispatch kind.
#[derive(Clone, Copy, PartialEq, Eq, Structural, Hash, Debug)]
pub struct MethodRef {
    pub class: Option<ClassRefIdx>,
    pub name: StringIdx,
    pub sig: SigIdx,
    pub kind: MethodKind,
}

/// An instance-field descriptor.
#[derive(Clone, Copy, PartialEq, Eq, Structural, Hash, Debug)]
pub struct FieldDesc {
    pub owner: ClassRefIdx,
    pub name: StringIdx,
    pub tpe: TypeIdx,
}

/// A static-field descriptor.
#[derive(Clone, Copy, PartialEq, Eq, Structural, Hash, Debug)]
pub struct StaticFieldDesc {
    pub owner: ClassRefIdx,
    pub name: StringIdx,
    pub tpe: TypeIdx,
}

/// Hash tag of an integer kind.
pub open spec fn spec_int_tag(i: Int) -> u64 {
    match i {
        Int::U8 => 1,
        Int::U16 => 2,
        Int::U32 => 3,
        Int::U64 => 4,
        Int::USize => 5,
        Int::I8 => 6,
        Int::I16 => 7,
        Int::I32 => 8,
        Int::I64 => 9,
        Int::ISize => 10,
    }
}

/// Computes the hash tag of an integer kind.
pub fn int_tag(i: Int) -> (r: u64)
    ensures
        r == spec_int_tag(i),
{
    match i {
        Int::U8 => 1,
        Int::U16 => 2,
        Int::U32 => 3,
        Int::U64 => 4,
        Int::USize => 5,
        Int::I8 => 6,
        Int::I16 => 7,
        Int::I32 => 8,
        Int::I64 => 9,
        Int::ISize => 10,
    }
}

/// Hash key of a type.
pub open spec fn spec_type_key(t: Type) -> u64 {
    match t {
        Type::Void => 11,
        Type::Bool => 12,
        Type::PlatformChar => 13,
        Type::PlatformString => 14,
        Type::PlatformObject => 15,
        Type::Int(i) => spec_mix(16, spec_int_tag(i)),
        Type::Float(f) => spec_mix(17, if f is F32 { 1u64 } else { 2u64 }),
        Type::Ptr(t) => spec_mix(18, t.0),
        Type::Ref(t) => spec_mix(19, t.0),
        Type::ClassRef(c) => spec_mix(20, c.0),
        Type::FnPtr(s) => spec_mix(21, s.0),
    }
}

/// Computes the hash key of a type.
pub fn type_key(t: &Type) -> (r: u64)
    ensures
        r == spec_type_key(*t),
{
    match t {
        Type::Void => 11,
        Type::Bool => 12,
        Type::PlatformChar => 13,
        Type::PlatformString => 14,
        Type::PlatformObject => 15,
        Type::Int(i) => mix(16, int_tag(*i)),
        Type::Float(f) => mix(
            17,
            match f {
                Float::F32 => 1,
                Float::F64 => 2,
            },
        ),
        Type::Ptr(t) => mix(18, t.0),
        Type::Ref(t) => mix(19, t.0),
        Type::ClassRef(c) => mix(20, c.0),
        Type::FnPtr(s) => mix(21, s.0),
    }
}

impl InternValue for Type {
    open spec fn keq(&self, other: &Self) -> bool {
        *self == *other
    }

    open spec fn skey(&self) -> u64 {
        spec_type_key(*self)
    }

    open spec fn kids(&self) -> Seq<u64> {
        match *self {
            Type::Ptr(t) => seq![t.0],
            Type::Ref(t) => seq![t.0],
            _ => Seq::empty(),
        }
    }

    proof fn keq_laws(a: &Self, b: &Self, c: &Self) {
    }

    fn key(&self) -> (k: u64) {
        type_key(self)
    }

    fn same(&self, other: &Self) -> (r: bool) {
        *self == *other
    }
}

impl InternValue for ClassRef {
    open spec fn keq(&self, other: &Self) -> bool {
        *self == *other
    }

    open spec fn skey(&self) -> u64 {
        spec_mix(
            spec_mix(22, self.name.0),
            match self.rasm {
                Some(r) => spec_mix(1, r.0),
                None => 0,
            },
        )
    }

    open spec fn kids(&self) -> Seq<u64> {
        Seq::empty()
    }

    proof fn keq_laws(a: &Self, b: &Self, c: &Self) {
    }

    fn key(&self) -> (k: u64) {
        mix(
            mix(22, self.name.0),
            match self.rasm {
                Some(r) => mix(1, r.0),
                None => 0,
            },
        )
    }

    fn same(&self, other: &Self) -> (r: bool) {
        *self == *other
    }
}

/// Hash key of a type sequence, folded element by element.
pub open spec fn spec_types_key(s: Seq<Type>) -> u64
    decreases s.len(),
{
    if s.len() == 0 {
        23u64
    } else {
        spec_mix(spec_types_key(s.drop_last()), spec_type_key(s.last()))
    }
}

/// Are two type vectors elementwise equal?
pub fn types_eq(a: &Vec<Type>, b: &Vec<Type>) -> (r: bool)
    ensures
        r == (a@ == b@),
{
    let n = a.len();
    if n != b.len() {
        proof {
            assert(a@ != b@);
        }
        return false;
    }
    let mut i: usize = 0;
    while i < n
        invariant
            n == a@.len(),
            n == b@.len(),
            i <= n,
            forall|t: int| 0 <= t < i ==> a@[t] == b@[t],
        decreases n - i,
    {
        if a[i] != b[i] {
            return false;
        }
        i += 1;
    }
    proof {
        assert(a@ =~= b@);
    }
    true
}

impl FnSig {
    /// Builds a signature.
    pub fn new(inputs: Vec<Type>, output: Type) -> (r: Self)
        ensures
            r.inputs@ == inputs@,
            r.output == output,
    {
        FnSig { inputs, output }
    }
}

impl InternValue for FnSig {
    open spec fn keq(&self, other: &Self) -> bool {
        self.inputs@ == other.inputs@ && self.output == other.output
    }

    open spec fn skey(&self) -> u64 {
        spec_mix(spec_types_key(self.inputs@), spec_type_key(self.output))
    }

    open spec fn kids(&self) -> Seq<u64> {
        Seq::empty()
    }

    proof fn keq_laws(a: &Self, b: &Self, c: &Self) {
    }

    fn key(&self) -> (k: u64) {
        let n = self.inputs.len();
        let mut h: u64 = 23;
        let mut i: usize = 0;
        while i < n
            invariant
                n == self.inputs@.len(),
                i <= n,
                h == spec_types_key(self.inputs@.take(i as int)),
            decreases n - i,
        {
            proof {
                assert(self.inputs@.take(i + 1).drop_last() =~= self.inputs@.take(i as int));
                assert(self.inputs@.take(i + 1).last() == self.inputs@[i as int]);
            }
            h = mix(h, type_key(&self.inputs[i]));
            i += 1;
        }
        proof {
            assert(self.inputs@.take(n as int) =~= self.inputs@);
        }
        mix(h, type_key(&self.output))
    }

    fn same(&self, other: &Self) -> (r: bool) {
        types_eq(&self.inputs, &other.inputs) && self.output == other.output
    }
}

impl InternValue for MethodRef {
    open spec fn keq(&self, other: &Self) -> bool {
        *self == *other
    }

    open spec fn skey(&self) -> u64 {
        spec_mix(
            spec_mix(
                24,
                match self.class {
                    Some(c) => spec_mix(1, c.0),
                    None => 0,
                },
            ),
            spec_mix(self.name.0, self.sig.0),
        )
    }

    open spec fn kids(&self) -> Seq<u64> {
        Seq::empty()
    }

    proof fn keq_laws(a: &Self, b: &Self, c: &Self) {
    }

    fn key(&self) -> (k: u64) {
        mix(
            mix(
                24,
                match self.class {
                    Some(c) => mix(1, c.0),
                    None => 0,
                },
            ),
            mix(self.name.0, self.sig.0),
        )
    }

    fn same(&self, other: &Self) -> (r: bool) {
        *self == *other
    }
}

impl InternValue for FieldDesc {
    open spec fn keq(&self, other: &Self) -> bool {
        *self == *other
    }

    open spec fn skey(&self) -> u64 {
        spec_mix(spec_mix(25, self.owner.0), spec_mix(self.name.0, self.tpe.0))
    }

    open spec fn kids(&self) -> Seq<u64> {
        Seq::empty()
    }

    proof fn keq_laws(a: &Self, b: &Self, c: &Self) {
    }

    fn key(&self) -> (k: u64) {
        mix(mix(25, self.owner.0), mix(self.name.0, self.tpe.0))
    }

    fn same(&self, other: &Self) -> (r: bool) {
        *self == *other
    }
}

impl InternValue for StaticFieldDesc {
    open spec fn keq(&self, other: &Self) -> bool {
        *self == *other
    }

    open spec fn skey(&self) -> u64 {
        spec_mix(spec_mix(26, self.owner.0), spec_mix(self.name.0, self.tpe.0))
    }

    open spec fn kids(&self) -> Seq<u64> {
        Seq::empty()
    }

    proof fn keq_laws(a: &Self, b: &Self, c: &Self) {
    }

    fn key(&self) -> (k: u64) {
        mix(mix(26, self.owner.0), mix(self.name.0, self.tpe.0))
    }

    fn same(&self, other: &Self) -> (r: bool) {
        *self == *other
    }
}

} // verus!
