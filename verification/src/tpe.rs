//! The construction-time type representation: owned type trees and the
//! descriptors that owned expression trees carry.

use crate::istring::IString;
use crate::v2::tpe::{Float, Int};
use vstd::prelude::*;

verus! {

/// An owned reference to a class, possibly from another assembly.
#[derive(Clone, Debug)]
pub struct DotnetTypeRef {
    pub name: IString,
    pub rasm: Option<IString>,
    pub is_valuetype: bool,
}

/// An owned type tree. Composite types own their component types in place;
/// the interned counterpart replaces each component with a handle.
pub enum Type {
    Void,
    Bool,
    PlatformChar,
    PlatformString,
    PlatformObject,
    Int(Int),
    Float(Float),
    Ptr(Box<Type>),
    ManagedReference(Box<Type>),
    DotnetType(DotnetTypeRef),
    DelegatePtr(Box<FnSig>),
}

/// An owned function signature.
pub struct FnSig {
    pub inputs: Vec<Type>,
    pub output: Box<Type>,
}

impl FnSig {
    /// Builds a signature.
    pub fn new(inputs: Vec<Type>, output: Type) -> (r: Self)
        ensures
            r.inputs == inputs,
            *r.output == output,
    {
        FnSig { inputs, output: Box::new(output) }
    }
}

/// An owned call-target descriptor: optional owning class, name, signature,
/// and whether the target is dispatched statically.
pub struct CallSite {
    pub class: Option<DotnetTypeRef>,
    pub name: IString,
    pub signature: FnSig,
    pub is_static: bool,
}

impl CallSite {
    /// Builds a call-target descriptor.
    pub fn new(
        class: Option<DotnetTypeRef>,
        name: IString,
        signature: FnSig,
        is_static: bool,
    ) -> (r: Self)
        ensures
            r.class == class,
            r.name == name,
            r.signature == signature,
            r.is_static == is_static,
    {
        CallSite { class, name, signature, is_static }
    }
}

/// An owned instance-field descriptor.
pub struct FieldDescriptor {
    pub owner: DotnetTypeRef,
    pub name: IString,
    pub tpe: Type,
}

/// An owned static-field descriptor.
pub struct StaticFieldDescriptor {
    pub owner: DotnetTypeRef,
    pub name: IString,
    pub tpe: Type,
}

/// Can this owned type stand as the target of a pointer reinterpretation?
pub open spec fn ptr_castable(t: Type) -> bool {
    match t {
        Type::Int(i) => i == Int::USize || i == Int::ISize,
        Type::Ptr(_) => true,
        Type::ManagedReference(_) => true,
        Type::DelegatePtr(_) => true,
        _ => false,
    }
}

} // verus!
