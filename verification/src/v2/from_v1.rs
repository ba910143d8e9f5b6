//! The conversion from the owned construction-time representation into the
//! interned form: the per-variant mapping that defines representation
//! equivalence between the two, stated as a correspondence relation and
//! implemented by one total recursive conversion per catalog.

use crate::cil_node::{node_no_markers, node_no_subtrees, node_wf, CILNode as TreeNode};
use crate::cil_root::{root_no_markers, root_no_subtrees, root_wf, CILRoot as TreeRoot, StIndKind as TreeStIndKind};
use crate::istring::IString;
use crate::tpe::{
    CallSite, DotnetTypeRef, FieldDescriptor, FnSig as TreeSig, StaticFieldDescriptor,
    Type as TreeType,
};
use crate::v2::assembly::{
    arenas_extend, cref_ok, node_ok, root_ok, same_tables, type_ok, AsmView, Assembly,
};
use crate::v2::cilnode::{ArgListIdx, CILNode, Const, NodeIdx, PtrCastRes};
use crate::v2::cilroot::{BranchCond, CILRoot, CmpKind, StIndKind};
use crate::v2::tpe::{
    ClassRef, FieldDesc, FieldIdx, FnSig, MethodKind, MethodRef, MethodRefIdx, StaticFieldDesc,
    StaticFieldIdx, Type,
};
use vstd::prelude::*;

verus! {

broadcast use
    vstd::std_specs::vec::axiom_vec_index_decreases,
    vstd::std_specs::vec::axiom_vec_decreases_to_view,
    vstd::seq::axiom_seq_index_decreases;

/// Does the interned class reference `c` stand for the owned reference `dt`?
pub open spec fn cref_corr(v: AsmView, dt: DotnetTypeRef, c: ClassRef) -> bool {
    &&& (c.name.0 as int) < v.strings.len()
    &&& v.strings[c.name.0 as int]@ == dt.name@
    &&& c.is_valuetype == dt.is_valuetype
    &&& match (dt.rasm, c.rasm) {
        (Option::None, Option::None) => true,
        (Option::Some(a), Option::Some(si)) => (si.0 as int) < v.strings.len()
            && v.strings[si.0 as int]@ == a@,
        _ => false,
    }
}

/// Does the interned type `t2` stand for the owned type tree `t`?
pub open spec fn type_corr(v: AsmView, t: TreeType, t2: Type) -> bool
    decreases t,
{
    match t {
        TreeType::Void => t2 == Type::Void,
        TreeType::Bool => t2 == Type::Bool,
        TreeType::PlatformChar => t2 == Type::PlatformChar,
        TreeType::PlatformString => t2 == Type::PlatformString,
        TreeType::PlatformObject => t2 == Type::PlatformObject,
        TreeType::Int(i) => t2 == Type::Int(i),
        TreeType::Float(f) => t2 == Type::Float(f),
        TreeType::Ptr(inner) => match t2 {
            Type::Ptr(ti) => (ti.0 as int) < v.types.len() && type_corr(
                v,
                *inner,
                v.types[ti.0 as int],
            ),
            _ => false,
        },
        TreeType::ManagedReference(inner) => match t2 {
            Type::Ref(ti) => (ti.0 as int) < v.types.len() && type_corr(
                v,
                *inner,
                v.types[ti.0 as int],
            ),
            _ => false,
        },
        TreeType::DotnetType(dt) => match t2 {
            Type::ClassRef(ci) => (ci.0 as int) < v.class_refs.len() && cref_corr(
                v,
                dt,
                v.class_refs[ci.0 as int],
            ),
            _ => false,
        },
        TreeType::DelegatePtr(sig) => match t2 {
            Type::FnPtr(si) => (si.0 as int) < v.sigs.len() && sig_corr(
                v,
                *sig,
                v.sigs[si.0 as int],
            ),
            _ => false,
        },
    }
}

/// Does the interned signature `s2` stand for the owned signature `s`?
pub open spec fn sig_corr(v: AsmView, s: TreeSig, s2: FnSig) -> bool
    decreases s,
{
    &&& s2.inputs@.len() == s.inputs@.len()
    &&& forall|j: int|
        0 <= j < s.inputs@.len() ==> type_corr(v, #[trigger] s.inputs@[j], s2.inputs@[j])
    &&& type_corr(v, *s.output, s2.output)
}

/// Does the interned method reference `m` stand for the owned call-target
/// descriptor `site`, with dispatch kind `kind`?
pub open spec fn site_corr(v: AsmView, site: CallSite, m: MethodRef, kind: MethodKind) -> bool {
    &&& m.kind == kind
    &&& (m.name.0 as int) < v.strings.len()
    &&& v.strings[m.name.0 as int]@ == site.name@
    &&& (m.sig.0 as int) < v.sigs.len()
    &&& sig_corr(v, site.signature, v.sigs[m.sig.0 as int])
    &&& match (site.class, m.class) {
        (Option::None, Option::None) => true,
        (Option::Some(dt), Option::Some(ci)) => (ci.0 as int) < v.class_refs.len() && cref_corr(
            v,
            dt,
            v.class_refs[ci.0 as int],
        ),
        _ => false,
    }
}

/// Does the interned field descriptor stand for the owned one?
pub open spec fn field_corr(v: AsmView, f: FieldDescriptor, f2: FieldDesc) -> bool {
    &&& (f2.owner.0 as int) < v.class_refs.len()
    &&& cref_corr(v, f.owner, v.class_refs[f2.owner.0 as int])
    &&& (f2.name.0 as int) < v.strings.len()
    &&& v.strings[f2.name.0 as int]@ == f.name@
    &&& (f2.tpe.0 as int) < v.types.len()
    &&& type_corr(v, f.tpe, v.types[f2.tpe.0 as int])
}

/// Does the interned static-field descriptor stand for the owned one?
pub open spec fn sfld_corr(v: AsmView, f: StaticFieldDescriptor, f2: StaticFieldDesc) -> bool {
    &&& (f2.owner.0 as int) < v.class_refs.len()
    &&& cref_corr(v, f.owner, v.class_refs[f2.owner.0 as int])
    &&& (f2.name.0 as int) < v.strings.len()
    &&& v.strings[f2.name.0 as int]@ == f.name@
    &&& (f2.tpe.0 as int) < v.types.len()
    &&& type_corr(v, f.tpe, v.types[f2.tpe.0 as int])
}

/// `cref_corr` only looks the strings up, so it survives arena growth.
pub proof fn lemma_cref_corr_extend(v0: AsmView, v: AsmView, dt: DotnetTypeRef, c: ClassRef)
    requires
        cref_corr(v0, dt, c),
        arenas_extend(v0, v),
    ensures
        cref_corr(v, dt, c),
{
    assert(v.strings[c.name.0 as int] == v.strings.subrange(0, v0.strings.len() as int)[c.name.0 as int]);
    match dt.rasm {
        Option::Some(a) => {
            let si = c.rasm->Some_0;
            assert(v.strings[si.0 as int] == v.strings.subrange(
                0,
                v0.strings.len() as int,
            )[si.0 as int]);
        },
        Option::None => {},
    }
}

/// `type_corr` follows handles to earlier entries, which arena growth
/// preserves.
pub proof fn lemma_type_corr_extend(v0: AsmView, v: AsmView, t: TreeType, t2: Type)
    requires
        type_corr(v0, t, t2),
        arenas_extend(v0, v),
    ensures
        type_corr(v, t, t2),
    decreases t,
{
    match t {
        TreeType::Ptr(inner) => {
            let ti = t2->Ptr_0;
            assert(v.types[ti.0 as int] == v.types.subrange(
                0,
                v0.types.len() as int,
            )[ti.0 as int]);
            lemma_type_corr_extend(v0, v, *inner, v0.types[ti.0 as int]);
        },
        TreeType::ManagedReference(inner) => {
            let ti = t2->Ref_0;
            assert(v.types[ti.0 as int] == v.types.subrange(
                0,
                v0.types.len() as int,
            )[ti.0 as int]);
            lemma_type_corr_extend(v0, v, *inner, v0.types[ti.0 as int]);
        },
        TreeType::DotnetType(dt) => {
            let ci = t2->ClassRef_0;
            assert(v.class_refs[ci.0 as int] == v.class_refs.subrange(
                0,
                v0.class_refs.len() as int,
            )[ci.0 as int]);
            lemma_cref_corr_extend(v0, v, dt, v0.class_refs[ci.0 as int]);
        },
        TreeType::DelegatePtr(sig) => {
            let si = t2->FnPtr_0;
            assert(v.sigs[si.0 as int] == v.sigs.subrange(0, v0.sigs.len() as int)[si.0 as int]);
            lemma_sig_corr_extend(v0, v, *sig, v0.sigs[si.0 as int]);
        },
        _ => {},
    }
}

/// `sig_corr` survives arena growth.
pub proof fn lemma_sig_corr_extend(v0: AsmView, v: AsmView, s: TreeSig, s2: FnSig)
    requires
        sig_corr(v0, s, s2),
        arenas_extend(v0, v),
    ensures
        sig_corr(v, s, s2),
    decreases s,
{
    assert forall|j: int| 0 <= j < s.inputs@.len() implies type_corr(
        v,
        #[trigger] s.inputs@[j],
        s2.inputs@[j],
    ) by {
        lemma_type_corr_extend(v0, v, s.inputs@[j], s2.inputs@[j]);
    }
    lemma_type_corr_extend(v0, v, *s.output, s2.output);
}

/// `site_corr` survives arena growth.
pub proof fn lemma_site_corr_extend(
    v0: AsmView,
    v: AsmView,
    site: CallSite,
    m: MethodRef,
    kind: MethodKind,
)
    requires
        site_corr(v0, site, m, kind),
        arenas_extend(v0, v),
    ensures
        site_corr(v, site, m, kind),
{
    assert(v.strings[m.name.0 as int] == v.strings.subrange(
        0,
        v0.strings.len() as int,
    )[m.name.0 as int]);
    assert(v.sigs[m.sig.0 as int] == v.sigs.subrange(0, v0.sigs.len() as int)[m.sig.0 as int]);
    lemma_sig_corr_extend(v0, v, site.signature, v0.sigs[m.sig.0 as int]);
    match site.class {
        Option::Some(dt) => {
            let ci = m.class->Some_0;
            assert(v.class_refs[ci.0 as int] == v.class_refs.subrange(
                0,
                v0.class_refs.len() as int,
            )[ci.0 as int]);
            lemma_cref_corr_extend(v0, v, dt, v0.class_refs[ci.0 as int]);
        },
        Option::None => {},
    }
}

/// `field_corr` survives arena growth.
pub proof fn lemma_field_corr_extend(v0: AsmView, v: AsmView, f: FieldDescriptor, f2: FieldDesc)
    requires
        field_corr(v0, f, f2),
        arenas_extend(v0, v),
    ensures
        field_corr(v, f, f2),
{
    assert(v.class_refs[f2.owner.0 as int] == v.class_refs.subrange(
        0,
        v0.class_refs.len() as int,
    )[f2.owner.0 as int]);
    lemma_cref_corr_extend(v0, v, f.owner, v0.class_refs[f2.owner.0 as int]);
    assert(v.strings[f2.name.0 as int] == v.strings.subrange(
        0,
        v0.strings.len() as int,
    )[f2.name.0 as int]);
    assert(v.types[f2.tpe.0 as int] == v.types.subrange(
        0,
        v0.types.len() as int,
    )[f2.tpe.0 as int]);
    lemma_type_corr_extend(v0, v, f.tpe, v0.types[f2.tpe.0 as int]);
}

/// `sfld_corr` survives arena growth.
pub proof fn lemma_sfld_corr_extend(
    v0: AsmView,
    v: AsmView,
    f: StaticFieldDescriptor,
    f2: StaticFieldDesc,
)
    requires
        sfld_corr(v0, f, f2),
        arenas_extend(v0, v),
    ensures
        sfld_corr(v, f, f2),
{
    assert(v.class_refs[f2.owner.0 as int] == v.class_refs.subrange(
        0,
        v0.class_refs.len() as int,
    )[f2.owner.0 as int]);
    lemma_cref_corr_extend(v0, v, f.owner, v0.class_refs[f2.owner.0 as int]);
    assert(v.strings[f2.name.0 as int] == v.strings.subrange(
        0,
        v0.strings.len() as int,
    )[f2.name.0 as int]);
    assert(v.types[f2.tpe.0 as int] == v.types.subrange(
        0,
        v0.types.len() as int,
    )[f2.tpe.0 as int]);
    lemma_type_corr_extend(v0, v, f.tpe, v0.types[f2.tpe.0 as int]);
}

/// Arena extension is transitive.
pub proof fn lemma_extend_trans(a: AsmView, b: AsmView, c: AsmView)
    requires
        arenas_extend(a, b),
        arenas_extend(b, c),
    ensures
        arenas_extend(a, c),
{
    assert(c.strings.subrange(0, a.strings.len() as int) =~= a.strings);
    assert(c.types.subrange(0, a.types.len() as int) =~= a.types);
    assert(c.class_refs.subrange(0, a.class_refs.len() as int) =~= a.class_refs);
    assert(c.sigs.subrange(0, a.sigs.len() as int) =~= a.sigs);
    assert(c.method_refs.subrange(0, a.method_refs.len() as int) =~= a.method_refs);
    assert(c.fields.subrange(0, a.fields.len() as int) =~= a.fields);
    assert(c.statics.subrange(0, a.statics.len() as int) =~= a.statics);
    assert(c.nodes.subrange(0, a.nodes.len() as int) =~= a.nodes);
    assert(c.arg_lists.subrange(0, a.arg_lists.len() as int) =~= a.arg_lists);
    assert(c.roots.subrange(0, a.roots.len() as int) =~= a.roots);
}

/// Arena extension is reflexive.
pub proof fn lemma_extend_refl(a: AsmView)
    ensures
        arenas_extend(a, a),
{
    assert(a.strings.subrange(0, a.strings.len() as int) =~= a.strings);
    assert(a.types.subrange(0, a.types.len() as int) =~= a.types);
    assert(a.class_refs.subrange(0, a.class_refs.len() as int) =~= a.class_refs);
    assert(a.sigs.subrange(0, a.sigs.len() as int) =~= a.sigs);
    assert(a.method_refs.subrange(0, a.method_refs.len() as int) =~= a.method_refs);
    assert(a.fields.subrange(0, a.fields.len() as int) =~= a.fields);
    assert(a.statics.subrange(0, a.statics.len() as int) =~= a.statics);
    assert(a.nodes.subrange(0, a.nodes.len() as int) =~= a.nodes);
    assert(a.arg_lists.subrange(0, a.arg_lists.len() as int) =~= a.arg_lists);
    assert(a.roots.subrange(0, a.roots.len() as int) =~= a.roots);
}

impl ClassRef {
    /// Converts an owned class reference, interning its strings.
    pub fn from_v1(dt: &DotnetTypeRef, assembly: &mut Assembly) -> (c: ClassRef)
        requires
            old(assembly).inv(),
        ensures
            final(assembly).inv(),
            arenas_extend(old(assembly)@, final(assembly)@),
            same_tables(old(assembly)@, final(assembly)@),
            cref_ok(c, final(assembly)@),
            cref_corr(final(assembly)@, *dt, c),
    {
        let ghost v0 = assembly@;
        let name = assembly.alloc_string(IString::from_bytes(
            vstd::slice::slice_to_vec(dt.name.bytes().as_slice()),
        ));
        let ghost v1 = assembly@;
        let rasm = match &dt.rasm {
            Option::Some(a) => {
                let si = assembly.alloc_string(IString::from_bytes(
                    vstd::slice::slice_to_vec(a.bytes().as_slice()),
                ));
                Option::Some(si)
            },
            Option::None => Option::None,
        };
        proof {
            assert(assembly@.strings[name.0 as int] == assembly@.strings.subrange(
                0,
                v1.strings.len() as int,
            )[name.0 as int]);
        }
        ClassRef { name, rasm, is_valuetype: dt.is_valuetype }
    }
}


impl Type {
    /// Converts an owned type tree, interning every component type first so
    /// the composite's children pre-exist.
    pub fn from_v1(t: &TreeType, assembly: &mut Assembly) -> (r: Type)
        requires
            old(assembly).inv(),
        ensures
            final(assembly).inv(),
            arenas_extend(old(assembly)@, final(assembly)@),
            same_tables(old(assembly)@, final(assembly)@),
            type_ok(r, final(assembly)@),
            type_corr(final(assembly)@, *t, r),
        decreases *t,
    {
        match t {
            TreeType::Void => Type::Void,
            TreeType::Bool => Type::Bool,
            TreeType::PlatformChar => Type::PlatformChar,
            TreeType::PlatformString => Type::PlatformString,
            TreeType::PlatformObject => Type::PlatformObject,
            TreeType::Int(i) => Type::Int(*i),
            TreeType::Float(f) => Type::Float(*f),
            TreeType::Ptr(inner) => {
                let ghost v0 = assembly@;
                let it = Type::from_v1(inner, assembly);
                let ghost v1 = assembly@;
                let h = assembly.type_idx(it);
                proof {
                    lemma_extend_trans(v0, v1, assembly@);
                    lemma_type_corr_extend(v1, assembly@, **inner, it);
                }
                Type::Ptr(h)
            },
            TreeType::ManagedReference(inner) => {
                let ghost v0 = assembly@;
                let it = Type::from_v1(inner, assembly);
                let ghost v1 = assembly@;
                let h = assembly.type_idx(it);
                proof {
                    lemma_extend_trans(v0, v1, assembly@);
                    lemma_type_corr_extend(v1, assembly@, **inner, it);
                }
                Type::Ref(h)
            },
            TreeType::DotnetType(dt) => {
                let ghost v0 = assembly@;
                let c = ClassRef::from_v1(dt, assembly);
                let ghost v1 = assembly@;
                let ci = assembly.class_idx(c);
                proof {
                    lemma_extend_trans(v0, v1, assembly@);
                    lemma_cref_corr_extend(v1, assembly@, *dt, c);
                }
                Type::ClassRef(ci)
            },
            TreeType::DelegatePtr(sig) => {
                let ghost v0 = assembly@;
                let s2 = FnSig::from_v1(sig, assembly);
                let ghost v1 = assembly@;
                let ghost s2g = s2;
                let si = assembly.sig_idx(s2);
                proof {
                    lemma_extend_trans(v0, v1, assembly@);
                    lemma_sig_corr_extend(v1, assembly@, **sig, s2g);
                    assert(assembly@.sigs[si.0 as int].inputs@ == s2g.inputs@);
                    assert(sig_corr(assembly@, **sig, assembly@.sigs[si.0 as int]));
                }
                Type::FnPtr(si)
            },
        }
    }
}

impl FnSig {
    /// Converts an owned signature, interning the component types.
    pub fn from_v1(s: &TreeSig, assembly: &mut Assembly) -> (r: FnSig)
        requires
            old(assembly).inv(),
        ensures
            final(assembly).inv(),
            arenas_extend(old(assembly)@, final(assembly)@),
            same_tables(old(assembly)@, final(assembly)@),
            sig_corr(final(assembly)@, *s, r),
        decreases *s,
    {
        let ghost v0 = assembly@;
        let n = s.inputs.len();
        let mut inputs: Vec<Type> = Vec::new();
        let mut i: usize = 0;
        while i < n
            invariant
                assembly.inv(),
                arenas_extend(v0, assembly@),
                same_tables(v0, assembly@),
                n == s.inputs@.len(),
                i <= n,
                inputs@.len() == i,
                decreases_to!(*s => s.inputs),
                forall|j: int|
                    0 <= j < i ==> type_corr(assembly@, #[trigger] s.inputs@[j], inputs@[j]),
            decreases n - i,
        {
            proof {
                assert(decreases_to!(s.inputs => s.inputs[i as int]));
                assert(decreases_to!(*s => s.inputs[i as int]));
            }
            let ghost va = assembly@;
            let c = Type::from_v1(&s.inputs[i], assembly);
            proof {
                lemma_extend_trans(v0, va, assembly@);
                assert forall|j: int| 0 <= j < i implies type_corr(
                    assembly@,
                    #[trigger] s.inputs@[j],
                    inputs@[j],
                ) by {
                    lemma_type_corr_extend(va, assembly@, s.inputs@[j], inputs@[j]);
                }
            }
            inputs.push(c);
            i += 1;
        }
        let ghost vb = assembly@;
        let o = Type::from_v1(&s.output, assembly);
        proof {
            lemma_extend_trans(v0, vb, assembly@);
            assert forall|j: int| 0 <= j < n implies type_corr(
                assembly@,
                #[trigger] s.inputs@[j],
                inputs@[j],
            ) by {
                lemma_type_corr_extend(vb, assembly@, s.inputs@[j], inputs@[j]);
            }
        }
        FnSig { inputs, output: o }
    }
}

impl MethodRef {
    /// Converts an owned call-target descriptor into an interned method
    /// reference with the given dispatch kind.
    pub fn from_site(site: &CallSite, kind: MethodKind, assembly: &mut Assembly) -> (r:
        MethodRefIdx)
        requires
            old(assembly).inv(),
        ensures
            final(assembly).inv(),
            arenas_extend(old(assembly)@, final(assembly)@),
            same_tables(old(assembly)@, final(assembly)@),
            (r.0 as int) < final(assembly)@.method_refs.len(),
            site_corr(final(assembly)@, *site, final(assembly)@.method_refs[r.0 as int], kind),
    {
        let ghost v0 = assembly@;
        let class = match &site.class {
            Option::Some(dt) => {
                let c = ClassRef::from_v1(dt, assembly);
                let ci = assembly.class_idx(c);
                Option::Some(ci)
            },
            Option::None => Option::None,
        };
        let ghost v1 = assembly@;
        let s2 = FnSig::from_v1(&site.signature, assembly);
        let ghost v2 = assembly@;
        let ghost s2g = s2;
        let si = assembly.sig_idx(s2);
        let ghost v3 = assembly@;
        let name = assembly.alloc_string(site.name.duplicate());
        let mref = MethodRef { class, name, sig: si, kind };
        let ghost v4 = assembly@;
        let ri = assembly.methodref_idx(mref);
        proof {
            let v = assembly@;
            lemma_extend_trans(v0, v1, v2);
            lemma_extend_trans(v0, v2, v3);
            lemma_extend_trans(v0, v3, v4);
            lemma_extend_trans(v0, v4, v);
            assert(v.method_refs[ri.0 as int] == mref);
            assert(v.strings[name.0 as int] == v.strings.subrange(
                0,
                v4.strings.len() as int,
            )[name.0 as int]);
            lemma_sig_corr_extend(v2, v, *(&site.signature), s2g);
            assert(v.sigs[si.0 as int] == v.sigs.subrange(0, v3.sigs.len() as int)[si.0 as int]);
            assert(v3.sigs[si.0 as int].inputs@ == s2g.inputs@);
            assert(sig_corr(v, site.signature, v.sigs[si.0 as int]));
            match &site.class {
                Option::Some(dt) => {
                    let ci = class->Some_0;
                    assert(cref_corr(v1, *dt, v1.class_refs[ci.0 as int]));
                    lemma_cref_corr_extend(v1, v, *dt, v1.class_refs[ci.0 as int]);
                    assert(v.class_refs[ci.0 as int] == v.class_refs.subrange(
                        0,
                        v1.class_refs.len() as int,
                    )[ci.0 as int]);
                },
                Option::None => {},
            }
        }
        ri
    }
}

impl FieldDesc {
    /// Converts an owned field descriptor, interning its parts.
    pub fn from_v1(f: &FieldDescriptor, assembly: &mut Assembly) -> (r: FieldIdx)
        requires
            old(assembly).inv(),
        ensures
            final(assembly).inv(),
            arenas_extend(old(assembly)@, final(assembly)@),
            same_tables(old(assembly)@, final(assembly)@),
            (r.0 as int) < final(assembly)@.fields.len(),
            field_corr(final(assembly)@, *f, final(assembly)@.fields[r.0 as int]),
    {
        let ghost v0 = assembly@;
        let c = ClassRef::from_v1(&f.owner, assembly);
        let ghost v1 = assembly@;
        let owner = assembly.class_idx(c);
        let ghost v2 = assembly@;
        let t2 = Type::from_v1(&f.tpe, assembly);
        let ghost v3 = assembly@;
        let tpe = assembly.type_idx(t2);
        let ghost v4 = assembly@;
        let name = assembly.alloc_string(f.name.duplicate());
        let ghost v5 = assembly@;
        let fd = FieldDesc { owner, name, tpe };
        let fi = assembly.field_idx(fd);
        proof {
            let v = assembly@;
            lemma_extend_trans(v0, v1, v2);
            lemma_extend_trans(v0, v2, v3);
            lemma_extend_trans(v0, v3, v4);
            lemma_extend_trans(v0, v4, v5);
            lemma_extend_trans(v0, v5, v);
            assert(v.fields[fi.0 as int] == fd);
            lemma_cref_corr_extend(v1, v, f.owner, c);
            assert(v.class_refs[owner.0 as int] == v.class_refs.subrange(
                0,
                v2.class_refs.len() as int,
            )[owner.0 as int]);
            lemma_type_corr_extend(v3, v, f.tpe, t2);
            assert(v.types[tpe.0 as int] == v.types.subrange(
                0,
                v4.types.len() as int,
            )[tpe.0 as int]);
            assert(v.strings[name.0 as int] == v.strings.subrange(
                0,
                v5.strings.len() as int,
            )[name.0 as int]);
        }
        fi
    }
}

impl StaticFieldDesc {
    /// Converts an owned static-field descriptor, interning its parts.
    pub fn from_v1(f: &StaticFieldDescriptor, assembly: &mut Assembly) -> (r: StaticFieldIdx)
        requires
            old(assembly).inv(),
        ensures
            final(assembly).inv(),
            arenas_extend(old(assembly)@, final(assembly)@),
            same_tables(old(assembly)@, final(assembly)@),
            (r.0 as int) < final(assembly)@.statics.len(),
            sfld_corr(final(assembly)@, *f, final(assembly)@.statics[r.0 as int]),
    {
        let ghost v0 = assembly@;
        let c = ClassRef::from_v1(&f.owner, assembly);
        let ghost v1 = assembly@;
        let owner = assembly.class_idx(c);
        let ghost v2 = assembly@;
        let t2 = Type::from_v1(&f.tpe, assembly);
        let ghost v3 = assembly@;
        let tpe = assembly.type_idx(t2);
        let ghost v4 = assembly@;
        let name = assembly.alloc_string(f.name.duplicate());
        let ghost v5 = assembly@;
        let fd = StaticFieldDesc { owner, name, tpe };
        let fi = assembly.sfld_idx(fd);
        proof {
            let v = assembly@;
            lemma_extend_trans(v0, v1, v2);
            lemma_extend_trans(v0, v2, v3);
            lemma_extend_trans(v0, v3, v4);
            lemma_extend_trans(v0, v4, v5);
            lemma_extend_trans(v0, v5, v);
            assert(v.statics[fi.0 as int] == fd);
            lemma_cref_corr_extend(v1, v, f.owner, c);
            assert(v.class_refs[owner.0 as int] == v.class_refs.subrange(
                0,
                v2.class_refs.len() as int,
            )[owner.0 as int]);
            lemma_type_corr_extend(v3, v, f.tpe, t2);
            assert(v.types[tpe.0 as int] == v.types.subrange(
                0,
                v4.types.len() as int,
            )[tpe.0 as int]);
            assert(v.strings[name.0 as int] == v.strings.subrange(
                0,
                v5.strings.len() as int,
            )[name.0 as int]);
        }
        fi
    }
}


/// Does the pointer-reinterpretation result `p` stand for the owned target
/// type `t`?
pub open spec fn ptrcast_corr(v: AsmView, t: TreeType, p: PtrCastRes) -> bool {
    match t {
        TreeType::Int(i) => (i == crate::v2::tpe::Int::USize && p == PtrCastRes::USize) || (i
            == crate::v2::tpe::Int::ISize && p == PtrCastRes::ISize),
        TreeType::Ptr(inner) => match p {
            PtrCastRes::Ptr(ti) => (ti.0 as int) < v.types.len() && type_corr(
                v,
                *inner,
                v.types[ti.0 as int],
            ),
            _ => false,
        },
        TreeType::ManagedReference(inner) => match p {
            PtrCastRes::Ref(ti) => (ti.0 as int) < v.types.len() && type_corr(
                v,
                *inner,
                v.types[ti.0 as int],
            ),
            _ => false,
        },
        TreeType::DelegatePtr(sig) => match p {
            PtrCastRes::FnPtr(si) => (si.0 as int) < v.sigs.len() && sig_corr(
                v,
                *sig,
                v.sigs[si.0 as int],
            ),
            _ => false,
        },
        _ => false,
    }
}

/// Do the interned argument handles `hs` stand for the owned argument trees
/// `ts`, element by element and in order?
pub open spec fn args_corr(v: AsmView, ts: Seq<TreeNode>, hs: Seq<NodeIdx>) -> bool
    decreases ts,
{
    &&& ts.len() == hs.len()
    &&& forall|j: int|
        0 <= j < ts.len() ==> (#[trigger] hs[j].0 as int) < v.nodes.len() && node_corr(
            v,
            ts[j],
            v.nodes[hs[j].0 as int],
        )
}

/// Does the interned node `n` stand for the owned expression tree `t`, up
/// to handle renumbering? Children are compared by following their handles
/// into the node arena.
pub open spec fn node_corr(v: AsmView, t: TreeNode, n: CILNode) -> bool
    decreases t,
{
    match t {
        TreeNode::LdLoc(l) => n == CILNode::LdLoc(l as u64),
        TreeNode::LdLocA(l) => n == CILNode::LdLocA(l as u64),
        TreeNode::LdArg(l) => n == CILNode::LdArg(l as u64),
        TreeNode::LdArgA(l) => n == CILNode::LdArgA(l as u64),
        TreeNode::Ldc(c) => n == CILNode::Const(c),
        TreeNode::LdStr(s) => match n {
            CILNode::Const(c2) => match c2 {
                Const::PlatformString(si) => (si.0 as int) < v.strings.len()
                    && v.strings[si.0 as int]@ == s@,
                _ => false,
            },
            _ => false,
        },
        TreeNode::BinOp(a, b, op) => match n {
            CILNode::BinOp(x, y, o) => o == op && (x.0 as int) < v.nodes.len() && node_corr(
                v,
                *a,
                v.nodes[x.0 as int],
            ) && (y.0 as int) < v.nodes.len() && node_corr(v, *b, v.nodes[y.0 as int]),
            _ => false,
        },
        TreeNode::UnOp(a, op) => match n {
            CILNode::UnOp(x, o) => o == op && (x.0 as int) < v.nodes.len() && node_corr(
                v,
                *a,
                v.nodes[x.0 as int],
            ),
            _ => false,
        },
        TreeNode::IntCast { input, target, extend } => match n {
            CILNode::IntCast { input: x, target: t2, extend: e2 } => t2 == target && e2 == extend
                && (x.0 as int) < v.nodes.len() && node_corr(v, *input, v.nodes[x.0 as int]),
            _ => false,
        },
        TreeNode::FloatCast { input, target, is_signed } => match n {
            CILNode::FloatCast { input: x, target: t2, is_signed: s2 } => t2 == target && s2
                == is_signed && (x.0 as int) < v.nodes.len() && node_corr(
                v,
                *input,
                v.nodes[x.0 as int],
            ),
            _ => false,
        },
        TreeNode::RefToPtr(a) => match n {
            CILNode::RefToPtr(x) => (x.0 as int) < v.nodes.len() && node_corr(
                v,
                *a,
                v.nodes[x.0 as int],
            ),
            _ => false,
        },
        TreeNode::CastPtr { val, new_ptr } => match n {
            CILNode::PtrCast(x, p) => (x.0 as int) < v.nodes.len() && node_corr(
                v,
                *val,
                v.nodes[x.0 as int],
            ) && ptrcast_corr(v, *new_ptr, p),
            _ => false,
        },
        TreeNode::LdFieldAddress { addr, field } => match n {
            CILNode::LdFieldAddress { addr: x, field: fi } => (x.0 as int) < v.nodes.len()
                && node_corr(v, *addr, v.nodes[x.0 as int]) && (fi.0 as int) < v.fields.len()
                && field_corr(v, *field, v.fields[fi.0 as int]),
            _ => false,
        },
        TreeNode::LdField { addr, field } => match n {
            CILNode::LdField { addr: x, field: fi } => (x.0 as int) < v.nodes.len() && node_corr(
                v,
                *addr,
                v.nodes[x.0 as int],
            ) && (fi.0 as int) < v.fields.len() && field_corr(v, *field, v.fields[fi.0 as int]),
            _ => false,
        },
        TreeNode::LdInd { ptr, tpe, is_volatile } => match n {
            CILNode::LdInd { addr, tpe: ti, is_volatile: vol } => vol == is_volatile && (
            addr.0 as int) < v.nodes.len() && node_corr(v, *ptr, v.nodes[addr.0 as int]) && (
            ti.0 as int) < v.types.len() && type_corr(v, *tpe, v.types[ti.0 as int]),
            _ => false,
        },
        TreeNode::SizeOf(t2) => match n {
            CILNode::SizeOf(ti) => (ti.0 as int) < v.types.len() && type_corr(
                v,
                *t2,
                v.types[ti.0 as int],
            ),
            _ => false,
        },
        TreeNode::GetException => n == CILNode::GetException,
        TreeNode::IsInst { val, tpe } => match n {
            CILNode::IsInst(x, ti) => (x.0 as int) < v.nodes.len() && node_corr(
                v,
                *val,
                v.nodes[x.0 as int],
            ) && (ti.0 as int) < v.types.len() && type_corr(v, *tpe, v.types[ti.0 as int]),
            _ => false,
        },
        TreeNode::CheckedCast { val, tpe } => match n {
            CILNode::CheckedCast(x, ti) => (x.0 as int) < v.nodes.len() && node_corr(
                v,
                *val,
                v.nodes[x.0 as int],
            ) && (ti.0 as int) < v.types.len() && type_corr(v, *tpe, v.types[ti.0 as int]),
            _ => false,
        },
        TreeNode::Call { site, args } => match n {
            CILNode::Call(m, al) => (m.0 as int) < v.method_refs.len() && site_corr(
                v,
                *site,
                v.method_refs[m.0 as int],
                if site.is_static {
                    MethodKind::Static
                } else {
                    MethodKind::Instance
                },
            ) && (al.0 as int) < v.arg_lists.len() && args_corr(
                v,
                args@,
                v.arg_lists[al.0 as int].args@,
            ),
            _ => false,
        },
        TreeNode::CallVirt { site, args } => match n {
            CILNode::Call(m, al) => (m.0 as int) < v.method_refs.len() && site_corr(
                v,
                *site,
                v.method_refs[m.0 as int],
                MethodKind::Virtual,
            ) && (al.0 as int) < v.arg_lists.len() && args_corr(
                v,
                args@,
                v.arg_lists[al.0 as int].args@,
            ),
            _ => false,
        },
        TreeNode::NewObj { site, args } => match n {
            CILNode::Call(m, al) => (m.0 as int) < v.method_refs.len() && site_corr(
                v,
                *site,
                v.method_refs[m.0 as int],
                MethodKind::Constructor,
            ) && (al.0 as int) < v.arg_lists.len() && args_corr(
                v,
                args@,
                v.arg_lists[al.0 as int].args@,
            ),
            _ => false,
        },
        TreeNode::CallI { sig, fn_ptr, args } => match n {
            CILNode::CallI(x, si, al) => (x.0 as int) < v.nodes.len() && node_corr(
                v,
                *fn_ptr,
                v.nodes[x.0 as int],
            ) && (si.0 as int) < v.sigs.len() && sig_corr(v, *sig, v.sigs[si.0 as int]) && (
            al.0 as int) < v.arg_lists.len() && args_corr(v, args@, v.arg_lists[al.0 as int].args@),
            _ => false,
        },
        TreeNode::LocAlloc { size } => match n {
            CILNode::LocAlloc { size: x } => (x.0 as int) < v.nodes.len() && node_corr(
                v,
                *size,
                v.nodes[x.0 as int],
            ),
            _ => false,
        },
        TreeNode::LocAllocAligned { tpe, align } => match n {
            CILNode::LocAllocAligned { tpe: ti, align: a2 } => a2 == align && (ti.0 as int)
                < v.types.len() && type_corr(v, *tpe, v.types[ti.0 as int]),
            _ => false,
        },
        TreeNode::LdStaticField(sf) => match n {
            CILNode::LdStaticField(si) => (si.0 as int) < v.statics.len() && sfld_corr(
                v,
                *sf,
                v.statics[si.0 as int],
            ),
            _ => false,
        },
        TreeNode::LdFtn(site) => match n {
            CILNode::LdFtn(m) => (m.0 as int) < v.method_refs.len() && site_corr(
                v,
                *site,
                v.method_refs[m.0 as int],
                if site.is_static {
                    MethodKind::Static
                } else {
                    MethodKind::Instance
                },
            ),
            _ => false,
        },
        TreeNode::LdTypeToken(t2) => match n {
            CILNode::LdTypeToken(ti) => (ti.0 as int) < v.types.len() && type_corr(
                v,
                *t2,
                v.types[ti.0 as int],
            ),
            _ => false,
        },
        TreeNode::LdLen(a) => match n {
            CILNode::LdLen(x) => (x.0 as int) < v.nodes.len() && node_corr(
                v,
                *a,
                v.nodes[x.0 as int],
            ),
            _ => false,
        },
        TreeNode::LdElemRef { array, index } => match n {
            CILNode::LdElemRef { array: x, index: y } => (x.0 as int) < v.nodes.len() && node_corr(
                v,
                *array,
                v.nodes[x.0 as int],
            ) && (y.0 as int) < v.nodes.len() && node_corr(v, *index, v.nodes[y.0 as int]),
            _ => false,
        },
        TreeNode::UnboxAny { object, tpe } => match n {
            CILNode::UnboxAny { object: x, tpe: ti } => (x.0 as int) < v.nodes.len() && node_corr(
                v,
                *object,
                v.nodes[x.0 as int],
            ) && (ti.0 as int) < v.types.len() && type_corr(v, *tpe, v.types[ti.0 as int]),
            _ => false,
        },
        _ => false,
    }
}

/// `ptrcast_corr` survives arena growth.
pub proof fn lemma_ptrcast_corr_extend(v0: AsmView, v: AsmView, t: TreeType, p: PtrCastRes)
    requires
        ptrcast_corr(v0, t, p),
        arenas_extend(v0, v),
    ensures
        ptrcast_corr(v, t, p),
{
    match t {
        TreeType::Ptr(inner) => {
            let ti = p->Ptr_0;
            assert(v.types[ti.0 as int] == v.types.subrange(
                0,
                v0.types.len() as int,
            )[ti.0 as int]);
            lemma_type_corr_extend(v0, v, *inner, v0.types[ti.0 as int]);
        },
        TreeType::ManagedReference(inner) => {
            let ti = p->Ref_0;
            assert(v.types[ti.0 as int] == v.types.subrange(
                0,
                v0.types.len() as int,
            )[ti.0 as int]);
            lemma_type_corr_extend(v0, v, *inner, v0.types[ti.0 as int]);
        },
        TreeType::DelegatePtr(sig) => {
            let si = p->FnPtr_0;
            assert(v.sigs[si.0 as int] == v.sigs.subrange(0, v0.sigs.len() as int)[si.0 as int]);
            lemma_sig_corr_extend(v0, v, *sig, v0.sigs[si.0 as int]);
        },
        _ => {},
    }
}

/// `node_corr` survives arena growth: every handle it follows keeps its
/// meaning when the arenas are only appended to.
pub proof fn lemma_node_corr_extend(v0: AsmView, v: AsmView, t: TreeNode, n: CILNode)
    requires
        node_corr(v0, t, n),
        arenas_extend(v0, v),
    ensures
        node_corr(v, t, n),
    decreases t,
{
    assert forall|i: int| 0 <= i < v0.nodes.len() implies v.nodes[i] == v0.nodes[i] by {
        assert(v0.nodes[i] == v.nodes.subrange(0, v0.nodes.len() as int)[i]);
    }
    assert forall|i: int| 0 <= i < v0.strings.len() implies v.strings[i] == v0.strings[i] by {
        assert(v0.strings[i] == v.strings.subrange(0, v0.strings.len() as int)[i]);
    }
    assert forall|i: int| 0 <= i < v0.types.len() implies v.types[i] == v0.types[i] by {
        assert(v0.types[i] == v.types.subrange(0, v0.types.len() as int)[i]);
    }
    assert forall|i: int| 0 <= i < v0.fields.len() implies v.fields[i] == v0.fields[i] by {
        assert(v0.fields[i] == v.fields.subrange(0, v0.fields.len() as int)[i]);
    }
    assert forall|i: int| 0 <= i < v0.statics.len() implies v.statics[i] == v0.statics[i] by {
        assert(v0.statics[i] == v.statics.subrange(0, v0.statics.len() as int)[i]);
    }
    assert forall|i: int| 0 <= i < v0.method_refs.len() implies v.method_refs[i]
        == v0.method_refs[i] by {
        assert(v0.method_refs[i] == v.method_refs.subrange(0, v0.method_refs.len() as int)[i]);
    }
    assert forall|i: int| 0 <= i < v0.arg_lists.len() implies v.arg_lists[i] == v0.arg_lists[i] by {
        assert(v0.arg_lists[i] == v.arg_lists.subrange(0, v0.arg_lists.len() as int)[i]);
    }
    match t {
        TreeNode::BinOp(a, b, _) => {
            let x = n->BinOp_0;
            let y = n->BinOp_1;
            lemma_node_corr_extend(v0, v, *a, v0.nodes[x.0 as int]);
            lemma_node_corr_extend(v0, v, *b, v0.nodes[y.0 as int]);
        },
        TreeNode::UnOp(a, _) => {
            let x = n->UnOp_0;
            lemma_node_corr_extend(v0, v, *a, v0.nodes[x.0 as int]);
        },
        TreeNode::IntCast { input, .. } => {
            let x = n->IntCast_input;
            lemma_node_corr_extend(v0, v, *input, v0.nodes[x.0 as int]);
        },
        TreeNode::FloatCast { input, .. } => {
            let x = n->FloatCast_input;
            lemma_node_corr_extend(v0, v, *input, v0.nodes[x.0 as int]);
        },
        TreeNode::RefToPtr(a) => {
            let x = n->RefToPtr_0;
            lemma_node_corr_extend(v0, v, *a, v0.nodes[x.0 as int]);
        },
        TreeNode::CastPtr { val, new_ptr } => {
            let x = n->PtrCast_0;
            let p = n->PtrCast_1;
            lemma_node_corr_extend(v0, v, *val, v0.nodes[x.0 as int]);
            lemma_ptrcast_corr_extend(v0, v, *new_ptr, p);
        },
        TreeNode::LdFieldAddress { addr, field } => {
            let x = n->LdFieldAddress_addr;
            let fi = n->LdFieldAddress_field;
            lemma_node_corr_extend(v0, v, *addr, v0.nodes[x.0 as int]);
            lemma_field_corr_extend(v0, v, *field, v0.fields[fi.0 as int]);
        },
        TreeNode::LdField { addr, field } => {
            let x = n->LdField_addr;
            let fi = n->LdField_field;
            lemma_node_corr_extend(v0, v, *addr, v0.nodes[x.0 as int]);
            lemma_field_corr_extend(v0, v, *field, v0.fields[fi.0 as int]);
        },
        TreeNode::LdInd { ptr, tpe, .. } => {
            let x = n->LdInd_addr;
            let ti = n->LdInd_tpe;
            lemma_node_corr_extend(v0, v, *ptr, v0.nodes[x.0 as int]);
            lemma_type_corr_extend(v0, v, *tpe, v0.types[ti.0 as int]);
        },
        TreeNode::SizeOf(t2) => {
            let ti = n->SizeOf_0;
            lemma_type_corr_extend(v0, v, *t2, v0.types[ti.0 as int]);
        },
        TreeNode::IsInst { val, tpe } => {
            let x = n->IsInst_0;
            let ti = n->IsInst_1;
            lemma_node_corr_extend(v0, v, *val, v0.nodes[x.0 as int]);
            lemma_type_corr_extend(v0, v, *tpe, v0.types[ti.0 as int]);
        },
        TreeNode::CheckedCast { val, tpe } => {
            let x = n->CheckedCast_0;
            let ti = n->CheckedCast_1;
            lemma_node_corr_extend(v0, v, *val, v0.nodes[x.0 as int]);
            lemma_type_corr_extend(v0, v, *tpe, v0.types[ti.0 as int]);
        },
        TreeNode::Call { site, args } => {
            let m = n->Call_0;
            let al = n->Call_1;
            lemma_site_corr_extend(
                v0,
                v,
                *site,
                v0.method_refs[m.0 as int],
                if site.is_static {
                    MethodKind::Static
                } else {
                    MethodKind::Instance
                },
            );
            lemma_args_corr_extend(v0, v, args@, v0.arg_lists[al.0 as int].args@);
        },
        TreeNode::CallVirt { site, args } => {
            let m = n->Call_0;
            let al = n->Call_1;
            lemma_site_corr_extend(v0, v, *site, v0.method_refs[m.0 as int], MethodKind::Virtual);
            lemma_args_corr_extend(v0, v, args@, v0.arg_lists[al.0 as int].args@);
        },
        TreeNode::NewObj { site, args } => {
            let m = n->Call_0;
            let al = n->Call_1;
            lemma_site_corr_extend(
                v0,
                v,
                *site,
                v0.method_refs[m.0 as int],
                MethodKind::Constructor,
            );
            lemma_args_corr_extend(v0, v, args@, v0.arg_lists[al.0 as int].args@);
        },
        TreeNode::CallI { sig, fn_ptr, args } => {
            let x = n->CallI_0;
            let si = n->CallI_1;
            let al = n->CallI_2;
            lemma_node_corr_extend(v0, v, *fn_ptr, v0.nodes[x.0 as int]);
            lemma_sig_corr_extend(v0, v, *sig, v0.sigs[si.0 as int]);
            assert(v.sigs[si.0 as int] == v.sigs.subrange(0, v0.sigs.len() as int)[si.0 as int]);
            lemma_args_corr_extend(v0, v, args@, v0.arg_lists[al.0 as int].args@);
        },
        TreeNode::LocAlloc { size } => {
            let x = n->LocAlloc_size;
            lemma_node_corr_extend(v0, v, *size, v0.nodes[x.0 as int]);
        },
        TreeNode::LocAllocAligned { tpe, .. } => {
            let ti = n->LocAllocAligned_tpe;
            lemma_type_corr_extend(v0, v, *tpe, v0.types[ti.0 as int]);
        },
        TreeNode::LdStaticField(sf) => {
            let si = n->LdStaticField_0;
            lemma_sfld_corr_extend(v0, v, *sf, v0.statics[si.0 as int]);
        },
        TreeNode::LdFtn(site) => {
            let m = n->LdFtn_0;
            lemma_site_corr_extend(
                v0,
                v,
                *site,
                v0.method_refs[m.0 as int],
                if site.is_static {
                    MethodKind::Static
                } else {
                    MethodKind::Instance
                },
            );
        },
        TreeNode::LdTypeToken(t2) => {
            let ti = n->LdTypeToken_0;
            lemma_type_corr_extend(v0, v, *t2, v0.types[ti.0 as int]);
        },
        TreeNode::LdLen(a) => {
            let x = n->LdLen_0;
            lemma_node_corr_extend(v0, v, *a, v0.nodes[x.0 as int]);
        },
        TreeNode::LdElemRef { array, index } => {
            let x = n->LdElemRef_array;
            let y = n->LdElemRef_index;
            lemma_node_corr_extend(v0, v, *array, v0.nodes[x.0 as int]);
            lemma_node_corr_extend(v0, v, *index, v0.nodes[y.0 as int]);
        },
        TreeNode::UnboxAny { object, tpe } => {
            let x = n->UnboxAny_object;
            let ti = n->UnboxAny_tpe;
            lemma_node_corr_extend(v0, v, *object, v0.nodes[x.0 as int]);
            lemma_type_corr_extend(v0, v, *tpe, v0.types[ti.0 as int]);
        },
        _ => {},
    }
}

/// `args_corr` survives arena growth.
pub proof fn lemma_args_corr_extend(v0: AsmView, v: AsmView, ts: Seq<TreeNode>, hs: Seq<NodeIdx>)
    requires
        args_corr(v0, ts, hs),
        arenas_extend(v0, v),
    ensures
        args_corr(v, ts, hs),
    decreases ts,
{
    assert forall|j: int| 0 <= j < ts.len() implies (#[trigger] hs[j].0 as int) < v.nodes.len()
        && node_corr(v, ts[j], v.nodes[hs[j].0 as int]) by {
        assert(v0.nodes[hs[j].0 as int] == v.nodes.subrange(
            0,
            v0.nodes.len() as int,
        )[hs[j].0 as int]);
        lemma_node_corr_extend(v0, v, ts[j], v0.nodes[hs[j].0 as int]);
    }
}


/// A node handle keeps its meaning as the arenas grow.
pub proof fn lemma_node_at(v0: AsmView, v: AsmView, h: NodeIdx)
    requires
        arenas_extend(v0, v),
        (h.0 as int) < v0.nodes.len(),
    ensures
        (h.0 as int) < v.nodes.len(),
        v.nodes[h.0 as int] == v0.nodes[h.0 as int],
{
    assert(v0.nodes[h.0 as int] == v.nodes.subrange(0, v0.nodes.len() as int)[h.0 as int]);
}

impl CILNode {
    /// Converts one owned child expression and interns the result,
    /// returning its handle.
    pub fn conv_child(t: &TreeNode, assembly: &mut Assembly) -> (h: NodeIdx)
        requires
            old(assembly).inv(),
            node_wf(*t),
            node_no_markers(*t),
            node_no_subtrees(*t),
        ensures
            final(assembly).inv(),
            arenas_extend(old(assembly)@, final(assembly)@),
            same_tables(old(assembly)@, final(assembly)@),
            (h.0 as int) < final(assembly)@.nodes.len(),
            node_corr(final(assembly)@, *t, final(assembly)@.nodes[h.0 as int]),
        decreases *t, 2int,
    {
        let ghost v0 = assembly@;
        let n = CILNode::from_v1(t, assembly);
        let ghost v1 = assembly@;
        let h = assembly.node_idx(n);
        proof {
            lemma_extend_trans(v0, v1, assembly@);
            lemma_node_corr_extend(v1, assembly@, *t, n);
        }
        h
    }

    /// Converts an owned argument list: interns each argument expression in
    /// order, then interns the handle list itself.
    pub fn conv_args(args: &Vec<TreeNode>, assembly: &mut Assembly) -> (al: ArgListIdx)
        requires
            old(assembly).inv(),
            forall|j: int| 0 <= j < args@.len() ==> node_wf(#[trigger] args@[j]),
            forall|j: int| 0 <= j < args@.len() ==> node_no_markers(#[trigger] args@[j]),
            forall|j: int| 0 <= j < args@.len() ==> node_no_subtrees(#[trigger] args@[j]),
        ensures
            final(assembly).inv(),
            arenas_extend(old(assembly)@, final(assembly)@),
            same_tables(old(assembly)@, final(assembly)@),
            (al.0 as int) < final(assembly)@.arg_lists.len(),
            args_corr(final(assembly)@, args@, final(assembly)@.arg_lists[al.0 as int].args@),
        decreases args@, 3int,
    {
        let ghost v0 = assembly@;
        let n = args.len();
        let mut hs: Vec<NodeIdx> = Vec::new();
        let mut i: usize = 0;
        while i < n
            invariant
                assembly.inv(),
                arenas_extend(v0, assembly@),
                same_tables(v0, assembly@),
                n == args@.len(),
                i <= n,
                hs@.len() == i,
                forall|j: int| 0 <= j < n ==> node_wf(#[trigger] args@[j]),
                forall|j: int| 0 <= j < n ==> node_no_markers(#[trigger] args@[j]),
                forall|j: int| 0 <= j < n ==> node_no_subtrees(#[trigger] args@[j]),
                forall|j: int|
                    0 <= j < i ==> (#[trigger] hs@[j].0 as int) < assembly@.nodes.len()
                        && node_corr(assembly@, args@[j], assembly@.nodes[hs@[j].0 as int]),
            decreases n - i,
        {
            proof {
                assert(decreases_to!(args@ => args@[i as int]));
            }
            let ghost va = assembly@;
            let h = CILNode::conv_child(&args[i], assembly);
            proof {
                lemma_extend_trans(v0, va, assembly@);
                assert forall|j: int| 0 <= j < i implies (#[trigger] hs@[j].0 as int)
                    < assembly@.nodes.len() && node_corr(
                    assembly@,
                    args@[j],
                    assembly@.nodes[hs@[j].0 as int],
                ) by {
                    lemma_node_at(va, assembly@, hs@[j]);
                    lemma_node_corr_extend(va, assembly@, args@[j], va.nodes[hs@[j].0 as int]);
                }
            }
            hs.push(h);
            i += 1;
        }
        let ghost vb = assembly@;
        let al = assembly.arg_list_idx(hs);
        proof {
            lemma_extend_trans(v0, vb, assembly@);
            let v = assembly@;
            let stored = v.arg_lists[al.0 as int].args@;
            assert forall|j: int| 0 <= j < args@.len() implies (#[trigger] stored[j].0 as int)
                < v.nodes.len() && node_corr(v, args@[j], v.nodes[stored[j].0 as int]) by {
                lemma_node_at(vb, v, stored[j]);
                lemma_node_corr_extend(vb, v, args@[j], vb.nodes[stored[j].0 as int]);
            }
        }
        al
    }

    /// Converts an owned expression tree into its interned form, interning
    /// every child before its parent. This per-variant mapping is the
    /// specification of representation equivalence between the owned and
    /// the interned representation.
    pub fn from_v1(t: &TreeNode, assembly: &mut Assembly) -> (r: CILNode)
        requires
            old(assembly).inv(),
            node_wf(*t),
            node_no_markers(*t),
            node_no_subtrees(*t),
        ensures
            final(assembly).inv(),
            arenas_extend(old(assembly)@, final(assembly)@),
            same_tables(old(assembly)@, final(assembly)@),
            node_ok(r, final(assembly)@),
            node_corr(final(assembly)@, *t, r),
        decreases *t, 1int,
    {
        match t {
            TreeNode::LdLoc(l) => CILNode::LdLoc(*l as u64),
            TreeNode::LdLocA(l) => CILNode::LdLocA(*l as u64),
            TreeNode::LdArg(l) => CILNode::LdArg(*l as u64),
            TreeNode::LdArgA(l) => CILNode::LdArgA(*l as u64),
            TreeNode::Ldc(c) => CILNode::Const(*c),
            TreeNode::LdStr(s) => {
                let si = assembly.alloc_string(s.duplicate());
                CILNode::Const(Const::PlatformString(si))
            },
            TreeNode::BinOp(a, b, op) => {
                let ghost v0 = assembly@;
                let ha = CILNode::conv_child(a, assembly);
                let ghost v1 = assembly@;
                let hb = CILNode::conv_child(b, assembly);
                proof {
                    lemma_extend_trans(v0, v1, assembly@);
                    lemma_node_at(v1, assembly@, ha);
                    lemma_node_corr_extend(v1, assembly@, **a, v1.nodes[ha.0 as int]);
                }
                CILNode::BinOp(ha, hb, *op)
            },
            TreeNode::UnOp(a, op) => {
                let ha = CILNode::conv_child(a, assembly);
                CILNode::UnOp(ha, *op)
            },
            TreeNode::IntCast { input, target, extend } => {
                let h = CILNode::conv_child(input, assembly);
                CILNode::IntCast { input: h, target: *target, extend: *extend }
            },
            TreeNode::FloatCast { input, target, is_signed } => {
                let h = CILNode::conv_child(input, assembly);
                CILNode::FloatCast { input: h, target: *target, is_signed: *is_signed }
            },
            TreeNode::RefToPtr(a) => {
                let h = CILNode::conv_child(a, assembly);
                CILNode::RefToPtr(h)
            },
            TreeNode::CastPtr { val, new_ptr } => {
                let ghost v0 = assembly@;
                let h = CILNode::conv_child(val, assembly);
                let ghost v1 = assembly@;
                let p = match &**new_ptr {
                    TreeType::Int(i) => {
                        proof {
                            lemma_extend_refl(assembly@);
                        }
                        match i {
                            crate::v2::tpe::Int::USize => PtrCastRes::USize,
                            _ => PtrCastRes::ISize,
                        }
                    },
                    TreeType::Ptr(inner) => {
                        let it = Type::from_v1(inner, assembly);
                        let ghost vb = assembly@;
                        let ti = assembly.type_idx(it);
                        proof {
                            lemma_extend_trans(v1, vb, assembly@);
                            lemma_type_corr_extend(vb, assembly@, **inner, it);
                        }
                        PtrCastRes::Ptr(ti)
                    },
                    TreeType::ManagedReference(inner) => {
                        let it = Type::from_v1(inner, assembly);
                        let ghost vb = assembly@;
                        let ti = assembly.type_idx(it);
                        proof {
                            lemma_extend_trans(v1, vb, assembly@);
                            lemma_type_corr_extend(vb, assembly@, **inner, it);
                        }
                        PtrCastRes::Ref(ti)
                    },
                    TreeType::DelegatePtr(sig) => {
                        let s2 = FnSig::from_v1(sig, assembly);
                        let ghost vb = assembly@;
                        let ghost s2g = s2;
                        let si = assembly.sig_idx(s2);
                        proof {
                            lemma_extend_trans(v1, vb, assembly@);
                            lemma_sig_corr_extend(vb, assembly@, **sig, s2g);
                            assert(sig_corr(assembly@, **sig, assembly@.sigs[si.0 as int]));
                        }
                        PtrCastRes::FnPtr(si)
                    },
                    _ => {
                        proof {
                            assert(false);
                        }
                        PtrCastRes::USize
                    },
                };
                proof {
                    lemma_extend_trans(v0, v1, assembly@);
                    lemma_node_at(v1, assembly@, h);
                    lemma_node_corr_extend(v1, assembly@, **val, v1.nodes[h.0 as int]);
                }
                CILNode::PtrCast(h, p)
            },
            TreeNode::LdFieldAddress { addr, field } => {
                let ghost v0 = assembly@;
                let h = CILNode::conv_child(addr, assembly);
                let ghost v1 = assembly@;
                let fi = FieldDesc::from_v1(field, assembly);
                proof {
                    lemma_extend_trans(v0, v1, assembly@);
                    lemma_node_at(v1, assembly@, h);
                    lemma_node_corr_extend(v1, assembly@, **addr, v1.nodes[h.0 as int]);
                }
                CILNode::LdFieldAddress { addr: h, field: fi }
            },
            TreeNode::LdField { addr, field } => {
                let ghost v0 = assembly@;
                let h = CILNode::conv_child(addr, assembly);
                let ghost v1 = assembly@;
                let fi = FieldDesc::from_v1(field, assembly);
                proof {
                    lemma_extend_trans(v0, v1, assembly@);
                    lemma_node_at(v1, assembly@, h);
                    lemma_node_corr_extend(v1, assembly@, **addr, v1.nodes[h.0 as int]);
                }
                CILNode::LdField { addr: h, field: fi }
            },
            TreeNode::LdInd { ptr, tpe, is_volatile } => {
                let ghost v0 = assembly@;
                let h = CILNode::conv_child(ptr, assembly);
                let ghost v1 = assembly@;
                let t2 = Type::from_v1(tpe, assembly);
                let ghost v2 = assembly@;
                let ti = assembly.type_idx(t2);
                proof {
                    lemma_extend_trans(v0, v1, v2);
                    lemma_extend_trans(v0, v2, assembly@);
                    lemma_node_at(v1, assembly@, h);
                    lemma_node_corr_extend(v1, assembly@, **ptr, v1.nodes[h.0 as int]);
                    lemma_type_corr_extend(v2, assembly@, **tpe, t2);
                }
                CILNode::LdInd { addr: h, tpe: ti, is_volatile: *is_volatile }
            },
            TreeNode::SizeOf(t2) => {
                let c = Type::from_v1(t2, assembly);
                let ghost v1 = assembly@;
                let ti = assembly.type_idx(c);
                proof {
                    lemma_type_corr_extend(v1, assembly@, **t2, c);
                }
                CILNode::SizeOf(ti)
            },
            TreeNode::GetException => CILNode::GetException,
            TreeNode::IsInst { val, tpe } => {
                let ghost v0 = assembly@;
                let h = CILNode::conv_child(val, assembly);
                let ghost v1 = assembly@;
                let t2 = Type::from_v1(tpe, assembly);
                let ghost v2 = assembly@;
                let ti = assembly.type_idx(t2);
                proof {
                    lemma_extend_trans(v0, v1, v2);
                    lemma_extend_trans(v0, v2, assembly@);
                    lemma_node_at(v1, assembly@, h);
                    lemma_node_corr_extend(v1, assembly@, **val, v1.nodes[h.0 as int]);
                    lemma_type_corr_extend(v2, assembly@, **tpe, t2);
                }
                CILNode::IsInst(h, ti)
            },
            TreeNode::CheckedCast { val, tpe } => {
                let ghost v0 = assembly@;
                let h = CILNode::conv_child(val, assembly);
                let ghost v1 = assembly@;
                let t2 = Type::from_v1(tpe, assembly);
                let ghost v2 = assembly@;
                let ti = assembly.type_idx(t2);
                proof {
                    lemma_extend_trans(v0, v1, v2);
                    lemma_extend_trans(v0, v2, assembly@);
                    lemma_node_at(v1, assembly@, h);
                    lemma_node_corr_extend(v1, assembly@, **val, v1.nodes[h.0 as int]);
                    lemma_type_corr_extend(v2, assembly@, **tpe, t2);
                }
                CILNode::CheckedCast(h, ti)
            },
            TreeNode::Call { site, args } => {
                let ghost v0 = assembly@;
                let al = CILNode::conv_args(args, assembly);
                let ghost v1 = assembly@;
                let kind = if site.is_static {
                    MethodKind::Static
                } else {
                    MethodKind::Instance
                };
                let m = MethodRef::from_site(site, kind, assembly);
                proof {
                    lemma_extend_trans(v0, v1, assembly@);
                    assert(assembly@.arg_lists[al.0 as int] == assembly@.arg_lists.subrange(
                        0,
                        v1.arg_lists.len() as int,
                    )[al.0 as int]);
                    lemma_args_corr_extend(
                        v1,
                        assembly@,
                        args@,
                        v1.arg_lists[al.0 as int].args@,
                    );
                }
                CILNode::Call(m, al)
            },
            TreeNode::CallVirt { site, args } => {
                let ghost v0 = assembly@;
                let al = CILNode::conv_args(args, assembly);
                let ghost v1 = assembly@;
                let m = MethodRef::from_site(site, MethodKind::Virtual, assembly);
                proof {
                    lemma_extend_trans(v0, v1, assembly@);
                    assert(assembly@.arg_lists[al.0 as int] == assembly@.arg_lists.subrange(
                        0,
                        v1.arg_lists.len() as int,
                    )[al.0 as int]);
                    lemma_args_corr_extend(
                        v1,
                        assembly@,
                        args@,
                        v1.arg_lists[al.0 as int].args@,
                    );
                }
                CILNode::Call(m, al)
            },
            TreeNode::NewObj { site, args } => {
                let ghost v0 = assembly@;
                let al = CILNode::conv_args(args, assembly);
                let ghost v1 = assembly@;
                let m = MethodRef::from_site(site, MethodKind::Constructor, assembly);
                proof {
                    lemma_extend_trans(v0, v1, assembly@);
                    assert(assembly@.arg_lists[al.0 as int] == assembly@.arg_lists.subrange(
                        0,
                        v1.arg_lists.len() as int,
                    )[al.0 as int]);
                    lemma_args_corr_extend(
                        v1,
                        assembly@,
                        args@,
                        v1.arg_lists[al.0 as int].args@,
                    );
                }
                CILNode::Call(m, al)
            },
            TreeNode::CallI { sig, fn_ptr, args } => {
                let ghost v0 = assembly@;
                let h = CILNode::conv_child(fn_ptr, assembly);
                let ghost v1 = assembly@;
                let s2 = FnSig::from_v1(sig, assembly);
                let ghost v2 = assembly@;
                let ghost s2g = s2;
                let si = assembly.sig_idx(s2);
                let ghost v3 = assembly@;
                let al = CILNode::conv_args(args, assembly);
                proof {
                    let v = assembly@;
                    lemma_extend_trans(v0, v1, v2);
                    lemma_extend_trans(v0, v2, v3);
                    lemma_extend_trans(v0, v3, v);
                    lemma_node_at(v1, v, h);
                    lemma_node_corr_extend(v1, v, **fn_ptr, v1.nodes[h.0 as int]);
                    lemma_sig_corr_extend(v2, v3, **sig, s2g);
                    assert(v3.sigs[si.0 as int].inputs@ == s2g.inputs@);
                    assert(sig_corr(v3, **sig, v3.sigs[si.0 as int]));
                    lemma_sig_corr_extend(v3, v, **sig, v3.sigs[si.0 as int]);
                    assert(v.sigs[si.0 as int] == v.sigs.subrange(
                        0,
                        v3.sigs.len() as int,
                    )[si.0 as int]);
                }
                CILNode::CallI(h, si, al)
            },
            TreeNode::LocAlloc { size } => {
                let h = CILNode::conv_child(size, assembly);
                CILNode::LocAlloc { size: h }
            },
            TreeNode::LocAllocAligned { tpe, align } => {
                let c = Type::from_v1(tpe, assembly);
                let ghost v1 = assembly@;
                let ti = assembly.type_idx(c);
                proof {
                    lemma_type_corr_extend(v1, assembly@, **tpe, c);
                }
                CILNode::LocAllocAligned { tpe: ti, align: *align }
            },
            TreeNode::LdStaticField(sf) => {
                let si = StaticFieldDesc::from_v1(sf, assembly);
                CILNode::LdStaticField(si)
            },
            TreeNode::LdFtn(site) => {
                let kind = if site.is_static {
                    MethodKind::Static
                } else {
                    MethodKind::Instance
                };
                let m = MethodRef::from_site(site, kind, assembly);
                CILNode::LdFtn(m)
            },
            TreeNode::LdTypeToken(t2) => {
                let c = Type::from_v1(t2, assembly);
                let ghost v1 = assembly@;
                let ti = assembly.type_idx(c);
                proof {
                    lemma_type_corr_extend(v1, assembly@, **t2, c);
                }
                CILNode::LdTypeToken(ti)
            },
            TreeNode::LdLen(a) => {
                let h = CILNode::conv_child(a, assembly);
                CILNode::LdLen(h)
            },
            TreeNode::LdElemRef { array, index } => {
                let ghost v0 = assembly@;
                let ha = CILNode::conv_child(array, assembly);
                let ghost v1 = assembly@;
                let hb = CILNode::conv_child(index, assembly);
                proof {
                    lemma_extend_trans(v0, v1, assembly@);
                    lemma_node_at(v1, assembly@, ha);
                    lemma_node_corr_extend(v1, assembly@, **array, v1.nodes[ha.0 as int]);
                }
                CILNode::LdElemRef { array: ha, index: hb }
            },
            TreeNode::UnboxAny { object, tpe } => {
                let ghost v0 = assembly@;
                let h = CILNode::conv_child(object, assembly);
                let ghost v1 = assembly@;
                let t2 = Type::from_v1(tpe, assembly);
                let ghost v2 = assembly@;
                let ti = assembly.type_idx(t2);
                proof {
                    lemma_extend_trans(v0, v1, v2);
                    lemma_extend_trans(v0, v2, assembly@);
                    lemma_node_at(v1, assembly@, h);
                    lemma_node_corr_extend(v1, assembly@, **object, v1.nodes[h.0 as int]);
                    lemma_type_corr_extend(v2, assembly@, **tpe, t2);
                }
                CILNode::UnboxAny { object: h, tpe: ti }
            },
            _ => {
                proof {
                    assert(false);
                }
                CILNode::GetException
            },
        }
    }
}


/// Does the interned store-width tag stand for the owned one?
pub open spec fn stind_corr(v: AsmView, k: TreeStIndKind, k2: StIndKind) -> bool {
    match k {
        TreeStIndKind::I8 => k2 == StIndKind::I8,
        TreeStIndKind::I16 => k2 == StIndKind::I16,
        TreeStIndKind::I32 => k2 == StIndKind::I32,
        TreeStIndKind::I64 => k2 == StIndKind::I64,
        TreeStIndKind::ISize => k2 == StIndKind::ISize,
        TreeStIndKind::F32 => k2 == StIndKind::F32,
        TreeStIndKind::F64 => k2 == StIndKind::F64,
        TreeStIndKind::Ptr(t) => match k2 {
            StIndKind::Ptr(ti) => (ti.0 as int) < v.types.len() && type_corr(
                v,
                *t,
                v.types[ti.0 as int],
            ),
            _ => false,
        },
    }
}

/// Does the interned effect `r` stand for the owned effect tree `t`, up to
/// handle renumbering?
pub open spec fn root_corr(v: AsmView, t: TreeRoot, r: CILRoot) -> bool
    decreases t,
{
    match t {
        TreeRoot::STLoc { local, tree } => match r {
            CILRoot::StLoc { local: l2, tree: h } => l2 == local as u64 && (h.0 as int)
                < v.nodes.len() && node_corr(v, tree, v.nodes[h.0 as int]),
            _ => false,
        },
        TreeRoot::BTrue { target, sub_target, cond } => match r {
            CILRoot::Branch { target: t2, sub_target: s2, cond: c2 } => t2 == target && s2
                == sub_target && match c2 {
                BranchCond::True(h) => (h.0 as int) < v.nodes.len() && node_corr(
                    v,
                    *cond,
                    v.nodes[h.0 as int],
                ),
                _ => false,
            },
            _ => false,
        },
        TreeRoot::BFalse { target, sub_target, cond } => match r {
            CILRoot::Branch { target: t2, sub_target: s2, cond: c2 } => t2 == target && s2
                == sub_target && match c2 {
                BranchCond::False(h) => (h.0 as int) < v.nodes.len() && node_corr(
                    v,
                    *cond,
                    v.nodes[h.0 as int],
                ),
                _ => false,
            },
            _ => false,
        },
        TreeRoot::BEq { target, sub_target, a, b } => branch_cmp_corr(
            v,
            r,
            target,
            sub_target,
            *a,
            *b,
            CmpKind::Eq,
        ),
        TreeRoot::BNe { target, sub_target, a, b } => branch_cmp_corr(
            v,
            r,
            target,
            sub_target,
            *a,
            *b,
            CmpKind::Ne,
        ),
        TreeRoot::BLt { target, sub_target, a, b } => branch_cmp_corr(
            v,
            r,
            target,
            sub_target,
            *a,
            *b,
            CmpKind::Lt,
        ),
        TreeRoot::BLtUn { target, sub_target, a, b } => branch_cmp_corr(
            v,
            r,
            target,
            sub_target,
            *a,
            *b,
            CmpKind::LtUn,
        ),
        TreeRoot::BGt { target, sub_target, a, b } => branch_cmp_corr(
            v,
            r,
            target,
            sub_target,
            *a,
            *b,
            CmpKind::Gt,
        ),
        TreeRoot::BGtUn { target, sub_target, a, b } => branch_cmp_corr(
            v,
            r,
            target,
            sub_target,
            *a,
            *b,
            CmpKind::GtUn,
        ),
        TreeRoot::BLe { target, sub_target, a, b } => branch_cmp_corr(
            v,
            r,
            target,
            sub_target,
            *a,
            *b,
            CmpKind::Le,
        ),
        TreeRoot::BGe { target, sub_target, a, b } => branch_cmp_corr(
            v,
            r,
            target,
            sub_target,
            *a,
            *b,
            CmpKind::Ge,
        ),
        TreeRoot::GoTo { target, sub_target } => r == (CILRoot::Branch {
            target,
            sub_target,
            cond: BranchCond::Always,
        }),
        TreeRoot::Call { site, args } => match r {
            CILRoot::Call { method, args: al } => (method.0 as int) < v.method_refs.len()
                && site_corr(
                v,
                *site,
                v.method_refs[method.0 as int],
                if site.is_static {
                    MethodKind::Static
                } else {
                    MethodKind::Instance
                },
            ) && (al.0 as int) < v.arg_lists.len() && args_corr(
                v,
                args@,
                v.arg_lists[al.0 as int].args@,
            ),
            _ => false,
        },
        TreeRoot::CallVirt { site, args } => match r {
            CILRoot::CallVirt { method, args: al } => (method.0 as int) < v.method_refs.len()
                && site_corr(v, *site, v.method_refs[method.0 as int], MethodKind::Virtual) && (
            al.0 as int) < v.arg_lists.len() && args_corr(v, args@, v.arg_lists[al.0 as int].args@),
            _ => false,
        },
        TreeRoot::CallI { sig, fn_ptr, args } => match r {
            CILRoot::CallI { fn_ptr: h, sig: si, args: al } => (h.0 as int) < v.nodes.len()
                && node_corr(v, *fn_ptr, v.nodes[h.0 as int]) && (si.0 as int) < v.sigs.len()
                && sig_corr(v, *sig, v.sigs[si.0 as int]) && (al.0 as int) < v.arg_lists.len()
                && args_corr(v, args@, v.arg_lists[al.0 as int].args@),
            _ => false,
        },
        TreeRoot::SetField { addr, value, desc } => match r {
            CILRoot::SetField { addr: x, value: y, field: fi } => (x.0 as int) < v.nodes.len()
                && node_corr(v, *addr, v.nodes[x.0 as int]) && (y.0 as int) < v.nodes.len()
                && node_corr(v, *value, v.nodes[y.0 as int]) && (fi.0 as int) < v.fields.len()
                && field_corr(v, *desc, v.fields[fi.0 as int]),
            _ => false,
        },
        TreeRoot::SetStaticField { descr, value } => match r {
            CILRoot::SetStaticField { field: fi, value: y } => (y.0 as int) < v.nodes.len()
                && node_corr(v, value, v.nodes[y.0 as int]) && (fi.0 as int) < v.statics.len()
                && sfld_corr(v, *descr, v.statics[fi.0 as int]),
            _ => false,
        },
        TreeRoot::CpBlk { dst, src, len } => match r {
            CILRoot::CpBlk { dst: x, src: y, len: z } => (x.0 as int) < v.nodes.len() && node_corr(
                v,
                *dst,
                v.nodes[x.0 as int],
            ) && (y.0 as int) < v.nodes.len() && node_corr(v, *src, v.nodes[y.0 as int]) && (
            z.0 as int) < v.nodes.len() && node_corr(v, *len, v.nodes[z.0 as int]),
            _ => false,
        },
        TreeRoot::STInd { addr, value, kind } => match r {
            CILRoot::StInd { addr: x, value: y, kind: k2 } => (x.0 as int) < v.nodes.len()
                && node_corr(v, *addr, v.nodes[x.0 as int]) && (y.0 as int) < v.nodes.len()
                && node_corr(v, *value, v.nodes[y.0 as int]) && stind_corr(v, kind, k2),
            _ => false,
        },
        TreeRoot::STObj { tpe, addr_calc, value_calc } => match r {
            CILRoot::StObj { tpe: ti, addr: x, value: y } => (ti.0 as int) < v.types.len()
                && type_corr(v, *tpe, v.types[ti.0 as int]) && (x.0 as int) < v.nodes.len()
                && node_corr(v, *addr_calc, v.nodes[x.0 as int]) && (y.0 as int) < v.nodes.len()
                && node_corr(v, *value_calc, v.nodes[y.0 as int]),
            _ => false,
        },
        TreeRoot::STArg { arg, tree } => match r {
            CILRoot::StArg { arg: a2, tree: h } => a2 == arg as u64 && (h.0 as int)
                < v.nodes.len() && node_corr(v, tree, v.nodes[h.0 as int]),
            _ => false,
        },
        TreeRoot::Break => r == CILRoot::Break,
        TreeRoot::Nop => r == CILRoot::Nop,
        TreeRoot::InitBlk { dst, val, count } => match r {
            CILRoot::InitBlk { dst: x, val: y, count: z } => (x.0 as int) < v.nodes.len()
                && node_corr(v, *dst, v.nodes[x.0 as int]) && (y.0 as int) < v.nodes.len()
                && node_corr(v, *val, v.nodes[y.0 as int]) && (z.0 as int) < v.nodes.len()
                && node_corr(v, *count, v.nodes[z.0 as int]),
            _ => false,
        },
        TreeRoot::Ret { tree } => match r {
            CILRoot::Ret { tree: h } => (h.0 as int) < v.nodes.len() && node_corr(
                v,
                tree,
                v.nodes[h.0 as int],
            ),
            _ => false,
        },
        TreeRoot::Pop { tree } => match r {
            CILRoot::Pop { tree: h } => (h.0 as int) < v.nodes.len() && node_corr(
                v,
                tree,
                v.nodes[h.0 as int],
            ),
            _ => false,
        },
        TreeRoot::VoidRet => r == CILRoot::VoidRet,
        TreeRoot::Throw(tree) => match r {
            CILRoot::Throw(h) => (h.0 as int) < v.nodes.len() && node_corr(
                v,
                tree,
                v.nodes[h.0 as int],
            ),
            _ => false,
        },
        TreeRoot::ReThrow => r == CILRoot::ReThrow,
        TreeRoot::JumpingPad { source, target } => r == (CILRoot::JumpingPad { source, target }),
        TreeRoot::SourceFileInfo { line_start, line_end, col_start, col_end, file } => match r {
            CILRoot::SourceFileInfo {
                line_start: l1,
                line_end: l2,
                col_start: c1,
                col_end: c2,
                file: fi,
            } => l1 == line_start && l2 == line_end && c1 == col_start && c2 == col_end && (
            fi.0 as int) < v.strings.len() && v.strings[fi.0 as int]@ == file@,
            _ => false,
        },
        TreeRoot::Volatile(inner) => match r {
            CILRoot::Volatile(ri) => (ri.0 as int) < v.roots.len() && root_corr(
                v,
                *inner,
                v.roots[ri.0 as int],
            ),
            _ => false,
        },
        _ => false,
    }
}

/// Does `r` stand for an ordered-comparison branch with the given pair,
/// operands and kind?
pub open spec fn branch_cmp_corr(
    v: AsmView,
    r: CILRoot,
    target: u32,
    sub_target: u32,
    a: TreeNode,
    b: TreeNode,
    k: CmpKind,
) -> bool
    decreases a, b,
{
    match r {
        CILRoot::Branch { target: t2, sub_target: s2, cond: c2 } => t2 == target && s2
            == sub_target && match c2 {
            BranchCond::Cmp(x, y, k2) => k2 == k && (x.0 as int) < v.nodes.len() && node_corr(
                v,
                a,
                v.nodes[x.0 as int],
            ) && (y.0 as int) < v.nodes.len() && node_corr(v, b, v.nodes[y.0 as int]),
            _ => false,
        },
        _ => false,
    }
}

/// `root_corr` survives arena growth.
pub proof fn lemma_root_corr_extend(v0: AsmView, v: AsmView, t: TreeRoot, r: CILRoot)
    requires
        root_corr(v0, t, r),
        arenas_extend(v0, v),
    ensures
        root_corr(v, t, r),
    decreases t,
{
    assert forall|i: int| 0 <= i < v0.nodes.len() implies v.nodes[i] == v0.nodes[i] by {
        assert(v0.nodes[i] == v.nodes.subrange(0, v0.nodes.len() as int)[i]);
    }
    assert forall|i: int| 0 <= i < v0.roots.len() implies v.roots[i] == v0.roots[i] by {
        assert(v0.roots[i] == v.roots.subrange(0, v0.roots.len() as int)[i]);
    }
    assert forall|i: int| 0 <= i < v0.strings.len() implies v.strings[i] == v0.strings[i] by {
        assert(v0.strings[i] == v.strings.subrange(0, v0.strings.len() as int)[i]);
    }
    assert forall|i: int| 0 <= i < v0.types.len() implies v.types[i] == v0.types[i] by {
        assert(v0.types[i] == v.types.subrange(0, v0.types.len() as int)[i]);
    }
    assert forall|i: int| 0 <= i < v0.fields.len() implies v.fields[i] == v0.fields[i] by {
        assert(v0.fields[i] == v.fields.subrange(0, v0.fields.len() as int)[i]);
    }
    assert forall|i: int| 0 <= i < v0.statics.len() implies v.statics[i] == v0.statics[i] by {
        assert(v0.statics[i] == v.statics.subrange(0, v0.statics.len() as int)[i]);
    }
    assert forall|i: int| 0 <= i < v0.method_refs.len() implies v.method_refs[i]
        == v0.method_refs[i] by {
        assert(v0.method_refs[i] == v.method_refs.subrange(0, v0.method_refs.len() as int)[i]);
    }
    assert forall|i: int| 0 <= i < v0.arg_lists.len() implies v.arg_lists[i] == v0.arg_lists[i] by {
        assert(v0.arg_lists[i] == v.arg_lists.subrange(0, v0.arg_lists.len() as int)[i]);
    }
    match t {
        TreeRoot::STLoc { tree, .. } => {
            let h = r->StLoc_tree;
            lemma_node_corr_extend(v0, v, tree, v0.nodes[h.0 as int]);
        },
        TreeRoot::BTrue { cond, .. } => {
            let c2 = r->Branch_cond;
            let h = c2->True_0;
            lemma_node_corr_extend(v0, v, *cond, v0.nodes[h.0 as int]);
        },
        TreeRoot::BFalse { cond, .. } => {
            let c2 = r->Branch_cond;
            let h = c2->False_0;
            lemma_node_corr_extend(v0, v, *cond, v0.nodes[h.0 as int]);
        },
        TreeRoot::BEq { a, b, .. } => {
            lemma_branch_cmp_extend(v0, v, r, *a, *b);
        },
        TreeRoot::BNe { a, b, .. } => {
            lemma_branch_cmp_extend(v0, v, r, *a, *b);
        },
        TreeRoot::BLt { a, b, .. } => {
            lemma_branch_cmp_extend(v0, v, r, *a, *b);
        },
        TreeRoot::BLtUn { a, b, .. } => {
            lemma_branch_cmp_extend(v0, v, r, *a, *b);
        },
        TreeRoot::BGt { a, b, .. } => {
            lemma_branch_cmp_extend(v0, v, r, *a, *b);
        },
        TreeRoot::BGtUn { a, b, .. } => {
            lemma_branch_cmp_extend(v0, v, r, *a, *b);
        },
        TreeRoot::BLe { a, b, .. } => {
            lemma_branch_cmp_extend(v0, v, r, *a, *b);
        },
        TreeRoot::BGe { a, b, .. } => {
            lemma_branch_cmp_extend(v0, v, r, *a, *b);
        },
        TreeRoot::Call { site, args } => {
            let m = r->Call_method;
            let al = r->Call_args;
            lemma_site_corr_extend(
                v0,
                v,
                *site,
                v0.method_refs[m.0 as int],
                if site.is_static {
                    MethodKind::Static
                } else {
                    MethodKind::Instance
                },
            );
            lemma_args_corr_extend(v0, v, args@, v0.arg_lists[al.0 as int].args@);
        },
        TreeRoot::CallVirt { site, args } => {
            let m = r->CallVirt_method;
            let al = r->CallVirt_args;
            lemma_site_corr_extend(v0, v, *site, v0.method_refs[m.0 as int], MethodKind::Virtual);
            lemma_args_corr_extend(v0, v, args@, v0.arg_lists[al.0 as int].args@);
        },
        TreeRoot::CallI { sig, fn_ptr, args } => {
            let h = r->CallI_fn_ptr;
            let si = r->CallI_sig;
            let al = r->CallI_args;
            lemma_node_corr_extend(v0, v, *fn_ptr, v0.nodes[h.0 as int]);
            lemma_sig_corr_extend(v0, v, *sig, v0.sigs[si.0 as int]);
            assert(v.sigs[si.0 as int] == v.sigs.subrange(0, v0.sigs.len() as int)[si.0 as int]);
            lemma_args_corr_extend(v0, v, args@, v0.arg_lists[al.0 as int].args@);
        },
        TreeRoot::SetField { addr, value, desc } => {
            let x = r->SetField_addr;
            let y = r->SetField_value;
            let fi = r->SetField_field;
            lemma_node_corr_extend(v0, v, *addr, v0.nodes[x.0 as int]);
            lemma_node_corr_extend(v0, v, *value, v0.nodes[y.0 as int]);
            lemma_field_corr_extend(v0, v, *desc, v0.fields[fi.0 as int]);
        },
        TreeRoot::SetStaticField { descr, value } => {
            let y = r->SetStaticField_value;
            let fi = r->SetStaticField_field;
            lemma_node_corr_extend(v0, v, value, v0.nodes[y.0 as int]);
            lemma_sfld_corr_extend(v0, v, *descr, v0.statics[fi.0 as int]);
        },
        TreeRoot::CpBlk { dst, src, len } => {
            let x = r->CpBlk_dst;
            let y = r->CpBlk_src;
            let z = r->CpBlk_len;
            lemma_node_corr_extend(v0, v, *dst, v0.nodes[x.0 as int]);
            lemma_node_corr_extend(v0, v, *src, v0.nodes[y.0 as int]);
            lemma_node_corr_extend(v0, v, *len, v0.nodes[z.0 as int]);
        },
        TreeRoot::STInd { addr, value, kind } => {
            let x = r->StInd_addr;
            let y = r->StInd_value;
            let k2 = r->StInd_kind;
            lemma_node_corr_extend(v0, v, *addr, v0.nodes[x.0 as int]);
            lemma_node_corr_extend(v0, v, *value, v0.nodes[y.0 as int]);
            match kind {
                TreeStIndKind::Ptr(t2) => {
                    let ti = k2->Ptr_0;
                    assert(v.types[ti.0 as int] == v.types.subrange(
                        0,
                        v0.types.len() as int,
                    )[ti.0 as int]);
                    lemma_type_corr_extend(v0, v, *t2, v0.types[ti.0 as int]);
                },
                _ => {},
            }
        },
        TreeRoot::STObj { tpe, addr_calc, value_calc } => {
            let ti = r->StObj_tpe;
            let x = r->StObj_addr;
            let y = r->StObj_value;
            lemma_type_corr_extend(v0, v, *tpe, v0.types[ti.0 as int]);
            lemma_node_corr_extend(v0, v, *addr_calc, v0.nodes[x.0 as int]);
            lemma_node_corr_extend(v0, v, *value_calc, v0.nodes[y.0 as int]);
        },
        TreeRoot::STArg { tree, .. } => {
            let h = r->StArg_tree;
            lemma_node_corr_extend(v0, v, tree, v0.nodes[h.0 as int]);
        },
        TreeRoot::InitBlk { dst, val, count } => {
            let x = r->InitBlk_dst;
            let y = r->InitBlk_val;
            let z = r->InitBlk_count;
            lemma_node_corr_extend(v0, v, *dst, v0.nodes[x.0 as int]);
            lemma_node_corr_extend(v0, v, *val, v0.nodes[y.0 as int]);
            lemma_node_corr_extend(v0, v, *count, v0.nodes[z.0 as int]);
        },
        TreeRoot::Ret { tree } => {
            let h = r->Ret_tree;
            lemma_node_corr_extend(v0, v, tree, v0.nodes[h.0 as int]);
        },
        TreeRoot::Pop { tree } => {
            let h = r->Pop_tree;
            lemma_node_corr_extend(v0, v, tree, v0.nodes[h.0 as int]);
        },
        TreeRoot::Throw(tree) => {
            let h = r->Throw_0;
            lemma_node_corr_extend(v0, v, tree, v0.nodes[h.0 as int]);
        },
        TreeRoot::Volatile(inner) => {
            let ri = r->Volatile_0;
            lemma_root_corr_extend(v0, v, *inner, v0.roots[ri.0 as int]);
        },
        _ => {},
    }
}

/// `branch_cmp_corr` survives arena growth.
pub proof fn lemma_branch_cmp_extend(v0: AsmView, v: AsmView, r: CILRoot, a: TreeNode, b: TreeNode)
    requires
        arenas_extend(v0, v),
    ensures
        forall|target: u32, sub_target: u32, k: CmpKind|
            branch_cmp_corr(v0, r, target, sub_target, a, b, k) ==> #[trigger] branch_cmp_corr(
                v,
                r,
                target,
                sub_target,
                a,
                b,
                k,
            ),
    decreases a, b,
{
    assert forall|target: u32, sub_target: u32, k: CmpKind|
        branch_cmp_corr(v0, r, target, sub_target, a, b, k) implies #[trigger] branch_cmp_corr(
        v,
        r,
        target,
        sub_target,
        a,
        b,
        k,
    ) by {
        let c2 = r->Branch_cond;
        let x = c2->Cmp_0;
        let y = c2->Cmp_1;
        assert(v.nodes[x.0 as int] == v.nodes.subrange(0, v0.nodes.len() as int)[x.0 as int]);
        assert(v.nodes[y.0 as int] == v.nodes.subrange(0, v0.nodes.len() as int)[y.0 as int]);
        lemma_node_corr_extend(v0, v, a, v0.nodes[x.0 as int]);
        lemma_node_corr_extend(v0, v, b, v0.nodes[y.0 as int]);
    }
}


impl CILRoot {
    /// Converts an owned effect tree into its interned form, interning
    /// every operand expression first.
    pub fn from_v1(t: &TreeRoot, assembly: &mut Assembly) -> (r: CILRoot)
        requires
            old(assembly).inv(),
            root_wf(*t),
            root_no_markers(*t),
            root_no_subtrees(*t),
        ensures
            final(assembly).inv(),
            arenas_extend(old(assembly)@, final(assembly)@),
            same_tables(old(assembly)@, final(assembly)@),
            root_ok(r, final(assembly)@),
            root_corr(final(assembly)@, *t, r),
        decreases *t, 1int,
    {
        match t {
            TreeRoot::STLoc { local, tree } => {
                let h = CILNode::conv_child(tree, assembly);
                CILRoot::StLoc { local: *local as u64, tree: h }
            },
            TreeRoot::BTrue { target, sub_target, cond } => {
                let h = CILNode::conv_child(cond, assembly);
                CILRoot::Branch {
                    target: *target,
                    sub_target: *sub_target,
                    cond: BranchCond::True(h),
                }
            },
            TreeRoot::BFalse { target, sub_target, cond } => {
                let h = CILNode::conv_child(cond, assembly);
                CILRoot::Branch {
                    target: *target,
                    sub_target: *sub_target,
                    cond: BranchCond::False(h),
                }
            },
            TreeRoot::BEq { target, sub_target, a, b } => {
                let ghost v0 = assembly@;
                let x = CILNode::conv_child(a, assembly);
                let ghost v1 = assembly@;
                let y = CILNode::conv_child(b, assembly);
                proof {
                    lemma_extend_trans(v0, v1, assembly@);
                    lemma_node_at(v1, assembly@, x);
                    lemma_node_corr_extend(v1, assembly@, **a, v1.nodes[x.0 as int]);
                }
                CILRoot::Branch {
                    target: *target,
                    sub_target: *sub_target,
                    cond: BranchCond::Cmp(x, y, CmpKind::Eq),
                }
            },
            TreeRoot::BNe { target, sub_target, a, b } => {
                let ghost v0 = assembly@;
                let x = CILNode::conv_child(a, assembly);
                let ghost v1 = assembly@;
                let y = CILNode::conv_child(b, assembly);
                proof {
                    lemma_extend_trans(v0, v1, assembly@);
                    lemma_node_at(v1, assembly@, x);
                    lemma_node_corr_extend(v1, assembly@, **a, v1.nodes[x.0 as int]);
                }
                CILRoot::Branch {
                    target: *target,
                    sub_target: *sub_target,
                    cond: BranchCond::Cmp(x, y, CmpKind::Ne),
                }
            },
            TreeRoot::BLt { target, sub_target, a, b } => {
                let ghost v0 = assembly@;
                let x = CILNode::conv_child(a, assembly);
                let ghost v1 = assembly@;
                let y = CILNode::conv_child(b, assembly);
                proof {
                    lemma_extend_trans(v0, v1, assembly@);
                    lemma_node_at(v1, assembly@, x);
                    lemma_node_corr_extend(v1, assembly@, **a, v1.nodes[x.0 as int]);
                }
                CILRoot::Branch {
                    target: *target,
                    sub_target: *sub_target,
                    cond: BranchCond::Cmp(x, y, CmpKind::Lt),
                }
            },
            TreeRoot::BLtUn { target, sub_target, a, b } => {
                let ghost v0 = assembly@;
                let x = CILNode::conv_child(a, assembly);
                let ghost v1 = assembly@;
                let y = CILNode::conv_child(b, assembly);
                proof {
                    lemma_extend_trans(v0, v1, assembly@);
                    lemma_node_at(v1, assembly@, x);
                    lemma_node_corr_extend(v1, assembly@, **a, v1.nodes[x.0 as int]);
                }
                CILRoot::Branch {
                    target: *target,
                    sub_target: *sub_target,
                    cond: BranchCond::Cmp(x, y, CmpKind::LtUn),
                }
            },
            TreeRoot::BGt { target, sub_target, a, b } => {
                let ghost v0 = assembly@;
                let x = CILNode::conv_child(a, assembly);
                let ghost v1 = assembly@;
                let y = CILNode::conv_child(b, assembly);
                proof {
                    lemma_extend_trans(v0, v1, assembly@);
                    lemma_node_at(v1, assembly@, x);
                    lemma_node_corr_extend(v1, assembly@, **a, v1.nodes[x.0 as int]);
                }
                CILRoot::Branch {
                    target: *target,
                    sub_target: *sub_target,
                    cond: BranchCond::Cmp(x, y, CmpKind::Gt),
                }
            },
            TreeRoot::BGtUn { target, sub_target, a, b } => {
                let ghost v0 = assembly@;
                let x = CILNode::conv_child(a, assembly);
                let ghost v1 = assembly@;
                let y = CILNode::conv_child(b, assembly);
                proof {
                    lemma_extend_trans(v0, v1, assembly@);
                    lemma_node_at(v1, assembly@, x);
                    lemma_node_corr_extend(v1, assembly@, **a, v1.nodes[x.0 as int]);
                }
                CILRoot::Branch {
                    target: *target,
                    sub_target: *sub_target,
                    cond: BranchCond::Cmp(x, y, CmpKind::GtUn),
                }
            },
            TreeRoot::BLe { target, sub_target, a, b } => {
                let ghost v0 = assembly@;
                let x = CILNode::conv_child(a, assembly);
                let ghost v1 = assembly@;
                let y = CILNode::conv_child(b, assembly);
                proof {
                    lemma_extend_trans(v0, v1, assembly@);
                    lemma_node_at(v1, assembly@, x);
                    lemma_node_corr_extend(v1, assembly@, **a, v1.nodes[x.0 as int]);
                }
                CILRoot::Branch {
                    target: *target,
                    sub_target: *sub_target,
                    cond: BranchCond::Cmp(x, y, CmpKind::Le),
                }
            },
            TreeRoot::BGe { target, sub_target, a, b } => {
                let ghost v0 = assembly@;
                let x = CILNode::conv_child(a, assembly);
                let ghost v1 = assembly@;
                let y = CILNode::conv_child(b, assembly);
                proof {
                    lemma_extend_trans(v0, v1, assembly@);
                    lemma_node_at(v1, assembly@, x);
                    lemma_node_corr_extend(v1, assembly@, **a, v1.nodes[x.0 as int]);
                }
                CILRoot::Branch {
                    target: *target,
                    sub_target: *sub_target,
                    cond: BranchCond::Cmp(x, y, CmpKind::Ge),
                }
            },
            TreeRoot::GoTo { target, sub_target } => {
                proof {
                    lemma_extend_refl(assembly@);
                }
                CILRoot::Branch {
                    target: *target,
                    sub_target: *sub_target,
                    cond: BranchCond::Always,
                }
            },
            TreeRoot::Call { site, args } => {
                let ghost v0 = assembly@;
                let al = CILNode::conv_args(args, assembly);
                let ghost v1 = assembly@;
                let kind = if site.is_static {
                    MethodKind::Static
                } else {
                    MethodKind::Instance
                };
                let m = MethodRef::from_site(site, kind, assembly);
                proof {
                    lemma_extend_trans(v0, v1, assembly@);
                    assert(assembly@.arg_lists[al.0 as int] == assembly@.arg_lists.subrange(
                        0,
                        v1.arg_lists.len() as int,
                    )[al.0 as int]);
                    lemma_args_corr_extend(v1, assembly@, args@, v1.arg_lists[al.0 as int].args@);
                }
                CILRoot::Call { method: m, args: al }
            },
            TreeRoot::CallVirt { site, args } => {
                let ghost v0 = assembly@;
                let al = CILNode::conv_args(args, assembly);
                let ghost v1 = assembly@;
                let m = MethodRef::from_site(site, MethodKind::Virtual, assembly);
                proof {
                    lemma_extend_trans(v0, v1, assembly@);
                    assert(assembly@.arg_lists[al.0 as int] == assembly@.arg_lists.subrange(
                        0,
                        v1.arg_lists.len() as int,
                    )[al.0 as int]);
                    lemma_args_corr_extend(v1, assembly@, args@, v1.arg_lists[al.0 as int].args@);
                }
                CILRoot::CallVirt { method: m, args: al }
            },
            TreeRoot::CallI { sig, fn_ptr, args } => {
                let ghost v0 = assembly@;
                let h = CILNode::conv_child(fn_ptr, assembly);
                let ghost v1 = assembly@;
                let s2 = FnSig::from_v1(sig, assembly);
                let ghost v2 = assembly@;
                let ghost s2g = s2;
                let si = assembly.sig_idx(s2);
                let ghost v3 = assembly@;
                let al = CILNode::conv_args(args, assembly);
                proof {
                    let v = assembly@;
                    lemma_extend_trans(v0, v1, v2);
                    lemma_extend_trans(v0, v2, v3);
                    lemma_extend_trans(v0, v3, v);
                    lemma_node_at(v1, v, h);
                    lemma_node_corr_extend(v1, v, **fn_ptr, v1.nodes[h.0 as int]);
                    lemma_sig_corr_extend(v2, v3, **sig, s2g);
                    assert(v3.sigs[si.0 as int].inputs@ == s2g.inputs@);
                    assert(sig_corr(v3, **sig, v3.sigs[si.0 as int]));
                    lemma_sig_corr_extend(v3, v, **sig, v3.sigs[si.0 as int]);
                    assert(v.sigs[si.0 as int] == v.sigs.subrange(
                        0,
                        v3.sigs.len() as int,
                    )[si.0 as int]);
                }
                CILRoot::CallI { fn_ptr: h, sig: si, args: al }
            },
            TreeRoot::SetField { addr, value, desc } => {
                let ghost v0 = assembly@;
                let x = CILNode::conv_child(addr, assembly);
                let ghost v1 = assembly@;
                let y = CILNode::conv_child(value, assembly);
                let ghost v2 = assembly@;
                let fi = FieldDesc::from_v1(desc, assembly);
                proof {
                    let v = assembly@;
                    lemma_extend_trans(v0, v1, v2);
                    lemma_extend_trans(v0, v2, v);
                    lemma_node_at(v1, v, x);
                    lemma_node_corr_extend(v1, v, **addr, v1.nodes[x.0 as int]);
                    lemma_node_at(v2, v, y);
                    lemma_node_corr_extend(v2, v, **value, v2.nodes[y.0 as int]);
                }
                CILRoot::SetField { addr: x, value: y, field: fi }
            },
            TreeRoot::SetStaticField { descr, value } => {
                let ghost v0 = assembly@;
                let y = CILNode::conv_child(value, assembly);
                let ghost v1 = assembly@;
                let fi = StaticFieldDesc::from_v1(descr, assembly);
                proof {
                    lemma_extend_trans(v0, v1, assembly@);
                    lemma_node_at(v1, assembly@, y);
                    lemma_node_corr_extend(v1, assembly@, *value, v1.nodes[y.0 as int]);
                }
                CILRoot::SetStaticField { field: fi, value: y }
            },
            TreeRoot::CpBlk { dst, src, len } => {
                let ghost v0 = assembly@;
                let x = CILNode::conv_child(dst, assembly);
                let ghost v1 = assembly@;
                let y = CILNode::conv_child(src, assembly);
                let ghost v2 = assembly@;
                let z = CILNode::conv_child(len, assembly);
                proof {
                    let v = assembly@;
                    lemma_extend_trans(v0, v1, v2);
                    lemma_extend_trans(v0, v2, v);
                    lemma_node_at(v1, v, x);
                    lemma_node_corr_extend(v1, v, **dst, v1.nodes[x.0 as int]);
                    lemma_node_at(v2, v, y);
                    lemma_node_corr_extend(v2, v, **src, v2.nodes[y.0 as int]);
                }
                CILRoot::CpBlk { dst: x, src: y, len: z }
            },
            TreeRoot::STInd { addr, value, kind } => {
                let ghost v0 = assembly@;
                let x = CILNode::conv_child(addr, assembly);
                let ghost v1 = assembly@;
                let y = CILNode::conv_child(value, assembly);
                let ghost v2 = assembly@;
                let k2 = match kind {
                    TreeStIndKind::I8 => StIndKind::I8,
                    TreeStIndKind::I16 => StIndKind::I16,
                    TreeStIndKind::I32 => StIndKind::I32,
                    TreeStIndKind::I64 => StIndKind::I64,
                    TreeStIndKind::ISize => StIndKind::ISize,
                    TreeStIndKind::F32 => StIndKind::F32,
                    TreeStIndKind::F64 => StIndKind::F64,
                    TreeStIndKind::Ptr(t2) => {
                        let c = Type::from_v1(t2, assembly);
                        let ghost vb = assembly@;
                        let ti = assembly.type_idx(c);
                        proof {
                            lemma_extend_trans(v2, vb, assembly@);
                            lemma_type_corr_extend(vb, assembly@, **t2, c);
                        }
                        StIndKind::Ptr(ti)
                    },
                };
                proof {
                    let v = assembly@;
                    lemma_extend_refl(v);
                    lemma_extend_trans(v0, v1, v2);
                    lemma_extend_trans(v0, v2, v);
                    lemma_node_at(v1, v, x);
                    lemma_node_corr_extend(v1, v, **addr, v1.nodes[x.0 as int]);
                    lemma_node_at(v2, v, y);
                    lemma_node_corr_extend(v2, v, **value, v2.nodes[y.0 as int]);
                }
                CILRoot::StInd { addr: x, value: y, kind: k2 }
            },
            TreeRoot::STObj { tpe, addr_calc, value_calc } => {
                let ghost v0 = assembly@;
                let c = Type::from_v1(tpe, assembly);
                let ghost v1 = assembly@;
                let ti = assembly.type_idx(c);
                let ghost v2 = assembly@;
                let x = CILNode::conv_child(addr_calc, assembly);
                let ghost v3 = assembly@;
                let y = CILNode::conv_child(value_calc, assembly);
                proof {
                    let v = assembly@;
                    lemma_extend_trans(v0, v1, v2);
                    lemma_extend_trans(v0, v2, v3);
                    lemma_extend_trans(v0, v3, v);
                    lemma_type_corr_extend(v1, v2, **tpe, c);
                    assert(v2.types[ti.0 as int] == c);
                    lemma_type_corr_extend(v2, v, **tpe, v2.types[ti.0 as int]);
                    assert(v.types[ti.0 as int] == v.types.subrange(
                        0,
                        v2.types.len() as int,
                    )[ti.0 as int]);
                    lemma_node_at(v3, v, x);
                    lemma_node_corr_extend(v3, v, **addr_calc, v3.nodes[x.0 as int]);
                }
                CILRoot::StObj { tpe: ti, addr: x, value: y }
            },
            TreeRoot::STArg { arg, tree } => {
                let h = CILNode::conv_child(tree, assembly);
                CILRoot::StArg { arg: *arg as u64, tree: h }
            },
            TreeRoot::Break => {
                proof {
                    lemma_extend_refl(assembly@);
                }
                CILRoot::Break
            },
            TreeRoot::Nop => {
                proof {
                    lemma_extend_refl(assembly@);
                }
                CILRoot::Nop
            },
            TreeRoot::InitBlk { dst, val, count } => {
                let ghost v0 = assembly@;
                let x = CILNode::conv_child(dst, assembly);
                let ghost v1 = assembly@;
                let y = CILNode::conv_child(val, assembly);
                let ghost v2 = assembly@;
                let z = CILNode::conv_child(count, assembly);
                proof {
                    let v = assembly@;
                    lemma_extend_trans(v0, v1, v2);
                    lemma_extend_trans(v0, v2, v);
                    lemma_node_at(v1, v, x);
                    lemma_node_corr_extend(v1, v, **dst, v1.nodes[x.0 as int]);
                    lemma_node_at(v2, v, y);
                    lemma_node_corr_extend(v2, v, **val, v2.nodes[y.0 as int]);
                }
                CILRoot::InitBlk { dst: x, val: y, count: z }
            },
            TreeRoot::Ret { tree } => {
                let h = CILNode::conv_child(tree, assembly);
                CILRoot::Ret { tree: h }
            },
            TreeRoot::Pop { tree } => {
                let h = CILNode::conv_child(tree, assembly);
                CILRoot::Pop { tree: h }
            },
            TreeRoot::VoidRet => {
                proof {
                    lemma_extend_refl(assembly@);
                }
                CILRoot::VoidRet
            },
            TreeRoot::Throw(tree) => {
                let h = CILNode::conv_child(tree, assembly);
                CILRoot::Throw(h)
            },
            TreeRoot::ReThrow => {
                proof {
                    lemma_extend_refl(assembly@);
                }
                CILRoot::ReThrow
            },
            TreeRoot::JumpingPad { source, target } => {
                proof {
                    lemma_extend_refl(assembly@);
                }
                CILRoot::JumpingPad { source: *source, target: *target }
            },
            TreeRoot::SourceFileInfo { line_start, line_end, col_start, col_end, file } => {
                let fi = assembly.alloc_string(file.duplicate());
                CILRoot::SourceFileInfo {
                    line_start: *line_start,
                    line_end: *line_end,
                    col_start: *col_start,
                    col_end: *col_end,
                    file: fi,
                }
            },
            TreeRoot::Volatile(inner) => {
                let ghost v0 = assembly@;
                let r2 = CILRoot::from_v1(inner, assembly);
                let ghost v1 = assembly@;
                let ri = assembly.alloc_root(r2);
                proof {
                    lemma_extend_trans(v0, v1, assembly@);
                    lemma_root_corr_extend(v1, assembly@, **inner, r2);
                }
                CILRoot::Volatile(ri)
            },
            _ => {
                proof {
                    assert(false);
                }
                CILRoot::Nop
            },
        }
    }
}

} // verus!
