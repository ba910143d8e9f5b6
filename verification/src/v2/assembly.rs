//! The assembly aggregate: one interning arena per entity kind plus the
//! class and method definition tables, with the only allocation and
//! registration API.

use crate::bimap::{BiMap, InternValue};
use crate::fxmap::{fx_contains, fx_get, fx_get_mut, fx_insert, fx_new, fx_remove};
use crate::istring::IString;
use crate::v2::cilnode::{ArgList, ArgListIdx, BinOp, CILNode, Const, NodeIdx, UnOp};
use crate::v2::cilroot::{CILRoot, RootIdx};
use crate::v2::tpe::{
    Access, ClassDefIdx, ClassRef, ClassRefIdx, FieldDesc, FieldIdx, FnSig, MethodDefIdx,
    MethodKind, MethodRef, MethodRefIdx, SigIdx, StaticFieldDesc, StaticFieldIdx, StringIdx, Type,
    TypeIdx,
};
use fxhash::FxHashMap;
use vstd::prelude::*;
use vstd::seq_lib::*;
use vstd::string::StringSliceAdditionalSpecFns;

verus! {

/// An instance field of a class definition.
#[derive(Clone, Copy, PartialEq, Eq, Structural, Debug)]
pub struct FieldDef {
    pub name: StringIdx,
    pub tpe: TypeIdx,
}

/// A static field of a class definition.
#[derive(Clone, Copy, PartialEq, Eq, Structural, Debug)]
pub struct StaticFieldDef {
    pub name: StringIdx,
    pub tpe: TypeIdx,
    pub is_thread_local: bool,
}

/// A class definition: name, visibility, layout kind, members.
#[derive(Clone, Debug)]
pub struct ClassDef {
    pub name: StringIdx,
    pub access: Access,
    pub extends: Option<ClassRefIdx>,
    pub fields: Vec<FieldDef>,
    pub static_fields: Vec<StaticFieldDef>,
    pub methods: Vec<MethodDefIdx>,
    pub is_valuetype: bool,
}

impl ClassDef {
    /// The reference form of this definition, used as its table key.
    pub open spec fn spec_ref_to(&self) -> ClassRef {
        ClassRef { name: self.name, rasm: None, is_valuetype: self.is_valuetype }
    }

    /// Computes the reference form of this definition.
    pub fn ref_to(&self) -> (r: ClassRef)
        ensures
            r == self.spec_ref_to(),
    {
        ClassRef { name: self.name, rasm: None, is_valuetype: self.is_valuetype }
    }
}

/// A local slot of a method body: optional name and type.
#[derive(Clone, Copy, PartialEq, Eq, Structural, Debug)]
pub struct LocalDef {
    pub name: Option<StringIdx>,
    pub tpe: TypeIdx,
}

/// A basic block: a straight-line effect sequence with a block id and an
/// optional enclosing-handler id.
#[derive(Clone, Debug)]
pub struct BasicBlock {
    pub roots: Vec<RootIdx>,
    pub block_id: u32,
    pub handler: Option<u32>,
}

/// A method body or an external declaration.
#[derive(Clone, Debug)]
pub enum MethodImpl {
    MethodBody { blocks: Vec<BasicBlock>, locals: Vec<LocalDef> },
    Extern { lib: StringIdx, preserve_errno: bool },
}

/// A method definition: owning class, name, signature, dispatch kind, and
/// implementation.
#[derive(Clone, Debug)]
pub struct MethodDef {
    pub class: ClassDefIdx,
    pub name: StringIdx,
    pub sig: SigIdx,
    pub kind: MethodKind,
    pub implementation: MethodImpl,
}

impl MethodDef {
    /// The reference form of this definition, used as its table key.
    pub open spec fn spec_ref_to(&self) -> MethodRef {
        MethodRef { class: Some(self.class.0), name: self.name, sig: self.sig, kind: self.kind }
    }

    /// Computes the reference form of this definition.
    pub fn ref_to(&self) -> (r: MethodRef)
        ensures
            r == self.spec_ref_to(),
    {
        MethodRef { class: Some(self.class.0), name: self.name, sig: self.sig, kind: self.kind }
    }
}

/// The mathematical model of an assembly: the contents of every arena and
/// both definition tables.
pub ghost struct AsmView {
    pub strings: Seq<IString>,
    pub types: Seq<Type>,
    pub class_refs: Seq<ClassRef>,
    pub sigs: Seq<FnSig>,
    pub method_refs: Seq<MethodRef>,
    pub fields: Seq<FieldDesc>,
    pub statics: Seq<StaticFieldDesc>,
    pub nodes: Seq<CILNode>,
    pub arg_lists: Seq<ArgList>,
    pub roots: Seq<CILRoot>,
    pub class_defs: Map<u64, ClassDef>,
    pub class_order: Seq<u64>,
    pub method_defs: Map<u64, MethodDef>,
}

/// Are all handles of `s` strictly below `bound`?
pub open spec fn args_below(s: Seq<NodeIdx>, bound: int) -> bool {
    forall|j: int| 0 <= j < s.len() ==> (#[trigger] s[j].0 as int) < bound
}

/// A class reference's string handles exist.
pub open spec fn cref_ok(c: ClassRef, v: AsmView) -> bool {
    &&& (c.name.0 as int) < v.strings.len()
    &&& match c.rasm {
        Some(r) => (r.0 as int) < v.strings.len(),
        None => true,
    }
}

/// A method reference's handles exist.
pub open spec fn mref_ok(m: MethodRef, v: AsmView) -> bool {
    &&& (m.name.0 as int) < v.strings.len()
    &&& (m.sig.0 as int) < v.sigs.len()
    &&& match m.class {
        Some(c) => (c.0 as int) < v.class_refs.len(),
        None => true,
    }
}

/// A type's component handles exist.
pub open spec fn type_ok(t: Type, v: AsmView) -> bool {
    match t {
        Type::Ptr(x) => (x.0 as int) < v.types.len(),
        Type::Ref(x) => (x.0 as int) < v.types.len(),
        _ => true,
    }
}

/// An operation node's handles all point at already-interned entries.
pub open spec fn node_ok(n: CILNode, v: AsmView) -> bool {
    &&& forall|j: int|
        0 <= j < n.children().len() ==> (#[trigger] n.children()[j] as int) < v.nodes.len()
    &&& match n {
        CILNode::Const(c) => match c {
            Const::PlatformString(s) => (s.0 as int) < v.strings.len(),
            _ => true,
        },
        CILNode::Call(m, a) => (m.0 as int) < v.method_refs.len() && (a.0 as int)
            < v.arg_lists.len(),
        CILNode::CallI(_, s, a) => (s.0 as int) < v.sigs.len() && (a.0 as int) < v.arg_lists.len(),
        CILNode::LdFieldAddress { field, .. } => (field.0 as int) < v.fields.len(),
        CILNode::LdField { field, .. } => (field.0 as int) < v.fields.len(),
        CILNode::LdInd { tpe, .. } => (tpe.0 as int) < v.types.len(),
        CILNode::SizeOf(t) => (t.0 as int) < v.types.len(),
        CILNode::IsInst(_, t) => (t.0 as int) < v.types.len(),
        CILNode::CheckedCast(_, t) => (t.0 as int) < v.types.len(),
        CILNode::LdStaticField(s) => (s.0 as int) < v.statics.len(),
        CILNode::LdFtn(m) => (m.0 as int) < v.method_refs.len(),
        CILNode::LdTypeToken(t) => (t.0 as int) < v.types.len(),
        CILNode::LocAllocAligned { tpe, .. } => (tpe.0 as int) < v.types.len(),
        CILNode::UnboxAny { tpe, .. } => (tpe.0 as int) < v.types.len(),
        _ => true,
    }
}

/// An effect node's handles all point at already-interned entries.
pub open spec fn root_ok(r: CILRoot, v: AsmView) -> bool {
    &&& forall|j: int|
        0 <= j < r.operands().len() ==> (#[trigger] r.operands()[j] as int) < v.nodes.len()
    &&& match r {
        CILRoot::SetField { field, .. } => (field.0 as int) < v.fields.len(),
        CILRoot::SetStaticField { field, .. } => (field.0 as int) < v.statics.len(),
        CILRoot::StInd { kind, .. } => match kind {
            crate::v2::cilroot::StIndKind::Ptr(t) => (t.0 as int) < v.types.len(),
            _ => true,
        },
        CILRoot::StObj { tpe, .. } => (tpe.0 as int) < v.types.len(),
        CILRoot::Call { method, args } => (method.0 as int) < v.method_refs.len() && (args.0 as int)
            < v.arg_lists.len(),
        CILRoot::CallVirt { method, args } => (method.0 as int) < v.method_refs.len() && (
        args.0 as int) < v.arg_lists.len(),
        CILRoot::CallI { sig, args, .. } => (sig.0 as int) < v.sigs.len() && (args.0 as int)
            < v.arg_lists.len(),
        CILRoot::SourceFileInfo { file, .. } => (file.0 as int) < v.strings.len(),
        CILRoot::Volatile(rr) => (rr.0 as int) < v.roots.len(),
        _ => true,
    }
}

/// A method definition's body references only existing effects, and its
/// owning class is registered.
pub open spec fn mdef_ok(d: MethodDef, v: AsmView) -> bool {
    &&& v.class_defs.contains_key(d.class.0.0)
    &&& match d.implementation {
        MethodImpl::MethodBody { blocks, locals } => forall|b: int, j: int|
            0 <= b < blocks.len() && 0 <= j < blocks[b].roots.len() ==> ((
            #[trigger] blocks[b].roots[j]).0 as int) < v.roots.len(),
        MethodImpl::Extern { lib, .. } => (lib.0 as int) < v.strings.len(),
    }
}

/// Every arena of `a` is a prefix of the corresponding arena of `b`: handles
/// stay valid and keep their meaning as the assembly grows.
pub open spec fn arenas_extend(a: AsmView, b: AsmView) -> bool {
    &&& a.strings.is_prefix_of(b.strings)
    &&& a.types.is_prefix_of(b.types)
    &&& a.class_refs.is_prefix_of(b.class_refs)
    &&& a.sigs.is_prefix_of(b.sigs)
    &&& a.method_refs.is_prefix_of(b.method_refs)
    &&& a.fields.is_prefix_of(b.fields)
    &&& a.statics.is_prefix_of(b.statics)
    &&& a.nodes.is_prefix_of(b.nodes)
    &&& a.arg_lists.is_prefix_of(b.arg_lists)
    &&& a.roots.is_prefix_of(b.roots)
}

/// The definition tables of `a` and `b` are identical.
pub open spec fn same_tables(a: AsmView, b: AsmView) -> bool {
    &&& a.class_defs == b.class_defs
    &&& a.class_order == b.class_order
    &&& a.method_defs == b.method_defs
}

/// Aggregates one arena per entity kind plus the class/method definition
/// tables; exposes the only allocation and registration API.
pub struct Assembly {
    strings: BiMap<IString>,
    types: BiMap<Type>,
    class_refs: BiMap<ClassRef>,
    sigs: BiMap<FnSig>,
    method_refs: BiMap<MethodRef>,
    fields: BiMap<FieldDesc>,
    statics: BiMap<StaticFieldDesc>,
    nodes: BiMap<CILNode>,
    arg_lists: BiMap<ArgList>,
    roots: BiMap<CILRoot>,
    class_defs: FxHashMap<u64, ClassDef>,
    class_order: Vec<u64>,
    method_defs: FxHashMap<u64, MethodDef>,
}

impl View for Assembly {
    type V = AsmView;

    closed spec fn view(&self) -> AsmView {
        AsmView {
            strings: self.strings@,
            types: self.types@,
            class_refs: self.class_refs@,
            sigs: self.sigs@,
            method_refs: self.method_refs@,
            fields: self.fields@,
            statics: self.statics@,
            nodes: self.nodes@,
            arg_lists: self.arg_lists@,
            roots: self.roots@,
            class_defs: self.class_defs@,
            class_order: self.class_order@,
            method_defs: self.method_defs@,
        }
    }
}

impl Assembly {
    /// The structural invariant of a well-formed assembly: every arena is
    /// internally consistent and DAG-shaped, every cross-arena handle points
    /// at an already-interned entry, and the definition tables are keyed by
    /// the handles of their reference forms.
    pub closed spec fn inv(&self) -> bool {
        &&& self.strings.inv()
        &&& self.types.inv()
        &&& self.class_refs.inv()
        &&& self.sigs.inv()
        &&& self.method_refs.inv()
        &&& self.fields.inv()
        &&& self.statics.inv()
        &&& self.nodes.inv()
        &&& self.arg_lists.inv()
        &&& self.roots.inv()
        &&& view_inv(self@)
    }

    /// The invariant includes the view-level clauses, which callers outside
    /// this module may rely on.
    pub proof fn lemma_inv_view(&self)
        requires
            self.inv(),
        ensures
            view_inv(self@),
    {
    }

    /// Creates an empty assembly.
    pub fn new() -> (r: Self)
        ensures
            r.inv(),
            r@.strings.len() == 0,
            r@.types.len() == 0,
            r@.nodes.len() == 0,
            r@.arg_lists.len() == 0,
            r@.roots.len() == 0,
            r@.class_refs.len() == 0,
            r@.sigs.len() == 0,
            r@.method_refs.len() == 0,
            r@.fields.len() == 0,
            r@.statics.len() == 0,
            r@.class_defs =~= Map::<u64, ClassDef>::empty(),
            r@.class_order.len() == 0,
            r@.method_defs =~= Map::<u64, MethodDef>::empty(),
    {
        let r = Assembly {
            strings: BiMap::new(),
            types: BiMap::new(),
            class_refs: BiMap::new(),
            sigs: BiMap::new(),
            method_refs: BiMap::new(),
            fields: BiMap::new(),
            statics: BiMap::new(),
            nodes: BiMap::new(),
            arg_lists: BiMap::new(),
            roots: BiMap::new(),
            class_defs: fx_new(),
            class_order: Vec::new(),
            method_defs: fx_new(),
        };
        r
    }

    /// Interns a byte string.
    pub fn alloc_string(&mut self, s: IString) -> (r: StringIdx)
        requires
            old(self).inv(),
        ensures
            final(self).inv(),
            arenas_extend(old(self)@, final(self)@),
            same_tables(old(self)@, final(self)@),
            final(self)@ == (AsmView { strings: final(self)@.strings, ..old(self)@ }),
            (r.0 as int) < final(self)@.strings.len(),
            final(self)@.strings[r.0 as int]@ == s@,
            final(self)@.strings.len() <= old(self)@.strings.len() + 1,
            (exists|j: int|
                0 <= j < old(self)@.strings.len() && (#[trigger] old(self)@.strings[j])@ == s@)
                ==> final(self)@.strings == old(self)@.strings,
    {
        let ghost v0 = self@;
        let h = self.strings.intern(s);
        proof {
            lemma_prefix_cases(v0.strings, self@.strings, s);
            lemma_view_inv_extend(v0, self@);
            assert forall|j: int|
                0 <= j < self@.strings.len() && (#[trigger] self@.strings[j])@ == s@ implies j
                == h as int by {
                self.strings.lemma_canonical(j, h as int);
            }
        }
        StringIdx(h)
    }

    /// Interns a type. Its component types must already be interned.
    pub fn type_idx(&mut self, t: Type) -> (r: TypeIdx)
        requires
            old(self).inv(),
            type_ok(t, old(self)@),
        ensures
            final(self).inv(),
            arenas_extend(old(self)@, final(self)@),
            same_tables(old(self)@, final(self)@),
            final(self)@ == (AsmView { types: final(self)@.types, ..old(self)@ }),
            (r.0 as int) < final(self)@.types.len(),
            final(self)@.types[r.0 as int] == t,
            final(self)@.types.len() <= old(self)@.types.len() + 1,
            (exists|j: int| 0 <= j < old(self)@.types.len() && old(self)@.types[j] == t)
                ==> final(self)@.types == old(self)@.types,
    {
        let ghost v0 = self@;
        let h = self.types.intern(t);
        proof {
            lemma_prefix_cases(v0.types, self@.types, t);
            lemma_view_inv_extend(v0, self@);
        }
        TypeIdx(h)
    }

    /// Interns a class reference.
    pub fn class_idx(&mut self, c: ClassRef) -> (r: ClassRefIdx)
        requires
            old(self).inv(),
            cref_ok(c, old(self)@),
        ensures
            final(self).inv(),
            arenas_extend(old(self)@, final(self)@),
            same_tables(old(self)@, final(self)@),
            final(self)@ == (AsmView { class_refs: final(self)@.class_refs, ..old(self)@ }),
            (r.0 as int) < final(self)@.class_refs.len(),
            final(self)@.class_refs[r.0 as int] == c,
            final(self)@.class_refs.len() <= old(self)@.class_refs.len() + 1,
            (exists|j: int| 0 <= j < old(self)@.class_refs.len() && old(self)@.class_refs[j] == c)
                ==> final(self)@.class_refs == old(self)@.class_refs,
    {
        let ghost v0 = self@;
        let h = self.class_refs.intern(c);
        proof {
            lemma_prefix_cases(v0.class_refs, self@.class_refs, c);
            lemma_view_inv_extend(v0, self@);
        }
        ClassRefIdx(h)
    }

    /// Interns a function signature.
    pub fn sig_idx(&mut self, f: FnSig) -> (r: SigIdx)
        requires
            old(self).inv(),
        ensures
            final(self).inv(),
            arenas_extend(old(self)@, final(self)@),
            same_tables(old(self)@, final(self)@),
            final(self)@ == (AsmView { sigs: final(self)@.sigs, ..old(self)@ }),
            (r.0 as int) < final(self)@.sigs.len(),
            final(self)@.sigs[r.0 as int].inputs@ == f.inputs@,
            final(self)@.sigs[r.0 as int].output == f.output,
            final(self)@.sigs.len() <= old(self)@.sigs.len() + 1,
            (exists|j: int|
                0 <= j < old(self)@.sigs.len() && (#[trigger] old(self)@.sigs[j]).inputs@
                    == f.inputs@ && old(self)@.sigs[j].output == f.output) ==> final(self)@.sigs
                == old(self)@.sigs,
            forall|j: int|
                0 <= j < final(self)@.sigs.len() && (#[trigger] final(self)@.sigs[j]).inputs@
                    == f.inputs@ && final(self)@.sigs[j].output == f.output ==> j == r.0 as int,
    {
        let ghost v0 = self@;
        let h = self.sigs.intern(f);
        proof {
            lemma_prefix_cases(v0.sigs, self@.sigs, f);
            lemma_view_inv_extend(v0, self@);
            assert forall|j: int|
                0 <= j < self@.sigs.len() && (#[trigger] self@.sigs[j]).inputs@ == f.inputs@
                    && self@.sigs[j].output == f.output implies j == h as int by {
                self.sigs.lemma_canonical(j, h as int);
            }
        }
        SigIdx(h)
    }

    /// Builds and interns a signature from its parts.
    pub fn sig(&mut self, inputs: Vec<Type>, output: Type) -> (r: SigIdx)
        requires
            old(self).inv(),
        ensures
            final(self).inv(),
            arenas_extend(old(self)@, final(self)@),
            same_tables(old(self)@, final(self)@),
            final(self)@ == (AsmView { sigs: final(self)@.sigs, ..old(self)@ }),
            (r.0 as int) < final(self)@.sigs.len(),
            final(self)@.sigs[r.0 as int].inputs@ == inputs@,
            final(self)@.sigs[r.0 as int].output == output,
            (exists|j: int|
                0 <= j < old(self)@.sigs.len() && (#[trigger] old(self)@.sigs[j]).inputs@
                    == inputs@ && old(self)@.sigs[j].output == output) ==> final(self)@.sigs == old(
                self,
            )@.sigs,
            forall|j: int|
                0 <= j < final(self)@.sigs.len() && (#[trigger] final(self)@.sigs[j]).inputs@
                    == inputs@ && final(self)@.sigs[j].output == output ==> j == r.0 as int,
    {
        let ghost iv = inputs@;
        self.sig_idx(FnSig::new(inputs, output))
    }

    /// Interns a method reference.
    pub fn methodref_idx(&mut self, m: MethodRef) -> (r: MethodRefIdx)
        requires
            old(self).inv(),
            mref_ok(m, old(self)@),
        ensures
            final(self).inv(),
            arenas_extend(old(self)@, final(self)@),
            same_tables(old(self)@, final(self)@),
            final(self)@ == (AsmView { method_refs: final(self)@.method_refs, ..old(self)@ }),
            (r.0 as int) < final(self)@.method_refs.len(),
            final(self)@.method_refs[r.0 as int] == m,
            final(self)@.method_refs.len() <= old(self)@.method_refs.len() + 1,
            (exists|j: int|
                0 <= j < old(self)@.method_refs.len() && old(self)@.method_refs[j] == m)
                ==> final(self)@.method_refs == old(self)@.method_refs,
    {
        let ghost v0 = self@;
        let h = self.method_refs.intern(m);
        proof {
            lemma_prefix_cases(v0.method_refs, self@.method_refs, m);
            lemma_view_inv_extend(v0, self@);
        }
        MethodRefIdx(h)
    }

    /// Interns a field descriptor.
    pub fn field_idx(&mut self, f: FieldDesc) -> (r: FieldIdx)
        requires
            old(self).inv(),
        ensures
            final(self).inv(),
            arenas_extend(old(self)@, final(self)@),
            same_tables(old(self)@, final(self)@),
            final(self)@ == (AsmView { fields: final(self)@.fields, ..old(self)@ }),
            (r.0 as int) < final(self)@.fields.len(),
            final(self)@.fields[r.0 as int] == f,
            final(self)@.fields.len() <= old(self)@.fields.len() + 1,
            (exists|j: int| 0 <= j < old(self)@.fields.len() && old(self)@.fields[j] == f)
                ==> final(self)@.fields == old(self)@.fields,
            forall|j: int|
                0 <= j < final(self)@.fields.len() && #[trigger] final(self)@.fields[j] == f ==> j
                    == r.0 as int,
    {
        let ghost v0 = self@;
        let h = self.fields.intern(f);
        proof {
            lemma_prefix_cases(v0.fields, self@.fields, f);
            lemma_view_inv_extend(v0, self@);
            assert forall|j: int|
                0 <= j < self@.fields.len() && #[trigger] self@.fields[j] == f implies j
                == h as int by {
                self.fields.lemma_canonical(j, h as int);
            }
        }
        FieldIdx(h)
    }

    /// Interns a static-field descriptor.
    pub fn sfld_idx(&mut self, f: StaticFieldDesc) -> (r: StaticFieldIdx)
        requires
            old(self).inv(),
        ensures
            final(self).inv(),
            arenas_extend(old(self)@, final(self)@),
            same_tables(old(self)@, final(self)@),
            final(self)@ == (AsmView { statics: final(self)@.statics, ..old(self)@ }),
            (r.0 as int) < final(self)@.statics.len(),
            final(self)@.statics[r.0 as int] == f,
            final(self)@.statics.len() <= old(self)@.statics.len() + 1,
            (exists|j: int| 0 <= j < old(self)@.statics.len() && old(self)@.statics[j] == f)
                ==> final(self)@.statics == old(self)@.statics,
            forall|j: int|
                0 <= j < final(self)@.statics.len() && #[trigger] final(self)@.statics[j] == f
                    ==> j == r.0 as int,
    {
        let ghost v0 = self@;
        let h = self.statics.intern(f);
        proof {
            lemma_prefix_cases(v0.statics, self@.statics, f);
            lemma_view_inv_extend(v0, self@);
            assert forall|j: int|
                0 <= j < self@.statics.len() && #[trigger] self@.statics[j] == f implies j
                == h as int by {
                self.statics.lemma_canonical(j, h as int);
            }
        }
        StaticFieldIdx(h)
    }

    /// Interns an operation node. All handles it carries must point at
    /// already-interned entries, which keeps the node graph a DAG.
    pub fn node_idx(&mut self, node: CILNode) -> (r: NodeIdx)
        requires
            old(self).inv(),
            node_ok(node, old(self)@),
        ensures
            final(self).inv(),
            arenas_extend(old(self)@, final(self)@),
            same_tables(old(self)@, final(self)@),
            final(self)@ == (AsmView { nodes: final(self)@.nodes, ..old(self)@ }),
            (r.0 as int) < final(self)@.nodes.len(),
            final(self)@.nodes[r.0 as int] == node,
            final(self)@.nodes.len() <= old(self)@.nodes.len() + 1,
            (exists|j: int| 0 <= j < old(self)@.nodes.len() && old(self)@.nodes[j] == node)
                ==> final(self)@.nodes == old(self)@.nodes,
    {
        let ghost v0 = self@;
        let h = self.nodes.intern(node);
        proof {
            lemma_prefix_cases(v0.nodes, self@.nodes, node);
            lemma_view_inv_extend(v0, self@);
        }
        NodeIdx(h)
    }

    /// Interns an ordered argument list whose entries are existing nodes.
    pub fn arg_list_idx(&mut self, args: Vec<NodeIdx>) -> (r: ArgListIdx)
        requires
            old(self).inv(),
            args_below(args@, old(self)@.nodes.len() as int),
        ensures
            final(self).inv(),
            arenas_extend(old(self)@, final(self)@),
            same_tables(old(self)@, final(self)@),
            final(self)@ == (AsmView { arg_lists: final(self)@.arg_lists, ..old(self)@ }),
            (r.0 as int) < final(self)@.arg_lists.len(),
            final(self)@.arg_lists[r.0 as int].args@ == args@,
            final(self)@.arg_lists.len() <= old(self)@.arg_lists.len() + 1,
    {
        let ghost v0 = self@;
        let h = self.arg_lists.intern(ArgList { args });
        proof {
            lemma_prefix_cases(v0.arg_lists, self@.arg_lists, ArgList { args: final(self)@.arg_lists[h as int].args });
            lemma_view_inv_extend(v0, self@);
        }
        ArgListIdx(h)
    }

    /// Interns an effect node. All handles it carries must point at
    /// already-interned entries.
    pub fn alloc_root(&mut self, root: CILRoot) -> (r: RootIdx)
        requires
            old(self).inv(),
            root_ok(root, old(self)@),
        ensures
            final(self).inv(),
            arenas_extend(old(self)@, final(self)@),
            same_tables(old(self)@, final(self)@),
            final(self)@ == (AsmView { roots: final(self)@.roots, ..old(self)@ }),
            (r.0 as int) < final(self)@.roots.len(),
            final(self)@.roots[r.0 as int] == root,
            final(self)@.roots.len() <= old(self)@.roots.len() + 1,
            (exists|j: int| 0 <= j < old(self)@.roots.len() && old(self)@.roots[j] == root)
                ==> final(self)@.roots == old(self)@.roots,
    {
        let ghost v0 = self@;
        let h = self.roots.intern(root);
        proof {
            lemma_prefix_cases(v0.roots, self@.roots, root);
            lemma_view_inv_extend(v0, self@);
        }
        RootIdx(h)
    }

    /// Interns a pointer type to `inner`, interning `inner` first.
    pub fn nptr(&mut self, inner: Type) -> (r: Type)
        requires
            old(self).inv(),
            type_ok(inner, old(self)@),
        ensures
            final(self).inv(),
            arenas_extend(old(self)@, final(self)@),
            same_tables(old(self)@, final(self)@),
            final(self)@ == (AsmView { types: final(self)@.types, ..old(self)@ }),
            match r {
                Type::Ptr(h) => (h.0 as int) < final(self)@.types.len()
                    && final(self)@.types[h.0 as int] == inner,
                _ => false,
            },
    {
        let h = self.type_idx(inner);
        Type::Ptr(h)
    }

    /// Interns a managed-reference type to `inner`, interning `inner` first.
    pub fn nref(&mut self, inner: Type) -> (r: Type)
        requires
            old(self).inv(),
            type_ok(inner, old(self)@),
        ensures
            final(self).inv(),
            arenas_extend(old(self)@, final(self)@),
            same_tables(old(self)@, final(self)@),
            final(self)@ == (AsmView { types: final(self)@.types, ..old(self)@ }),
            match r {
                Type::Ref(h) => (h.0 as int) < final(self)@.types.len()
                    && final(self)@.types[h.0 as int] == inner,
                _ => false,
            },
    {
        let h = self.type_idx(inner);
        Type::Ref(h)
    }

    /// Looks a type up by handle.
    pub fn type_from_id(&self, idx: TypeIdx) -> (r: &Type)
        requires
            self.inv(),
            (idx.0 as int) < self@.types.len(),
        ensures
            *r == self@.types[idx.0 as int],
    {
        self.types.get(idx.0)
    }

    /// Looks an operation node up by handle.
    pub fn get_node(&self, idx: NodeIdx) -> (r: &CILNode)
        requires
            self.inv(),
            (idx.0 as int) < self@.nodes.len(),
        ensures
            *r == self@.nodes[idx.0 as int],
    {
        self.nodes.get(idx.0)
    }

    /// Looks an effect node up by handle.
    pub fn get_root(&self, idx: RootIdx) -> (r: &CILRoot)
        requires
            self.inv(),
            (idx.0 as int) < self@.roots.len(),
        ensures
            *r == self@.roots[idx.0 as int],
    {
        self.roots.get(idx.0)
    }

    /// Looks a string up by handle.
    pub fn get_string(&self, idx: StringIdx) -> (r: &IString)
        requires
            self.inv(),
            (idx.0 as int) < self@.strings.len(),
        ensures
            *r == self@.strings[idx.0 as int],
    {
        self.strings.get(idx.0)
    }

    /// Looks an argument list up by handle.
    pub fn get_arg_list(&self, idx: ArgListIdx) -> (r: &ArgList)
        requires
            self.inv(),
            (idx.0 as int) < self@.arg_lists.len(),
        ensures
            *r == self@.arg_lists[idx.0 as int],
    {
        self.arg_lists.get(idx.0)
    }

    /// Looks a class reference up by handle.
    pub fn get_class_ref(&self, idx: ClassRefIdx) -> (r: &ClassRef)
        requires
            self.inv(),
            (idx.0 as int) < self@.class_refs.len(),
        ensures
            *r == self@.class_refs[idx.0 as int],
    {
        self.class_refs.get(idx.0)
    }

    /// Looks a signature up by handle.
    pub fn get_sig(&self, idx: SigIdx) -> (r: &FnSig)
        requires
            self.inv(),
            (idx.0 as int) < self@.sigs.len(),
        ensures
            *r == self@.sigs[idx.0 as int],
    {
        self.sigs.get(idx.0)
    }

    /// Looks a method reference up by handle.
    pub fn get_method_ref(&self, idx: MethodRefIdx) -> (r: &MethodRef)
        requires
            self.inv(),
            (idx.0 as int) < self@.method_refs.len(),
        ensures
            *r == self@.method_refs[idx.0 as int],
    {
        self.method_refs.get(idx.0)
    }

    /// Looks a field descriptor up by handle.
    pub fn get_field_desc(&self, idx: FieldIdx) -> (r: &FieldDesc)
        requires
            self.inv(),
            (idx.0 as int) < self@.fields.len(),
        ensures
            *r == self@.fields[idx.0 as int],
    {
        self.fields.get(idx.0)
    }

    /// Looks a static-field descriptor up by handle.
    pub fn get_static_desc(&self, idx: StaticFieldIdx) -> (r: &StaticFieldDesc)
        requires
            self.inv(),
            (idx.0 as int) < self@.statics.len(),
        ensures
            *r == self@.statics[idx.0 as int],
    {
        self.statics.get(idx.0)
    }

    /// Number of interned operation nodes.
    pub fn num_nodes(&self) -> (n: usize)
        ensures
            n == self@.nodes.len(),
    {
        self.nodes.len()
    }

    /// Number of interned effect nodes.
    pub fn num_roots(&self) -> (n: usize)
        ensures
            n == self@.roots.len(),
    {
        self.roots.len()
    }

    /// Number of interned strings.
    pub fn num_strings(&self) -> (n: usize)
        ensures
            n == self@.strings.len(),
    {
        self.strings.len()
    }

    /// Number of interned types.
    pub fn num_types(&self) -> (n: usize)
        ensures
            n == self@.types.len(),
    {
        self.types.len()
    }

    /// Number of interned signatures.
    pub fn num_sigs(&self) -> (n: usize)
        ensures
            n == self@.sigs.len(),
    {
        self.sigs.len()
    }

    /// Number of interned class references.
    pub fn num_class_refs(&self) -> (n: usize)
        ensures
            n == self@.class_refs.len(),
    {
        self.class_refs.len()
    }

    /// Number of interned method references.
    pub fn num_method_refs(&self) -> (n: usize)
        ensures
            n == self@.method_refs.len(),
    {
        self.method_refs.len()
    }

    /// Number of interned field descriptors.
    pub fn num_fields(&self) -> (n: usize)
        ensures
            n == self@.fields.len(),
    {
        self.fields.len()
    }

    /// Number of interned static-field descriptors.
    pub fn num_statics(&self) -> (n: usize)
        ensures
            n == self@.statics.len(),
    {
        self.statics.len()
    }

    /// Number of interned argument lists.
    pub fn num_arg_lists(&self) -> (n: usize)
        ensures
            n == self@.arg_lists.len(),
    {
        self.arg_lists.len()
    }

    /// Number of registered classes, in registration order.
    pub fn class_ids(&self) -> (r: &Vec<u64>)
        ensures
            r@ == self@.class_order,
    {
        proof {
            assert(self@.class_order =~= self.class_order@);
        }
        &self.class_order
    }

    /// Canonicality of string interning: two interned strings with equal
    /// bytes are one entry, so equal strings always resolve to one handle.
    pub proof fn lemma_string_canonical(&self, a: StringIdx, b: StringIdx)
        requires
            self.inv(),
            (a.0 as int) < self@.strings.len(),
            (b.0 as int) < self@.strings.len(),
            self@.strings[a.0 as int]@ == self@.strings[b.0 as int]@,
        ensures
            a == b,
    {
        self.strings.lemma_canonical(a.0 as int, b.0 as int);
    }

    /// Canonicality of signature interning.
    pub proof fn lemma_sig_canonical(&self, a: SigIdx, b: SigIdx)
        requires
            self.inv(),
            (a.0 as int) < self@.sigs.len(),
            (b.0 as int) < self@.sigs.len(),
            self@.sigs[a.0 as int].inputs@ == self@.sigs[b.0 as int].inputs@,
            self@.sigs[a.0 as int].output == self@.sigs[b.0 as int].output,
        ensures
            a == b,
    {
        self.sigs.lemma_canonical(a.0 as int, b.0 as int);
    }

    /// Canonicality of type interning.
    pub proof fn lemma_type_canonical(&self, a: TypeIdx, b: TypeIdx)
        requires
            self.inv(),
            (a.0 as int) < self@.types.len(),
            (b.0 as int) < self@.types.len(),
            self@.types[a.0 as int] == self@.types[b.0 as int],
        ensures
            a == b,
    {
        self.types.lemma_canonical(a.0 as int, b.0 as int);
    }

    /// Canonicality of class-reference interning.
    pub proof fn lemma_class_ref_canonical(&self, a: ClassRefIdx, b: ClassRefIdx)
        requires
            self.inv(),
            (a.0 as int) < self@.class_refs.len(),
            (b.0 as int) < self@.class_refs.len(),
            self@.class_refs[a.0 as int] == self@.class_refs[b.0 as int],
        ensures
            a == b,
    {
        self.class_refs.lemma_canonical(a.0 as int, b.0 as int);
    }

    /// Canonicality of node interning: two equal nodes in the arena are one
    /// entry, so equal values always resolve to the same handle.
    pub proof fn lemma_node_canonical(&self, i: int, j: int)
        requires
            self.inv(),
            0 <= i < self@.nodes.len(),
            0 <= j < self@.nodes.len(),
            self@.nodes[i] == self@.nodes[j],
        ensures
            i == j,
    {
        self.nodes.lemma_canonical(i, j);
    }

    /// Canonicality of effect interning.
    pub proof fn lemma_root_canonical(&self, i: int, j: int)
        requires
            self.inv(),
            0 <= i < self@.roots.len(),
            0 <= j < self@.roots.len(),
            self@.roots[i] == self@.roots[j],
        ensures
            i == j,
    {
        self.roots.lemma_canonical(i, j);
    }

    /// The DAG law for the node arena: every node's children sit strictly
    /// below it.
    pub proof fn lemma_node_dag(&self, i: int, j: int)
        requires
            self.inv(),
            0 <= i < self@.nodes.len(),
            0 <= j < self@.nodes[i].children().len(),
        ensures
            self@.nodes[i].children()[j] < i,
    {
        self.nodes.lemma_dag(i, j);
    }

    /// Every effect's operands are nodes that were already interned.
    pub proof fn lemma_root_operands_allocated(&self, i: int, j: int)
        requires
            self.inv(),
            0 <= i < self@.roots.len(),
            0 <= j < self@.roots[i].operands().len(),
        ensures
            self@.roots[i].operands()[j] < self@.nodes.len(),
    {
    }

    /// Is a class with this reference form registered?
    pub fn has_class_def(&self, c: &ClassRef) -> (r: bool)
        requires
            self.inv(),
        ensures
            r == class_registered(self@, *c),
    {
        match self.class_refs.find(c) {
            Some(h) => {
                let r = fx_contains(&self.class_defs, h);
                proof {
                    if class_registered(self@, *c) {
                        let k = choose|k: u64|
                            #[trigger] self@.class_defs.contains_key(k) && (k as int)
                                < self@.class_refs.len() && self@.class_refs[k as int] == *c;
                        self.class_refs.lemma_canonical(k as int, h as int);
                    }
                }
                r
            },
            None => {
                proof {
                    if class_registered(self@, *c) {
                        let k = choose|k: u64|
                            #[trigger] self@.class_defs.contains_key(k) && (k as int)
                                < self@.class_refs.len() && self@.class_refs[k as int] == *c;
                        assert(self@.class_refs[k as int].keq(c));
                        assert(crate::bimap::has_eqv(self@.class_refs, *c));
                    }
                }
                false
            },
        }
    }

    /// Registers a class definition, keyed by the handle of its interned
    /// reference form. Registering two definitions with the same reference
    /// form is a defect in the producer, ruled out by the precondition.
    pub fn class_def(&mut self, def: ClassDef) -> (r: ClassDefIdx)
        requires
            old(self).inv(),
            (def.name.0 as int) < old(self)@.strings.len(),
            !class_registered(old(self)@, def.spec_ref_to()),
        ensures
            final(self).inv(),
            arenas_extend(old(self)@, final(self)@),
            final(self)@.method_defs == old(self)@.method_defs,
            !old(self)@.class_defs.contains_key(r.0.0),
            final(self)@.class_defs == old(self)@.class_defs.insert(r.0.0, def),
            final(self)@.class_order == old(self)@.class_order.push(r.0.0),
            (r.0.0 as int) < final(self)@.class_refs.len(),
            final(self)@.class_refs[r.0.0 as int] == def.spec_ref_to(),
            final(self)@ == (AsmView {
                class_refs: final(self)@.class_refs,
                class_defs: final(self)@.class_defs,
                class_order: final(self)@.class_order,
                ..old(self)@
            }),
    {
        let ghost v0 = self@;
        let cref = def.ref_to();
        let h = self.class_idx(cref);
        proof {
            if self@.class_defs.contains_key(h.0) {
                assert(class_registered(v0, def.spec_ref_to()));
            }
        }
        let ghost v1 = self@;
        let ghost defg = def;
        fx_insert(&mut self.class_defs, h.0, def);
        self.class_order.push(h.0);
        proof {
            let v = self@;
            assert(v.class_defs == v1.class_defs.insert(h.0, defg));
            assert(v.class_order == v1.class_order.push(h.0));
            assert forall|k: u64| #[trigger] v.class_defs.contains_key(k) implies {
                &&& (k as int) < v.class_refs.len()
                &&& v.class_refs[k as int] == v.class_defs[k].spec_ref_to()
            } by {
                if k != h.0 {
                    assert(v1.class_defs.contains_key(k));
                }
            }
            assert forall|t: int| 0 <= t < v.class_order.len() implies v.class_defs.contains_key(
                #[trigger] v.class_order[t],
            ) by {
                if t < v1.class_order.len() {
                    assert(v1.class_defs.contains_key(v1.class_order[t]));
                }
            }
            assert forall|k: u64| #[trigger] v.class_defs.contains_key(k) implies
                v.class_order.contains(k) by {
                if k == h.0 {
                    assert(v.class_order[v.class_order.len() - 1] == k);
                } else {
                    assert(v1.class_defs.contains_key(k));
                    let t = choose|t: int| 0 <= t < v1.class_order.len() && v1.class_order[t] == k;
                    assert(v.class_order[t] == k);
                }
            }
            assert forall|t1: int, t2: int|
                #![trigger v.class_order[t1], v.class_order[t2]]
                0 <= t1 < v.class_order.len() && 0 <= t2 < v.class_order.len() && t1
                    != t2 implies v.class_order[t1] != v.class_order[t2] by {
                if t1 < v1.class_order.len() && t2 < v1.class_order.len() {
                } else if t1 < v1.class_order.len() {
                    if v1.class_order[t1] == h.0 {
                        assert(v1.class_defs.contains_key(h.0));
                    }
                } else if t2 < v1.class_order.len() {
                    if v1.class_order[t2] == h.0 {
                        assert(v1.class_defs.contains_key(h.0));
                    }
                }
            }
            assert forall|k: u64| #[trigger] v.method_defs.contains_key(k) implies {
                &&& (k as int) < v.method_refs.len()
                &&& v.method_refs[k as int] == v.method_defs[k].spec_ref_to()
                &&& mdef_ok(v.method_defs[k], v)
            } by {
                assert(v1.method_defs.contains_key(k));
                assert(mdef_ok(v1.method_defs[k], v1));
            }
        }
        ClassDefIdx(h)
    }

    /// Exclusive access to a registered class definition. The caller must
    /// not change its reference form (name or layout kind), which keys the
    /// table.
    pub fn class_mut(&mut self, id: ClassDefIdx) -> (r: &mut ClassDef)
        requires
            old(self).inv(),
            old(self)@.class_defs.contains_key(id.0.0),
        ensures
            *r == old(self)@.class_defs[id.0.0],
            final(self)@ == (AsmView {
                class_defs: old(self)@.class_defs.insert(id.0.0, *final(r)),
                ..old(self)@
            }),
            final(r).spec_ref_to() == old(self)@.class_defs[id.0.0].spec_ref_to()
                ==> final(self).inv(),
    {
        fx_get_mut(&mut self.class_defs, id.0.0)
    }

    /// Adds a method definition to this assembly: interns its reference
    /// form, stores the definition under it, and appends it to the owning
    /// class's method list. The owning class must already be registered.
    pub fn new_method(&mut self, def: MethodDef) -> (r: MethodDefIdx)
        requires
            old(self).inv(),
            old(self)@.class_defs.contains_key(def.class.0.0),
            (def.name.0 as int) < old(self)@.strings.len(),
            (def.sig.0 as int) < old(self)@.sigs.len(),
            mdef_ok(def, old(self)@),
        ensures
            final(self).inv(),
            arenas_extend(old(self)@, final(self)@),
            final(self)@.class_order == old(self)@.class_order,
            final(self)@.method_defs == old(self)@.method_defs.insert(r.0.0, def),
            (r.0.0 as int) < final(self)@.method_refs.len(),
            final(self)@.method_refs[r.0.0 as int] == def.spec_ref_to(),
            forall|k: u64|
                #![trigger final(self)@.class_defs.contains_key(k)]
                old(self)@.class_defs.contains_key(k) == final(self)@.class_defs.contains_key(k),
            class_same_shape(
                final(self)@.class_defs[def.class.0.0],
                old(self)@.class_defs[def.class.0.0],
            ),
            final(self)@.class_defs[def.class.0.0].methods@
                == old(self)@.class_defs[def.class.0.0].methods@.push(
                MethodDefIdx(MethodRefIdx(r.0.0)),
            ),
            forall|k: u64|
                k != def.class.0.0 && #[trigger] old(self)@.class_defs.contains_key(k)
                    ==> final(self)@.class_defs[k] == old(self)@.class_defs[k],
            final(self)@ == (AsmView {
                method_refs: final(self)@.method_refs,
                class_defs: final(self)@.class_defs,
                method_defs: final(self)@.method_defs,
                ..old(self)@
            }),
    {
        let ghost v0 = self@;
        let mref = def.ref_to();
        let class_key = def.class.0.0;
        let ri = self.methodref_idx(mref);
        let ghost v1 = self@;
        let cd = fx_get_mut(&mut self.class_defs, class_key);
        cd.methods.push(MethodDefIdx(ri));
        let ghost v2 = self@;
        let ghost defg = def;
        fx_insert(&mut self.method_defs, ri.0, def);
        proof {
            let v = self@;
            assert(v.method_defs == v1.method_defs.insert(ri.0, defg));
            assert forall|k: u64| #[trigger] v.class_defs.contains_key(k) implies {
                &&& (k as int) < v.class_refs.len()
                &&& v.class_refs[k as int] == v.class_defs[k].spec_ref_to()
            } by {
                assert(v1.class_defs.contains_key(k));
                if k != class_key {
                    assert(v.class_defs[k] == v1.class_defs[k]);
                }
            }
            assert forall|k: u64| #[trigger] v.method_defs.contains_key(k) implies {
                &&& (k as int) < v.method_refs.len()
                &&& v.method_refs[k as int] == v.method_defs[k].spec_ref_to()
                &&& mdef_ok(v.method_defs[k], v)
            } by {
                if k != ri.0 {
                    assert(v1.method_defs.contains_key(k));
                    assert(mdef_ok(v1.method_defs[k], v1));
                } else {
                    assert(mdef_ok(defg, v0));
                }
            }
            assert forall|t: int| 0 <= t < v.class_order.len() implies v.class_defs.contains_key(
                #[trigger] v.class_order[t],
            ) by {
                assert(v1.class_defs.contains_key(v1.class_order[t]));
            }
            assert forall|k: u64| #[trigger] v.class_defs.contains_key(k) implies
                v.class_order.contains(k) by {
                assert(v1.class_defs.contains_key(k));
            }
        }
        MethodDefIdx(ri)
    }

    /// Idempotently creates-or-returns the one synthetic module class that
    /// hosts free functions and globals: calling this twice returns the same
    /// handle and leaves the assembly unchanged the second time.
    pub fn main_module(&mut self) -> (r: ClassDefIdx)
        requires
            old(self).inv(),
        ensures
            final(self).inv(),
            arenas_extend(old(self)@, final(self)@),
            final(self)@.method_defs == old(self)@.method_defs,
            forall|k: u64|
                #[trigger] old(self)@.class_defs.contains_key(k)
                    ==> final(self)@.class_defs.contains_key(k) && final(self)@.class_defs[k]
                    == old(self)@.class_defs[k],
            is_main_module(final(self)@, r.0.0),
            forall|k: u64|
                #[trigger] is_main_module(old(self)@, k) ==> final(self)@ == old(self)@ && r.0.0
                    == k,
            (forall|k: u64| !(#[trigger] is_main_module(old(self)@, k))) ==> {
                &&& final(self)@.class_defs[r.0.0].methods@.len() == 0
                &&& final(self)@.class_defs[r.0.0].static_fields@.len() == 0
                &&& final(self)@.class_defs[r.0.0].fields@.len() == 0
                &&& final(self)@.class_defs[r.0.0].access == Access::Public
                &&& final(self)@.class_defs[r.0.0].extends is None
                &&& !final(self)@.class_defs[r.0.0].is_valuetype
                &&& final(self)@.class_order == old(self)@.class_order.push(r.0.0)
            },
    {
        let ghost v0 = self@;
        let name = self.alloc_string(IString::from_str(MAIN_MODULE));
        let ghost v1 = self@;
        let class_def = ClassDef {
            name,
            access: Access::Public,
            extends: None,
            fields: Vec::new(),
            static_fields: Vec::new(),
            methods: Vec::new(),
            is_valuetype: false,
        };
        let cref = class_def.ref_to();
        let h = self.class_idx(cref);
        let ghost v2 = self@;
        proof {
            assert forall|k: u64| #[trigger] is_main_module(v0, k) implies h.0 == k
                && v2.strings == v0.strings && v2.class_refs == v0.class_refs by {
                let nk = v0.class_refs[k as int].name;
                assert(v0.strings[nk.0 as int]@ == main_module_name());
                assert(v1.strings == v0.strings);
                assert(v1.strings[name.0 as int]@ == main_module_name());
                self.strings.lemma_canonical(nk.0 as int, name.0 as int);
                assert(nk == name);
                assert(v1.class_refs[k as int] == cref);
                assert(v2.class_refs == v1.class_refs);
                self.class_refs.lemma_canonical(k as int, h.0 as int);
            }
        }
        if fx_contains(&self.class_defs, h.0) {
            proof {
                assert(v2.class_defs == v0.class_defs);
                assert(is_main_module(v2, h.0));
                assert(v0.class_defs.contains_key(h.0));
                assert((h.0 as int) < v0.class_refs.len());
                assert(v0.class_refs[h.0 as int] == v2.class_refs.subrange(
                    0,
                    v0.class_refs.len() as int,
                )[h.0 as int]);
                assert(v0.class_refs[h.0 as int] == cref);
                assert(cref_ok(cref, v0));
                assert(v0.strings[name.0 as int] == v1.strings.subrange(
                    0,
                    v0.strings.len() as int,
                )[name.0 as int]);
                assert(is_main_module(v0, h.0));
                assert(v2.strings == v0.strings && v2.class_refs == v0.class_refs);
                assert(v2 == v0);
            }
            ClassDefIdx(h)
        } else {
            proof {
                if class_registered(v2, cref) {
                    let k = choose|k: u64|
                        #[trigger] v2.class_defs.contains_key(k) && (k as int)
                            < v2.class_refs.len() && v2.class_refs[k as int] == cref;
                    self.class_refs.lemma_canonical(k as int, h.0 as int);
                }
                assert(!class_registered(v2, cref));
                assert forall|k: u64| !(#[trigger] is_main_module(v0, k)) by {
                    if is_main_module(v0, k) {
                        assert(v2.class_defs.contains_key(h.0));
                    }
                }
            }
            let r = self.class_def(class_def);
            proof {
                assert(is_main_module(self@, r.0.0));
            }
            r
        }
    }

    /// Interns a name and a value-type class reference bearing it.
    pub fn strct(&mut self, name: IString) -> (r: ClassRefIdx)
        requires
            old(self).inv(),
        ensures
            final(self).inv(),
            arenas_extend(old(self)@, final(self)@),
            same_tables(old(self)@, final(self)@),
            (r.0 as int) < final(self)@.class_refs.len(),
            final(self)@.class_refs[r.0 as int].rasm is None,
            final(self)@.class_refs[r.0 as int].is_valuetype,
            (final(self)@.class_refs[r.0 as int].name.0 as int) < final(self)@.strings.len(),
            final(self)@.strings[final(self)@.class_refs[r.0 as int].name.0 as int]@ == name@,
    {
        let ghost nv = name@;
        let n = self.alloc_string(name);
        let c = ClassRef { name: n, rasm: None, is_valuetype: true };
        self.class_idx(c)
    }

    /// Builds a platform-string constant node, interning the string.
    pub fn ldstr(&mut self, msg: IString) -> (r: CILNode)
        requires
            old(self).inv(),
        ensures
            final(self).inv(),
            arenas_extend(old(self)@, final(self)@),
            same_tables(old(self)@, final(self)@),
            node_ok(r, final(self)@),
            match r {
                CILNode::Const(c) => match c {
                    Const::PlatformString(s) => final(self)@.strings[s.0 as int]@ == msg@,
                    _ => false,
                },
                _ => false,
            },
    {
        let ghost mv = msg@;
        let s = self.alloc_string(msg);
        CILNode::Const(Const::PlatformString(s))
    }

    /// Builds a binary-operation node, interning both operands.
    pub fn biop(&mut self, lhs: CILNode, rhs: CILNode, op: BinOp) -> (r: CILNode)
        requires
            old(self).inv(),
            node_ok(lhs, old(self)@),
            node_ok(rhs, old(self)@),
        ensures
            final(self).inv(),
            arenas_extend(old(self)@, final(self)@),
            same_tables(old(self)@, final(self)@),
            node_ok(r, final(self)@),
            match r {
                CILNode::BinOp(a, b, o) => o == op && final(self)@.nodes[a.0 as int] == lhs
                    && final(self)@.nodes[b.0 as int] == rhs,
                _ => false,
            },
    {
        let a = self.node_idx(lhs);
        let b = self.node_idx(rhs);
        proof {
            assert(final(self)@.nodes[a.0 as int] == lhs) by {
                assert(self@.nodes[a.0 as int] == self@.nodes.subrange(
                    0,
                    self@.nodes.len() as int,
                )[a.0 as int]);
            }
        }
        CILNode::BinOp(a, b, op)
    }

    /// Builds a unary-operation node, interning the operand.
    pub fn unop(&mut self, val: CILNode, op: UnOp) -> (r: CILNode)
        requires
            old(self).inv(),
            node_ok(val, old(self)@),
        ensures
            final(self).inv(),
            arenas_extend(old(self)@, final(self)@),
            same_tables(old(self)@, final(self)@),
            node_ok(r, final(self)@),
            match r {
                CILNode::UnOp(a, o) => o == op && final(self)@.nodes[a.0 as int] == val,
                _ => false,
            },
    {
        let a = self.node_idx(val);
        CILNode::UnOp(a, op)
    }

    /// Looks a class definition up by its handle.
    pub fn get_class_def(&self, id: ClassDefIdx) -> (r: Option<&ClassDef>)
        requires
            self.inv(),
        ensures
            match r {
                Some(d) => self@.class_defs.contains_key(id.0.0) && *d == self@.class_defs[id.0.0],
                None => !self@.class_defs.contains_key(id.0.0),
            },
    {
        fx_get(&self.class_defs, id.0.0)
    }

    /// Looks a method definition up by the handle of its reference form.
    pub fn method_def(&self, id: MethodDefIdx) -> (r: Option<&MethodDef>)
        requires
            self.inv(),
        ensures
            match r {
                Some(d) => self@.method_defs.contains_key(id.0.0) && *d == self@.method_defs[id.0.0],
                None => !self@.method_defs.contains_key(id.0.0),
            },
    {
        fx_get(&self.method_defs, id.0.0)
    }

    /// Idempotently creates-or-returns the one well-known static method that
    /// aggregates all user-level static-initialization effects: created with
    /// a single basic block holding one terminating void return, and never
    /// created twice.
    pub fn user_init(&mut self) -> (r: MethodDefIdx)
        requires
            old(self).inv(),
        ensures
            final(self).inv(),
            arenas_extend(old(self)@, final(self)@),
            is_user_init_at(final(self)@, r.0.0),
            forall|k: u64|
                #[trigger] old(self)@.class_defs.contains_key(k)
                    ==> final(self)@.class_defs.contains_key(k) && class_same_shape(
                    final(self)@.class_defs[k],
                    old(self)@.class_defs[k],
                ),
            forall|k: u64|
                k != r.0.0 && #[trigger] old(self)@.method_defs.contains_key(k)
                    ==> final(self)@.method_defs.contains_key(k) && final(self)@.method_defs[k]
                    == old(self)@.method_defs[k],
            forall|k: u64|
                #[trigger] is_user_init_at(old(self)@, k) ==> final(self)@ == old(self)@ && r.0.0
                    == k,
            (forall|k: u64| !(#[trigger] is_user_init_at(old(self)@, k))) ==> {
                &&& user_init_body_fresh(final(self)@, r.0.0)
                &&& !old(self)@.method_defs.contains_key(r.0.0)
                &&& final(self)@.method_defs == old(self)@.method_defs.insert(
                    r.0.0,
                    final(self)@.method_defs[r.0.0],
                )
            },
    {
        let ghost v0 = self@;
        let mm = self.main_module();
        let ghost v1 = self@;
        let ui_name = self.alloc_string(IString::from_str(USER_INIT));
        let ghost v2 = self@;
        let ctor_sig = self.sig(Vec::new(), Type::Void);
        let ghost v3 = self@;
        let mref = MethodRef {
            class: Some(mm.0),
            name: ui_name,
            sig: ctor_sig,
            kind: MethodKind::Static,
        };
        let ri = self.methodref_idx(mref);
        let ghost v4 = self@;
        proof {
            assert forall|k0: u64| #[trigger] is_user_init_at(v0, k0) implies v4 == v0 && ri.0
                == k0 by {
                let mr0 = v0.method_refs[k0 as int];
                let c0 = choose|c: ClassRefIdx| mr0.class == Some(c);
                assert(is_main_module(v0, c0.0));
                assert(v1 == v0 && mm.0 == c0);
                assert(v1.strings[mr0.name.0 as int]@ == user_init_name());
                assert(v2.strings == v1.strings);
                assert(v2 == v0);
                assert(v2.sigs[mr0.sig.0 as int].inputs@.len() == 0);
                assert(v2.sigs[mr0.sig.0 as int].inputs@ =~= Seq::<Type>::empty());
                assert(v3.sigs == v2.sigs);
                assert(v3 == v0);
                self.strings.lemma_canonical(mr0.name.0 as int, ui_name.0 as int);
                assert(ui_name == mr0.name);
                self.sigs.lemma_canonical(mr0.sig.0 as int, ctor_sig.0 as int);
                assert(ctor_sig == mr0.sig);
                assert(mref == mr0);
                assert(v4.method_refs == v3.method_refs);
                assert(v4 == v0);
                self.method_refs.lemma_canonical(k0 as int, ri.0 as int);
            }
        }
        if fx_contains(&self.method_defs, ri.0) {
            proof {
                assert(v4.method_defs == v0.method_defs);
                assert(v0.method_defs.contains_key(ri.0));
                assert((ri.0 as int) < v0.method_refs.len());
                assert(v0.method_refs[ri.0 as int] == v4.method_refs.subrange(
                    0,
                    v0.method_refs.len() as int,
                )[ri.0 as int]);
                assert(v0.method_refs[ri.0 as int] == mref);
                assert(mdef_ok(v0.method_defs[ri.0], v0));
                assert(v0.method_defs[ri.0].spec_ref_to() == mref);
                assert(v0.method_defs[ri.0].class.0 == mm.0);
                assert(v0.class_defs.contains_key(mm.0.0));
                assert(is_main_module(v1, mm.0.0));
                assert((mm.0.0 as int) < v0.class_refs.len());
                assert(v0.class_refs[mm.0.0 as int] == v1.class_refs.subrange(
                    0,
                    v0.class_refs.len() as int,
                )[mm.0.0 as int]);
                assert(cref_ok(v0.class_refs[mm.0.0 as int], v0));
                assert(is_main_module(v0, mm.0.0));
                assert(mref_ok(mref, v0));
                assert(v0.strings[ui_name.0 as int] == v2.strings.subrange(
                    0,
                    v0.strings.len() as int,
                )[ui_name.0 as int]);
                assert(v0.sigs[ctor_sig.0 as int] == v3.sigs.subrange(
                    0,
                    v0.sigs.len() as int,
                )[ctor_sig.0 as int]);
                assert(is_user_init_at(v0, ri.0));
                assert(v4 == v0);
                assert(is_user_init_at(v4, ri.0));
            }
            MethodDefIdx(ri)
        } else {
            proof {
                assert forall|k0: u64| !(#[trigger] is_user_init_at(v0, k0)) by {
                    if is_user_init_at(v0, k0) {
                        assert(v4.method_defs.contains_key(ri.0));
                    }
                }
            }
            let vr = self.alloc_root(CILRoot::VoidRet);
            let ghost v5 = self@;
            let mut block_roots: Vec<RootIdx> = Vec::new();
            block_roots.push(vr);
            let block = BasicBlock { roots: block_roots, block_id: 0, handler: None };
            let mut blocks: Vec<BasicBlock> = Vec::new();
            blocks.push(block);
            let ghost blocks_g = blocks@;
            let mimpl = MethodImpl::MethodBody { blocks, locals: Vec::new() };
            let cctor_def = MethodDef {
                class: mm,
                name: ui_name,
                sig: ctor_sig,
                kind: MethodKind::Static,
                implementation: mimpl,
            };
            proof {
                assert(is_main_module(v4, mm.0.0)) by {
                    assert(is_main_module(v1, mm.0.0));
                    assert(v4.class_defs == v1.class_defs);
                    assert(v4.class_refs == v1.class_refs);
                    assert(v1.strings[v1.class_refs[mm.0.0 as int].name.0 as int]
                        == v4.strings.subrange(0, v1.strings.len() as int)[v1.class_refs[mm.0.0 as int].name.0 as int]);
                }
                assert(v5.class_defs.contains_key(cctor_def.class.0.0));
                assert(mdef_ok(cctor_def, v5));
            }
            let r = self.new_method(cctor_def);
            proof {
                let v = self@;
                assert(v.method_defs.contains_key(r.0.0));
                assert(v.method_defs[r.0.0].name == ui_name);
                assert(v.method_refs[r.0.0 as int] == mref);
                assert(is_main_module(v, mm.0.0)) by {
                    assert(is_main_module(v4, mm.0.0));
                    assert(v.class_defs.contains_key(mm.0.0));
                    assert(v.class_refs == v4.class_refs);
                    assert(v.strings == v4.strings);
                }
                assert(is_user_init_at(v, r.0.0)) by {
                    assert(v.strings == v4.strings);
                    assert(v.sigs == v4.sigs);
                    assert(v.strings[ui_name.0 as int]@ == user_init_name());
                    assert(v.sigs[ctor_sig.0 as int].inputs@.len() == 0);
                    assert(v.sigs[ctor_sig.0 as int].output == Type::Void);
                }
                assert(user_init_body_fresh(v, r.0.0)) by {
                    assert(v.method_defs[r.0.0] == cctor_def);
                    assert(blocks_g[0].roots@.len() == 1);
                    assert(blocks_g[0].roots@[0] == vr);
                    assert(v.roots == v5.roots);
                    assert(v5.roots[vr.0 as int] == CILRoot::VoidRet);
                }
                assert(r.0.0 == ri.0) by {
                    assert(v.method_refs[ri.0 as int] == v.method_refs.subrange(
                        0,
                        v4.method_refs.len() as int,
                    )[ri.0 as int]);
                    assert(v.method_refs[r.0.0 as int] == cctor_def.spec_ref_to());
                    assert(cctor_def.spec_ref_to() == mref);
                    self.method_refs.lemma_canonical(ri.0 as int, r.0.0 as int);
                }
                assert(!v0.method_defs.contains_key(r.0.0)) by {
                    assert(v4.method_defs == v0.method_defs);
                }
                assert(v.method_defs =~= v0.method_defs.insert(r.0.0, v.method_defs[r.0.0]));
            }
            r
        }
    }

    /// Splices new effects into the user-level initializer's last basic
    /// block, immediately before its terminating return; the block ends in a
    /// return before and after. Creates the initializer first if it does not
    /// exist yet.
    pub fn add_user_init(&mut self, roots: &Vec<RootIdx>)
        requires
            old(self).inv(),
            forall|j: int|
                0 <= j < roots@.len() ==> ((#[trigger] roots@[j]).0 as int) < old(
                    self,
                )@.roots.len(),
            forall|k: u64| #[trigger] is_user_init_at(old(self)@, k) ==> ui_body_wf(old(self)@, k),
        ensures
            final(self).inv(),
            arenas_extend(old(self)@, final(self)@),
            forall|k: u64|
                #[trigger] old(self)@.class_defs.contains_key(k)
                    ==> final(self)@.class_defs.contains_key(k) && class_same_shape(
                    final(self)@.class_defs[k],
                    old(self)@.class_defs[k],
                ),
            forall|k: u64|
                #[trigger] old(self)@.method_defs.contains_key(k) && !is_user_init_at(
                    old(self)@,
                    k,
                ) ==> final(self)@.method_defs.contains_key(k) && final(self)@.method_defs[k]
                    == old(self)@.method_defs[k],
            forall|k: u64|
                #[trigger] is_user_init_at(old(self)@, k) ==> {
                    &&& is_user_init_at(final(self)@, k)
                    &&& ui_body_wf(final(self)@, k)
                    &&& ui_last_roots(final(self)@, k) == ui_last_roots(old(self)@, k).drop_last()
                        + roots@ + seq![ui_last_roots(old(self)@, k).last()]
                },
            (forall|k: u64| !(#[trigger] is_user_init_at(old(self)@, k))) ==> exists|k: u64| {
                &&& #[trigger] is_user_init_at(final(self)@, k)
                &&& ui_body_wf(final(self)@, k)
                &&& ui_last_roots(final(self)@, k).len() == roots@.len() + 1
                &&& ui_last_roots(final(self)@, k).drop_last() == roots@
                &&& final(self)@.roots[ui_last_roots(final(self)@, k).last().0 as int]
                    == CILRoot::VoidRet
            },
    {
        let ghost v0 = self@;
        let ui = self.user_init();
        let ghost v1 = self@;
        proof {
            assert(ui_body_wf(v1, ui.0.0)) by {
                if exists|k: u64| #[trigger] is_user_init_at(v0, k) {
                    let k = choose|k: u64| #[trigger] is_user_init_at(v0, k);
                    assert(v1 == v0 && ui.0.0 == k);
                } else {
                    assert(user_init_body_fresh(v1, ui.0.0));
                }
            }
        }
        let dopt = fx_remove(&mut self.method_defs, ui.0.0);
        let d = dopt.unwrap();
        let ghost dg = d;
        let dclass = d.class;
        let dname = d.name;
        let dsig = d.sig;
        let dkind = d.kind;
        let (mut blocks, locals) = match d.implementation {
            MethodImpl::MethodBody { blocks, locals } => (blocks, locals),
            MethodImpl::Extern { lib, preserve_errno } => {
                proof {
                    assert(false);
                }
                (Vec::new(), Vec::new())
            },
        };
        let mut last = blocks.pop().unwrap();
        let ghost pre = last.roots@;
        let n = roots.len();
        let ghost li = pre.len() - 1;
        let mut t: usize = 0;
        while t < n
            invariant
                n == roots@.len(),
                t <= n,
                pre.len() >= 1,
                li == pre.len() - 1,
                last.roots@ =~= pre.take(li) + roots@.take(t as int) + seq![pre.last()],
                last.block_id == ui_blocks(v1, ui.0.0).last().block_id,
                last.handler == ui_blocks(v1, ui.0.0).last().handler,
            decreases n - t,
        {
            let p = last.roots.len() - 1;
            last.roots.insert(p, roots[t]);
            proof {
                assert(p as int == li + t);
                assert(last.roots@ =~= pre.take(li) + roots@.take(t as int + 1) + seq![
                    pre.last(),
                ]);
            }
            t += 1;
        }
        proof {
            assert(roots@.take(n as int) =~= roots@);
            assert(last.roots@ =~= pre.take(li) + roots@ + seq![pre.last()]);
        }
        blocks.push(last);
        let nd = MethodDef {
            class: dclass,
            name: dname,
            sig: dsig,
            kind: dkind,
            implementation: MethodImpl::MethodBody { blocks, locals },
        };
        let ghost ndg = nd;
        fx_insert(&mut self.method_defs, ui.0.0, nd);
        proof {
            let v = self@;
            assert(v.method_defs =~= v1.method_defs.insert(ui.0.0, ndg));
            assert(ndg.spec_ref_to() == dg.spec_ref_to());
            assert(ui_blocks(v, ui.0.0) =~= ui_blocks(v1, ui.0.0).drop_last().push(
                ui_blocks(v, ui.0.0).last(),
            ));
            assert(ui_last_roots(v, ui.0.0) =~= pre.take(li) + roots@ + seq![pre.last()]);
            assert(mdef_ok(ndg, v)) by {
                assert(mdef_ok(dg, v1));
                let bs = ui_blocks(v, ui.0.0);
                let bs0 = ui_blocks(v1, ui.0.0);
                assert forall|b: int, j: int|
                    0 <= b < bs.len() && 0 <= j < bs[b].roots@.len() implies ((
                #[trigger] bs[b].roots@[j]).0 as int) < v.roots.len() by {
                    if b < bs.len() - 1 {
                        assert(bs[b] == bs0[b]);
                        assert((bs0[b].roots@[j].0 as int) < v1.roots.len());
                    } else {
                        let lr = bs[b].roots@;
                        assert(lr =~= pre.take(li) + roots@ + seq![pre.last()]);
                        if j < li {
                            assert(lr[j] == pre[j]);
                            assert((bs0[bs0.len() - 1].roots@[j].0 as int) < v1.roots.len());
                        } else if j < li + roots@.len() {
                            assert(lr[j] == roots@[j - li]);
                        } else {
                            assert(lr[j] == pre.last());
                            assert((bs0[bs0.len() - 1].roots@[pre.len() - 1].0 as int)
                                < v1.roots.len());
                        }
                    }
                }
            }
            assert forall|k: u64| #[trigger] v.method_defs.contains_key(k) implies {
                &&& (k as int) < v.method_refs.len()
                &&& v.method_refs[k as int] == v.method_defs[k].spec_ref_to()
                &&& mdef_ok(v.method_defs[k], v)
            } by {
                if k != ui.0.0 {
                    assert(v1.method_defs.contains_key(k));
                    assert(mdef_ok(v1.method_defs[k], v1));
                } else {
                    assert(v1.method_refs[k as int] == dg.spec_ref_to());
                }
            }
            assert(is_user_init_at(v, ui.0.0)) by {
                assert(is_user_init_at(v1, ui.0.0));
                assert(v.strings == v1.strings && v.sigs == v1.sigs && v.method_refs
                    == v1.method_refs && v.class_refs == v1.class_refs && v.class_defs
                    == v1.class_defs);
            }
            assert(ui_body_wf(v, ui.0.0)) by {
                let lr = ui_last_roots(v, ui.0.0);
                assert(lr.len() == li + roots@.len() + 1);
                assert(lr.last() == pre.last());
                assert((pre.last().0 as int) < v1.roots.len());
                assert(is_return(v1.roots[pre.last().0 as int]));
            }
            assert forall|k: u64| #[trigger] is_user_init_at(v0, k) implies {
                &&& is_user_init_at(v, k)
                &&& ui_body_wf(v, k)
                &&& ui_last_roots(v, k) == ui_last_roots(v0, k).drop_last() + roots@ + seq![
                    ui_last_roots(v0, k).last(),
                ]
            } by {
                assert(v1 == v0 && ui.0.0 == k);
                assert(ui_last_roots(v, k) =~= ui_last_roots(v0, k).drop_last() + roots@ + seq![
                    ui_last_roots(v0, k).last(),
                ]) by {
                    assert(pre == ui_last_roots(v0, k));
                    assert(pre.take(li) =~= pre.drop_last());
                }
            }
            if forall|k: u64| !(#[trigger] is_user_init_at(v0, k)) {
                assert(user_init_body_fresh(v1, ui.0.0));
                assert(pre.len() == 1);
                assert(ui_last_roots(v, ui.0.0).len() == roots@.len() + 1);
                assert(ui_last_roots(v, ui.0.0).drop_last() =~= roots@) by {
                    assert(pre.take(0) =~= Seq::<RootIdx>::empty());
                }
                assert(v.roots[ui_last_roots(v, ui.0.0).last().0 as int] == CILRoot::VoidRet) by {
                    assert(pre[0] == ui_blocks(v1, ui.0.0)[0].roots@[0]);
                    assert(v1.roots[pre.last().0 as int] == CILRoot::VoidRet);
                }
                assert(is_user_init_at(v, ui.0.0));
            }
        }
    }
}

impl Default for Assembly {
    /// An empty assembly.
    fn default() -> (r: Self)
        ensures
            r.inv(),
            r@.strings.len() == 0,
            r@.nodes.len() == 0,
            r@.roots.len() == 0,
            r@.class_order.len() == 0,
    {
        Assembly::new()
    }
}

/// An initializer that runs before everything else. By convention it only
/// initializes static and constant data and must never execute user code.
pub const CCTOR: &'static str = ".cctor";

/// A thread-local initializer that runs before each thread starts. By
/// convention it must never execute user code.
pub const TCCTOR: &'static str = ".tcctor";

/// The aggregated user-level initializer: runs after the runtime's own
/// initializers and before the entry point, and is the one place user-level
/// static-initialization effects are spliced into.
pub const USER_INIT: &'static str = "static_init";

/// The entry point of a program.
pub const ENTRYPOINT: &'static str = "entrypoint";

/// The synthetic class that hosts free functions and globals.
pub const MAIN_MODULE: &'static str = "MainModule";

/// The byte view of the main-module class name.
pub open spec fn main_module_name() -> Seq<u8> {
    MAIN_MODULE.spec_bytes()
}

/// The byte view of the user-level initializer's name.
pub open spec fn user_init_name() -> Seq<u8> {
    USER_INIT.spec_bytes()
}

/// Does handle `k` name the registered main-module class of `v`?
pub open spec fn is_main_module(v: AsmView, k: u64) -> bool {
    &&& v.class_defs.contains_key(k)
    &&& (k as int) < v.class_refs.len()
    &&& v.class_refs[k as int].rasm is None
    &&& !v.class_refs[k as int].is_valuetype
    &&& (v.class_refs[k as int].name.0 as int) < v.strings.len()
    &&& v.strings[v.class_refs[k as int].name.0 as int]@ == main_module_name()
}

/// Does handle `k` name the registered user-level initializer of `v`: a
/// static, parameterless, void method named [`USER_INIT`] on the main
/// module?
pub open spec fn is_user_init_at(v: AsmView, k: u64) -> bool {
    &&& v.method_defs.contains_key(k)
    &&& (k as int) < v.method_refs.len()
    &&& v.method_refs[k as int].kind == MethodKind::Static
    &&& (v.method_refs[k as int].name.0 as int) < v.strings.len()
    &&& v.strings[v.method_refs[k as int].name.0 as int]@ == user_init_name()
    &&& match v.method_refs[k as int].class {
        Some(c) => is_main_module(v, c.0),
        None => false,
    }
    &&& (v.method_refs[k as int].sig.0 as int) < v.sigs.len()
    &&& v.sigs[v.method_refs[k as int].sig.0 as int].inputs@.len() == 0
    &&& v.sigs[v.method_refs[k as int].sig.0 as int].output == Type::Void
}

/// The body shape of a freshly created user-level initializer: one basic
/// block holding exactly one terminating void return.
pub open spec fn user_init_body_fresh(v: AsmView, k: u64) -> bool {
    &&& v.method_defs.contains_key(k)
    &&& match v.method_defs[k].implementation {
        MethodImpl::MethodBody { blocks, locals } => {
            &&& blocks@.len() == 1
            &&& blocks@[0].roots@.len() == 1
            &&& (blocks@[0].roots@[0].0 as int) < v.roots.len()
            &&& v.roots[blocks@[0].roots@[0].0 as int] == CILRoot::VoidRet
            &&& locals@.len() == 0
        },
        MethodImpl::Extern { .. } => false,
    }
}

/// The blocks of the method definition stored under `k` (empty for an
/// external method).
pub open spec fn ui_blocks(v: AsmView, k: u64) -> Seq<BasicBlock> {
    match v.method_defs[k].implementation {
        MethodImpl::MethodBody { blocks, .. } => blocks@,
        MethodImpl::Extern { .. } => Seq::empty(),
    }
}

/// The effect sequence of the last block of the method stored under `k`.
pub open spec fn ui_last_roots(v: AsmView, k: u64) -> Seq<RootIdx> {
    ui_blocks(v, k).last().roots@
}

/// Does an effect end a basic block by returning?
pub open spec fn is_return(r: CILRoot) -> bool {
    r is VoidRet || r is Ret
}

/// The method stored under `k` has a body whose last block ends in a return.
pub open spec fn ui_body_wf(v: AsmView, k: u64) -> bool {
    &&& ui_blocks(v, k).len() >= 1
    &&& ui_last_roots(v, k).len() >= 1
    &&& (ui_last_roots(v, k).last().0 as int) < v.roots.len()
    &&& is_return(v.roots[ui_last_roots(v, k).last().0 as int])
}

/// Is a class with reference form `c` registered in `v`?
pub open spec fn class_registered(v: AsmView, c: ClassRef) -> bool {
    exists|k: u64|
        #[trigger] v.class_defs.contains_key(k) && (k as int) < v.class_refs.len()
            && v.class_refs[k as int] == c
}

/// Two class definitions that differ at most in their method list.
pub open spec fn class_same_shape(a: ClassDef, b: ClassDef) -> bool {
    &&& a.name == b.name
    &&& a.access == b.access
    &&& a.extends == b.extends
    &&& a.is_valuetype == b.is_valuetype
    &&& a.fields@ == b.fields@
    &&& a.static_fields@ == b.static_fields@
}

/// A sequence that is itself or itself plus one pushed element is extended
/// by a prefix.
proof fn lemma_prefix_cases<T>(s0: Seq<T>, s1: Seq<T>, x: T)
    requires
        s1 == s0 || s1 == s0.push(x),
    ensures
        s0.is_prefix_of(s1),
        forall|i: int| 0 <= i < s0.len() ==> s1[i] == s0[i],
{
    if s1 == s0.push(x) {
        assert(s0.is_prefix_of(s1)) by {
            assert(s1.subrange(0, s0.len() as int) =~= s0);
        }
    } else {
        assert(s0.is_prefix_of(s1)) by {
            assert(s1.subrange(0, s0.len() as int) =~= s0);
        }
    }
}

/// The view-level invariant is stable under growing the arenas, as long as
/// every freshly appended entry is itself well-formed.
proof fn lemma_view_inv_extend(v0: AsmView, v: AsmView)
    requires
        view_inv(v0),
        arenas_extend(v0, v),
        v.class_defs == v0.class_defs,
        v.class_order == v0.class_order,
        v.method_defs == v0.method_defs,
        forall|i: int|
            v0.class_refs.len() <= i < v.class_refs.len() ==> cref_ok(
                #[trigger] v.class_refs[i],
                v,
            ),
        forall|i: int|
            v0.method_refs.len() <= i < v.method_refs.len() ==> mref_ok(
                #[trigger] v.method_refs[i],
                v,
            ),
        forall|i: int| v0.types.len() <= i < v.types.len() ==> type_ok(#[trigger] v.types[i], v),
        forall|i: int| v0.nodes.len() <= i < v.nodes.len() ==> node_ok(#[trigger] v.nodes[i], v),
        forall|i: int|
            v0.nodes.len() <= i < v.nodes.len() ==> match #[trigger] v.nodes[i] {
                CILNode::Call(_, a) => args_below(v.arg_lists[a.0 as int].args@, i),
                CILNode::CallI(_, _, a) => args_below(v.arg_lists[a.0 as int].args@, i),
                _ => true,
            },
        forall|a: int|
            v0.arg_lists.len() <= a < v.arg_lists.len() ==> args_below(
                (#[trigger] v.arg_lists[a]).args@,
                v.nodes.len() as int,
            ),
        forall|i: int| v0.roots.len() <= i < v.roots.len() ==> root_ok(#[trigger] v.roots[i], v),
    ensures
        view_inv(v),
{
    assert forall|i: int| 0 <= i < v0.strings.len() implies v.strings[i] == v0.strings[i] by {
        assert(v0.strings[i] == v.strings.subrange(0, v0.strings.len() as int)[i]);
    }
    assert forall|i: int| 0 <= i < v0.types.len() implies v.types[i] == v0.types[i] by {
        assert(v0.types[i] == v.types.subrange(0, v0.types.len() as int)[i]);
    }
    assert forall|i: int| 0 <= i < v0.class_refs.len() implies v.class_refs[i] == v0.class_refs[i] by {
        assert(v0.class_refs[i] == v.class_refs.subrange(0, v0.class_refs.len() as int)[i]);
    }
    assert forall|i: int| 0 <= i < v0.sigs.len() implies v.sigs[i] == v0.sigs[i] by {
        assert(v0.sigs[i] == v.sigs.subrange(0, v0.sigs.len() as int)[i]);
    }
    assert forall|i: int| 0 <= i < v0.method_refs.len() implies v.method_refs[i]
        == v0.method_refs[i] by {
        assert(v0.method_refs[i] == v.method_refs.subrange(0, v0.method_refs.len() as int)[i]);
    }
    assert forall|i: int| 0 <= i < v0.fields.len() implies v.fields[i] == v0.fields[i] by {
        assert(v0.fields[i] == v.fields.subrange(0, v0.fields.len() as int)[i]);
    }
    assert forall|i: int| 0 <= i < v0.statics.len() implies v.statics[i] == v0.statics[i] by {
        assert(v0.statics[i] == v.statics.subrange(0, v0.statics.len() as int)[i]);
    }
    assert forall|i: int| 0 <= i < v0.nodes.len() implies v.nodes[i] == v0.nodes[i] by {
        assert(v0.nodes[i] == v.nodes.subrange(0, v0.nodes.len() as int)[i]);
    }
    assert forall|i: int| 0 <= i < v0.arg_lists.len() implies v.arg_lists[i] == v0.arg_lists[i] by {
        assert(v0.arg_lists[i] == v.arg_lists.subrange(0, v0.arg_lists.len() as int)[i]);
    }
    assert forall|i: int| 0 <= i < v0.roots.len() implies v.roots[i] == v0.roots[i] by {
        assert(v0.roots[i] == v.roots.subrange(0, v0.roots.len() as int)[i]);
    }
    assert forall|i: int| 0 <= i < v.class_refs.len() implies cref_ok(
        #[trigger] v.class_refs[i],
        v,
    ) by {
        if i < v0.class_refs.len() {
            assert(cref_ok(v0.class_refs[i], v0));
        }
    }
    assert forall|i: int| 0 <= i < v.method_refs.len() implies mref_ok(
        #[trigger] v.method_refs[i],
        v,
    ) by {
        if i < v0.method_refs.len() {
            assert(mref_ok(v0.method_refs[i], v0));
        }
    }
    assert forall|i: int| 0 <= i < v.types.len() implies type_ok(#[trigger] v.types[i], v) by {
        if i < v0.types.len() {
            assert(type_ok(v0.types[i], v0));
        }
    }
    assert forall|i: int| 0 <= i < v.nodes.len() implies node_ok(#[trigger] v.nodes[i], v) by {
        if i < v0.nodes.len() {
            assert(node_ok(v0.nodes[i], v0));
        }
    }
    assert forall|i: int| 0 <= i < v.nodes.len() implies match #[trigger] v.nodes[i] {
        CILNode::Call(_, a) => args_below(v.arg_lists[a.0 as int].args@, i),
        CILNode::CallI(_, _, a) => args_below(v.arg_lists[a.0 as int].args@, i),
        _ => true,
    } by {
        if i < v0.nodes.len() {
            assert(node_ok(v0.nodes[i], v0));
            match v0.nodes[i] {
                CILNode::Call(_, a) => {
                    assert(args_below(v0.arg_lists[a.0 as int].args@, i));
                },
                CILNode::CallI(_, _, a) => {
                    assert(args_below(v0.arg_lists[a.0 as int].args@, i));
                },
                _ => {},
            }
        }
    }
    assert forall|a: int| 0 <= a < v.arg_lists.len() implies args_below(
        (#[trigger] v.arg_lists[a]).args@,
        v.nodes.len() as int,
    ) by {
        if a < v0.arg_lists.len() {
            assert(args_below(v0.arg_lists[a].args@, v0.nodes.len() as int));
        }
    }
    assert forall|i: int| 0 <= i < v.roots.len() implies root_ok(#[trigger] v.roots[i], v) by {
        if i < v0.roots.len() {
            assert(root_ok(v0.roots[i], v0));
        }
    }
    assert forall|k: u64| #[trigger] v.method_defs.contains_key(k) implies {
        &&& (k as int) < v.method_refs.len()
        &&& v.method_refs[k as int] == v.method_defs[k].spec_ref_to()
        &&& mdef_ok(v.method_defs[k], v)
    } by {
        assert(v0.method_defs.contains_key(k));
        assert(mdef_ok(v0.method_defs[k], v0));
    }
}

/// The cross-arena clauses of the invariant, stated of a bare view.
pub open spec fn view_inv(v: AsmView) -> bool {
    &&& forall|i: int| 0 <= i < v.class_refs.len() ==> cref_ok(#[trigger] v.class_refs[i], v)
    &&& forall|i: int| 0 <= i < v.method_refs.len() ==> mref_ok(#[trigger] v.method_refs[i], v)
    &&& forall|i: int| 0 <= i < v.types.len() ==> type_ok(#[trigger] v.types[i], v)
    &&& forall|i: int| 0 <= i < v.nodes.len() ==> node_ok(#[trigger] v.nodes[i], v)
    &&& forall|i: int|
        0 <= i < v.nodes.len() ==> match #[trigger] v.nodes[i] {
            CILNode::Call(_, a) => args_below(v.arg_lists[a.0 as int].args@, i),
            CILNode::CallI(_, _, a) => args_below(v.arg_lists[a.0 as int].args@, i),
            _ => true,
        }
    &&& forall|a: int|
        0 <= a < v.arg_lists.len() ==> args_below(
            (#[trigger] v.arg_lists[a]).args@,
            v.nodes.len() as int,
        )
    &&& forall|i: int| 0 <= i < v.roots.len() ==> root_ok(#[trigger] v.roots[i], v)
    &&& forall|k: u64|
        #[trigger] v.class_defs.contains_key(k) ==> {
            &&& (k as int) < v.class_refs.len()
            &&& v.class_refs[k as int] == v.class_defs[k].spec_ref_to()
        }
    &&& forall|t: int|
        0 <= t < v.class_order.len() ==> v.class_defs.contains_key(#[trigger] v.class_order[t])
    &&& forall|k: u64| #[trigger] v.class_defs.contains_key(k) ==> v.class_order.contains(k)
    &&& forall|t1: int, t2: int|
        #![trigger v.class_order[t1], v.class_order[t2]]
        0 <= t1 < v.class_order.len() && 0 <= t2 < v.class_order.len() && t1 != t2
            ==> v.class_order[t1] != v.class_order[t2]
    &&& forall|k: u64|
        #[trigger] v.method_defs.contains_key(k) ==> {
            &&& (k as int) < v.method_refs.len()
            &&& v.method_refs[k as int] == v.method_defs[k].spec_ref_to()
            &&& mdef_ok(v.method_defs[k], v)
        }
}

} // verus!
