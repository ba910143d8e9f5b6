//! The legacy whole-program representation and its one-shot ingestion into
//! an assembly: an initializer-root list, a name-keyed static-field table,
//! a name-keyed extern-function table, a name-keyed function table, and a
//! type-definition list.

use crate::cil_root::{root_no_markers, root_no_subtrees, root_wf, CILRoot as TreeRoot};
use crate::istring::IString;
use crate::tpe::{FnSig as TreeSig, Type as TreeType};
use crate::v2::assembly::{
    arenas_extend, is_main_module, is_user_init_at, mdef_ok, user_init_name, AsmView, Assembly,
    BasicBlock, ClassDef, LocalDef, MethodDef, MethodImpl, StaticFieldDef,
};
use crate::v2::cilroot::RootIdx;
use crate::v2::from_v1::{
    lemma_extend_trans, lemma_root_corr_extend, lemma_sig_corr_extend, lemma_type_corr_extend,
    root_corr, sig_corr, type_corr,
};
use crate::v2::tpe::{Access, MethodKind, Type};
use vstd::prelude::*;

verus! {

broadcast use
    vstd::std_specs::vec::axiom_vec_index_decreases,
    vstd::seq::axiom_seq_index_decreases;

/// A legacy static-field record: name, type and thread-local flag.
pub struct StaticFieldRecord {
    pub name: IString,
    pub tpe: TreeType,
    pub is_thread_local: bool,
}

/// A legacy extern-function record: name, signature, errno preservation
/// flag and library name.
pub struct ExternFnRecord {
    pub name: IString,
    pub sig: TreeSig,
    pub preserve_errno: bool,
    pub lib: IString,
}

/// A legacy basic block: an effect-tree sequence with its block id.
pub struct V1Block {
    pub block_id: u32,
    pub roots: Vec<TreeRoot>,
}

/// A legacy function: name, signature, locals and body blocks.
pub struct V1Method {
    pub name: IString,
    pub sig: TreeSig,
    pub locals: Vec<(Option<IString>, TreeType)>,
    pub blocks: Vec<V1Block>,
}

/// A legacy type definition.
pub struct V1TypeDef {
    pub name: IString,
    pub is_valuetype: bool,
    pub fields: Vec<(IString, TreeType)>,
}

/// A legacy whole-program tree: the only supported ingestion path for the
/// older representation.
pub struct V1Assembly {
    pub initializers: Vec<TreeRoot>,
    pub static_fields: Vec<StaticFieldRecord>,
    pub extern_fns: Vec<ExternFnRecord>,
    pub functions: Vec<V1Method>,
    pub types: Vec<V1TypeDef>,
}

/// Is every effect tree of the legacy program fully lowered and valid?
pub open spec fn v1_wf(v1: V1Assembly) -> bool {
    &&& forall|j: int|
        0 <= j < v1.initializers@.len() ==> root_wf(#[trigger] v1.initializers@[j])
            && root_no_markers(v1.initializers@[j]) && root_no_subtrees(v1.initializers@[j])
    &&& forall|f: int, b: int, j: int|
        0 <= f < v1.functions@.len() && 0 <= b < v1.functions@[f].blocks@.len() && 0 <= j
            < v1.functions@[f].blocks@[b].roots@.len() ==> {
            let rt = #[trigger] v1.functions@[f].blocks@[b].roots@[j];
            root_wf(rt) && root_no_markers(rt) && root_no_subtrees(rt)
        }
    &&& forall|f1: int, f2: int|
        0 <= f1 < v1.functions@.len() && 0 <= f2 < v1.functions@.len() && f1 != f2 ==> (
        #[trigger] v1.functions@[f1].name)@ != (#[trigger] v1.functions@[f2].name)@
    &&& forall|f: int|
        0 <= f < v1.functions@.len() ==> (#[trigger] v1.functions@[f].name)@ != user_init_name()
    &&& forall|e: int|
        0 <= e < v1.extern_fns@.len() ==> (#[trigger] v1.extern_fns@[e].name)@
            != user_init_name()
    &&& forall|f: int, e: int|
        0 <= f < v1.functions@.len() && 0 <= e < v1.extern_fns@.len() ==> (
        #[trigger] v1.functions@[f].name)@ != (#[trigger] v1.extern_fns@[e].name)@
    &&& forall|e1: int, e2: int|
        0 <= e1 < v1.extern_fns@.len() && 0 <= e2 < v1.extern_fns@.len() && e1 != e2 ==> (
        #[trigger] v1.extern_fns@[e1].name)@ != (#[trigger] v1.extern_fns@[e2].name)@
}

/// Is some registered method the image of the legacy function `m`?
pub open spec fn function_registered(v: AsmView, m: V1Method) -> bool {
    exists|k: u64| #[trigger] method_matches(v, k, m)
}

/// Every legacy function has a corresponding registered method.
pub open spec fn functions_matched(v: AsmView, fns: Seq<V1Method>) -> bool {
    forall|f: int|
        #![trigger fns[f]]
        0 <= f < fns.len() ==> function_registered(v, fns[f])
}

/// Does the method stored under `k` stand for the legacy extern-function
/// record `e`: same name, corresponding signature, and an external
/// implementation with matching library name and errno flag?
pub open spec fn extern_matches(v: AsmView, k: u64, e: ExternFnRecord) -> bool {
    &&& v.method_defs.contains_key(k)
    &&& {
        let d = v.method_defs[k];
        &&& (d.name.0 as int) < v.strings.len()
        &&& v.strings[d.name.0 as int]@ == e.name@
        &&& (d.sig.0 as int) < v.sigs.len()
        &&& sig_corr(v, e.sig, v.sigs[d.sig.0 as int])
        &&& d.kind == MethodKind::Static
        &&& match d.implementation {
            MethodImpl::Extern { lib, preserve_errno } => (lib.0 as int) < v.strings.len()
                && v.strings[lib.0 as int]@ == e.lib@ && preserve_errno == e.preserve_errno,
            MethodImpl::MethodBody { .. } => false,
        }
    }
}

/// Is some registered method the image of the extern record `e`?
pub open spec fn extern_registered(v: AsmView, e: ExternFnRecord) -> bool {
    exists|k: u64| #[trigger] extern_matches(v, k, e)
}

/// Every legacy extern function has a corresponding registered method.
pub open spec fn externs_matched(v: AsmView, es: Seq<ExternFnRecord>) -> bool {
    forall|t: int| #![trigger es[t]] 0 <= t < es.len() ==> extern_registered(v, es[t])
}

/// `extern_matches` survives arena growth as long as the stored definition
/// is unchanged.
pub proof fn lemma_extern_matches_extend(v0: AsmView, v: AsmView, k: u64, e: ExternFnRecord)
    requires
        extern_matches(v0, k, e),
        arenas_extend(v0, v),
        v.method_defs.contains_key(k),
        v.method_defs[k] == v0.method_defs[k],
    ensures
        extern_matches(v, k, e),
{
    let d = v0.method_defs[k];
    assert(v.strings[d.name.0 as int] == v.strings.subrange(
        0,
        v0.strings.len() as int,
    )[d.name.0 as int]);
    assert(v.sigs[d.sig.0 as int] == v.sigs.subrange(0, v0.sigs.len() as int)[d.sig.0 as int]);
    lemma_sig_corr_extend(v0, v, e.sig, v0.sigs[d.sig.0 as int]);
    match d.implementation {
        MethodImpl::Extern { lib, .. } => {
            assert(v.strings[lib.0 as int] == v.strings.subrange(
                0,
                v0.strings.len() as int,
            )[lib.0 as int]);
        },
        MethodImpl::MethodBody { .. } => {},
    }
}

/// Does the user-level initializer stored under `k` hold exactly the
/// converted legacy initializers, in order, before its terminating return?
pub open spec fn ui_inits_match(v: AsmView, k: u64, inits: Seq<TreeRoot>) -> bool {
    &&& is_user_init_at(v, k)
    &&& crate::v2::assembly::ui_body_wf(v, k)
    &&& {
        let lr = crate::v2::assembly::ui_last_roots(v, k);
        &&& lr.len() == inits.len() + 1
        &&& forall|j: int|
            0 <= j < inits.len() ==> ((#[trigger] lr[j]).0 as int) < v.roots.len() && root_corr(
                v,
                inits[j],
                v.roots[lr[j].0 as int],
            )
        &&& (lr[lr.len() - 1].0 as int) < v.roots.len()
        &&& v.roots[lr[lr.len() - 1].0 as int] == crate::v2::cilroot::CILRoot::VoidRet
    }
}

/// Are the legacy initializers spliced into the user-level initializer?
pub open spec fn inits_spliced(v: AsmView, inits: Seq<TreeRoot>) -> bool {
    exists|k: u64| #[trigger] ui_inits_match(v, k, inits)
}

/// `ui_inits_match` survives arena growth as long as the stored definition
/// is unchanged and registered classes stay registered.
pub proof fn lemma_ui_inits_extend(v0: AsmView, v: AsmView, k: u64, inits: Seq<TreeRoot>)
    requires
        ui_inits_match(v0, k, inits),
        arenas_extend(v0, v),
        v.method_defs.contains_key(k),
        v.method_defs[k] == v0.method_defs[k],
        forall|x: u64| #[trigger] v0.class_defs.contains_key(x) ==> v.class_defs.contains_key(x),
    ensures
        ui_inits_match(v, k, inits),
{
    let mr = v0.method_refs[k as int];
    assert(v.method_refs[k as int] == v.method_refs.subrange(
        0,
        v0.method_refs.len() as int,
    )[k as int]);
    assert(v.strings[mr.name.0 as int] == v.strings.subrange(
        0,
        v0.strings.len() as int,
    )[mr.name.0 as int]);
    assert(v.sigs[mr.sig.0 as int] == v.sigs.subrange(0, v0.sigs.len() as int)[mr.sig.0 as int]);
    match mr.class {
        Option::Some(c) => {
            assert(v.class_refs[c.0 as int] == v.class_refs.subrange(
                0,
                v0.class_refs.len() as int,
            )[c.0 as int]);
            let nm = v0.class_refs[c.0 as int].name;
            assert(v.strings[nm.0 as int] == v.strings.subrange(
                0,
                v0.strings.len() as int,
            )[nm.0 as int]);
        },
        Option::None => {},
    }
    assert(is_user_init_at(v, k));
    let lr = crate::v2::assembly::ui_last_roots(v0, k);
    assert(crate::v2::assembly::ui_last_roots(v, k) == lr);
    assert(v.roots[lr[lr.len() - 1].0 as int] == v.roots.subrange(
        0,
        v0.roots.len() as int,
    )[lr[lr.len() - 1].0 as int]);
    assert forall|j: int| 0 <= j < inits.len() implies ((#[trigger] lr[j]).0 as int)
        < v.roots.len() && root_corr(v, inits[j], v.roots[lr[j].0 as int]) by {
        assert(v.roots[lr[j].0 as int] == v.roots.subrange(
            0,
            v0.roots.len() as int,
        )[lr[j].0 as int]);
        lemma_root_corr_extend(v0, v, inits[j], v0.roots[lr[j].0 as int]);
    }
}

/// Does the stored static-field entry `fd` stand for the legacy record `s`?
pub open spec fn sfr_matches(v: AsmView, fd: StaticFieldDef, s: StaticFieldRecord) -> bool {
    &&& (fd.name.0 as int) < v.strings.len()
    &&& v.strings[fd.name.0 as int]@ == s.name@
    &&& fd.is_thread_local == s.is_thread_local
    &&& (fd.tpe.0 as int) < v.types.len()
    &&& type_corr(v, s.tpe, v.types[fd.tpe.0 as int])
}

/// Does the class stored under `k` carry the legacy static-field table as
/// the tail of its static-field list, in order?
pub open spec fn mm_statics_match(v: AsmView, k: u64, sfs: Seq<StaticFieldRecord>) -> bool {
    &&& is_main_module(v, k)
    &&& {
        let sf = v.class_defs[k].static_fields@;
        &&& sf.len() >= sfs.len()
        &&& forall|j: int|
            0 <= j < sfs.len() ==> sfr_matches(
                v,
                #[trigger] sf[sf.len() - sfs.len() + j],
                sfs[j],
            )
    }
}

/// Does the main module carry the legacy static-field table?
pub open spec fn statics_carried(v: AsmView, sfs: Seq<StaticFieldRecord>) -> bool {
    exists|k: u64| #[trigger] mm_statics_match(v, k, sfs)
}

/// `mm_statics_match` survives arena growth as long as the class's
/// static-field list is unchanged.
pub proof fn lemma_mm_statics_extend(v0: AsmView, v: AsmView, k: u64, sfs: Seq<StaticFieldRecord>)
    requires
        mm_statics_match(v0, k, sfs),
        arenas_extend(v0, v),
        v.class_defs.contains_key(k),
        v.class_defs[k].static_fields@ == v0.class_defs[k].static_fields@,
    ensures
        mm_statics_match(v, k, sfs),
{
    assert(v.class_refs[k as int] == v.class_refs.subrange(
        0,
        v0.class_refs.len() as int,
    )[k as int]);
    let nm = v0.class_refs[k as int].name;
    assert(v.strings[nm.0 as int] == v.strings.subrange(0, v0.strings.len() as int)[nm.0 as int]);
    let sf = v0.class_defs[k].static_fields@;
    assert forall|j: int| 0 <= j < sfs.len() implies sfr_matches(
        v,
        #[trigger] sf[sf.len() - sfs.len() + j],
        sfs[j],
    ) by {
        let fd = sf[sf.len() - sfs.len() + j];
        assert(sfr_matches(v0, fd, sfs[j]));
        assert(v.strings[fd.name.0 as int] == v.strings.subrange(
            0,
            v0.strings.len() as int,
        )[fd.name.0 as int]);
        assert(v.types[fd.tpe.0 as int] == v.types.subrange(
            0,
            v0.types.len() as int,
        )[fd.tpe.0 as int]);
        lemma_type_corr_extend(v0, v, sfs[j].tpe, v0.types[fd.tpe.0 as int]);
    }
}

/// Does handle `k` key a registered class whose reference form corresponds
/// to the legacy type definition `td`?
pub open spec fn class_key_matches(v: AsmView, k: u64, td: V1TypeDef) -> bool {
    &&& v.class_defs.contains_key(k)
    &&& (k as int) < v.class_refs.len()
    &&& v.class_refs[k as int].rasm is None
    &&& v.class_refs[k as int].is_valuetype == td.is_valuetype
    &&& (v.class_refs[k as int].name.0 as int) < v.strings.len()
    &&& v.strings[v.class_refs[k as int].name.0 as int]@ == td.name@
}

/// Does the class stored under `k` stand for the legacy type definition
/// `td`: same name and layout kind, fields corresponding pairwise by name
/// and type, and fresh (empty) member lists?
pub open spec fn class_matches(v: AsmView, k: u64, td: V1TypeDef) -> bool {
    &&& class_key_matches(v, k, td)
    &&& {
        let d = v.class_defs[k];
        &&& (d.name.0 as int) < v.strings.len()
        &&& v.strings[d.name.0 as int]@ == td.name@
        &&& d.is_valuetype == td.is_valuetype
        &&& d.access == Access::Public
        &&& d.extends is None
        &&& d.methods@.len() == 0
        &&& d.static_fields@.len() == 0
        &&& d.fields@.len() == td.fields@.len()
        &&& forall|j: int|
            0 <= j < td.fields@.len() ==> {
                let fd = #[trigger] d.fields@[j];
                &&& (fd.name.0 as int) < v.strings.len()
                &&& v.strings[fd.name.0 as int]@ == td.fields@[j].0@
                &&& (fd.tpe.0 as int) < v.types.len()
                &&& type_corr(v, td.fields@[j].1, v.types[fd.tpe.0 as int])
            }
    }
}

/// Is a class with `td`'s reference form registered?
pub open spec fn td_registered(v: AsmView, td: V1TypeDef) -> bool {
    exists|k: u64| #[trigger] class_key_matches(v, k, td)
}

/// Is `td` registered with fully corresponding content?
pub open spec fn td_matched(v: AsmView, td: V1TypeDef) -> bool {
    exists|k: u64| #[trigger] class_matches(v, k, td)
}

/// Every legacy type definition has a registered class with its reference
/// form.
pub open spec fn types_registered(v: AsmView, tds: Seq<V1TypeDef>) -> bool {
    forall|t: int| #![trigger tds[t]] 0 <= t < tds.len() ==> td_registered(v, tds[t])
}

/// Does the method stored under `k` in `v` stand for the legacy function
/// `m`: same name, corresponding signature, and a body whose blocks hold
/// corresponding effects in the same order?
pub open spec fn method_matches(v: AsmView, k: u64, m: V1Method) -> bool {
    &&& v.method_defs.contains_key(k)
    &&& {
        let d = v.method_defs[k];
        &&& (d.name.0 as int) < v.strings.len()
        &&& v.strings[d.name.0 as int]@ == m.name@
        &&& (d.sig.0 as int) < v.sigs.len()
        &&& sig_corr(v, m.sig, v.sigs[d.sig.0 as int])
        &&& d.kind == MethodKind::Static
        &&& match d.implementation {
            MethodImpl::MethodBody { blocks, locals } => {
                &&& blocks@.len() == m.blocks@.len()
                &&& forall|b: int|
                    0 <= b < blocks@.len() ==> (#[trigger] blocks@[b]).block_id
                        == m.blocks@[b].block_id && blocks@[b].roots@.len()
                        == m.blocks@[b].roots@.len()
                &&& forall|b: int, j: int|
                    0 <= b < blocks@.len() && 0 <= j < blocks@[b].roots@.len() ==> ((
                    #[trigger] blocks@[b].roots@[j]).0 as int) < v.roots.len() && root_corr(
                        v,
                        m.blocks@[b].roots@[j],
                        v.roots[blocks@[b].roots@[j].0 as int],
                    )
            },
            MethodImpl::Extern { .. } => false,
        }
    }
}

/// `method_matches` survives arena growth as long as the stored definition
/// is unchanged.
pub proof fn lemma_method_matches_extend(v0: AsmView, v: AsmView, k: u64, m: V1Method)
    requires
        method_matches(v0, k, m),
        arenas_extend(v0, v),
        v.method_defs.contains_key(k),
        v.method_defs[k] == v0.method_defs[k],
    ensures
        method_matches(v, k, m),
{
    let d = v0.method_defs[k];
    assert(v.strings[d.name.0 as int] == v.strings.subrange(
        0,
        v0.strings.len() as int,
    )[d.name.0 as int]);
    assert(v.sigs[d.sig.0 as int] == v.sigs.subrange(0, v0.sigs.len() as int)[d.sig.0 as int]);
    lemma_sig_corr_extend(v0, v, m.sig, v0.sigs[d.sig.0 as int]);
    match d.implementation {
        MethodImpl::MethodBody { blocks, locals } => {
            assert forall|b: int, j: int|
                0 <= b < blocks@.len() && 0 <= j < blocks@[b].roots@.len() implies ((
            #[trigger] blocks@[b].roots@[j]).0 as int) < v.roots.len() && root_corr(
                v,
                m.blocks@[b].roots@[j],
                v.roots[blocks@[b].roots@[j].0 as int],
            ) by {
                let h = blocks@[b].roots@[j];
                assert(v.roots[h.0 as int] == v.roots.subrange(
                    0,
                    v0.roots.len() as int,
                )[h.0 as int]);
                lemma_root_corr_extend(v0, v, m.blocks@[b].roots@[j], v0.roots[h.0 as int]);
            }
        },
        MethodImpl::Extern { .. } => {},
    }
}

impl Assembly {
    /// Converts a legacy basic block, interning every effect tree.
    fn block_from_v1(block: &V1Block, assembly: &mut Assembly) -> (r: BasicBlock)
        requires
            old(assembly).inv(),
            forall|j: int|
                0 <= j < block.roots@.len() ==> root_wf(#[trigger] block.roots@[j])
                    && root_no_markers(block.roots@[j]) && root_no_subtrees(block.roots@[j]),
        ensures
            final(assembly).inv(),
            arenas_extend(old(assembly)@, final(assembly)@),
            crate::v2::assembly::same_tables(old(assembly)@, final(assembly)@),
            r.block_id == block.block_id,
            r.handler is None,
            r.roots@.len() == block.roots@.len(),
            forall|j: int|
                0 <= j < r.roots@.len() ==> ((#[trigger] r.roots@[j]).0 as int)
                    < final(assembly)@.roots.len() && root_corr(
                    final(assembly)@,
                    block.roots@[j],
                    final(assembly)@.roots[r.roots@[j].0 as int],
                ),
    {
        let ghost v0 = assembly@;
        let n = block.roots.len();
        let mut hs: Vec<RootIdx> = Vec::new();
        let mut i: usize = 0;
        while i < n
            invariant
                assembly.inv(),
                arenas_extend(v0, assembly@),
                crate::v2::assembly::same_tables(v0, assembly@),
                n == block.roots@.len(),
                i <= n,
                hs@.len() == i,
                forall|j: int|
                    0 <= j < block.roots@.len() ==> root_wf(#[trigger] block.roots@[j])
                        && root_no_markers(block.roots@[j]) && root_no_subtrees(block.roots@[j]),
                forall|j: int|
                    0 <= j < i ==> ((#[trigger] hs@[j]).0 as int) < assembly@.roots.len()
                        && root_corr(
                        assembly@,
                        block.roots@[j],
                        assembly@.roots[hs@[j].0 as int],
                    ),
            decreases n - i,
        {
            let ghost va = assembly@;
            let r2 = crate::v2::cilroot::CILRoot::from_v1(&block.roots[i], assembly);
            let ghost vb = assembly@;
            let h = assembly.alloc_root(r2);
            proof {
                lemma_extend_trans(v0, va, assembly@);
                lemma_root_corr_extend(vb, assembly@, block.roots@[i as int], r2);
                assert forall|j: int| 0 <= j < i implies ((#[trigger] hs@[j]).0 as int)
                    < assembly@.roots.len() && root_corr(
                    assembly@,
                    block.roots@[j],
                    assembly@.roots[hs@[j].0 as int],
                ) by {
                    assert(assembly@.roots[hs@[j].0 as int] == assembly@.roots.subrange(
                        0,
                        va.roots.len() as int,
                    )[hs@[j].0 as int]);
                    lemma_root_corr_extend(va, assembly@, block.roots@[j], va.roots[hs@[j].0 as int]);
                }
            }
            hs.push(h);
            i += 1;
        }
        BasicBlock { roots: hs, block_id: block.block_id, handler: Option::None }
    }

    /// Whole-program ingestion of the legacy representation: converts the
    /// initializer roots into the user-level initializer, carries the
    /// static-field table onto the main module, registers the extern
    /// functions, converts every function body per effect tree, and
    /// registers the type definitions. The per-variant conversion this
    /// drives is the specification of representation equivalence between
    /// the two generations.
    #[verifier::rlimit(100)]
    pub fn from_v1(v1: &V1Assembly) -> (r: Assembly)
        requires
            v1_wf(*v1),
        ensures
            r.inv(),
            functions_matched(r@, v1.functions@),
            externs_matched(r@, v1.extern_fns@),
            statics_carried(r@, v1.static_fields@),
            inits_spliced(r@, v1.initializers@),
            types_registered(r@, v1.types@),
    {
        let mut assembly = Assembly::new();
        let ghost v_new = assembly@;
        // Convert and splice the user-defined initializer roots.
        let n_init = v1.initializers.len();
        let mut init_hs: Vec<RootIdx> = Vec::new();
        let mut i: usize = 0;
        while i < n_init
            invariant
                assembly.inv(),
                crate::v2::assembly::same_tables(v_new, assembly@),
                v_new.method_defs =~= Map::<u64, MethodDef>::empty(),
                n_init == v1.initializers@.len(),
                i <= n_init,
                init_hs@.len() == i,
                forall|j: int|
                    0 <= j < v1.initializers@.len() ==> root_wf(#[trigger] v1.initializers@[j])
                        && root_no_markers(v1.initializers@[j]) && root_no_subtrees(
                        v1.initializers@[j],
                    ),
                forall|j: int|
                    0 <= j < i ==> ((#[trigger] init_hs@[j]).0 as int) < assembly@.roots.len()
                        && root_corr(
                        assembly@,
                        v1.initializers@[j],
                        assembly@.roots[init_hs@[j].0 as int],
                    ),
            decreases n_init - i,
        {
            let ghost va = assembly@;
            let r2 = crate::v2::cilroot::CILRoot::from_v1(
                &v1.initializers[i],
                assembly_mut(&mut assembly),
            );
            let ghost vb = assembly@;
            let h = assembly.alloc_root(r2);
            proof {
                lemma_root_corr_extend(vb, assembly@, v1.initializers@[i as int], r2);
                assert forall|j: int| 0 <= j < i implies ((#[trigger] init_hs@[j]).0 as int)
                    < assembly@.roots.len() && root_corr(
                    assembly@,
                    v1.initializers@[j],
                    assembly@.roots[init_hs@[j].0 as int],
                ) by {
                    assert(assembly@.roots[init_hs@[j].0 as int] == assembly@.roots.subrange(
                        0,
                        va.roots.len() as int,
                    )[init_hs@[j].0 as int]);
                    lemma_root_corr_extend(
                        va,
                        assembly@,
                        v1.initializers@[j],
                        va.roots[init_hs@[j].0 as int],
                    );
                }
            }
            init_hs.push(h);
            i += 1;
        }
        let ghost v_pre_ui = assembly@;
        proof {
            assert forall|k: u64| !(#[trigger] is_user_init_at(assembly@, k)) by {
                assert(!assembly@.method_defs.contains_key(k));
            }
        }
        assembly.add_user_init(&init_hs);
        let ghost v_ui = assembly@;
        let ghost uik: u64 = choose|k: u64|
            {
                &&& #[trigger] is_user_init_at(v_ui, k)
                &&& crate::v2::assembly::ui_body_wf(v_ui, k)
                &&& crate::v2::assembly::ui_last_roots(v_ui, k).len() == init_hs@.len() + 1
                &&& crate::v2::assembly::ui_last_roots(v_ui, k).drop_last() == init_hs@
                &&& v_ui.roots[crate::v2::assembly::ui_last_roots(
                    v_ui,
                    k,
                ).last().0 as int] == crate::v2::cilroot::CILRoot::VoidRet
            };
        proof {
            assert(ui_inits_match(v_ui, uik, v1.initializers@)) by {
                let lr = crate::v2::assembly::ui_last_roots(v_ui, uik);
                assert forall|j: int| 0 <= j < v1.initializers@.len() implies ((
                #[trigger] lr[j]).0 as int) < v_ui.roots.len() && root_corr(
                    v_ui,
                    v1.initializers@[j],
                    v_ui.roots[lr[j].0 as int],
                ) by {
                    assert(lr[j] == lr.drop_last()[j]);
                    assert(lr[j] == init_hs@[j]);
                    assert(v_ui.roots[init_hs@[j].0 as int] == v_ui.roots.subrange(
                        0,
                        v_pre_ui.roots.len() as int,
                    )[init_hs@[j].0 as int]);
                    lemma_root_corr_extend(
                        v_pre_ui,
                        v_ui,
                        v1.initializers@[j],
                        v_pre_ui.roots[init_hs@[j].0 as int],
                    );
                }
            }
        }
        // Carry the static-field table onto the main module.
        let mm = assembly.main_module();
        let ghost v_mm0 = assembly@;
        let n_sf = v1.static_fields.len();
        let mut sf: Vec<StaticFieldDef> = Vec::new();
        let mut i: usize = 0;
        while i < n_sf
            invariant
                assembly.inv(),
                arenas_extend(v_mm0, assembly@),
                crate::v2::assembly::same_tables(v_mm0, assembly@),
                assembly@.class_defs.contains_key(mm.0.0),
                is_main_module(v_mm0, mm.0.0),
                n_sf == v1.static_fields@.len(),
                i <= n_sf,
                sf@.len() == i,
                forall|j: int|
                    0 <= j < i ==> sfr_matches(
                        assembly@,
                        #[trigger] sf@[j],
                        v1.static_fields@[j],
                    ),
            decreases n_sf - i,
        {
            let ghost va = assembly@;
            let t2 = Type::from_v1(&v1.static_fields[i].tpe, assembly_mut(&mut assembly));
            let ghost vb = assembly@;
            let ti = assembly.type_idx(t2);
            let ghost vc = assembly@;
            let name = assembly.alloc_string(v1.static_fields[i].name.duplicate());
            proof {
                let v = assembly@;
                lemma_extend_trans(v_mm0, va, vb);
                lemma_extend_trans(v_mm0, vb, vc);
                lemma_extend_trans(v_mm0, vc, v);
                lemma_type_corr_extend(vb, v, v1.static_fields@[i as int].tpe, t2);
                assert(v.types[ti.0 as int] == v.types.subrange(
                    0,
                    vc.types.len() as int,
                )[ti.0 as int]);
                assert forall|j: int| 0 <= j < i implies sfr_matches(
                    v,
                    #[trigger] sf@[j],
                    v1.static_fields@[j],
                ) by {
                    let fd = sf@[j];
                    assert(v.strings[fd.name.0 as int] == v.strings.subrange(
                        0,
                        va.strings.len() as int,
                    )[fd.name.0 as int]);
                    assert(v.types[fd.tpe.0 as int] == v.types.subrange(
                        0,
                        va.types.len() as int,
                    )[fd.tpe.0 as int]);
                    lemma_type_corr_extend(
                        va,
                        v,
                        v1.static_fields@[j].tpe,
                        va.types[fd.tpe.0 as int],
                    );
                }
            }
            sf.push(StaticFieldDef {
                name,
                tpe: ti,
                is_thread_local: v1.static_fields[i].is_thread_local,
            });
            i += 1;
        }
        let ghost vmm = assembly@;
        let ghost sf_g = sf@;
        let cm = assembly.class_mut(mm);
        let ghost sf_before = cm.static_fields@;
        cm.static_fields.append(&mut sf);
        proof {
            assert(cm.spec_ref_to() == vmm.class_defs[mm.0.0].spec_ref_to());
        }
        proof {
            let v = assembly@;
            assert(v.class_defs[mm.0.0].static_fields@ =~= sf_before + sf_g);
            assert(is_main_module(v, mm.0.0)) by {
                assert(is_main_module(v_mm0, mm.0.0));
                assert(v.class_refs == vmm.class_refs && v.strings == vmm.strings);
                assert(vmm.class_refs[mm.0.0 as int] == vmm.class_refs.subrange(
                    0,
                    v_mm0.class_refs.len() as int,
                )[mm.0.0 as int]);
                let nm = v_mm0.class_refs[mm.0.0 as int].name;
                assert(vmm.strings[nm.0 as int] == vmm.strings.subrange(
                    0,
                    v_mm0.strings.len() as int,
                )[nm.0 as int]);
            }
            assert(ui_inits_match(v, uik, v1.initializers@)) by {
                lemma_extend_trans(v_ui, v_mm0, vmm);
                assert(arenas_extend(vmm, v));
                lemma_extend_trans(v_ui, vmm, v);
                assert(v.method_defs == v_ui.method_defs);
                lemma_ui_inits_extend(v_ui, v, uik, v1.initializers@);
            }
            assert(mm_statics_match(v, mm.0.0, v1.static_fields@)) by {
                let all = v.class_defs[mm.0.0].static_fields@;
                assert(all.len() == sf_before.len() + sf_g.len());
                crate::v2::from_v1::lemma_extend_refl(vmm);
                assert(arenas_extend(vmm, v));
                assert forall|j: int| 0 <= j < v1.static_fields@.len() implies sfr_matches(
                    v,
                    #[trigger] all[all.len() - v1.static_fields@.len() + j],
                    v1.static_fields@[j],
                ) by {
                    assert(all[all.len() - v1.static_fields@.len() + j] == sf_g[j]);
                    let fd = sf_g[j];
                    assert(sfr_matches(vmm, fd, v1.static_fields@[j]));
                    assert(v.strings == vmm.strings && v.types == vmm.types);
                    lemma_type_corr_extend(
                        vmm,
                        v,
                        v1.static_fields@[j].tpe,
                        vmm.types[fd.tpe.0 as int],
                    );
                }
            }
        }
        // Register the extern functions on the main module.
        let n_ex = v1.extern_fns.len();
        let mut i: usize = 0;
        let ghost mut ekeys: Seq<u64> = Seq::empty();
        while i < n_ex
            invariant
                assembly.inv(),
                assembly@.class_defs.contains_key(mm.0.0),
                n_ex == v1.extern_fns@.len(),
                i <= n_ex,
                v1_wf(*v1),
                ekeys.len() == i,
                forall|e: int|
                    #![trigger v1.extern_fns@[e]]
                    0 <= e < i ==> extern_matches(assembly@, ekeys[e], v1.extern_fns@[e]),
                mm_statics_match(assembly@, mm.0.0, v1.static_fields@),
                ui_inits_match(assembly@, uik, v1.initializers@),
            decreases n_ex - i,
        {
            let ghost va = assembly@;
            proof {
                assembly.lemma_inv_view();
            }
            let s2 = crate::v2::tpe::FnSig::from_v1(
                &v1.extern_fns[i].sig,
                assembly_mut(&mut assembly),
            );
            let ghost v_s = assembly@;
            let ghost s2g = s2;
            let si = assembly.sig_idx(s2);
            let ghost v_si = assembly@;
            let name = assembly.alloc_string(v1.extern_fns[i].name.duplicate());
            let ghost v_nm = assembly@;
            let lib = assembly.alloc_string(v1.extern_fns[i].lib.duplicate());
            let ghost v_lb = assembly@;
            proof {
                lemma_extend_trans(va, v_s, v_si);
                lemma_extend_trans(va, v_si, v_nm);
                lemma_extend_trans(va, v_nm, v_lb);
            }
            let def = MethodDef {
                class: mm,
                name,
                sig: si,
                kind: MethodKind::Static,
                implementation: MethodImpl::Extern {
                    lib,
                    preserve_errno: v1.extern_fns[i].preserve_errno,
                },
            };
            proof {
                assert(mdef_ok(def, assembly@));
            }
            let md = assembly.new_method(def);
            proof {
                let v = assembly@;
                lemma_extend_trans(va, v_lb, v);
                assert(extern_matches(v, md.0.0, v1.extern_fns@[i as int])) by {
                    assert(v.strings == v_lb.strings);
                    assert(v_nm.strings[name.0 as int] == v_lb.strings.subrange(
                        0,
                        v_nm.strings.len() as int,
                    )[name.0 as int]);
                    lemma_sig_corr_extend(v_s, v_si, v1.extern_fns@[i as int].sig, s2g);
                    assert(v_si.sigs[si.0 as int].inputs@ == s2g.inputs@);
                    assert(sig_corr(v_si, v1.extern_fns@[i as int].sig, v_si.sigs[si.0 as int]));
                    lemma_sig_corr_extend(
                        v_si,
                        v,
                        v1.extern_fns@[i as int].sig,
                        v_si.sigs[si.0 as int],
                    );
                    assert(v.sigs[si.0 as int] == v.sigs.subrange(
                        0,
                        v_si.sigs.len() as int,
                    )[si.0 as int]);
                }
                ekeys = ekeys.push(md.0.0);
                assert forall|e: int| #![trigger v1.extern_fns@[e]] 0 <= e < i + 1 implies
                    extern_matches(assembly@, ekeys[e], v1.extern_fns@[e]) by {
                    if e < i {
                        let k0 = ekeys[e];
                        assert(extern_matches(va, k0, v1.extern_fns@[e]));
                        assert(k0 != md.0.0) by {
                            if k0 == md.0.0 {
                                let d0 = va.method_defs[k0];
                                assert((k0 as int) < va.method_refs.len());
                                assert(va.method_refs[k0 as int] == d0.spec_ref_to());
                                assert(v.method_refs[k0 as int] == v.method_refs.subrange(
                                    0,
                                    va.method_refs.len() as int,
                                )[k0 as int]);
                                assert(v.method_refs[md.0.0 as int] == def.spec_ref_to());
                                assert(d0.spec_ref_to() == def.spec_ref_to());
                                assert(d0.name == name);
                                assert((d0.name.0 as int) < va.strings.len());
                                assert(va.strings[name.0 as int] == v_lb.strings.subrange(
                                    0,
                                    va.strings.len() as int,
                                )[name.0 as int]);
                                assert(va.strings[d0.name.0 as int]@
                                    == v1.extern_fns@[e].name@);
                                assert(v_nm.strings[name.0 as int]@
                                    == v1.extern_fns@[i as int].name@);
                                assert(v_nm.strings[name.0 as int] == v_lb.strings.subrange(
                                    0,
                                    v_nm.strings.len() as int,
                                )[name.0 as int]);
                                assert(v1.extern_fns@[e].name@ == v1.extern_fns@[i as int].name@);
                            }
                        }
                        assert(v.method_defs.contains_key(k0) && v.method_defs[k0]
                            == va.method_defs[k0]) by {
                            assert(v.method_defs == v_lb.method_defs.insert(md.0.0, def));
                            assert(v_lb.method_defs == va.method_defs);
                        }
                        lemma_extern_matches_extend(va, v, k0, v1.extern_fns@[e]);
                    } else {
                        assert(ekeys[e] == md.0.0);
                    }
                }
                assert(mm_statics_match(v, mm.0.0, v1.static_fields@)) by {
                    assert(v.class_defs[mm.0.0].static_fields@
                        == va.class_defs[mm.0.0].static_fields@);
                    lemma_mm_statics_extend(va, v, mm.0.0, v1.static_fields@);
                }
                assert(ui_inits_match(v, uik, v1.initializers@)) by {
                    assert(uik != md.0.0) by {
                        if uik == md.0.0 {
                            let d0 = va.method_defs[uik];
                            assert((uik as int) < va.method_refs.len());
                            assert(va.method_refs[uik as int] == d0.spec_ref_to());
                            assert(v.method_refs[uik as int] == v.method_refs.subrange(
                                0,
                                va.method_refs.len() as int,
                            )[uik as int]);
                            assert(v.method_refs[md.0.0 as int] == def.spec_ref_to());
                            assert(d0.name == name);
                            assert((d0.name.0 as int) < va.strings.len());
                            assert(va.strings[name.0 as int] == v_lb.strings.subrange(
                                0,
                                va.strings.len() as int,
                            )[name.0 as int]);
                            assert(va.strings[d0.name.0 as int]@ == user_init_name());
                            assert(v_nm.strings[name.0 as int]@ == v1.extern_fns@[i as int].name@);
                            assert(v_nm.strings[name.0 as int] == v_lb.strings.subrange(
                                0,
                                v_nm.strings.len() as int,
                            )[name.0 as int]);
                        }
                    }
                    assert(v.method_defs.contains_key(uik) && v.method_defs[uik]
                        == va.method_defs[uik]) by {
                        assert(v.method_defs == v_lb.method_defs.insert(md.0.0, def));
                        assert(v_lb.method_defs == va.method_defs);
                    }
                    lemma_ui_inits_extend(va, v, uik, v1.initializers@);
                }
            }
            i += 1;
        }
        // Convert the module functions.
        let n_fn = v1.functions.len();
        let mut i: usize = 0;
        let ghost mut keys: Seq<u64> = Seq::empty();
        while i < n_fn
            invariant
                assembly.inv(),
                assembly@.class_defs.contains_key(mm.0.0),
                n_fn == v1.functions@.len(),
                i <= n_fn,
                v1_wf(*v1),
                keys.len() == i,
                forall|f: int|
                    #![trigger v1.functions@[f]]
                    0 <= f < i ==> method_matches(assembly@, keys[f], v1.functions@[f]),
                ekeys.len() == v1.extern_fns@.len(),
                forall|e: int|
                    #![trigger v1.extern_fns@[e]]
                    0 <= e < v1.extern_fns@.len() ==> extern_matches(
                        assembly@,
                        ekeys[e],
                        v1.extern_fns@[e],
                    ),
                mm_statics_match(assembly@, mm.0.0, v1.static_fields@),
                ui_inits_match(assembly@, uik, v1.initializers@),
            decreases n_fn - i,
        {
            let ghost va = assembly@;
            proof {
                assembly.lemma_inv_view();
            }
            let m = &v1.functions[i];
            let n_b = m.blocks.len();
            let mut blocks: Vec<BasicBlock> = Vec::new();
            let mut b: usize = 0;
            while b < n_b
                invariant
                    assembly.inv(),
                    arenas_extend(va, assembly@),
                    crate::v2::assembly::same_tables(va, assembly@),
                    assembly@.class_defs.contains_key(mm.0.0),
                    n_b == m.blocks@.len(),
                    b <= n_b,
                    blocks@.len() == b,
                    v1_wf(*v1),
                    0 <= i < v1.functions@.len(),
                    m == &v1.functions[i as int],
                    forall|bb: int|
                        0 <= bb < b ==> (#[trigger] blocks@[bb]).block_id
                            == m.blocks@[bb].block_id && blocks@[bb].roots@.len()
                            == m.blocks@[bb].roots@.len(),
                    forall|bb: int, j: int|
                        0 <= bb < b && 0 <= j < blocks@[bb].roots@.len() ==> ((
                        #[trigger] blocks@[bb].roots@[j]).0 as int) < assembly@.roots.len()
                            && root_corr(
                            assembly@,
                            m.blocks@[bb].roots@[j],
                            assembly@.roots[blocks@[bb].roots@[j].0 as int],
                        ),
                decreases n_b - b,
            {
                let ghost vb0 = assembly@;
                let nb = Assembly::block_from_v1(&m.blocks[b], assembly_mut(&mut assembly));
                proof {
                    lemma_extend_trans(va, vb0, assembly@);
                    assert forall|bb: int, j: int|
                        0 <= bb < b && 0 <= j < blocks@[bb].roots@.len() implies ((
                    #[trigger] blocks@[bb].roots@[j]).0 as int) < assembly@.roots.len()
                        && root_corr(
                        assembly@,
                        m.blocks@[bb].roots@[j],
                        assembly@.roots[blocks@[bb].roots@[j].0 as int],
                    ) by {
                        let h = blocks@[bb].roots@[j];
                        assert(assembly@.roots[h.0 as int] == assembly@.roots.subrange(
                            0,
                            vb0.roots.len() as int,
                        )[h.0 as int]);
                        lemma_root_corr_extend(
                            vb0,
                            assembly@,
                            m.blocks@[bb].roots@[j],
                            vb0.roots[h.0 as int],
                        );
                    }
                }
                blocks.push(nb);
                b += 1;
            }
            let ghost v_bl = assembly@;
            let ghost blocks_g = blocks@;
            let mut locals: Vec<LocalDef> = Vec::new();
            let mut li: usize = 0;
            let n_l = m.locals.len();
            while li < n_l
                invariant
                    assembly.inv(),
                    arenas_extend(v_bl, assembly@),
                    crate::v2::assembly::same_tables(v_bl, assembly@),
                    assembly@.class_defs.contains_key(mm.0.0),
                    n_l == m.locals@.len(),
                    li <= n_l,
                    0 <= i < v1.functions@.len(),
                    m == &v1.functions[i as int],
                decreases n_l - li,
            {
                let ghost vl0 = assembly@;
                let t2 = Type::from_v1(&m.locals[li].1, assembly_mut(&mut assembly));
                let ti = assembly.type_idx(t2);
                let nm = match &m.locals[li].0 {
                    Option::Some(s) => Option::Some(assembly.alloc_string(s.duplicate())),
                    Option::None => Option::None,
                };
                proof {
                    lemma_extend_trans(v_bl, vl0, assembly@);
                }
                locals.push(LocalDef { name: nm, tpe: ti });
                li += 1;
            }
            let ghost v_lc = assembly@;
            let s2 = crate::v2::tpe::FnSig::from_v1(&m.sig, assembly_mut(&mut assembly));
            let ghost v_s = assembly@;
            let ghost s2g = s2;
            let si = assembly.sig_idx(s2);
            let ghost v_si = assembly@;
            let name = assembly.alloc_string(m.name.duplicate());
            let ghost v_nm = assembly@;
            proof {
                lemma_extend_trans(v_bl, v_lc, v_s);
                lemma_extend_trans(v_bl, v_s, v_si);
                lemma_extend_trans(v_bl, v_si, v_nm);
                lemma_extend_trans(va, v_bl, v_nm);
            }
            let def = MethodDef {
                class: mm,
                name,
                sig: si,
                kind: MethodKind::Static,
                implementation: MethodImpl::MethodBody { blocks, locals },
            };
            proof {
                assert(mdef_ok(def, assembly@)) by {
                    assert forall|bb: int, j: int|
                        0 <= bb < blocks_g.len() && 0 <= j < blocks_g[bb].roots@.len() implies ((
                    #[trigger] blocks_g[bb].roots@[j]).0 as int) < assembly@.roots.len() by {
                        assert((blocks_g[bb].roots@[j].0 as int) < v_bl.roots.len());
                    }
                }
            }
            let md = assembly.new_method(def);
            proof {
                let v = assembly@;
                lemma_extend_trans(v_bl, v_nm, v);
                lemma_extend_trans(va, v_bl, v);
                assert(v.method_defs.contains_key(md.0.0));
                assert(v.method_defs[md.0.0] == def);
                assert(method_matches(v, md.0.0, v1.functions@[i as int])) by {
                    assert(v.strings == v_nm.strings);
                    assert(v.strings[name.0 as int]@ == v1.functions@[i as int].name@);
                    lemma_sig_corr_extend(v_s, v_si, m.sig, s2g);
                    assert(v_si.sigs[si.0 as int].inputs@ == s2g.inputs@);
                    assert(sig_corr(v_si, m.sig, v_si.sigs[si.0 as int]));
                    lemma_sig_corr_extend(v_si, v, m.sig, v_si.sigs[si.0 as int]);
                    assert(v.sigs[si.0 as int] == v.sigs.subrange(
                        0,
                        v_si.sigs.len() as int,
                    )[si.0 as int]);
                    assert forall|bb: int, j: int|
                        0 <= bb < blocks_g.len() && 0 <= j < blocks_g[bb].roots@.len() implies ((
                    #[trigger] blocks_g[bb].roots@[j]).0 as int) < v.roots.len() && root_corr(
                        v,
                        v1.functions@[i as int].blocks@[bb].roots@[j],
                        v.roots[blocks_g[bb].roots@[j].0 as int],
                    ) by {
                        let h = blocks_g[bb].roots@[j];
                        assert(v.roots[h.0 as int] == v.roots.subrange(
                            0,
                            v_bl.roots.len() as int,
                        )[h.0 as int]);
                        lemma_root_corr_extend(
                            v_bl,
                            v,
                            v1.functions@[i as int].blocks@[bb].roots@[j],
                            v_bl.roots[h.0 as int],
                        );
                    }
                }
                keys = keys.push(md.0.0);
                assert forall|f: int| #![trigger v1.functions@[f]] 0 <= f < i + 1 implies
                    method_matches(assembly@, keys[f], v1.functions@[f]) by {
                    if f < i {
                        let k0 = keys[f];
                        assert(method_matches(va, k0, v1.functions@[f]));
                        assert(k0 != md.0.0) by {
                            if k0 == md.0.0 {
                                let d0 = va.method_defs[k0];
                                assert((k0 as int) < va.method_refs.len());
                                assert(va.method_refs[k0 as int] == d0.spec_ref_to());
                                assert(v.method_refs[k0 as int] == v.method_refs.subrange(
                                    0,
                                    va.method_refs.len() as int,
                                )[k0 as int]);
                                assert(v.method_refs[md.0.0 as int] == def.spec_ref_to());
                                assert(d0.spec_ref_to() == def.spec_ref_to());
                                assert(d0.name == name);
                                assert((d0.name.0 as int) < va.strings.len());
                                assert(va.strings[name.0 as int] == v_nm.strings.subrange(
                                    0,
                                    va.strings.len() as int,
                                )[name.0 as int]);
                                assert(va.strings[d0.name.0 as int]@ == v1.functions@[f].name@);
                                assert(v_nm.strings[name.0 as int]@
                                    == v1.functions@[i as int].name@);
                                assert(v1.functions@[f].name@ == v1.functions@[i as int].name@);
                            }
                        }
                        assert(v.method_defs.contains_key(k0) && v.method_defs[k0]
                            == va.method_defs[k0]) by {
                            assert(v.method_defs == v_nm.method_defs.insert(md.0.0, def));
                            assert(v_nm.method_defs == va.method_defs);
                        }
                        lemma_method_matches_extend(va, v, k0, v1.functions@[f]);
                        assert(method_matches(v, k0, v1.functions@[f]));
                    } else {
                        assert(keys[f] == md.0.0);
                        assert(method_matches(v, md.0.0, v1.functions@[f]));
                    }
                }
                assert forall|e: int| #![trigger v1.extern_fns@[e]] 0 <= e
                    < v1.extern_fns@.len() implies extern_matches(
                    assembly@,
                    ekeys[e],
                    v1.extern_fns@[e],
                ) by {
                    let k0 = ekeys[e];
                    assert(extern_matches(va, k0, v1.extern_fns@[e]));
                    assert(k0 != md.0.0) by {
                        if k0 == md.0.0 {
                            let d0 = va.method_defs[k0];
                            assert((k0 as int) < va.method_refs.len());
                            assert(va.method_refs[k0 as int] == d0.spec_ref_to());
                            assert(v.method_refs[k0 as int] == v.method_refs.subrange(
                                0,
                                va.method_refs.len() as int,
                            )[k0 as int]);
                            assert(v.method_refs[md.0.0 as int] == def.spec_ref_to());
                            assert(d0.spec_ref_to() == def.spec_ref_to());
                            assert(d0.name == name);
                            assert((d0.name.0 as int) < va.strings.len());
                            assert(va.strings[name.0 as int] == v_nm.strings.subrange(
                                0,
                                va.strings.len() as int,
                            )[name.0 as int]);
                            assert(va.strings[d0.name.0 as int]@ == v1.extern_fns@[e].name@);
                            assert(v1.extern_fns@[e].name@ == v1.functions@[i as int].name@);
                        }
                    }
                    assert(v.method_defs.contains_key(k0) && v.method_defs[k0]
                        == va.method_defs[k0]) by {
                        assert(v.method_defs == v_nm.method_defs.insert(md.0.0, def));
                        assert(v_nm.method_defs == va.method_defs);
                    }
                    lemma_extern_matches_extend(va, v, k0, v1.extern_fns@[e]);
                }
                assert(mm_statics_match(v, mm.0.0, v1.static_fields@)) by {
                    assert(v.class_defs[mm.0.0].static_fields@
                        == va.class_defs[mm.0.0].static_fields@);
                    lemma_mm_statics_extend(va, v, mm.0.0, v1.static_fields@);
                }
                assert(ui_inits_match(v, uik, v1.initializers@)) by {
                    assert(uik != md.0.0) by {
                        if uik == md.0.0 {
                            let d0 = va.method_defs[uik];
                            assert((uik as int) < va.method_refs.len());
                            assert(va.method_refs[uik as int] == d0.spec_ref_to());
                            assert(v.method_refs[uik as int] == v.method_refs.subrange(
                                0,
                                va.method_refs.len() as int,
                            )[uik as int]);
                            assert(v.method_refs[md.0.0 as int] == def.spec_ref_to());
                            assert(d0.name == name);
                            assert((d0.name.0 as int) < va.strings.len());
                            assert(va.strings[name.0 as int] == v_nm.strings.subrange(
                                0,
                                va.strings.len() as int,
                            )[name.0 as int]);
                            assert(va.strings[d0.name.0 as int]@ == user_init_name());
                            assert(v_nm.strings[name.0 as int]@ == v1.functions@[i as int].name@);
                        }
                    }
                    assert(v.method_defs.contains_key(uik) && v.method_defs[uik]
                        == va.method_defs[uik]) by {
                        assert(v.method_defs == v_nm.method_defs.insert(md.0.0, def));
                        assert(v_nm.method_defs == va.method_defs);
                    }
                    lemma_ui_inits_extend(va, v, uik, v1.initializers@);
                }
            }
            i += 1;
        }
        // Register the legacy type definitions.
        let n_ty = v1.types.len();
        let mut i: usize = 0;
        while i < n_ty
            invariant
                assembly.inv(),
                n_ty == v1.types@.len(),
                i <= n_ty,
                v1_wf(*v1),
                keys.len() == v1.functions@.len(),
                forall|f: int|
                    #![trigger v1.functions@[f]]
                    0 <= f < v1.functions@.len() ==> method_matches(
                        assembly@,
                        keys[f],
                        v1.functions@[f],
                    ),
                forall|t: int|
                    #![trigger v1.types@[t]]
                    0 <= t < i ==> td_registered(assembly@, v1.types@[t]),
                ekeys.len() == v1.extern_fns@.len(),
                forall|e: int|
                    #![trigger v1.extern_fns@[e]]
                    0 <= e < v1.extern_fns@.len() ==> extern_matches(
                        assembly@,
                        ekeys[e],
                        v1.extern_fns@[e],
                    ),
                mm_statics_match(assembly@, mm.0.0, v1.static_fields@),
                ui_inits_match(assembly@, uik, v1.initializers@),
            decreases n_ty - i,
        {
            let ghost va = assembly@;
            ClassDef::register_v1(&v1.types[i], assembly_mut(&mut assembly));
            proof {
                assert forall|t: int| #![trigger v1.types@[t]] 0 <= t < i + 1 implies
                    td_registered(assembly@, v1.types@[t]) by {
                    if t < i {
                        let k = choose|k: u64| #[trigger] class_key_matches(va, k, v1.types@[t]);
                        assert(assembly@.class_refs[k as int] == assembly@.class_refs.subrange(
                            0,
                            va.class_refs.len() as int,
                        )[k as int]);
                        let nk = va.class_refs[k as int].name;
                        assert(assembly@.strings[nk.0 as int] == assembly@.strings.subrange(
                            0,
                            va.strings.len() as int,
                        )[nk.0 as int]);
                        assert(class_key_matches(assembly@, k, v1.types@[t]));
                        assert(td_registered(assembly@, v1.types@[t]));
                    } else {
                        assert(td_registered(assembly@, v1.types@[t]));
                    }
                }
                assert forall|f: int| #![trigger v1.functions@[f]] 0 <= f
                    < v1.functions@.len() implies method_matches(
                    assembly@,
                    keys[f],
                    v1.functions@[f],
                ) by {
                    assert(method_matches(va, keys[f], v1.functions@[f]));
                    lemma_method_matches_extend(va, assembly@, keys[f], v1.functions@[f]);
                }
                assert forall|e: int| #![trigger v1.extern_fns@[e]] 0 <= e
                    < v1.extern_fns@.len() implies extern_matches(
                    assembly@,
                    ekeys[e],
                    v1.extern_fns@[e],
                ) by {
                    assert(extern_matches(va, ekeys[e], v1.extern_fns@[e]));
                    lemma_extern_matches_extend(va, assembly@, ekeys[e], v1.extern_fns@[e]);
                }
                assert(mm_statics_match(assembly@, mm.0.0, v1.static_fields@)) by {
                    assert(assembly@.class_defs[mm.0.0].static_fields@
                        == va.class_defs[mm.0.0].static_fields@);
                    lemma_mm_statics_extend(va, assembly@, mm.0.0, v1.static_fields@);
                }
                assert(ui_inits_match(assembly@, uik, v1.initializers@)) by {
                    assert(assembly@.method_defs == va.method_defs);
                    lemma_ui_inits_extend(va, assembly@, uik, v1.initializers@);
                }
            }
            i += 1;
        }
        proof {
            assert forall|f: int| #![trigger v1.functions@[f]] 0 <= f
                < v1.functions@.len() implies function_registered(assembly@, v1.functions@[f]) by {
                assert(method_matches(assembly@, keys[f], v1.functions@[f]));
                assert(exists|k: u64| #[trigger] method_matches(assembly@, k, v1.functions@[f]));
            }
            assert(functions_matched(assembly@, v1.functions@));
            assert forall|e: int| #![trigger v1.extern_fns@[e]] 0 <= e
                < v1.extern_fns@.len() implies extern_registered(assembly@, v1.extern_fns@[e]) by {
                assert(extern_matches(assembly@, ekeys[e], v1.extern_fns@[e]));
                assert(exists|k: u64| #[trigger] extern_matches(assembly@, k, v1.extern_fns@[e]));
            }
            assert(externs_matched(assembly@, v1.extern_fns@));
            assert(statics_carried(assembly@, v1.static_fields@)) by {
                assert(mm_statics_match(assembly@, mm.0.0, v1.static_fields@));
            }
            assert(inits_spliced(assembly@, v1.initializers@)) by {
                assert(ui_inits_match(assembly@, uik, v1.initializers@));
            }
            assert(types_registered(assembly@, v1.types@));
        }
        assembly
    }
}

/// Identity helper so nested calls can reborrow the assembly.
fn assembly_mut(a: &mut Assembly) -> (r: &mut Assembly)
    ensures
        *r == *old(a),
        *final(a) == *final(r),
{
    a
}

impl ClassDef {
    /// Registers a legacy type definition, converting its fields. If a
    /// class with the same reference form is already registered the
    /// assembly is left untouched (registering two definitions with one
    /// reference form is a producer defect); otherwise the converted
    /// definition is registered with fully corresponding content.
    pub fn register_v1(td: &V1TypeDef, assembly: &mut Assembly)
        requires
            old(assembly).inv(),
        ensures
            final(assembly).inv(),
            arenas_extend(old(assembly)@, final(assembly)@),
            final(assembly)@.method_defs == old(assembly)@.method_defs,
            forall|x: u64|
                #[trigger] old(assembly)@.class_defs.contains_key(x)
                    ==> final(assembly)@.class_defs.contains_key(x)
                    && final(assembly)@.class_defs[x] == old(assembly)@.class_defs[x],
            final(assembly)@.method_refs.subrange(0, old(assembly)@.method_refs.len() as int)
                == old(assembly)@.method_refs,
            td_registered(final(assembly)@, *td),
            td_registered(old(assembly)@, *td) ==> final(assembly)@ == old(assembly)@,
            !td_registered(old(assembly)@, *td) ==> td_matched(final(assembly)@, *td),
    {
        let ghost v0 = assembly@;
        proof {
            assembly.lemma_inv_view();
        }
        let name = assembly.alloc_string(td.name.duplicate());
        let ghost v1s = assembly@;
        let probe = crate::v2::tpe::ClassRef {
            name,
            rasm: Option::None,
            is_valuetype: td.is_valuetype,
        };
        if assembly.has_class_def(&probe) {
            proof {
                let k = choose|k: u64|
                    #[trigger] v1s.class_defs.contains_key(k) && (k as int)
                        < v1s.class_refs.len() && v1s.class_refs[k as int] == probe;
                assert(v0.class_defs.contains_key(k));
                assert((k as int) < v0.class_refs.len());
                assert(v0.class_refs[k as int] == v1s.class_refs.subrange(
                    0,
                    v0.class_refs.len() as int,
                )[k as int]);
                assert(crate::v2::assembly::cref_ok(v0.class_refs[k as int], v0));
                assert((name.0 as int) < v0.strings.len());
                assert(v0.strings[name.0 as int] == v1s.strings.subrange(
                    0,
                    v0.strings.len() as int,
                )[name.0 as int]);
                assert(v1s == v0);
                assert(class_key_matches(v0, k, *td));
                assert(td_registered(v0, *td));
            }
            return ;
        }
        proof {
            assert forall|k: u64| !(#[trigger] class_key_matches(v0, k, *td)) by {
                if class_key_matches(v0, k, *td) {
                    let nk = v0.class_refs[k as int].name;
                    assert(v1s.strings[nk.0 as int] == v1s.strings.subrange(
                        0,
                        v0.strings.len() as int,
                    )[nk.0 as int]);
                    assembly.lemma_string_canonical(nk, name);
                    assert(v1s.class_refs[k as int] == v1s.class_refs.subrange(
                        0,
                        v0.class_refs.len() as int,
                    )[k as int]);
                    assert(v1s.class_refs[k as int] == probe);
                    assert(crate::v2::assembly::class_registered(v1s, probe));
                }
            }
            assert(!td_registered(v0, *td));
        }
        let n = td.fields.len();
        let mut fields: Vec<crate::v2::assembly::FieldDef> = Vec::new();
        let mut i: usize = 0;
        while i < n
            invariant
                assembly.inv(),
                arenas_extend(v1s, assembly@),
                crate::v2::assembly::same_tables(v1s, assembly@),
                (name.0 as int) < v1s.strings.len(),
                v1s.strings[name.0 as int]@ == td.name@,
                n == td.fields@.len(),
                i <= n,
                fields@.len() == i,
                forall|j: int|
                    0 <= j < i ==> {
                        let fd = #[trigger] fields@[j];
                        &&& (fd.name.0 as int) < assembly@.strings.len()
                        &&& assembly@.strings[fd.name.0 as int]@ == td.fields@[j].0@
                        &&& (fd.tpe.0 as int) < assembly@.types.len()
                        &&& type_corr(assembly@, td.fields@[j].1, assembly@.types[fd.tpe.0 as int])
                    },
            decreases n - i,
        {
            let ghost va = assembly@;
            let t2 = Type::from_v1(&td.fields[i].1, assembly_mut(assembly));
            let ghost vb = assembly@;
            let ti = assembly.type_idx(t2);
            let ghost vc = assembly@;
            let nm = assembly.alloc_string(td.fields[i].0.duplicate());
            proof {
                let v = assembly@;
                lemma_extend_trans(v1s, va, vb);
                lemma_extend_trans(v1s, vb, vc);
                lemma_extend_trans(v1s, vc, v);
                lemma_type_corr_extend(vb, v, td.fields@[i as int].1, t2);
                assert(v.types[ti.0 as int] == v.types.subrange(
                    0,
                    vc.types.len() as int,
                )[ti.0 as int]);
                assert forall|j: int| 0 <= j < i implies {
                    let fd = #[trigger] fields@[j];
                    &&& (fd.name.0 as int) < v.strings.len()
                    &&& v.strings[fd.name.0 as int]@ == td.fields@[j].0@
                    &&& (fd.tpe.0 as int) < v.types.len()
                    &&& type_corr(v, td.fields@[j].1, v.types[fd.tpe.0 as int])
                } by {
                    let fd = fields@[j];
                    assert(v.strings[fd.name.0 as int] == v.strings.subrange(
                        0,
                        va.strings.len() as int,
                    )[fd.name.0 as int]);
                    assert(v.types[fd.tpe.0 as int] == v.types.subrange(
                        0,
                        va.types.len() as int,
                    )[fd.tpe.0 as int]);
                    lemma_type_corr_extend(va, v, td.fields@[j].1, va.types[fd.tpe.0 as int]);
                }
            }
            fields.push(crate::v2::assembly::FieldDef { name: nm, tpe: ti });
            i += 1;
        }
        let ghost vf = assembly@;
        let ghost fields_g = fields@;
        let def = ClassDef {
            name,
            access: Access::Public,
            extends: Option::None,
            fields,
            static_fields: Vec::new(),
            methods: Vec::new(),
            is_valuetype: td.is_valuetype,
        };
        proof {
            assert(!crate::v2::assembly::class_registered(vf, def.spec_ref_to())) by {
                if crate::v2::assembly::class_registered(vf, probe) {
                    let k = choose|k: u64|
                        #[trigger] vf.class_defs.contains_key(k) && (k as int)
                            < vf.class_refs.len() && vf.class_refs[k as int] == probe;
                    assert(v1s.class_defs.contains_key(k));
                    assert((k as int) < v1s.class_refs.len());
                    assert(v1s.class_refs[k as int] == vf.class_refs.subrange(
                        0,
                        v1s.class_refs.len() as int,
                    )[k as int]);
                    assert(crate::v2::assembly::class_registered(v1s, probe));
                }
            }
            assert((def.name.0 as int) < vf.strings.len()) by {
                assert(vf.strings.subrange(0, v1s.strings.len() as int) == v1s.strings);
            }
        }
        let id = assembly.class_def(def);
        proof {
            let v = assembly@;
            lemma_extend_trans(v0, v1s, vf);
            lemma_extend_trans(v0, vf, v);
            assert(v.strings == vf.strings);
            assert(v1s.strings[name.0 as int] == vf.strings.subrange(
                0,
                v1s.strings.len() as int,
            )[name.0 as int]);
            assert(class_matches(v, id.0.0, *td)) by {
                assert(v.class_defs[id.0.0].fields@ == fields_g);
                assert(v.class_refs[id.0.0 as int].name == name);
                assert forall|j: int| 0 <= j < td.fields@.len() implies {
                    let fd = #[trigger] v.class_defs[id.0.0].fields@[j];
                    &&& (fd.name.0 as int) < v.strings.len()
                    &&& v.strings[fd.name.0 as int]@ == td.fields@[j].0@
                    &&& (fd.tpe.0 as int) < v.types.len()
                    &&& type_corr(v, td.fields@[j].1, v.types[fd.tpe.0 as int])
                } by {
                    let fd = fields_g[j];
                    assert(v.strings[fd.name.0 as int] == v.strings.subrange(
                        0,
                        vf.strings.len() as int,
                    )[fd.name.0 as int]);
                    assert(v.types[fd.tpe.0 as int] == v.types.subrange(
                        0,
                        vf.types.len() as int,
                    )[fd.tpe.0 as int]);
                    lemma_type_corr_extend(vf, v, td.fields@[j].1, vf.types[fd.tpe.0 as int]);
                }
            }
            assert(td_matched(v, *td));
            assert(td_registered(v, *td));
        }
    }
}

} // verus!
