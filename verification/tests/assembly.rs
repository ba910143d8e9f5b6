//! Tests for the assembly aggregate: interning, registration, the
//! well-known initializer, and the definition tables.

use cilly::istring::IString;
use cilly::v2::assembly::{Assembly, BasicBlock, ClassDef, MethodDef, MethodImpl, USER_INIT};
use cilly::v2::cilnode::{CILNode, Const};
use cilly::v2::cilroot::CILRoot;
use cilly::v2::tpe::{Access, Int, MethodKind, Type};

#[test]
fn user_init() {
    let mut unit = Assembly::default();
    unit.user_init();
}

#[test]
fn add_user_init() {
    let mut unit = Assembly::default();
    let roots = vec![
        unit.alloc_root(CILRoot::VoidRet),
        unit.alloc_root(CILRoot::Break),
        unit.alloc_root(CILRoot::Nop),
    ];
    unit.add_user_init(&roots);
}

#[test]
fn intern_constants_dedup() {
    // Interning 5, 5, 7 yields exactly two distinct handles; the two 5
    // allocations are equal.
    let mut unit = Assembly::new();
    let a = unit.node_idx(CILNode::Const(Const::I32(5)));
    let b = unit.node_idx(CILNode::Const(Const::I32(5)));
    let c = unit.node_idx(CILNode::Const(Const::I32(7)));
    assert_eq!(a, b);
    assert_ne!(a, c);
    assert_eq!(unit.num_nodes(), 2);
}

#[test]
fn intern_strings_dedup() {
    let mut unit = Assembly::new();
    let a = unit.alloc_string(IString::from_str("hello"));
    let b = unit.alloc_string(IString::from_str("hello"));
    let c = unit.alloc_string(IString::from_str("world"));
    assert_eq!(a.0, b.0);
    assert_ne!(a.0, c.0);
    assert_eq!(unit.num_strings(), 2);
    assert_eq!(unit.get_string(a).bytes().as_slice(), b"hello");
}

#[test]
fn intern_sigs_dedup() {
    let mut unit = Assembly::new();
    let a = unit.sig(vec![Type::Int(Int::I32)], Type::Void);
    let b = unit.sig(vec![Type::Int(Int::I32)], Type::Void);
    let c = unit.sig(vec![], Type::Void);
    assert_eq!(a.0, b.0);
    assert_ne!(a.0, c.0);
}

#[test]
fn nptr_interns_component_first() {
    let mut unit = Assembly::new();
    let p = unit.nptr(Type::Int(Int::U8));
    match p {
        Type::Ptr(h) => assert_eq!(*unit.type_from_id(h), Type::Int(Int::U8)),
        _ => panic!(),
    }
    let r = unit.nref(Type::Bool);
    match r {
        Type::Ref(h) => assert_eq!(*unit.type_from_id(h), Type::Bool),
        _ => panic!(),
    }
}

#[test]
fn main_module_idempotent() {
    // Both calls return the same class handle and the table has one entry.
    let mut unit = Assembly::new();
    let a = unit.main_module();
    let b = unit.main_module();
    assert_eq!(a, b);
    assert_eq!(unit.class_ids().len(), 1);
}

#[test]
fn class_def_registers_once() {
    // Registering a class makes it visible; registering the same reference
    // form again is a duplicate-definition defect, which the guard reports.
    let mut unit = Assembly::new();
    let name = unit.alloc_string(IString::from_str("C"));
    let def = ClassDef {
        name,
        access: Access::Public,
        extends: None,
        fields: Vec::new(),
        static_fields: Vec::new(),
        methods: Vec::new(),
        is_valuetype: false,
    };
    let cref = def.ref_to();
    assert!(!unit.has_class_def(&cref));
    let id = unit.class_def(def);
    assert!(unit.has_class_def(&cref));
    assert_eq!(unit.class_ids().len(), 1);
    assert_eq!(unit.class_ids()[0], id.0 .0);
}

#[test]
fn user_init_created_once_with_one_return() {
    // Invoking the create-or-return twice creates exactly one definition
    // with exactly one terminating return.
    let mut unit = Assembly::new();
    let a = unit.user_init();
    let b = unit.user_init();
    assert_eq!(a, b);
    let def = unit.method_def(a).expect("user init method");
    match &def.implementation {
        MethodImpl::MethodBody { blocks, locals } => {
            assert_eq!(blocks.len(), 1);
            assert_eq!(blocks[0].roots.len(), 1);
            assert!(matches!(unit.get_root(blocks[0].roots[0]), CILRoot::VoidRet));
            assert!(locals.is_empty());
        }
        MethodImpl::Extern { .. } => panic!("user init must have a body"),
    }
    assert_eq!(
        unit.get_string(def.name).bytes().as_slice(),
        USER_INIT.as_bytes()
    );
}

#[test]
fn add_user_init_splices_before_return() {
    let mut unit = Assembly::new();
    let nop = unit.alloc_root(CILRoot::Nop);
    let brk = unit.alloc_root(CILRoot::Break);
    unit.add_user_init(&vec![nop, brk]);
    let ui = unit.user_init();
    let def = unit.method_def(ui).expect("user init method");
    match &def.implementation {
        MethodImpl::MethodBody { blocks, .. } => {
            assert_eq!(blocks.len(), 1);
            let roots = &blocks[0].roots;
            assert_eq!(roots.len(), 3);
            assert!(matches!(unit.get_root(roots[0]), CILRoot::Nop));
            assert!(matches!(unit.get_root(roots[1]), CILRoot::Break));
            assert!(matches!(unit.get_root(roots[2]), CILRoot::VoidRet));
        }
        MethodImpl::Extern { .. } => panic!(),
    }
}

#[test]
fn new_method_appends_to_class() {
    let mut unit = Assembly::new();
    let mm = unit.main_module();
    let name = unit.alloc_string(IString::from_str("f"));
    let sig = unit.sig(vec![], Type::Void);
    let vr = unit.alloc_root(CILRoot::VoidRet);
    let def = MethodDef {
        class: mm,
        name,
        sig,
        kind: MethodKind::Static,
        implementation: MethodImpl::MethodBody {
            blocks: vec![BasicBlock {
                roots: vec![vr],
                block_id: 0,
                handler: None,
            }],
            locals: Vec::new(),
        },
    };
    let md = unit.new_method(def);
    let cd = unit.get_class_def(mm).expect("main module");
    assert_eq!(cd.methods.len(), 1);
    assert_eq!(cd.methods[0], md);
    assert!(unit.method_def(md).is_some());
}

#[test]
fn biop_interns_operands() {
    let mut unit = Assembly::new();
    let n = unit.biop(
        CILNode::Const(Const::I32(2)),
        CILNode::Const(Const::I32(3)),
        cilly::v2::cilnode::BinOp::Add,
    );
    match n {
        CILNode::BinOp(a, b, op) => {
            assert_eq!(op, cilly::v2::cilnode::BinOp::Add);
            assert_eq!(*unit.get_node(a), CILNode::Const(Const::I32(2)));
            assert_eq!(*unit.get_node(b), CILNode::Const(Const::I32(3)));
        }
        _ => panic!(),
    }
}

#[test]
fn ldstr_interns_string() {
    let mut unit = Assembly::new();
    let n = unit.ldstr(IString::from_str("abc"));
    match n {
        CILNode::Const(Const::PlatformString(s)) => {
            assert_eq!(unit.get_string(s).bytes().as_slice(), b"abc");
        }
        _ => panic!(),
    }
}

#[test]
fn strct_builds_valuetype_ref() {
    let mut unit = Assembly::new();
    let c = unit.strct(IString::from_str("Pair"));
    let cref = unit.get_class_ref(c);
    assert!(cref.is_valuetype);
    assert!(cref.rasm.is_none());
    assert_eq!(unit.get_string(cref.name).bytes().as_slice(), b"Pair");
}

#[test]
fn children_precede_parents() {
    // A freshly interned node's children are always handles allocated
    // earlier: no forward references.
    let mut unit = Assembly::new();
    let a = unit.node_idx(CILNode::Const(Const::I32(1)));
    let b = unit.node_idx(CILNode::Const(Const::I32(2)));
    let p = unit.node_idx(CILNode::BinOp(a, b, cilly::v2::cilnode::BinOp::Add));
    assert!(a.0 < p.0);
    assert!(b.0 < p.0);
}

#[test]
fn empty_string_interns() {
    let mut unit = Assembly::new();
    let a = unit.alloc_string(IString::from_str(""));
    let b = unit.alloc_string(IString::from_str(""));
    assert_eq!(a.0, b.0);
    assert_eq!(unit.get_string(a).len(), 0);
}
