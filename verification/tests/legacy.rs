//! Tests for the legacy bridge: per-variant conversion and the
//! whole-program round trip.

use cilly::asm_v1::{ExternFnRecord, StaticFieldRecord, V1Assembly, V1Block, V1Method};
use cilly::cil_node::CILNode as TreeNode;
use cilly::cil_root::CILRoot as TreeRoot;
use cilly::istring::IString;
use cilly::tpe::{FnSig as TreeSig, Type as TreeType};
use cilly::v2::assembly::{Assembly, MethodImpl, USER_INIT};
use cilly::v2::cilnode::{BinOp, CILNode, Const};
use cilly::v2::cilroot::CILRoot;
use cilly::v2::tpe::{Int, MethodKind, Type};

#[test]
fn node_conversion_interns_children() {
    let mut unit = Assembly::new();
    let tree = TreeNode::BinOp(
        Box::new(TreeNode::Ldc(Const::I32(2))),
        Box::new(TreeNode::Ldc(Const::I32(3))),
        BinOp::Add,
    );
    let n = CILNode::from_v1(&tree, &mut unit);
    match n {
        CILNode::BinOp(a, b, BinOp::Add) => {
            assert_eq!(*unit.get_node(a), CILNode::Const(Const::I32(2)));
            assert_eq!(*unit.get_node(b), CILNode::Const(Const::I32(3)));
        }
        _ => panic!(),
    }
}

#[test]
fn type_conversion_follows_components() {
    let mut unit = Assembly::new();
    let t = TreeType::Ptr(Box::new(TreeType::Int(Int::U16)));
    let t2 = cilly::v2::tpe::Type::from_v1(&t, &mut unit);
    match t2 {
        Type::Ptr(h) => assert_eq!(*unit.type_from_id(h), Type::Int(Int::U16)),
        _ => panic!(),
    }
}

#[test]
fn root_conversion_maps_branches() {
    let mut unit = Assembly::new();
    let tree = TreeRoot::BLt {
        target: 5,
        sub_target: 0,
        a: Box::new(TreeNode::Ldc(Const::I32(1))),
        b: Box::new(TreeNode::Ldc(Const::I32(2))),
    };
    let r = CILRoot::from_v1(&tree, &mut unit);
    match r {
        CILRoot::Branch {
            target: 5,
            sub_target: 0,
            cond: cilly::v2::cilroot::BranchCond::Cmp(a, b, cilly::v2::cilroot::CmpKind::Lt),
        } => {
            assert_eq!(*unit.get_node(a), CILNode::Const(Const::I32(1)));
            assert_eq!(*unit.get_node(b), CILNode::Const(Const::I32(2)));
        }
        _ => panic!(),
    }
}

#[test]
fn string_conversion_dedups() {
    let mut unit = Assembly::new();
    let a = CILNode::from_v1(&TreeNode::LdStr(IString::from_str("s")), &mut unit);
    let b = CILNode::from_v1(&TreeNode::LdStr(IString::from_str("s")), &mut unit);
    match (a, b) {
        (
            CILNode::Const(Const::PlatformString(x)),
            CILNode::Const(Const::PlatformString(y)),
        ) => assert_eq!(x.0, y.0),
        _ => panic!(),
    }
}

#[test]
fn whole_program_round_trip() {
    // A program with one function containing one arithmetic expression
    // converts to an assembly whose method body, read back through the
    // public accessors, is structurally equivalent to the source tree up to
    // handle renumbering.
    let body = vec![
        TreeRoot::STLoc {
            local: 0,
            tree: TreeNode::BinOp(
                Box::new(TreeNode::Ldc(Const::I32(2))),
                Box::new(TreeNode::Ldc(Const::I32(3))),
                BinOp::Add,
            ),
        },
        TreeRoot::VoidRet,
    ];
    let program = V1Assembly {
        initializers: Vec::new(),
        static_fields: Vec::new(),
        extern_fns: Vec::new(),
        functions: vec![V1Method {
            name: IString::from_str("f"),
            sig: TreeSig::new(Vec::new(), TreeType::Void),
            locals: vec![(None, TreeType::Int(Int::I32))],
            blocks: vec![V1Block {
                block_id: 0,
                roots: body,
            }],
        }],
        types: Vec::new(),
    };
    let unit = Assembly::from_v1(&program);

    // Find the converted method by name among the main module's methods.
    let mm = unit.class_ids()[0];
    let cd = unit
        .get_class_def(cilly::v2::tpe::ClassDefIdx(cilly::v2::tpe::ClassRefIdx(mm)))
        .expect("main module registered");
    let mut found = false;
    for md in &cd.methods {
        let def = unit.method_def(*md).expect("method definition");
        if unit.get_string(def.name).bytes().as_slice() != b"f" {
            continue;
        }
        found = true;
        assert_eq!(def.kind, MethodKind::Static);
        let sig = unit.get_sig(def.sig);
        assert!(sig.inputs.is_empty());
        assert_eq!(sig.output, Type::Void);
        match &def.implementation {
            MethodImpl::MethodBody { blocks, locals } => {
                assert_eq!(blocks.len(), 1);
                assert_eq!(locals.len(), 1);
                let roots = &blocks[0].roots;
                assert_eq!(roots.len(), 2);
                match unit.get_root(roots[0]) {
                    CILRoot::StLoc { local: 0, tree } => match unit.get_node(*tree) {
                        CILNode::BinOp(a, b, BinOp::Add) => {
                            assert_eq!(*unit.get_node(*a), CILNode::Const(Const::I32(2)));
                            assert_eq!(*unit.get_node(*b), CILNode::Const(Const::I32(3)));
                        }
                        _ => panic!("operand shape changed"),
                    },
                    _ => panic!("store shape changed"),
                }
                assert!(matches!(unit.get_root(roots[1]), CILRoot::VoidRet));
            }
            MethodImpl::Extern { .. } => panic!("function became extern"),
        }
    }
    assert!(found, "converted function not found");
}

#[test]
fn whole_program_initializers_feed_user_init() {
    let program = V1Assembly {
        initializers: vec![TreeRoot::Break],
        static_fields: Vec::new(),
        extern_fns: Vec::new(),
        functions: Vec::new(),
        types: Vec::new(),
    };
    let mut unit = Assembly::from_v1(&program);
    let ui = unit.user_init();
    let def = unit.method_def(ui).expect("user init");
    assert_eq!(
        unit.get_string(def.name).bytes().as_slice(),
        USER_INIT.as_bytes()
    );
    match &def.implementation {
        MethodImpl::MethodBody { blocks, .. } => {
            let roots = &blocks[0].roots;
            assert_eq!(roots.len(), 2);
            assert!(matches!(unit.get_root(roots[0]), CILRoot::Break));
            assert!(matches!(unit.get_root(roots[1]), CILRoot::VoidRet));
        }
        MethodImpl::Extern { .. } => panic!(),
    }
}

#[test]
fn whole_program_carries_statics_and_externs() {
    let program = V1Assembly {
        initializers: Vec::new(),
        static_fields: vec![StaticFieldRecord {
            name: IString::from_str("counter"),
            tpe: TreeType::Int(Int::U64),
            is_thread_local: true,
        }],
        extern_fns: vec![ExternFnRecord {
            name: IString::from_str("puts"),
            sig: TreeSig::new(vec![TreeType::PlatformString], TreeType::Void),
            preserve_errno: false,
            lib: IString::from_str("libc"),
        }],
        functions: Vec::new(),
        types: vec![cilly::asm_v1::V1TypeDef {
            name: IString::from_str("Pair"),
            is_valuetype: true,
            fields: vec![(IString::from_str("fst"), TreeType::Int(Int::I32))],
        }],
    };
    let unit = Assembly::from_v1(&program);

    // The static field sits on the main module with name, type and flag.
    let mm = unit.class_ids()[0];
    let cd = unit
        .get_class_def(cilly::v2::tpe::ClassDefIdx(cilly::v2::tpe::ClassRefIdx(mm)))
        .expect("main module");
    assert_eq!(cd.static_fields.len(), 1);
    let sf = &cd.static_fields[0];
    assert!(sf.is_thread_local);
    assert_eq!(unit.get_string(sf.name).bytes().as_slice(), b"counter");
    assert_eq!(*unit.type_from_id(sf.tpe), Type::Int(Int::U64));

    // The extern function is registered with lib name and errno flag.
    let mut saw_extern = false;
    for md in &cd.methods {
        let def = unit.method_def(*md).expect("method definition");
        if unit.get_string(def.name).bytes().as_slice() != b"puts" {
            continue;
        }
        saw_extern = true;
        match &def.implementation {
            MethodImpl::Extern {
                lib,
                preserve_errno,
            } => {
                assert!(!preserve_errno);
                assert_eq!(unit.get_string(*lib).bytes().as_slice(), b"libc");
            }
            MethodImpl::MethodBody { .. } => panic!("extern became a body"),
        }
    }
    assert!(saw_extern, "extern function not registered");

    // The type definition is registered with its fields converted.
    assert_eq!(unit.class_ids().len(), 2);
    let td = unit
        .get_class_def(cilly::v2::tpe::ClassDefIdx(cilly::v2::tpe::ClassRefIdx(
            unit.class_ids()[1],
        )))
        .expect("registered type");
    assert!(td.is_valuetype);
    assert_eq!(unit.get_string(td.name).bytes().as_slice(), b"Pair");
    assert_eq!(td.fields.len(), 1);
    assert_eq!(unit.get_string(td.fields[0].name).bytes().as_slice(), b"fst");
    assert_eq!(*unit.type_from_id(td.fields[0].tpe), Type::Int(Int::I32));
}
