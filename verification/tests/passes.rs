//! Tests for the tree-lowering passes: temporary materialization, branch
//! retargeting, successor extraction, and tree splitting.

use cilly::cil_node::CILNode;
use cilly::cil_root::CILRoot;
use cilly::tpe::Type;
use cilly::v2::cilnode::Const;
use cilly::v2::tpe::Int;

#[test]
fn allocate_tmps_rewrites_marker_to_store() {
    // A store-effect wrapping a "materialize temporary" marker with value 42,
    // materialized with temporary slot 3, becomes a direct store to slot 3
    // of value 42; no marker remains.
    let root = CILRoot::SetTMPLocal {
        value: CILNode::Ldc(Const::I32(42)),
    };
    let mut locals: Vec<(Option<cilly::istring::IString>, Type)> = Vec::new();
    let r = root.allocate_tmps(Some(3), &mut locals);
    match r {
        CILRoot::STLoc { local, tree } => {
            assert_eq!(local, 3);
            assert!(matches!(tree, CILNode::Ldc(Const::I32(42))));
        }
        _ => panic!("marker was not rewritten into a store"),
    }
    assert!(locals.is_empty());
}

#[test]
fn allocate_tmps_allocates_fresh_slot() {
    // A temporary-introducing node allocates a fresh local slot, rewrites
    // its bound markers to that slot, and becomes the plain multi-tree
    // construct.
    let tree = CILNode::TemporaryLocal(Box::new((
        Type::Int(Int::I32),
        vec![CILRoot::SetTMPLocal {
            value: CILNode::Ldc(Const::I32(1)),
        }],
        CILNode::LoadTMPLocal,
    )));
    let root = CILRoot::STLoc {
        local: 9,
        tree,
    };
    let mut locals: Vec<(Option<cilly::istring::IString>, Type)> = Vec::new();
    let r = root.allocate_tmps(None, &mut locals);
    assert_eq!(locals.len(), 1);
    match r {
        CILRoot::STLoc { local: 9, tree } => match tree {
            CILNode::SubTrees(b) => {
                let (sides, main) = *b;
                assert_eq!(sides.len(), 1);
                assert!(matches!(
                    &sides[0],
                    CILRoot::STLoc { local: 0, .. }
                ));
                assert!(matches!(main, CILNode::LdLoc(0)));
            }
            _ => panic!("temporary construct was not lowered"),
        },
        _ => panic!(),
    }
}

#[test]
fn retarget_moves_target_to_sub_target() {
    // A branch with target 10 and sub-target 0, retargeted through handler
    // 99, carries target 99 and sub-target 10.
    let mut b = CILRoot::GoTo {
        target: 10,
        sub_target: 0,
    };
    b.fix_for_exception_handler(99);
    assert!(matches!(
        b,
        CILRoot::GoTo {
            target: 99,
            sub_target: 10
        }
    ));
    let mut out: Vec<(u32, u32)> = Vec::new();
    b.targets(&mut out);
    assert_eq!(out, vec![(99, 10)]);
}

#[test]
fn retarget_covers_comparison_branches() {
    let mut b = CILRoot::BEq {
        target: 4,
        sub_target: 0,
        a: Box::new(CILNode::Ldc(Const::I32(1))),
        b: Box::new(CILNode::Ldc(Const::I32(2))),
    };
    b.fix_for_exception_handler(7);
    match b {
        CILRoot::BEq {
            target, sub_target, ..
        } => {
            assert_eq!(target, 7);
            assert_eq!(sub_target, 4);
        }
        _ => panic!(),
    }
}

#[test]
fn retarget_leaves_non_branches_alone() {
    let mut r = CILRoot::Nop;
    r.fix_for_exception_handler(99);
    assert!(matches!(r, CILRoot::Nop));
    let mut out: Vec<(u32, u32)> = Vec::new();
    r.targets(&mut out);
    assert!(out.is_empty());
}

#[test]
fn sheed_trees_extracts_sides_before_main() {
    // A tree with two independent side-effect subtrees plus one main value
    // yields exactly three trees: the extracted trees first, then the
    // original tree with the construct replaced by its main value only.
    let root = CILRoot::STLoc {
        local: 9,
        tree: CILNode::SubTrees(Box::new((
            vec![CILRoot::Break, CILRoot::Nop],
            CILNode::Ldc(Const::I32(7)),
        ))),
    };
    let out = root.sheed_trees();
    assert_eq!(out.len(), 3);
    assert!(matches!(out[0], CILRoot::Break));
    assert!(matches!(out[1], CILRoot::Nop));
    match &out[2] {
        CILRoot::STLoc { local: 9, tree } => {
            assert!(matches!(tree, CILNode::Ldc(Const::I32(7))));
        }
        _ => panic!("main value did not replace the construct"),
    }
}

#[test]
fn sheed_trees_flattens_nested_constructs() {
    // A side-effect subtree that itself contains a construct is split
    // recursively: no tree of the result contains a nested construct.
    let inner = CILRoot::STLoc {
        local: 1,
        tree: CILNode::SubTrees(Box::new((
            vec![CILRoot::Break],
            CILNode::Ldc(Const::I32(5)),
        ))),
    };
    let root = CILRoot::STLoc {
        local: 2,
        tree: CILNode::SubTrees(Box::new((vec![inner], CILNode::Ldc(Const::I32(6))))),
    };
    let out = root.sheed_trees();
    assert_eq!(out.len(), 3);
    assert!(matches!(out[0], CILRoot::Break));
    assert!(matches!(out[1], CILRoot::STLoc { local: 1, .. }));
    assert!(matches!(out[2], CILRoot::STLoc { local: 2, .. }));
}

#[test]
fn sheed_trees_plain_tree_passes_through() {
    let root = CILRoot::Ret {
        tree: CILNode::Ldc(Const::I32(1)),
    };
    let out = root.sheed_trees();
    assert_eq!(out.len(), 1);
    assert!(matches!(&out[0], CILRoot::Ret { .. }));
}

#[test]
fn builders_produce_expected_shapes() {
    let t = CILRoot::throw("boom");
    match t {
        CILRoot::Throw(CILNode::NewObj { site, args }) => {
            assert!(!site.is_static);
            assert_eq!(args.len(), 1);
            assert!(matches!(&args[0], CILNode::LdStr(s) if s.bytes().as_slice() == b"boom"));
        }
        _ => panic!(),
    }
    let d = CILRoot::debug("hi");
    match d {
        CILRoot::Call { site, args } => {
            assert!(site.is_static);
            assert_eq!(args.len(), 1);
            assert!(matches!(&args[0], CILNode::LdStr(s) if s.bytes().as_slice() == b"hi"));
        }
        _ => panic!(),
    }
    let si = CILRoot::source_info("a.rs", 1, 2, 3, 4);
    match si {
        CILRoot::SourceFileInfo {
            line_start,
            line_end,
            col_start,
            col_end,
            file,
        } => {
            assert_eq!((line_start, line_end, col_start, col_end), (1, 2, 3, 4));
            assert_eq!(file.bytes().as_slice(), b"a.rs");
        }
        _ => panic!(),
    }
}

#[test]
fn allocate_tmps_leaves_plain_trees_unchanged() {
    let root = CILRoot::STLoc {
        local: 5,
        tree: CILNode::Ldc(Const::I32(1)),
    };
    let mut locals: Vec<(Option<cilly::istring::IString>, Type)> = Vec::new();
    let r = root.allocate_tmps(None, &mut locals);
    assert!(matches!(
        r,
        CILRoot::STLoc {
            local: 5,
            tree: CILNode::Ldc(Const::I32(1))
        }
    ));
    assert!(locals.is_empty());
}
