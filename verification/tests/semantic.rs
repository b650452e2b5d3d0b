use reukocyte::semantic::{Indexer, SemanticModel, WalkedNode};
use reukocyte::syntax::{NodeKind, SyntaxNode};

fn walked(kind: NodeKind, start: usize, end: usize) -> WalkedNode {
    WalkedNode {
        kind,
        start,
        end,
        keyword: None,
        end_keyword: None,
        name: Vec::new(),
        receiver: None,
        value: None,
    }
}

fn bare(kind: NodeKind, start: usize, end: usize) -> SyntaxNode {
    SyntaxNode {
        kind,
        start,
        end,
        parent: None,
        keyword: None,
        end_keyword: None,
        name: Vec::new(),
        receiver: None,
        arguments: None,
        value: None,
        children: Vec::new(),
    }
}

/// `foo.bar(1)` as a walk meets it: program, statements, the call, its receiver, its
/// arguments and the argument.
fn index_call() -> SemanticModel {
    let mut indexer = Indexer::new();
    indexer.enter_branch(walked(NodeKind::Program, 0, 10));
    indexer.enter_branch(walked(NodeKind::Statements, 0, 10));
    let mut call = walked(NodeKind::Call, 0, 10);
    call.name = b"bar".to_vec();
    call.receiver = Some((0, 3));
    indexer.enter_branch(call);
    indexer.enter_branch(walked(NodeKind::Call, 0, 3));
    indexer.leave_branch();
    indexer.enter_branch(walked(NodeKind::Arguments, 8, 9));
    indexer.enter_leaf(walked(NodeKind::Other, 8, 9));
    indexer.leave_branch();
    indexer.leave_branch();
    indexer.leave_branch();
    indexer.leave_branch();
    indexer.index()
}

#[test]
fn indexer_links_parents_and_children() {
    let model = index_call();
    let parents: Vec<Option<usize>> = model.nodes.iter().map(|n| n.parent).collect();
    assert_eq!(parents, vec![None, Some(0), Some(1), Some(2), Some(2), Some(4)]);
    assert_eq!(model.nodes[0].children, vec![1]);
    assert_eq!(model.nodes[1].children, vec![2]);
    assert_eq!(model.nodes[2].children, vec![3, 4]);
    assert_eq!(model.nodes[4].children, vec![5]);
    assert!(model.nodes[5].children.is_empty());
}

#[test]
fn indexer_finds_receiver_and_arguments() {
    let model = index_call();
    assert_eq!(model.nodes[2].receiver, Some(3));
    assert_eq!(model.nodes[2].arguments, Some(4));
    assert_eq!(model.nodes[2].name, b"bar".to_vec());
    assert_eq!(model.nodes[3].receiver, None);
    assert_eq!(model.nodes[1].arguments, None);
}

#[test]
fn indexer_finds_assignment_value() {
    let mut indexer = Indexer::new();
    let mut write = walked(NodeKind::LocalVariableWrite, 0, 9);
    write.value = Some((4, 9));
    indexer.enter_branch(write);
    indexer.enter_leaf(walked(NodeKind::Other, 4, 9));
    indexer.leave_branch();
    let model = indexer.index();
    assert_eq!(model.nodes[0].value, Some(1));
    assert_eq!(model.nodes[1].parent, Some(0));
}

#[test]
fn indexer_leave_with_nothing_open() {
    let mut indexer = Indexer::new();
    indexer.leave_branch();
    indexer.enter_leaf(walked(NodeKind::Other, 0, 1));
    indexer.leave_branch();
    indexer.enter_leaf(walked(NodeKind::Other, 1, 2));
    assert_eq!(indexer.node_count(), 2);
    let model = indexer.index();
    assert_eq!(model.nodes[0].parent, None);
    assert_eq!(model.nodes[1].parent, None);
}

#[test]
fn indexer_enter_then_leave_restores_parent() {
    let mut indexer = Indexer::new();
    indexer.enter_branch(walked(NodeKind::Program, 0, 5));
    indexer.enter_branch(walked(NodeKind::Statements, 0, 5));
    indexer.leave_branch();
    let id = indexer.enter_leaf(walked(NodeKind::Other, 0, 5));
    assert_eq!(id, 2);
    let model = indexer.index();
    assert_eq!(model.nodes[2].parent, Some(0));
    assert_eq!(model.nodes[0].children, vec![1, 2]);
}

#[test]
fn model_ancestors_from_parent_to_root() {
    let model = index_call();
    assert_eq!(model.ancestors(5), vec![4, 2, 1, 0]);
    assert_eq!(model.ancestors(3), vec![2, 1, 0]);
    assert!(model.ancestors(0).is_empty());
    assert!(model.ancestors(42).is_empty());
}

#[test]
fn model_parent_id() {
    let model = index_call();
    assert_eq!(model.parent_id(5), Some(4));
    assert_eq!(model.parent_id(0), None);
    assert_eq!(model.parent_id(6), None);
}

#[test]
fn model_add_node() {
    let mut model = SemanticModel::new();
    let root = model.add_node(bare(NodeKind::Program, 0, 4), None);
    let child = model.add_node(bare(NodeKind::Statements, 0, 4), Some(root));
    let grandchild = model.add_node(bare(NodeKind::Other, 0, 4), Some(child));
    assert_eq!((root, child, grandchild), (0, 1, 2));
    assert_eq!(model.nodes[2].parent, Some(1));
    assert_eq!(model.nodes[0].children, vec![1]);
    assert_eq!(model.nodes[1].children, vec![2]);
    assert_eq!(model.ancestors(grandchild), vec![1, 0]);
}

#[test]
fn test_semantic_model_creation() {
    let model: SemanticModel = SemanticModel::new();
    assert!(model.current_node_id().is_none());
    assert!(model.parent().is_none());
}

/// `class Foo; def bar; end; end` as a walk with `push_node` and `pop_node` meets it, up to
/// the method's body.
fn walk_class() -> SemanticModel {
    let mut model = SemanticModel::default();
    model.push_node(bare(NodeKind::Program, 0, 27));
    model.push_node(bare(NodeKind::Statements, 0, 27));
    model.push_node(bare(NodeKind::Class, 0, 27));
    model.push_node(bare(NodeKind::Statements, 11, 22));
    model.push_node(bare(NodeKind::Def, 11, 22));
    model
}

#[test]
fn model_push_sets_current_and_parent() {
    let model = walk_class();
    assert_eq!(model.current_node_id(), Some(4));
    assert_eq!(model.current_node().map(|n| n.kind), Some(NodeKind::Def));
    assert_eq!(model.current_node_with_id().map(|(id, n)| (id, n.kind)), Some((4, NodeKind::Def)));
    assert_eq!(model.parent().map(|n| n.kind), Some(NodeKind::Statements));
    assert_eq!(model.parent_with_id().map(|(id, _)| id), Some(3));
    assert_eq!(model.nodes()[2].children, vec![3]);
}

#[test]
fn model_pop_returns_to_parent() {
    let mut model = walk_class();
    model.pop_node();
    assert_eq!(model.current_node_id(), Some(3));
    model.pop_node();
    model.pop_node();
    model.pop_node();
    assert_eq!(model.current_node_id(), Some(0));
    model.pop_node();
    assert_eq!(model.current_node_id(), None);
    model.pop_node();
    assert_eq!(model.current_node_id(), None);
    let id = model.push_node(bare(NodeKind::Other, 27, 27));
    assert_eq!(id, 5);
    assert_eq!(model.parent_id_of(5), None);
}

#[test]
fn model_ancestors_of_current() {
    let model = walk_class();
    assert_eq!(model.ancestor_id(0), Some(3));
    assert_eq!(model.ancestor_id(1), Some(2));
    assert_eq!(model.ancestor(1).map(|n| n.kind), Some(NodeKind::Class));
    assert_eq!(model.ancestor_with_id(3).map(|(id, _)| id), Some(0));
    assert_eq!(model.ancestor_id(4), None);
    assert!(model.ancestor(4).is_none());
    let ids: Vec<usize> = model.ancestors_with_ids().iter().map(|(id, _)| *id).collect();
    assert_eq!(ids, vec![3, 2, 1, 0]);
}

#[test]
fn model_ancestors_of_a_node() {
    let model = walk_class();
    assert_eq!(model.ancestor_id_of(3, 0), Some(2));
    assert_eq!(model.ancestor_id_of(3, 2), Some(0));
    assert_eq!(model.ancestor_id_of(3, 3), None);
    assert_eq!(model.ancestor_id_of(9, 0), None);
    assert_eq!(model.parent_of(2).map(|n| n.kind), Some(NodeKind::Statements));
    assert!(model.parent_of(0).is_none());
    let kinds: Vec<NodeKind> = model.ancestors_of(4).iter().map(|n| n.kind).collect();
    assert_eq!(kinds, vec![NodeKind::Statements, NodeKind::Class, NodeKind::Statements, NodeKind::Program]);
    assert_eq!(model.node(2).map(|n| n.kind), Some(NodeKind::Class));
    assert!(model.node(5).is_none());
}

#[test]
fn model_find_and_has_ancestor() {
    let model = walk_class();
    assert!(model.has_ancestor(|n| n.kind == NodeKind::Class));
    assert!(!model.has_ancestor(|n| n.kind == NodeKind::Module));
    assert_eq!(model.find_ancestor(|n| n.kind == NodeKind::Statements).map(|n| n.start), Some(11));
    assert!(model.find_ancestor(|n| n.kind == NodeKind::Def).is_none());
    let empty = SemanticModel::new();
    assert!(!empty.has_ancestor(|_| true));
}

#[test]
fn model_node_for_offset_is_innermost() {
    let model = walk_class();
    assert_eq!(model.node_id_for_offset(0), Some(2));
    assert_eq!(model.node_id_for_offset(11), Some(4));
    assert_eq!(model.node_id_for_offset(5), None);
}
