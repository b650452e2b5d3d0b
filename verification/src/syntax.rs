//! The syntax tree that the rules read: the parsed nodes of a source, in the order in which
//! a depth-first walk enters them, each with its kind, its byte range, its parent and the
//! parts of it that the rules look at.
use vstd::prelude::*;

verus! {

/// The kinds of nodes that the rules tell apart; every other kind is `Other`.
#[derive(Debug, Clone, Copy, PartialEq, Eq, Structural)]
pub enum NodeKind {
    Program,
    Statements,
    Arguments,
    Begin,
    Block,
    Call,
    Case,
    CaseMatch,
    Class,
    ConstantRead,
    Def,
    Else,
    Ensure,
    If,
    Lambda,
    Module,
    Rescue,
    SingletonClass,
    Unless,
    Until,
    While,
    CallAndWrite,
    CallOperatorWrite,
    CallOrWrite,
    ClassVariableAndWrite,
    ClassVariableOperatorWrite,
    ClassVariableOrWrite,
    ClassVariableWrite,
    ConstantAndWrite,
    ConstantOperatorWrite,
    ConstantOrWrite,
    ConstantPathAndWrite,
    ConstantPathOperatorWrite,
    ConstantPathOrWrite,
    ConstantPathWrite,
    ConstantWrite,
    GlobalVariableAndWrite,
    GlobalVariableOperatorWrite,
    GlobalVariableOrWrite,
    GlobalVariableWrite,
    IndexAndWrite,
    IndexOperatorWrite,
    IndexOrWrite,
    InstanceVariableAndWrite,
    InstanceVariableOperatorWrite,
    InstanceVariableOrWrite,
    InstanceVariableWrite,
    LocalVariableAndWrite,
    LocalVariableOperatorWrite,
    LocalVariableOrWrite,
    LocalVariableWrite,
    MatchWrite,
    MultiWrite,
    Other,
}

/// One node of the tree. The indices in `parent`, `receiver`, `arguments`, `value` and
/// `children` are positions in the tree's list of nodes.
#[derive(Debug, Clone)]
pub struct SyntaxNode {
    pub kind: NodeKind,
    /// Byte range of the whole node.
    pub start: usize,
    pub end: usize,
    /// The enclosing node.
    pub parent: Option<usize>,
    /// The opening keyword (`class`, `module`, `if`, `unless`, `while`, `until`, `case`,
    /// `begin`, `def`), where the node has one.
    pub keyword: Option<(usize, usize)>,
    /// The closing `end` keyword, where the node has one.
    pub end_keyword: Option<(usize, usize)>,
    /// The name of a method call or of a constant.
    pub name: Vec<u8>,
    /// The receiver of a method call.
    pub receiver: Option<usize>,
    /// The arguments node of a method call.
    pub arguments: Option<usize>,
    /// The value of an assignment.
    pub value: Option<usize>,
    /// The nodes directly below this one, in the order in which the walk enters them: the
    /// statements of a statements node, the arguments of an arguments node.
    pub children: Vec<usize>,
}

/// Whether a node kind is an assignment.
pub open spec fn spec_is_assignment(k: NodeKind) -> bool {
    match k {
        NodeKind::CallAndWrite | NodeKind::CallOperatorWrite | NodeKind::CallOrWrite
        | NodeKind::ClassVariableAndWrite | NodeKind::ClassVariableOperatorWrite
        | NodeKind::ClassVariableOrWrite | NodeKind::ClassVariableWrite
        | NodeKind::ConstantAndWrite | NodeKind::ConstantOperatorWrite
        | NodeKind::ConstantOrWrite | NodeKind::ConstantPathAndWrite
        | NodeKind::ConstantPathOperatorWrite | NodeKind::ConstantPathOrWrite
        | NodeKind::ConstantPathWrite | NodeKind::ConstantWrite
        | NodeKind::GlobalVariableAndWrite | NodeKind::GlobalVariableOperatorWrite
        | NodeKind::GlobalVariableOrWrite | NodeKind::GlobalVariableWrite
        | NodeKind::IndexAndWrite | NodeKind::IndexOperatorWrite | NodeKind::IndexOrWrite
        | NodeKind::InstanceVariableAndWrite | NodeKind::InstanceVariableOperatorWrite
        | NodeKind::InstanceVariableOrWrite | NodeKind::InstanceVariableWrite
        | NodeKind::LocalVariableAndWrite | NodeKind::LocalVariableOperatorWrite
        | NodeKind::LocalVariableOrWrite | NodeKind::LocalVariableWrite
        | NodeKind::MatchWrite | NodeKind::MultiWrite => true,
        _ => false,
    }
}

/// Whether a node kind is a conditional or a loop with a condition.
pub open spec fn spec_is_conditional(k: NodeKind) -> bool {
    match k {
        NodeKind::CaseMatch | NodeKind::Case | NodeKind::If | NodeKind::Unless
        | NodeKind::Until | NodeKind::While => true,
        _ => false,
    }
}

/// Whether the node is an assignment.
pub fn is_assignment(kind: NodeKind) -> (r: bool)
    ensures
        r == spec_is_assignment(kind),
{
    match kind {
        NodeKind::CallAndWrite | NodeKind::CallOperatorWrite | NodeKind::CallOrWrite
        | NodeKind::ClassVariableAndWrite | NodeKind::ClassVariableOperatorWrite
        | NodeKind::ClassVariableOrWrite | NodeKind::ClassVariableWrite
        | NodeKind::ConstantAndWrite | NodeKind::ConstantOperatorWrite
        | NodeKind::ConstantOrWrite | NodeKind::ConstantPathAndWrite
        | NodeKind::ConstantPathOperatorWrite | NodeKind::ConstantPathOrWrite
        | NodeKind::ConstantPathWrite | NodeKind::ConstantWrite
        | NodeKind::GlobalVariableAndWrite | NodeKind::GlobalVariableOperatorWrite
        | NodeKind::GlobalVariableOrWrite | NodeKind::GlobalVariableWrite
        | NodeKind::IndexAndWrite | NodeKind::IndexOperatorWrite | NodeKind::IndexOrWrite
        | NodeKind::InstanceVariableAndWrite | NodeKind::InstanceVariableOperatorWrite
        | NodeKind::InstanceVariableOrWrite | NodeKind::InstanceVariableWrite
        | NodeKind::LocalVariableAndWrite | NodeKind::LocalVariableOperatorWrite
        | NodeKind::LocalVariableOrWrite | NodeKind::LocalVariableWrite
        | NodeKind::MatchWrite | NodeKind::MultiWrite => true,
        _ => false,
    }
}

/// Whether the node is a conditional or a loop with a condition.
pub fn is_conditional(kind: NodeKind) -> (r: bool)
    ensures
        r == spec_is_conditional(kind),
{
    match kind {
        NodeKind::CaseMatch | NodeKind::Case | NodeKind::If | NodeKind::Unless
        | NodeKind::Until | NodeKind::While => true,
        _ => false,
    }
}

/// The parent of node `i`; a link that does not point back to an earlier node counts as none.
pub open spec fn parent_of(t: Seq<SyntaxNode>, i: int) -> Option<int> {
    match t[i].parent {
        Some(p) => if p < i {
            Some(p as int)
        } else {
            None
        },
        None => None,
    }
}

/// The ancestor of node `i` that lies `n + 1` levels up (0 is the parent).
pub open spec fn ancestor_of(t: Seq<SyntaxNode>, i: int, n: nat) -> Option<int>
    decreases n,
{
    match parent_of(t, i) {
        None => None,
        Some(p) => if n == 0 {
            Some(p)
        } else {
            ancestor_of(t, p, (n - 1) as nat)
        },
    }
}

/// The first part of the call chain that starts at node `i`: the receiver of its receiver,
/// and so on; `None` where the chain ends in a call without a receiver. A receiver link that
/// does not point forward counts as none.
pub open spec fn call_chain_head(t: Seq<SyntaxNode>, i: int) -> Option<int>
    decreases t.len() - i,
{
    if i < 0 || i >= t.len() {
        None
    } else if t[i].kind == NodeKind::Call {
        match t[i].receiver {
            Some(r) => if i < r && r < t.len() {
                call_chain_head(t, r as int)
            } else {
                None
            },
            None => None,
        }
    } else {
        Some(i)
    }
}

/// The parent of node `i`, as `parent_of` defines it.
pub fn parent(nodes: &Vec<SyntaxNode>, i: usize) -> (r: Option<usize>)
    requires
        i < nodes@.len(),
    ensures
        match (r, parent_of(nodes@, i as int)) {
            (None, None) => true,
            (Some(a), Some(b)) => a == b,
            _ => false,
        },
{
    match nodes[i].parent {
        Some(p) => if p < i {
            Some(p)
        } else {
            None
        },
        None => None,
    }
}

/// The ancestor of node `i` that lies `n + 1` levels up (0 is the parent).
pub fn ancestor(nodes: &Vec<SyntaxNode>, i: usize, n: usize) -> (r: Option<usize>)
    requires
        i < nodes@.len(),
    ensures
        match (r, ancestor_of(nodes@, i as int, n as nat)) {
            (None, None) => true,
            (Some(a), Some(b)) => a == b && a < i,
            _ => false,
        },
    decreases n,
{
    match parent(nodes, i) {
        None => None,
        Some(p) => if n == 0 {
            Some(p)
        } else {
            match ancestor(nodes, p, n - 1) {
                Some(a) => Some(a),
                None => None,
            }
        },
    }
}

/// Returns the first part of a method call chain: for `foo.bar.baz` the node of `foo`,
/// `None` when that first part is itself a call without a receiver.
pub fn first_part_of_call_chain(nodes: &Vec<SyntaxNode>, i: usize) -> (r: Option<usize>)
    ensures
        match (r, call_chain_head(nodes@, i as int)) {
            (None, None) => true,
            (Some(a), Some(b)) => a == b && a < nodes@.len(),
            _ => false,
        },
{
    let mut current = i;
    while current < nodes.len()
        invariant
            call_chain_head(nodes@, i as int) == call_chain_head(nodes@, current as int),
        decreases nodes@.len() - current,
    {
        if nodes[current].kind == NodeKind::Call {
            match nodes[current].receiver {
                Some(r) => {
                    if current < r && r < nodes.len() {
                        current = r;
                    } else {
                        return None;
                    }
                },
                None => {
                    return None;
                },
            }
        } else {
            return Some(current);
        }
    }
    None
}

} // verus!
