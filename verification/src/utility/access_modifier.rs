//! Access modifiers (`private`, `protected`, `public`, `module_function`) called as macros
//! in the body of a class or module.
use crate::syntax::{parent, parent_of, NodeKind, SyntaxNode};
use crate::text::{ascii_bytes, bytes_eq_str};
use vstd::prelude::*;

verus! {

/// The name is one of the access modifiers.
pub open spec fn spec_is_modifier_name(name: Seq<u8>) -> bool {
    name == ascii_bytes("public"@) || name == ascii_bytes("protected"@) || name == ascii_bytes(
        "private"@,
    ) || name == ascii_bytes("module_function"@)
}

/// Walking up from ancestor `j` (a statements node was just passed when `in_statements`),
/// whether the walk ends in a class or module body.
pub open spec fn macro_scope_from(t: Seq<SyntaxNode>, j: int, in_statements: bool) -> bool
    decreases j,
{
    if j < 0 || j >= t.len() {
        false
    } else {
        match t[j].kind {
            NodeKind::Class | NodeKind::Module => true,
            NodeKind::Begin | NodeKind::Block | NodeKind::Else | NodeKind::Ensure | NodeKind::If
            | NodeKind::Lambda | NodeKind::Rescue | NodeKind::Unless => if in_statements {
                match parent_of(t, j) {
                    Some(p) => macro_scope_from(t, p, false),
                    None => false,
                }
            } else {
                false
            },
            NodeKind::Statements => match parent_of(t, j) {
                Some(p) => macro_scope_from(t, p, true),
                None => false,
            },
            _ => false,
        }
    }
}

/// Node `i` stands where a macro can: at the top, or in the body of a class or module,
/// through `begin`, blocks, conditionals and the like.
pub open spec fn spec_in_macro_scope(t: Seq<SyntaxNode>, i: int) -> bool {
    match parent_of(t, i) {
        None => true,
        Some(p) => macro_scope_from(t, p, false),
    }
}

/// Node `i` is a call without a receiver, standing where a macro can.
pub open spec fn spec_is_macro(t: Seq<SyntaxNode>, i: int) -> bool {
    0 <= i < t.len() && t[i].kind == NodeKind::Call && t[i].receiver is None
        && spec_in_macro_scope(t, i)
}

/// Node `i` is an access modifier called without arguments.
pub open spec fn spec_is_bare_declaration(t: Seq<SyntaxNode>, i: int) -> bool {
    0 <= i < t.len() && t[i].kind == NodeKind::Call && t[i].receiver is None
        && t[i].arguments is None && spec_is_modifier_name(t[i].name@)
}

/// Node `i` is an access modifier called with arguments.
pub open spec fn spec_is_non_bare_declaration(t: Seq<SyntaxNode>, i: int) -> bool {
    0 <= i < t.len() && t[i].kind == NodeKind::Call && t[i].receiver is None
        && t[i].arguments is Some && spec_is_modifier_name(t[i].name@)
}

/// Node `i` is an access modifier.
pub open spec fn spec_is_access_modifier(t: Seq<SyntaxNode>, i: int) -> bool {
    spec_is_macro(t, i) && (spec_is_bare_declaration(t, i) || spec_is_non_bare_declaration(t, i))
}

fn is_modifier_name(name: &Vec<u8>) -> (r: bool)
    ensures
        r == spec_is_modifier_name(name@),
{
    proof {
        reveal_strlit("public");
        reveal_strlit("protected");
        reveal_strlit("private");
        reveal_strlit("module_function");
    }
    let b = name.as_slice();
    bytes_eq_str(b, "public") || bytes_eq_str(b, "protected") || bytes_eq_str(b, "private")
        || bytes_eq_str(b, "module_function")
}

/// Whether node `id` stands where a macro can.
pub fn in_macro_scope(nodes: &Vec<SyntaxNode>, id: usize) -> (r: bool)
    requires
        id < nodes@.len(),
    ensures
        r == spec_in_macro_scope(nodes@, id as int),
{
    let first = parent(nodes, id);
    let mut current = match first {
        None => {
            return true;
        },
        Some(p) => p,
    };
    let mut in_statements = false;
    loop
        invariant
            current < nodes@.len(),
            spec_in_macro_scope(nodes@, id as int) == macro_scope_from(
                nodes@,
                current as int,
                in_statements,
            ),
        decreases current,
    {
        match nodes[current].kind {
            NodeKind::Class | NodeKind::Module => {
                return true;
            },
            NodeKind::Begin | NodeKind::Block | NodeKind::Else | NodeKind::Ensure | NodeKind::If
            | NodeKind::Lambda | NodeKind::Rescue | NodeKind::Unless => {
                if in_statements {
                    in_statements = false;
                } else {
                    return false;
                }
            },
            NodeKind::Statements => {
                in_statements = true;
            },
            _ => {
                return false;
            },
        }
        match parent(nodes, current) {
            Some(p) => {
                current = p;
            },
            None => {
                return false;
            },
        }
    }
}

/// Whether node `id` is a call without a receiver standing where a macro can.
pub fn is_macro(nodes: &Vec<SyntaxNode>, id: usize) -> (r: bool)
    ensures
        r == spec_is_macro(nodes@, id as int),
{
    id < nodes.len() && nodes[id].kind == NodeKind::Call && nodes[id].receiver.is_none()
        && in_macro_scope(nodes, id)
}

fn is_bare_access_modifier_declaration(nodes: &Vec<SyntaxNode>, id: usize) -> (r: bool)
    ensures
        r == spec_is_bare_declaration(nodes@, id as int),
{
    id < nodes.len() && nodes[id].kind == NodeKind::Call && nodes[id].receiver.is_none()
        && nodes[id].arguments.is_none() && is_modifier_name(&nodes[id].name)
}

fn is_non_bare_access_modifier_declaration(nodes: &Vec<SyntaxNode>, id: usize) -> (r: bool)
    ensures
        r == spec_is_non_bare_declaration(nodes@, id as int),
{
    id < nodes.len() && nodes[id].kind == NodeKind::Call && nodes[id].receiver.is_none()
        && nodes[id].arguments.is_some() && is_modifier_name(&nodes[id].name)
}

/// Whether node `id` is an access modifier, with or without arguments.
pub fn is_access_modifier(nodes: &Vec<SyntaxNode>, id: usize) -> (r: bool)
    ensures
        r == spec_is_access_modifier(nodes@, id as int),
{
    is_macro(nodes, id) && (is_bare_access_modifier_declaration(nodes, id)
        || is_non_bare_access_modifier_declaration(nodes, id))
}

/// Whether node `id` is an access modifier called without arguments.
pub fn is_bare_access_modifier(nodes: &Vec<SyntaxNode>, id: usize) -> (r: bool)
    ensures
        r == (spec_is_macro(nodes@, id as int) && spec_is_bare_declaration(nodes@, id as int)),
{
    is_macro(nodes, id) && is_bare_access_modifier_declaration(nodes, id)
}

/// Whether node `id` is an access modifier called with arguments.
pub fn is_non_bare_access_modifier(nodes: &Vec<SyntaxNode>, id: usize) -> (r: bool)
    ensures
        r == (spec_is_macro(nodes@, id as int) && spec_is_non_bare_declaration(nodes@, id as int)),
{
    is_macro(nodes, id) && is_non_bare_access_modifier_declaration(nodes, id)
}

/// Whether node `id` is a bare `private` or `protected`.
pub fn is_special_modifier(nodes: &Vec<SyntaxNode>, id: usize) -> (r: bool)
    ensures
        r == (spec_is_macro(nodes@, id as int) && spec_is_bare_declaration(nodes@, id as int) && (
        nodes@[id as int].name@ == ascii_bytes("private"@) || nodes@[id as int].name@
            == ascii_bytes("protected"@))),
{
    proof {
        reveal_strlit("private");
        reveal_strlit("protected");
    }
    if id < nodes.len() && nodes[id].kind == NodeKind::Call {
        is_bare_access_modifier(nodes, id) && (bytes_eq_str(nodes[id].name.as_slice(), "private")
            || bytes_eq_str(nodes[id].name.as_slice(), "protected"))
    } else {
        false
    }
}

/// Whether the call `id` has no receiver and a method definition as its first argument,
/// as in `private def foo`.
pub fn is_adjacent_def_modifier(nodes: &Vec<SyntaxNode>, id: usize) -> (r: bool)
    requires
        id < nodes@.len(),
    ensures
        r == (nodes@[id as int].receiver is None && match nodes@[id as int].arguments {
            Some(a) => a < nodes@.len() && nodes@[a as int].children.len() > 0 && ({
                let f = nodes@[a as int].children[0];
                f < nodes@.len() && nodes@[f as int].kind == NodeKind::Def
            }),
            None => false,
        }),
{
    if nodes[id].receiver.is_some() {
        return false;
    }
    match nodes[id].arguments {
        Some(a) => {
            if a < nodes.len() && nodes[a].children.len() > 0 {
                let f = nodes[a].children[0];
                f < nodes.len() && nodes[f].kind == NodeKind::Def
            } else {
                false
            }
        },
        None => false,
    }
}

} // verus!
