//! The raw parse tree: rule tags, source spans, and rule-tagged nodes.
//!
//! The concrete grammar and tokenizer are external collaborators; what
//! reaches this crate is their output, modelled as plain values: a node
//! carries its rule tag, the source text it covers, its byte span, and
//! its ordered children.

use vstd::prelude::*;

verus! {

/// A rule tag attached to a parse-tree node by the grammar.
#[derive(Clone, Copy, Debug, PartialEq, Eq, Structural)]
pub enum Rule {
    /// A whole module: package declaration, imports, functions.
    Module,
    /// A package declaration; holds an `Ident` child.
    Package,
    /// An import declaration; holds a `Str` child.
    Import,
    /// A function declaration; holds an `Ident` child naming it.
    Func,
    /// An identifier.
    Ident,
    /// A string literal, quotes included; holds a `StrInner` child.
    Str,
    /// The contents of a string literal, quotes excluded.
    StrInner,
    /// The end-of-input marker.
    Eoi,
    /// An expression: terms at even positions, operators at odd ones.
    Expr,
    /// An integer literal; the node's text holds its decimal digits.
    IntLit,
    /// A unary minus; holds the negated term as its only child.
    UnaryMinus,
    /// A parenthesized expression; holds an `Expr` child.
    Paren,
    /// The binary operators.
    OpAdd,
    OpSub,
    OpMul,
    OpDiv,
    OpRem,
    OpBitAnd,
    OpBitOr,
    OpBitXor,
    OpBitClear,
    OpShl,
    OpShr,
}

/// A byte-offset range into the original source text, carried for
/// diagnostics.
#[derive(Clone, Copy, Debug, PartialEq, Eq, Structural)]
pub struct Span {
    pub start: usize,
    pub end: usize,
}

/// One node of the raw parse tree: a rule tag, the covered source text,
/// its span, and its ordered children.
#[derive(Debug)]
pub struct ParseNode {
    pub rule: Rule,
    pub text: String,
    pub span: Span,
    pub children: Vec<ParseNode>,
}

/// The first node at or after position `i` tagged with rule `r`, if any.
pub open spec fn spec_find_from(cs: Seq<ParseNode>, r: Rule, i: int) -> Option<ParseNode>
    decreases cs.len() - i,
{
    if i < 0 || i >= cs.len() {
        None
    } else if cs[i].rule == r {
        Some(cs[i])
    } else {
        spec_find_from(cs, r, i + 1)
    }
}

/// The first child tagged with rule `r`, if any: how a nested required
/// node (a package's name, an import's string) is found.
pub open spec fn spec_find_child(cs: Seq<ParseNode>, r: Rule) -> Option<ParseNode> {
    spec_find_from(cs, r, 0)
}

/// Finds the first child of `node` tagged with rule `r`.
pub fn find_child<'a>(node: &'a ParseNode, r: Rule) -> (res: Option<&'a ParseNode>)
    ensures
        match res {
            Some(c) => spec_find_child(node.children@, r) == Some(*c),
            None => spec_find_child(node.children@, r) is None,
        },
{
    let n = node.children.len();
    let mut i: usize = 0;
    while i < n
        invariant
            i <= n,
            n == node.children@.len(),
            spec_find_child(node.children@, r) == spec_find_from(node.children@, r, i as int),
        decreases n - i,
    {
        if node.children[i].rule == r {
            return Some(&node.children[i]);
        }
        i = i + 1;
    }
    None
}

} // verus!
