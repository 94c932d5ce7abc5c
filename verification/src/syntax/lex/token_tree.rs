//! Trees of tokens, in which each delimited group is a node.

use vstd::prelude::*;
use crate::syntax::lex::span::ByteSpan;
use crate::syntax::lex::token::{DelimiterType, SpecToken, Token};

verus! {

/// A token, or a group of token trees between a pair of delimiters.
#[derive(Eq, PartialEq, Debug)]
pub enum TokenTree {
    Token(ByteSpan, Token),
    Delimited(ByteSpan, DelimiterType, Vec<TokenTree>),
}

/// The model of a token tree.
pub enum SpecTree {
    Token(ByteSpan, SpecToken),
    Delimited(ByteSpan, DelimiterType, Seq<SpecTree>),
}

/// The model of a token tree.
pub open spec fn tree_view(t: TokenTree) -> SpecTree
    decreases t,
{
    match t {
        TokenTree::Token(sp, tok) => SpecTree::Token(sp, tok@),
        TokenTree::Delimited(sp, d, tts) => SpecTree::Delimited(sp, d, trees_view(tts@)),
    }
}

/// The model of a sequence of token trees.
pub open spec fn trees_view(v: Seq<TokenTree>) -> Seq<SpecTree>
    decreases v,
{
    if v.len() == 0 {
        Seq::empty()
    } else {
        trees_view(v.drop_last()).push(tree_view(v.last()))
    }
}

/// Appending a tree appends its model.
pub proof fn lemma_trees_view_push(v: Seq<TokenTree>, x: TokenTree)
    ensures
        trees_view(v.push(x)) == trees_view(v).push(tree_view(x)),
{
    assert(v.push(x).drop_last() =~= v);
}

/// The model of no trees is empty.
pub proof fn lemma_trees_view_empty(v: Seq<TokenTree>)
    requires
        v.len() == 0,
    ensures
        trees_view(v) == Seq::<SpecTree>::empty(),
{
}

} // verus!

verus! {

/// The model of a sequence of trees holds the model of each tree, in order.
pub proof fn lemma_trees_view_index(v: Seq<TokenTree>)
    ensures
        trees_view(v).len() == v.len(),
        forall|i: int| 0 <= i < v.len() ==> #[trigger] trees_view(v)[i] == tree_view(v[i]),
    decreases v.len(),
{
    if v.len() > 0 {
        lemma_trees_view_index(v.drop_last());
    }
}

} // verus!
