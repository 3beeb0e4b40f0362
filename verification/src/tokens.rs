//! A plain-value model of procedural-macro token trees.

use vstd::prelude::*;

verus! {

/// GroupDelimiter of a group of tokens.
#[derive(Clone, Copy, Debug, PartialEq, Eq, Structural)]
pub enum GroupDelimiter {
    /// `( ... )`
    Parenthesis,
    /// `{ ... }`
    Brace,
    /// `[ ... ]`
    Bracket,
    /// An invisible delimiter.
    Invisible,
}

/// Whether a punctuation character is immediately followed by another one.
#[derive(Clone, Copy, Debug, PartialEq, Eq, Structural)]
pub enum Spacing {
    /// Followed by whitespace or a non-punctuation token.
    Alone,
    /// Immediately followed by another punctuation character.
    Joint,
}

/// Where a leaf token came from: the macro's call site, or the token with
/// the given index in the caller's table of source spans.
#[derive(Clone, Copy, Debug, PartialEq, Eq, Structural)]
pub enum TokenSpan {
    /// Synthesised by the macro itself.
    CallSite,
    /// Taken from the macro's input.
    Source(usize),
}

/// A token tree, holding as plain values what the macro logic reads.
#[derive(Debug, PartialEq, Eq)]
pub enum TokenTree {
    /// A delimited group of tokens.
    Group { delimiter: GroupDelimiter, stream: Vec<TokenTree> },
    /// An identifier or keyword.
    Ident { name: String, span: TokenSpan },
    /// A single punctuation character.
    Punct { ch: char, spacing: Spacing, span: TokenSpan },
    /// A literal, kept as its source text.
    Literal { text: String, span: TokenSpan },
}

/// The mathematical value of a token tree.
#[verifier::ext_equal]
pub enum Tree {
    /// A group: its delimiter and its tokens.
    Group(GroupDelimiter, Seq<Tree>),
    /// An identifier: its characters and origin.
    Ident(Seq<char>, TokenSpan),
    /// A punctuation character, its spacing and origin.
    Punct(char, Spacing, TokenSpan),
    /// A literal: its source text and origin.
    Literal(Seq<char>, TokenSpan),
}

/// The value of a token tree: strings by their characters, groups by the
/// values of their tokens.
pub open spec fn tree_view(t: TokenTree) -> Tree
    decreases t, 1nat,
{
    match t {
        TokenTree::Group { delimiter, stream } => Tree::Group(delimiter, trees_view(stream@)),
        TokenTree::Ident { name, span } => Tree::Ident(name@, span),
        TokenTree::Punct { ch, spacing, span } => Tree::Punct(ch, spacing, span),
        TokenTree::Literal { text, span } => Tree::Literal(text@, span),
    }
}

/// The values of a sequence of token trees, in order.
pub open spec fn trees_view(s: Seq<TokenTree>) -> Seq<Tree>
    decreases s, 0nat,
{
    if s.len() == 0 {
        Seq::empty()
    } else {
        trees_view(s.drop_last()).push(tree_view(s.last()))
    }
}

impl View for TokenTree {
    type V = Tree;

    open spec fn view(&self) -> Tree {
        tree_view(*self)
    }
}

/// The view of a token sequence is taken element by element.
pub proof fn lemma_trees_view(s: Seq<TokenTree>)
    ensures
        trees_view(s).len() == s.len(),
        forall|i: int| 0 <= i < s.len() ==> #[trigger] trees_view(s)[i] == s[i]@,
    decreases s.len(),
{
    if s.len() > 0 {
        lemma_trees_view(s.drop_last());
    }
}

/// The view of a concatenation is the concatenation of the views.
pub proof fn lemma_trees_view_add(a: Seq<TokenTree>, b: Seq<TokenTree>)
    ensures
        trees_view(a + b) == trees_view(a) + trees_view(b),
{
    lemma_trees_view(a);
    lemma_trees_view(b);
    lemma_trees_view(a + b);
    assert(trees_view(a + b) =~= trees_view(a) + trees_view(b));
}

/// Pushing one token pushes its view.
pub proof fn lemma_trees_view_push(a: Seq<TokenTree>, t: TokenTree)
    ensures
        trees_view(a.push(t)) == trees_view(a).push(t@),
{
    assert(a.push(t).drop_last() =~= a);
}

/// Removing the last element of a reversed sequence removes its first element.
pub proof fn lemma_trees_view_reverse_pop(p: Seq<TokenTree>)
    requires
        p.len() > 0,
    ensures
        trees_view(p.reverse()) == seq![p.last()@] + trees_view(p.drop_last().reverse()),
{
    let q = p.drop_last();
    assert(p.reverse() =~= seq![p.last()] + q.reverse());
    lemma_trees_view_add(seq![p.last()], q.reverse());
    assert(seq![p.last()] =~= Seq::<TokenTree>::empty().push(p.last()));
    lemma_trees_view_push(Seq::<TokenTree>::empty(), p.last());
}

/// `v` in reverse order.
pub fn reversed<T>(v: Vec<T>) -> (r: Vec<T>)
    ensures
        r@ == v@.reverse(),
{
    let ghost orig = v@;
    let mut v = v;
    let mut r: Vec<T> = Vec::new();
    while v.len() > 0
        invariant
            v@ == orig.subrange(0, v@.len() as int),
            r@ == orig.subrange(v@.len() as int, orig.len() as int).reverse(),
            v@.len() <= orig.len(),
        decreases v.len(),
    {
        let ghost k = v@.len();
        let x = v.pop().unwrap();
        r.push(x);
        assert(r@ =~= orig.subrange(k - 1, orig.len() as int).reverse());
    }
    assert(r@ =~= orig.reverse());
    r
}

/// Whether two strings hold the same characters.
pub fn str_eq(a: &str, b: &str) -> (r: bool)
    ensures
        r == (a@ == b@),
{
    let n = a.unicode_len();
    if n != b.unicode_len() {
        return false;
    }
    let mut i: usize = 0;
    while i < n
        invariant
            n == a@.len(),
            n == b@.len(),
            i <= n,
            forall|j: int| 0 <= j < i ==> a@[j] == b@[j],
        decreases n - i,
    {
        if a.get_char(i) != b.get_char(i) {
            return false;
        }
        i = i + 1;
    }
    assert(a@ =~= b@);
    true
}

} // verus!
