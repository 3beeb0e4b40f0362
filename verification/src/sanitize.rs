//! Rewriting of `#name` references to other exported WGSL snippets.

use vstd::prelude::*;

use crate::tokens::{
    GroupDelimiter, Spacing, TokenSpan, lemma_trees_view_push, lemma_trees_view_reverse_pop, reversed, str_eq, trees_view,
    TokenTree, Tree,
};

verus! {

/// Whether `t` is the punctuation character `#`.
pub open spec fn is_hash(t: Tree) -> bool {
    t matches Tree::Punct(c, _, _) && c == '#'
}

/// Whether `t` is the identifier `name`.
pub open spec fn is_ident_named(t: Tree, name: Seq<char>) -> bool {
    t matches Tree::Ident(n, _) && n == name
}

/// `s` with the `#` directly in front of every identifier `name` removed,
/// inside groups too.
pub open spec fn strip_hashes(s: Seq<Tree>, name: Seq<char>) -> Seq<Tree>
    decreases s, 1nat,
{
    if s.len() == 0 {
        Seq::empty()
    } else if s.len() >= 2 && is_hash(s[0]) && is_ident_named(s[1], name) {
        seq![s[1]] + strip_hashes(s.subrange(2, s.len() as int), name)
    } else {
        seq![strip_hashes_in(s[0], name)] + strip_hashes(s.subrange(1, s.len() as int), name)
    }
}

/// `strip_hashes` applied inside a group; other tokens are kept.
pub open spec fn strip_hashes_in(t: Tree, name: Seq<char>) -> Tree
    decreases t, 0nat,
{
    match t {
        Tree::Group(d, inner) => Tree::Group(d, strip_hashes(inner, name)),
        _ => t,
    }
}

proof fn lemma_strip_step(x: Tree, r: Seq<Tree>, name: Seq<char>)
    requires
        !(is_hash(x) && r.len() > 0 && is_ident_named(r[0], name)),
    ensures
        strip_hashes(seq![x] + r, name) == seq![strip_hashes_in(x, name)] + strip_hashes(r, name),
{
    assert((seq![x] + r).subrange(1, (seq![x] + r).len() as int) =~= r);
}

proof fn lemma_strip_pair(h: Tree, n: Tree, r: Seq<Tree>, name: Seq<char>)
    requires
        is_hash(h),
        is_ident_named(n, name),
    ensures
        strip_hashes(seq![h] + (seq![n] + r), name) == seq![n] + strip_hashes(r, name),
{
    let s = seq![h] + (seq![n] + r);
    assert(s[0] == h);
    assert(s[1] == n);
    assert(s.subrange(2, s.len() as int) =~= r);
}

/// Removes the `#` directly in front of every `ident` in `stream`, inside
/// groups too, and appends the result to `items`.
pub fn sanitize_remaining(stream: Vec<TokenTree>, ident: &String, items: &mut Vec<TokenTree>)
    ensures
        trees_view(final(items)@) == trees_view(old(items)@) + strip_hashes(trees_view(stream@), ident@),
    decreases stream@,
{
    let ghost orig = stream@;
    let ghost old_items = trees_view(items@);
    let ghost goal = old_items + strip_hashes(trees_view(orig), ident@);
    let mut pending = reversed(stream);
    let mut last_is_hash = false;
    let ghost mut consumed: int = 0;
    proof {
        assert(orig.subrange(0, orig.len() as int) =~= orig);
        assert(pending@.reverse() =~= orig);
    }
    while pending.len() > 0
        invariant
            orig == stream@,
            0 <= consumed <= orig.len(),
            pending@ == orig.subrange(consumed, orig.len() as int).reverse(),
            !last_is_hash ==> trees_view(items@) + strip_hashes(trees_view(pending@.reverse()), ident@)
                == goal,
            last_is_hash ==> {
                &&& items@.len() > 0
                &&& is_hash(items@.last()@)
                &&& trees_view(items@.drop_last()) + strip_hashes(
                    seq![items@.last()@] + trees_view(pending@.reverse()),
                    ident@,
                ) == goal
            },
        decreases pending.len(),
    {
        let ghost p = pending@;
        proof {
            lemma_trees_view_reverse_pop(p);
            assert(p.reverse() =~= orig.subrange(consumed, orig.len() as int));
        }
        let t = pending.pop().unwrap();
        let ghost rest = trees_view(pending@.reverse());
        proof {
            assert(pending@ == p.drop_last());
            assert(t == orig[consumed]);
            assert(pending@ =~= orig.subrange(consumed + 1, orig.len() as int).reverse());
            consumed = consumed + 1;
        }
        let ghost tg = t;
        let named = match &t {
            TokenTree::Ident { name, .. } => *name == *ident,
            _ => false,
        };
        if last_is_hash && named {
            proof {
                let h = items@.last();
                lemma_strip_pair(h@, t@, rest, ident@);
                lemma_trees_view_push(items@.drop_last(), t);
            }
            let _ = items.pop();
            items.push(t);
            last_is_hash = false;
        } else {
            proof {
                if last_is_hash {
                    let h = items@.last();
                    lemma_strip_step(h@, seq![t@] + rest, ident@);
                    assert(strip_hashes_in(h@, ident@) == h@);
                    lemma_trees_view_push(items@.drop_last(), h);
                    assert(items@.drop_last().push(h) =~= items@);
                }
                assert(trees_view(items@) + strip_hashes(seq![t@] + rest, ident@) == goal);
                if !is_hash(t@) {
                    lemma_strip_step(t@, rest, ident@);
                }
            }
            match t {
                TokenTree::Punct { ch, spacing, span } if ch == '#' => {
                    proof {
                        lemma_trees_view_push(items@, TokenTree::Punct { ch, spacing, span });
                        assert(items@.push(TokenTree::Punct { ch, spacing, span }).drop_last() =~= items@);
                    }
                    items.push(TokenTree::Punct { ch, spacing, span });
                    last_is_hash = true;
                },
                TokenTree::Group { delimiter, stream: inner } => {
                    proof {
                        assert(decreases_to!(orig => tg));
                        assert(decreases_to!(tg => inner));
                        assert(decreases_to!(inner => inner@));
                        assert(decreases_to!(orig => inner@));
                    }
                    let mut out: Vec<TokenTree> = Vec::new();
                    sanitize_remaining(inner, ident, &mut out);
                    let g = TokenTree::Group { delimiter, stream: out };
                    proof {
                        lemma_trees_view_push(items@, g);
                    }
                    items.push(g);
                    last_is_hash = false;
                },
                other => {
                    proof {
                        lemma_trees_view_push(items@, other);
                    }
                    items.push(other);
                    last_is_hash = false;
                },
            }
        }
    }
    proof {
        assert(pending@.reverse() =~= Seq::<TokenTree>::empty());
        assert(strip_hashes(Seq::<Tree>::empty(), ident@) =~= Seq::<Tree>::empty());
        if last_is_hash {
            let h = items@.last();
            lemma_strip_step(h@, Seq::<Tree>::empty(), ident@);
            assert(seq![h@] + Seq::<Tree>::empty() =~= seq![h@]);
            lemma_trees_view_push(items@.drop_last(), h);
            assert(items@.drop_last().push(h) =~= items@);
        }
    }
}

/// What sanitising makes of the tokens `s`, given whether the token before
/// them was a `#` and whether they open their stream: the rewritten
/// tokens, and the identifier (name and origin) of the first `#name`
/// reference, if any.
///
/// A `[...]` group that opens a stream is kept as it is. A `#` is dropped.
/// An identifier right after a `#` is the reference: it is kept, and the
/// `#` directly in front of every later occurrence of it is removed. Groups
/// are rewritten from their own start, and a `#` in front of a group refers
/// to nothing; a reference found in a group ends the search. Every other
/// token is kept.
///
/// With `naga_oil`, a naga_oil preprocessor directive after a `#` is no
/// reference: it is kept behind a new `#` joined to it.
pub open spec fn sanitize_with(s: Seq<Tree>, prev_hash: bool, first: bool, naga_oil: bool) -> (Seq<Tree>, Option<(Seq<char>, TokenSpan)>)
    decreases s,
{
    if s.len() == 0 {
        (Seq::empty(), None)
    } else {
        let t = s[0];
        let rest = s.subrange(1, s.len() as int);
        match t {
            Tree::Group(d, inner) => {
                if first && d == GroupDelimiter::Bracket {
                    let r = sanitize_with(rest, false, false, naga_oil);
                    (seq![t] + r.0, r.1)
                } else {
                    let g = sanitize_with(inner, false, true, naga_oil);
                    let head = Tree::Group(d, g.0);
                    match g.1 {
                        Some(n) => (seq![head] + strip_hashes(rest, n.0), Some(n)),
                        None => {
                            let r = sanitize_with(rest, false, false, naga_oil);
                            (seq![head] + r.0, r.1)
                        },
                    }
                }
            },
            Tree::Ident(n, sp) => {
                if prev_hash && naga_oil && naga_oil_directive(n) {
                    let r = sanitize_with(rest, false, false, naga_oil);
                    (seq![Tree::Punct('#', Spacing::Joint, TokenSpan::CallSite), t] + r.0, r.1)
                } else if prev_hash {
                    (seq![t] + strip_hashes(rest, n), Some((n, sp)))
                } else {
                    let r = sanitize_with(rest, false, false, naga_oil);
                    (seq![t] + r.0, r.1)
                }
            },
            _ => {
                if is_hash(t) {
                    sanitize_with(rest, true, false, naga_oil)
                } else {
                    let r = sanitize_with(rest, false, false, naga_oil);
                    (seq![t] + r.0, r.1)
                }
            },
        }
    }
}

/// What `sanitize_wgsl` makes of the tokens `s`: `sanitize_with` without
/// naga_oil directives.
#[verifier::inline]
pub open spec fn sanitize_spec(s: Seq<Tree>, prev_hash: bool, first: bool) -> (Seq<Tree>, Option<(Seq<char>, TokenSpan)>) {
    sanitize_with(s, prev_hash, first, false)
}

/// The view of an optional identifier.
pub open spec fn ident_view(n: Option<(String, TokenSpan)>) -> Option<(Seq<char>, TokenSpan)> {
    match n {
        Some((s, sp)) => Some((s@, sp)),
        None => None,
    }
}

/// Finds the first `#name` reference to another exported snippet, as
/// `sanitize_wgsl` does; with `naga_oil`, a naga_oil directive after a `#`
/// is no reference and is kept behind a new `#`.
pub fn sanitize_wgsl_with(stream: Vec<TokenTree>, naga_oil: bool) -> (r: (Vec<TokenTree>, Option<(String, TokenSpan)>))
    ensures
        trees_view(r.0@) == sanitize_with(trees_view(stream@), false, true, naga_oil).0,
        ident_view(r.1) == sanitize_with(trees_view(stream@), false, true, naga_oil).1,
    decreases stream@,
{
    let ghost orig = stream@;
    let ghost goal = sanitize_with(trees_view(orig), false, true, naga_oil);
    let mut result: Vec<TokenTree> = Vec::new();
    let mut pending = reversed(stream);
    let mut prev_hash = false;
    let mut first = true;
    let ghost mut consumed: int = 0;
    proof {
        assert(orig.subrange(0, orig.len() as int) =~= orig);
        assert(pending@.reverse() =~= orig);
        assert(trees_view(result@) =~= Seq::<Tree>::empty());
    }
    while pending.len() > 0
        invariant
            orig == stream@,
            0 <= consumed <= orig.len(),
            pending@ == orig.subrange(consumed, orig.len() as int).reverse(),
            goal == sanitize_with(trees_view(orig), false, true, naga_oil),
            ({
                let r = sanitize_with(trees_view(pending@.reverse()), prev_hash, first, naga_oil);
                goal.0 == trees_view(result@) + r.0 && goal.1 == r.1
            }),
        decreases pending.len(),
    {
        let ghost p = pending@;
        let ghost before = trees_view(p.reverse());
        proof {
            lemma_trees_view_reverse_pop(p);
            assert(p.reverse() =~= orig.subrange(consumed, orig.len() as int));
        }
        let t = pending.pop().unwrap();
        let ghost rest = trees_view(pending@.reverse());
        let ghost tg = t;
        proof {
            assert(pending@ == p.drop_last());
            assert(t == orig[consumed]);
            assert(pending@ =~= orig.subrange(consumed + 1, orig.len() as int).reverse());
            consumed = consumed + 1;
            assert(before[0] == t@);
            assert(before.subrange(1, before.len() as int) =~= rest);
        }
        match t {
            TokenTree::Group { delimiter, stream: inner } => {
                if first && delimiter == GroupDelimiter::Bracket {
                    let g = TokenTree::Group { delimiter, stream: inner };
                    proof {
                        lemma_trees_view_push(result@, g);
                    }
                    result.push(g);
                } else {
                    proof {
                        assert(decreases_to!(orig => tg));
                        assert(decreases_to!(tg => inner));
                        assert(decreases_to!(inner => inner@));
                    }
                    let (out, found) = sanitize_wgsl_with(inner, naga_oil);
                    let g = TokenTree::Group { delimiter, stream: out };
                    proof {
                        lemma_trees_view_push(result@, g);
                    }
                    result.push(g);
                    if let Some((name, sp)) = found {
                        sanitize_remaining(reversed(pending), &name, &mut result);
                        return (result, Some((name, sp)));
                    }
                }
                prev_hash = false;
            },
            TokenTree::Ident { name, span } => {
                if prev_hash && naga_oil && is_naga_oil_name(name.as_str()) {
                    let h = TokenTree::Punct { ch: '#', spacing: Spacing::Joint, span: TokenSpan::CallSite };
                    let tok = TokenTree::Ident { name, span };
                    proof {
                        lemma_trees_view_push(result@, h);
                        lemma_trees_view_push(result@.push(h), tok);
                        assert(seq![h@, tok@] =~= seq![h@] + seq![tok@]);
                    }
                    result.push(h);
                    result.push(tok);
                    prev_hash = false;
                } else if prev_hash {
                    let id = name.clone();
                    let tok = TokenTree::Ident { name, span };
                    proof {
                        lemma_trees_view_push(result@, tok);
                    }
                    result.push(tok);
                    sanitize_remaining(reversed(pending), &id, &mut result);
                    return (result, Some((id, span)));
                } else {
                    let tok = TokenTree::Ident { name, span };
                    proof {
                        lemma_trees_view_push(result@, tok);
                    }
                    result.push(tok);
                    prev_hash = false;
                }
            },
            TokenTree::Punct { ch, spacing, span } => {
                if ch == '#' {
                    prev_hash = true;
                } else {
                    let tok = TokenTree::Punct { ch, spacing, span };
                    proof {
                        lemma_trees_view_push(result@, tok);
                    }
                    result.push(tok);
                    prev_hash = false;
                }
            },
            other => {
                proof {
                    lemma_trees_view_push(result@, other);
                }
                result.push(other);
                prev_hash = false;
            },
        }
        first = false;
    }
    proof {
        assert(pending@.reverse() =~= Seq::<TokenTree>::empty());
    }
    (result, None)
}

/// Finds the first `#name` reference to another exported snippet. The `#`
/// is dropped; so is every other `#` before the reference, and the `#` in
/// front of every later occurrence of `name`. Returns the rewritten tokens
/// and the referenced identifier with its span, if one was found.
pub fn sanitize_wgsl(stream: Vec<TokenTree>) -> (r: (Vec<TokenTree>, Option<(String, TokenSpan)>))
    ensures
        trees_view(r.0@) == sanitize_spec(trees_view(stream@), false, true).0,
        ident_view(r.1) == sanitize_spec(trees_view(stream@), false, true).1,
{
    sanitize_wgsl_with(stream, false)
}

/// Whether `name` is one of the naga_oil preprocessor directives.
pub open spec fn naga_oil_directive(name: Seq<char>) -> bool {
    ||| name == "define_import_path"@
    ||| name == "import"@
    ||| name == "if"@
    ||| name == "ifdef"@
    ||| name == "ifndef"@
    ||| name == "else"@
    ||| name == "endif"@
}

/// Whether `name` is a naga_oil preprocessor directive, which the
/// naga_oil flavour of the macros keeps behind its `#`.
pub fn is_naga_oil_name(name: &str) -> (r: bool)
    ensures
        r == naga_oil_directive(name@),
{
    str_eq(name, "define_import_path") || str_eq(name, "import") || str_eq(name, "if") || str_eq(
        name,
        "ifdef",
    ) || str_eq(name, "ifndef") || str_eq(name, "else") || str_eq(name, "endif")
}

/// `s` with every `#` removed, inside groups too.
pub open spec fn without_hashes(s: Seq<Tree>) -> Seq<Tree>
    decreases s, 1nat,
{
    if s.len() == 0 {
        Seq::empty()
    } else {
        let r = without_hashes(s.subrange(1, s.len() as int));
        if is_hash(s[0]) {
            r
        } else {
            seq![without_hashes_in(s[0])] + r
        }
    }
}

/// `without_hashes` applied inside a group; other tokens are kept.
pub open spec fn without_hashes_in(t: Tree) -> Tree
    decreases t, 0nat,
{
    match t {
        Tree::Group(d, inner) => Tree::Group(d, without_hashes(inner)),
        _ => t,
    }
}

/// Whether no `#` occurs in `s`, inside groups neither.
pub open spec fn hash_free(s: Seq<Tree>) -> bool
    decreases s, 1nat,
{
    s.len() == 0 || (!is_hash(s[0]) && hash_free_in(s[0]) && hash_free(s.subrange(1, s.len() as int)))
}

/// Whether no `#` occurs inside the group `t` (true of other tokens).
pub open spec fn hash_free_in(t: Tree) -> bool
    decreases t, 0nat,
{
    match t {
        Tree::Group(_, inner) => hash_free(inner),
        _ => true,
    }
}

proof fn lemma_without_cons(x: Tree, r: Seq<Tree>)
    ensures
        without_hashes(seq![x] + r) == (if is_hash(x) {
            without_hashes(r)
        } else {
            seq![without_hashes_in(x)] + without_hashes(r)
        }),
{
    assert((seq![x] + r).subrange(1, (seq![x] + r).len() as int) =~= r);
}

/// Removing the `#` in front of a name deletes `#` tokens and nothing else:
/// once every `#` is erased, the tokens before and after are the same.
pub proof fn law_strip_hashes_only_removes_hashes(s: Seq<Tree>, name: Seq<char>)
    ensures
        without_hashes(strip_hashes(s, name)) == without_hashes(s),
    decreases s,
{
    if s.len() > 0 {
        let rest = s.subrange(1, s.len() as int);
        lemma_without_cons(s[0], rest);
        assert(seq![s[0]] + rest =~= s);
        if s.len() >= 2 && is_hash(s[0]) && is_ident_named(s[1], name) {
            let rest2 = s.subrange(2, s.len() as int);
            law_strip_hashes_only_removes_hashes(rest2, name);
            lemma_without_cons(s[1], strip_hashes(rest2, name));
            lemma_without_cons(s[1], rest2);
            assert(seq![s[1]] + rest2 =~= rest);
        } else {
            law_strip_hashes_only_removes_hashes(rest, name);
            let x = strip_hashes_in(s[0], name);
            lemma_without_cons(x, strip_hashes(rest, name));
            match s[0] {
                Tree::Group(d, inner) => {
                    law_strip_hashes_only_removes_hashes(inner, name);
                    assert(without_hashes_in(x) == without_hashes_in(s[0]));
                },
                _ => {
                    assert(x == s[0]);
                },
            }
        }
    }
}

/// Sanitising deletes `#` tokens and nothing else (with naga_oil
/// directives, it puts a new `#` in front of each): once every `#` is
/// erased, the tokens before and after are the same.
pub proof fn law_sanitize_only_removes_hashes(s: Seq<Tree>, prev_hash: bool, first: bool, naga_oil: bool)
    ensures
        without_hashes(sanitize_with(s, prev_hash, first, naga_oil).0) == without_hashes(s),
    decreases s,
{
    if s.len() > 0 {
        let t = s[0];
        let rest = s.subrange(1, s.len() as int);
        lemma_without_cons(t, rest);
        assert(seq![t] + rest =~= s);
        match t {
            Tree::Group(d, inner) => {
                if first && d == GroupDelimiter::Bracket {
                    law_sanitize_only_removes_hashes(rest, false, false, naga_oil);
                    lemma_without_cons(t, sanitize_with(rest, false, false, naga_oil).0);
                } else {
                    let g = sanitize_with(inner, false, true, naga_oil);
                    law_sanitize_only_removes_hashes(inner, false, true, naga_oil);
                    let head = Tree::Group(d, g.0);
                    assert(without_hashes_in(head) == without_hashes_in(t));
                    match g.1 {
                        Some(n) => {
                            law_strip_hashes_only_removes_hashes(rest, n.0);
                            lemma_without_cons(head, strip_hashes(rest, n.0));
                        },
                        None => {
                            law_sanitize_only_removes_hashes(rest, false, false, naga_oil);
                            lemma_without_cons(head, sanitize_with(rest, false, false, naga_oil).0);
                        },
                    }
                }
            },
            Tree::Ident(n, _) => {
                if prev_hash && naga_oil && naga_oil_directive(n) {
                    let r = sanitize_with(rest, false, false, naga_oil);
                    let h = Tree::Punct('#', Spacing::Joint, TokenSpan::CallSite);
                    law_sanitize_only_removes_hashes(rest, false, false, naga_oil);
                    lemma_without_cons(t, r.0);
                    lemma_without_cons(h, seq![t] + r.0);
                    assert(seq![h, t] + r.0 =~= seq![h] + (seq![t] + r.0));
                } else if prev_hash {
                    law_strip_hashes_only_removes_hashes(rest, n);
                    lemma_without_cons(t, strip_hashes(rest, n));
                } else {
                    law_sanitize_only_removes_hashes(rest, false, false, naga_oil);
                    lemma_without_cons(t, sanitize_with(rest, false, false, naga_oil).0);
                }
            },
            _ => {
                if is_hash(t) {
                    law_sanitize_only_removes_hashes(rest, true, false, naga_oil);
                } else {
                    law_sanitize_only_removes_hashes(rest, false, false, naga_oil);
                    lemma_without_cons(t, sanitize_with(rest, false, false, naga_oil).0);
                }
            },
        }
    }
}

/// Tokens without any `#` are left as they are by `sanitize_remaining`.
pub proof fn law_strip_hashes_keeps_hash_free(s: Seq<Tree>, name: Seq<char>)
    requires
        hash_free(s),
    ensures
        strip_hashes(s, name) == s,
    decreases s,
{
    if s.len() > 0 {
        let rest = s.subrange(1, s.len() as int);
        assert(hash_free_in(s[0]));
        law_strip_hashes_keeps_hash_free(rest, name);
        if let Tree::Group(d, inner) = s[0] {
            assert(hash_free(inner));
            law_strip_hashes_keeps_hash_free(inner, name);
        }
        assert(strip_hashes_in(s[0], name) == s[0]);
        assert(seq![s[0]] + rest =~= s);
    }
}

/// Tokens without any `#` are left as they are by `sanitize_wgsl`, and no
/// reference is found in them.
pub proof fn law_sanitize_keeps_hash_free(s: Seq<Tree>, first: bool)
    requires
        hash_free(s),
    ensures
        sanitize_spec(s, false, first) == (s, None::<(Seq<char>, TokenSpan)>),
    decreases s,
{
    if s.len() > 0 {
        let t = s[0];
        let rest = s.subrange(1, s.len() as int);
        assert(hash_free_in(t));
        law_sanitize_keeps_hash_free(rest, false);
        if let Tree::Group(d, inner) = t {
            assert(hash_free(inner));
            law_sanitize_keeps_hash_free(inner, true);
        }
        assert(seq![t] + rest =~= s);
    }
}

/// The number of `#` tokens in `s`, inside groups too.
pub open spec fn hash_count(s: Seq<Tree>) -> nat
    decreases s, 1nat,
{
    if s.len() == 0 {
        0
    } else {
        tree_hash_count(s[0]) + hash_count(s.subrange(1, s.len() as int))
    }
}

/// The number of `#` tokens in `t`: one for a `#`, those inside a group.
pub open spec fn tree_hash_count(t: Tree) -> nat
    decreases t, 0nat,
{
    match t {
        Tree::Group(_, inner) => hash_count(inner),
        _ => if is_hash(t) {
            1
        } else {
            0
        },
    }
}

proof fn lemma_hash_count_cons(x: Tree, r: Seq<Tree>)
    ensures
        hash_count(seq![x] + r) == tree_hash_count(x) + hash_count(r),
{
    assert((seq![x] + r).subrange(1, (seq![x] + r).len() as int) =~= r);
}

proof fn lemma_strip_hashes_count(s: Seq<Tree>, name: Seq<char>)
    ensures
        hash_count(strip_hashes(s, name)) <= hash_count(s),
    decreases s,
{
    if s.len() > 0 {
        let rest = s.subrange(1, s.len() as int);
        lemma_hash_count_cons(s[0], rest);
        assert(seq![s[0]] + rest =~= s);
        if s.len() >= 2 && is_hash(s[0]) && is_ident_named(s[1], name) {
            let rest2 = s.subrange(2, s.len() as int);
            lemma_strip_hashes_count(rest2, name);
            lemma_hash_count_cons(s[1], strip_hashes(rest2, name));
            lemma_hash_count_cons(s[1], rest2);
            assert(seq![s[1]] + rest2 =~= rest);
        } else {
            lemma_strip_hashes_count(rest, name);
            let x = strip_hashes_in(s[0], name);
            lemma_hash_count_cons(x, strip_hashes(rest, name));
            if let Tree::Group(d, inner) = s[0] {
                lemma_strip_hashes_count(inner, name);
            }
        }
    }
}

proof fn lemma_sanitize_count(s: Seq<Tree>, prev_hash: bool, first: bool)
    ensures
        hash_count(sanitize_spec(s, prev_hash, first).0) <= hash_count(s),
        sanitize_spec(s, prev_hash, first).1 is Some ==> hash_count(sanitize_spec(s, prev_hash, first).0)
            < hash_count(s) + (if prev_hash {
            1int
        } else {
            0int
        }),
    decreases s,
{
    if s.len() > 0 {
        let t = s[0];
        let rest = s.subrange(1, s.len() as int);
        lemma_hash_count_cons(t, rest);
        assert(seq![t] + rest =~= s);
        match t {
            Tree::Group(d, inner) => {
                if first && d == GroupDelimiter::Bracket {
                    lemma_sanitize_count(rest, false, false);
                    lemma_hash_count_cons(t, sanitize_spec(rest, false, false).0);
                } else {
                    let g = sanitize_spec(inner, false, true);
                    lemma_sanitize_count(inner, false, true);
                    let head = Tree::Group(d, g.0);
                    match g.1 {
                        Some(n) => {
                            lemma_strip_hashes_count(rest, n.0);
                            lemma_hash_count_cons(head, strip_hashes(rest, n.0));
                        },
                        None => {
                            lemma_sanitize_count(rest, false, false);
                            lemma_hash_count_cons(head, sanitize_spec(rest, false, false).0);
                        },
                    }
                }
            },
            Tree::Ident(n, _) => {
                if prev_hash {
                    lemma_strip_hashes_count(rest, n);
                    lemma_hash_count_cons(t, strip_hashes(rest, n));
                } else {
                    lemma_sanitize_count(rest, false, false);
                    lemma_hash_count_cons(t, sanitize_spec(rest, false, false).0);
                }
            },
            _ => {
                if is_hash(t) {
                    lemma_sanitize_count(rest, true, false);
                } else {
                    lemma_sanitize_count(rest, false, false);
                    lemma_hash_count_cons(t, sanitize_spec(rest, false, false).0);
                }
            },
        }
    }
}

/// Sanitising never adds a `#`, and when it finds a reference it removes at
/// least one: the macros that expand a reference into another invocation on
/// the sanitised tokens come to an end.
pub proof fn law_reference_removes_a_hash(s: Seq<Tree>, first: bool)
    ensures
        hash_count(sanitize_spec(s, false, first).0) <= hash_count(s),
        sanitize_spec(s, false, first).1 is Some ==> hash_count(sanitize_spec(s, false, first).0)
            < hash_count(s),
{
    lemma_sanitize_count(s, false, first);
}

/// Whether no `#` occurs in `s`, inside groups neither, except inside a
/// `[...]` group that opens a stream (`first` says whether `s` opens one).
pub open spec fn no_stray_hash(s: Seq<Tree>, first: bool) -> bool
    decreases s, 1nat,
{
    s.len() == 0 || {
        &&& !is_hash(s[0])
        &&& (s[0] matches Tree::Group(d, _) && first && d == GroupDelimiter::Bracket) || no_stray_hash_in(s[0])
        &&& no_stray_hash(s.subrange(1, s.len() as int), false)
    }
}

/// Whether no stray `#` occurs inside the group `t` (true of other tokens).
pub open spec fn no_stray_hash_in(t: Tree) -> bool
    decreases t, 0nat,
{
    match t {
        Tree::Group(_, inner) => no_stray_hash(inner, true),
        _ => true,
    }
}

proof fn lemma_no_stray_hash_opening(s: Seq<Tree>)
    requires
        no_stray_hash(s, false),
    ensures
        no_stray_hash(s, true),
{
}

proof fn lemma_no_stray_hash_cons(x: Tree, r: Seq<Tree>, first: bool)
    requires
        !is_hash(x),
        (x matches Tree::Group(d, _) && first && d == GroupDelimiter::Bracket) || no_stray_hash_in(x),
        no_stray_hash(r, false),
    ensures
        no_stray_hash(seq![x] + r, first),
{
    assert((seq![x] + r).subrange(1, (seq![x] + r).len() as int) =~= r);
}

/// When no reference is found, no `#` is left in the output but inside a
/// `[...]` group that opens a stream, which is copied as it is.
pub proof fn law_no_reference_leaves_no_stray_hash(s: Seq<Tree>, prev_hash: bool, first: bool)
    ensures
        sanitize_spec(s, prev_hash, first).1 is None ==> no_stray_hash(sanitize_spec(s, prev_hash, first).0, first),
    decreases s,
{
    if s.len() > 0 {
        let t = s[0];
        let rest = s.subrange(1, s.len() as int);
        match t {
            Tree::Group(d, inner) => {
                if first && d == GroupDelimiter::Bracket {
                    law_no_reference_leaves_no_stray_hash(rest, false, false);
                    if sanitize_spec(rest, false, false).1 is None {
                        lemma_no_stray_hash_cons(t, sanitize_spec(rest, false, false).0, first);
                    }
                } else {
                    let g = sanitize_spec(inner, false, true);
                    law_no_reference_leaves_no_stray_hash(inner, false, true);
                    if g.1 is None {
                        law_no_reference_leaves_no_stray_hash(rest, false, false);
                        if sanitize_spec(rest, false, false).1 is None {
                            lemma_no_stray_hash_cons(Tree::Group(d, g.0), sanitize_spec(rest, false, false).0, first);
                        }
                    }
                }
            },
            Tree::Ident(n, _) => {
                if !prev_hash {
                    law_no_reference_leaves_no_stray_hash(rest, false, false);
                    if sanitize_spec(rest, false, false).1 is None {
                        lemma_no_stray_hash_cons(t, sanitize_spec(rest, false, false).0, first);
                    }
                }
            },
            _ => {
                if is_hash(t) {
                    law_no_reference_leaves_no_stray_hash(rest, true, false);
                    if sanitize_spec(rest, true, false).1 is None {
                        lemma_no_stray_hash_opening(sanitize_spec(rest, true, false).0);
                    }
                } else {
                    law_no_reference_leaves_no_stray_hash(rest, false, false);
                    if sanitize_spec(rest, false, false).1 is None {
                        lemma_no_stray_hash_cons(t, sanitize_spec(rest, false, false).0, first);
                    }
                }
            },
        }
    }
}

/// Tokens with no stray `#` are left as they are, and no reference is found
/// in them.
pub proof fn law_sanitize_keeps_clean_tokens(s: Seq<Tree>, first: bool)
    requires
        no_stray_hash(s, first),
    ensures
        sanitize_spec(s, false, first) == (s, None::<(Seq<char>, TokenSpan)>),
    decreases s,
{
    if s.len() > 0 {
        let t = s[0];
        let rest = s.subrange(1, s.len() as int);
        law_sanitize_keeps_clean_tokens(rest, false);
        if let Tree::Group(d, inner) = t {
            if !(first && d == GroupDelimiter::Bracket) {
                assert(no_stray_hash_in(t));
                law_sanitize_keeps_clean_tokens(inner, true);
            }
        }
        assert(seq![t] + rest =~= s);
    }
}

/// Sanitising is idempotent where no reference was found: sanitising the
/// output again gives it back unchanged, again with no reference.
pub proof fn law_sanitize_idempotent_without_reference(s: Seq<Tree>, first: bool)
    requires
        sanitize_spec(s, false, first).1 is None,
    ensures
        sanitize_spec(sanitize_spec(s, false, first).0, false, first) == (
            sanitize_spec(s, false, first).0,
            None::<(Seq<char>, TokenSpan)>,
        ),
{
    law_no_reference_leaves_no_stray_hash(s, false, first);
    law_sanitize_keeps_clean_tokens(sanitize_spec(s, false, first).0, first);
}


/// The first `#name` reference in `s`, in depth-first source order: an
/// identifier directly after a `#` in the same stream, searched for inside
/// groups too, except inside a `[...]` group that opens a stream (`first`
/// says whether `s` opens one).
pub open spec fn first_reference(s: Seq<Tree>, first: bool) -> Option<(Seq<char>, TokenSpan)>
    decreases s, 1nat,
{
    if s.len() == 0 {
        None
    } else if is_hash(s[0]) && s.len() > 1 && s[1] is Ident {
        match s[1] {
            Tree::Ident(n, sp) => Some((n, sp)),
            _ => None,
        }
    } else {
        let inside = if s[0] matches Tree::Group(d, _) && first && d == GroupDelimiter::Bracket {
            None
        } else {
            first_reference_in(s[0])
        };
        match inside {
            Some(r) => Some(r),
            None => first_reference(s.subrange(1, s.len() as int), false),
        }
    }
}

/// The first reference inside the group `t` (none for other tokens).
pub open spec fn first_reference_in(t: Tree) -> Option<(Seq<char>, TokenSpan)>
    decreases t, 0nat,
{
    match t {
        Tree::Group(_, inner) => first_reference(inner, true),
        _ => None,
    }
}

proof fn lemma_sanitize_finds_first_reference(s: Seq<Tree>, prev_hash: bool, first: bool)
    ensures
        sanitize_spec(s, prev_hash, first).1 == (if prev_hash && s.len() > 0 && s[0] is Ident {
            match s[0] {
                Tree::Ident(n, sp) => Some((n, sp)),
                _ => None,
            }
        } else {
            first_reference(s, first)
        }),
    decreases s,
{
    if s.len() > 0 {
        let t = s[0];
        let rest = s.subrange(1, s.len() as int);
        match t {
            Tree::Group(d, inner) => {
                lemma_sanitize_finds_first_reference(rest, false, false);
                if !(first && d == GroupDelimiter::Bracket) {
                    lemma_sanitize_finds_first_reference(inner, false, true);
                    assert(first_reference_in(t) == first_reference(inner, true));
                }
                assert(sanitize_spec(s, prev_hash, first).1 == first_reference(s, first));
            },
            Tree::Ident(n, _) => {
                lemma_sanitize_finds_first_reference(rest, false, false);
                assert(first_reference_in(t) is None);
            },
            _ => {
                assert(first_reference_in(t) is None);
                if is_hash(t) {
                    lemma_sanitize_finds_first_reference(rest, true, false);
                    if s.len() > 1 {
                        assert(rest[0] == s[1]);
                    }
                    assert(sanitize_spec(s, prev_hash, first).1 == first_reference(s, first));
                } else {
                    lemma_sanitize_finds_first_reference(rest, false, false);
                    assert(sanitize_spec(s, prev_hash, first).1 == first_reference(s, first));
                }
            },
        }
    }
}

/// The reference that sanitising reports is the first `#name` in depth-first
/// source order, if there is one: an identifier directly after a `#` in the
/// same stream, inside groups too but for a `[...]` group that opens a
/// stream. A `#` in front of anything else refers to nothing.
pub proof fn law_reports_first_reference(s: Seq<Tree>, first: bool)
    ensures
        sanitize_spec(s, false, first).1 == first_reference(s, first),
{
    lemma_sanitize_finds_first_reference(s, false, first);
}

/// Whether `t` is a `[...]` group that opens its stream (`first` says
/// whether `t` opens it).
pub open spec fn opening_bracket(t: Tree, first: bool) -> bool {
    first && (t matches Tree::Group(d, _) && d == GroupDelimiter::Bracket)
}

/// `s` with every `#` deleted, inside groups too, except inside a `[...]`
/// group that opens a stream, which is kept as it is (`first` says whether
/// `s` opens one).
pub open spec fn drop_hashes(s: Seq<Tree>, first: bool) -> Seq<Tree>
    decreases s, 1nat,
{
    if s.len() == 0 {
        Seq::empty()
    } else {
        let rest = drop_hashes(s.subrange(1, s.len() as int), false);
        if is_hash(s[0]) {
            rest
        } else if opening_bracket(s[0], first) {
            seq![s[0]] + rest
        } else {
            seq![drop_hashes_in(s[0])] + rest
        }
    }
}

/// `drop_hashes` applied inside a group; other tokens are kept.
pub open spec fn drop_hashes_in(t: Tree) -> Tree
    decreases t, 0nat,
{
    match t {
        Tree::Group(d, inner) => Tree::Group(d, drop_hashes(inner, true)),
        _ => t,
    }
}

proof fn lemma_no_reference_drops_hashes(s: Seq<Tree>, prev_hash: bool, first: bool)
    ensures
        sanitize_spec(s, prev_hash, first).1 is None ==> sanitize_spec(s, prev_hash, first).0 == drop_hashes(s, first),
    decreases s,
{
    if s.len() > 0 {
        let t = s[0];
        let rest = s.subrange(1, s.len() as int);
        let out = sanitize_spec(s, prev_hash, first);
        lemma_no_reference_drops_hashes(rest, false, false);
        lemma_no_reference_drops_hashes(rest, true, false);
        let r = sanitize_spec(rest, false, false);
        match t {
            Tree::Group(d, inner) => {
                lemma_no_reference_drops_hashes(inner, false, true);
                if out.1 is None {
                    if opening_bracket(t, first) {
                        assert(out.0 == seq![t] + r.0);
                    } else {
                        let g = sanitize_spec(inner, false, true);
                        assert(g.1 is None);
                        assert(drop_hashes_in(t) == Tree::Group(d, g.0));
                        assert(out.0 == seq![Tree::Group(d, g.0)] + r.0);
                    }
                }
            },
            Tree::Ident(..) => {
                if out.1 is None {
                    assert(!prev_hash);
                    assert(out.0 == seq![t] + r.0);
                }
            },
            _ => {
                if is_hash(t) {
                    assert(out == sanitize_spec(rest, true, false));
                } else {
                    assert(out.0 == seq![t] + r.0);
                }
            },
        }
    }
}

/// Where no reference is found, sanitising deletes every `#`, inside groups
/// too, except inside a `[...]` group that opens a stream, which is copied
/// as it is; every other token, its order and the groups' delimiters are
/// kept.
pub proof fn law_no_reference_deletes_every_hash(s: Seq<Tree>, first: bool)
    ensures
        sanitize_spec(s, false, first).1 is None ==> sanitize_spec(s, false, first).0 == drop_hashes(s, first),
{
    lemma_no_reference_drops_hashes(s, false, first);
}

/// The tokens `s` rewritten around their first reference, to `name`: before
/// it every `#` is deleted as `drop_hashes` does; the `#` of the reference
/// is deleted and its identifier kept; after it, in the same stream and in
/// the streams around it, only the `#` directly in front of `name` is
/// deleted (`strip_hashes`).
pub open spec fn rewritten_around_reference(s: Seq<Tree>, first: bool, name: Seq<char>) -> Seq<Tree>
    decreases s, 1nat,
{
    if s.len() == 0 {
        Seq::empty()
    } else if is_hash(s[0]) && s.len() > 1 && s[1] is Ident {
        seq![s[1]] + strip_hashes(s.subrange(2, s.len() as int), name)
    } else if !opening_bracket(s[0], first) && first_reference_in(s[0]) is Some {
        seq![rewritten_in(s[0], name)] + strip_hashes(s.subrange(1, s.len() as int), name)
    } else {
        let rest = rewritten_around_reference(s.subrange(1, s.len() as int), false, name);
        if is_hash(s[0]) {
            rest
        } else if opening_bracket(s[0], first) {
            seq![s[0]] + rest
        } else {
            seq![drop_hashes_in(s[0])] + rest
        }
    }
}

/// `rewritten_around_reference` applied inside a group that holds the
/// reference; other tokens are kept.
pub open spec fn rewritten_in(t: Tree, name: Seq<char>) -> Tree
    decreases t, 0nat,
{
    match t {
        Tree::Group(d, inner) => Tree::Group(d, rewritten_around_reference(inner, true, name)),
        _ => t,
    }
}

proof fn lemma_prev_hash_needs_ident(s: Seq<Tree>, first: bool)
    requires
        s.len() == 0 || !(s[0] is Ident),
    ensures
        sanitize_spec(s, true, first) == sanitize_spec(s, false, first),
{
}

/// Where a reference to `name` is found, sanitising deletes exactly these
/// `#` tokens: every one before the reference (but inside a `[...]` group
/// that opens a stream), the reference's own, and after it those directly in
/// front of `name`; every other token, its order and the groups' delimiters
/// are kept.
pub proof fn law_reference_rewrite(s: Seq<Tree>, first: bool, name: Seq<char>, span: TokenSpan)
    requires
        first_reference(s, first) == Some((name, span)),
    ensures
        sanitize_spec(s, false, first) == (rewritten_around_reference(s, first, name), Some((name, span))),
    decreases s,
{
    lemma_sanitize_finds_first_reference(s, false, first);
    let t = s[0];
    let rest = s.subrange(1, s.len() as int);
    let out = sanitize_spec(s, false, first);
    if is_hash(t) && s.len() > 1 && s[1] is Ident {
        assert(rest[0] == s[1]);
        assert(rest.subrange(1, rest.len() as int) =~= s.subrange(2, s.len() as int));
        assert(out == sanitize_spec(rest, true, false));
        if let Tree::Ident(n, sp) = s[1] {
            assert(n == name);
        }
        assert(out.0 == rewritten_around_reference(s, first, name));
    } else if !opening_bracket(t, first) && first_reference_in(t) is Some {
        if let Tree::Group(d, inner) = t {
            assert(first_reference(inner, true) == Some((name, span)));
            law_reference_rewrite(inner, true, name, span);
            let g = sanitize_spec(inner, false, true);
            assert(out.0 == seq![Tree::Group(d, g.0)] + strip_hashes(rest, name));
            assert(rewritten_in(t, name) == Tree::Group(d, rewritten_around_reference(inner, true, name)));
            assert(out.0 == rewritten_around_reference(s, first, name));
        }
    } else {
        assert(first_reference(rest, false) == Some((name, span)));
        law_reference_rewrite(rest, false, name, span);
        let r = sanitize_spec(rest, false, false);
        match t {
            Tree::Group(d, inner) => {
                if opening_bracket(t, first) {
                    assert(out.0 == seq![t] + r.0);
                } else {
                    lemma_sanitize_finds_first_reference(inner, false, true);
                    lemma_no_reference_drops_hashes(inner, false, true);
                    let g = sanitize_spec(inner, false, true);
                    assert(g.1 is None);
                    assert(drop_hashes_in(t) == Tree::Group(d, g.0));
                    assert(out.0 == seq![Tree::Group(d, g.0)] + r.0);
                }
            },
            Tree::Ident(..) => {
                assert(out.0 == seq![t] + r.0);
            },
            _ => {
                if is_hash(t) {
                    lemma_prev_hash_needs_ident(rest, false);
                    assert(out == sanitize_spec(rest, true, false));
                } else {
                    assert(out.0 == seq![t] + r.0);
                }
            },
        }
    }
}

proof fn lemma_directive_never_reported(s: Seq<Tree>, prev_hash: bool, first: bool)
    ensures
        sanitize_with(s, prev_hash, first, true).1 matches Some((n, _)) ==> !naga_oil_directive(n),
    decreases s,
{
    if s.len() > 0 {
        let rest = s.subrange(1, s.len() as int);
        lemma_directive_never_reported(rest, false, false);
        lemma_directive_never_reported(rest, true, false);
        if let Tree::Group(_, inner) = s[0] {
            lemma_directive_never_reported(inner, false, true);
        }
    }
}

/// With naga_oil on, a naga_oil preprocessor directive is never reported as
/// the reference, at any depth: `#import`, `#ifdef` and the like stay
/// directives.
pub proof fn law_naga_oil_directive_is_never_a_reference(s: Seq<Tree>, first: bool)
    ensures
        sanitize_with(s, false, first, true).1 matches Some((n, _)) ==> !naga_oil_directive(n),
{
    lemma_directive_never_reported(s, false, first);
}

/// Whether every `#` in `s`, inside groups too, stands directly in front of
/// a naga_oil preprocessor directive.
pub open spec fn hashes_only_before_directives(s: Seq<Tree>) -> bool
    decreases s, 1nat,
{
    s.len() == 0 || {
        &&& is_hash(s[0]) ==> s.len() > 1 && (s[1] matches Tree::Ident(n, _) && naga_oil_directive(n))
        &&& hashes_only_before_directives_in(s[0])
        &&& hashes_only_before_directives(s.subrange(1, s.len() as int))
    }
}

/// `hashes_only_before_directives` inside a group (true of other tokens).
pub open spec fn hashes_only_before_directives_in(t: Tree) -> bool
    decreases t, 0nat,
{
    match t {
        Tree::Group(_, inner) => hashes_only_before_directives(inner),
        _ => true,
    }
}

proof fn lemma_directives_kept(s: Seq<Tree>, prev_hash: bool, first: bool)
    requires
        hashes_only_before_directives(s),
        prev_hash ==> s.len() > 0 && (s[0] matches Tree::Ident(n, _) && naga_oil_directive(n)),
    ensures
        sanitize_with(s, prev_hash, first, true).1 is None,
        hash_count(sanitize_with(s, prev_hash, first, true).0) == hash_count(s) + (if prev_hash {
            1int
        } else {
            0int
        }),
    decreases s,
{
    if s.len() > 0 {
        let t = s[0];
        let rest = s.subrange(1, s.len() as int);
        let out = sanitize_with(s, prev_hash, first, true);
        lemma_hash_count_cons(t, rest);
        assert(seq![t] + rest =~= s);
        match t {
            Tree::Group(d, inner) => {
                lemma_directives_kept(rest, false, false);
                let r = sanitize_with(rest, false, false, true);
                if first && d == GroupDelimiter::Bracket {
                    lemma_hash_count_cons(t, r.0);
                } else {
                    assert(hashes_only_before_directives_in(t));
                    lemma_directives_kept(inner, false, true);
                    let g = sanitize_with(inner, false, true, true);
                    lemma_hash_count_cons(Tree::Group(d, g.0), r.0);
                }
            },
            Tree::Ident(n, _) => {
                lemma_directives_kept(rest, false, false);
                let r = sanitize_with(rest, false, false, true);
                if prev_hash {
                    let h = Tree::Punct('#', Spacing::Joint, TokenSpan::CallSite);
                    lemma_hash_count_cons(t, r.0);
                    lemma_hash_count_cons(h, seq![t] + r.0);
                    assert(seq![h, t] + r.0 =~= seq![h] + (seq![t] + r.0));
                } else {
                    lemma_hash_count_cons(t, r.0);
                }
            },
            _ => {
                if is_hash(t) {
                    assert(rest[0] == s[1]);
                    lemma_directives_kept(rest, true, false);
                } else {
                    lemma_directives_kept(rest, false, false);
                    lemma_hash_count_cons(t, sanitize_with(rest, false, false, true).0);
                }
            },
        }
    }
}

/// With naga_oil on, tokens in which every `#`, at any depth, stands in
/// front of a naga_oil directive hold no reference, and sanitising keeps
/// every one of their `#` tokens, inside groups too.
pub proof fn law_naga_oil_directives_are_kept(s: Seq<Tree>, first: bool)
    requires
        hashes_only_before_directives(s),
    ensures
        sanitize_with(s, false, first, true).1 is None,
        hash_count(sanitize_with(s, false, first, true).0) == hash_count(s),
{
    lemma_directives_kept(s, false, first);
}

} // verus!
