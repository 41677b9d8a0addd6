//! Layout of a token stream: line breaks after statements and around brace
//! groups, then indentation by nesting depth.

use vstd::prelude::*;
use crate::level_0::{
    lemma_trees_model, Delimiter, Formatting, Group, Punct, Tok, TokenStream, TokenTree,
    tree_model, trees_model, lemma_trees_model_push,
};

verus! {

broadcast use vstd::std_specs::vec::group_vec_axioms, vstd::seq::group_seq_axioms;

pub open spec fn newline() -> Tok {
    Tok::Format(Formatting::Newline)
}

/// A tree with its line breaks: a brace group gets one before it, one after
/// its opening brace and one after it; a `;` gets one after it.
pub open spec fn nl_tree(t: Tok) -> Seq<Tok>
    decreases t,
{
    match t {
        Tok::Group(d, c) => if d == Delimiter::Brace {
            seq![newline(), Tok::Group(d, seq![newline()] + nl_seq(c)), newline()]
        } else {
            seq![Tok::Group(d, nl_seq(c))]
        },
        Tok::Punct(Punct::Semicolon) => seq![t, newline()],
        _ => seq![t],
    }
}

pub open spec fn nl_seq(s: Seq<Tok>) -> Seq<Tok>
    decreases s,
{
    if s.len() == 0 {
        Seq::empty()
    } else {
        nl_seq(s.drop_last()) + nl_tree(s.last())
    }
}

pub open spec fn next_level(l: usize) -> usize {
    if l < usize::MAX {
        (l + 1) as usize
    } else {
        l
    }
}

/// The last marker of a group's content set back one level, so that the
/// closing brace lines up with the opening one.
pub open spec fn dedent_last(s: Seq<Tok>) -> Seq<Tok> {
    if s.len() > 0 && s.last() is Format && s.last()->Format_0 is Indent
        && s.last()->Format_0->Indent_0 > 0 {
        s.drop_last().push(Tok::Format(Formatting::Indent((s.last()->Format_0->Indent_0 - 1) as usize)))
    } else {
        s
    }
}

/// A tree with indentation: each line break is followed by the depth, and
/// the content of a group is one level deeper.
pub open spec fn ind_tree(t: Tok, l: usize) -> Seq<Tok>
    decreases t,
{
    match t {
        Tok::Group(d, c) => seq![Tok::Group(d, dedent_last(ind_seq(c, next_level(l))))],
        Tok::Format(Formatting::Newline) => seq![newline(), Tok::Format(Formatting::Indent(l))],
        _ => seq![t],
    }
}

pub open spec fn ind_seq(s: Seq<Tok>, l: usize) -> Seq<Tok>
    decreases s,
{
    if s.len() == 0 {
        Seq::empty()
    } else {
        ind_seq(s.drop_last(), l) + ind_tree(s.last(), l)
    }
}

fn copy_leaf(t: &TokenTree) -> (r: TokenTree)
    requires
        !(t is Group),
    ensures
        r@ == t@,
{
    match t {
        TokenTree::Ident(i) => TokenTree::Ident(crate::level_0::Ident { name: i.name.clone() }),
        TokenTree::Punct(p) => TokenTree::Punct(*p),
        TokenTree::Formatting(f) => TokenTree::Formatting(*f),
        TokenTree::Group(_) => TokenTree::Punct(Punct::Semicolon),
    }
}

/// Inserts the line breaks.
pub fn insert_newlines(old_stream: &TokenStream) -> (r: TokenStream)
    ensures
        r@ == nl_seq(old_stream@),
    decreases old_stream,
{
    let mut new_stream = TokenStream::new();
    let ghost parts = old_stream.parts@;
    proof {
        lemma_trees_model(parts);
    }
    let mut i: usize = 0;
    assert(old_stream@.take(0) =~= Seq::<Tok>::empty());
    while i < old_stream.parts.len()
        invariant
            i <= parts.len(),
            parts == old_stream.parts@,
            old_stream@.len() == parts.len(),
            forall|k: int| 0 <= k < parts.len() ==> #[trigger] old_stream@[k] == tree_model(parts[k]),
            new_stream@ == nl_seq(old_stream@.take(i as int)),
        decreases parts.len() - i,
    {
        assert(old_stream@.take(i + 1).drop_last() =~= old_stream@.take(i as int));
        let ghost before = new_stream@;
        let tree = &old_stream.parts[i];
        match tree {
            TokenTree::Group(Group { delimiter, content }) => {
                let formatted = insert_newlines(content);
                match delimiter {
                    Delimiter::Brace => {
                        let mut inner = formatted;
                        inner.prepend(TokenTree::Formatting(Formatting::Newline));
                        new_stream.push(TokenTree::Formatting(Formatting::Newline));
                        new_stream.push_group(*delimiter, inner);
                        new_stream.push(TokenTree::Formatting(Formatting::Newline));
                    },
                    _ => new_stream.push_group(*delimiter, formatted),
                }
            },
            TokenTree::Punct(Punct::Semicolon) => {
                new_stream.push(TokenTree::Punct(Punct::Semicolon));
                new_stream.push(TokenTree::Formatting(Formatting::Newline));
            },
            _ => new_stream.push(copy_leaf(tree)),
        }
        assert(new_stream@ =~= before + nl_tree(old_stream@[i as int]));
        i = i + 1;
    }
    assert(old_stream@.take(i as int) =~= old_stream@);
    new_stream
}

/// Inserts the indentation markers, starting at `indent_level`.
pub fn insert_indents(old_stream: &TokenStream, indent_level: usize) -> (r: TokenStream)
    ensures
        r@ == ind_seq(old_stream@, indent_level),
    decreases old_stream,
{
    let mut new_stream = TokenStream::new();
    let ghost parts = old_stream.parts@;
    proof {
        lemma_trees_model(parts);
    }
    let inner_level = if indent_level < usize::MAX {
        indent_level + 1
    } else {
        indent_level
    };
    let mut i: usize = 0;
    assert(old_stream@.take(0) =~= Seq::<Tok>::empty());
    while i < old_stream.parts.len()
        invariant
            i <= parts.len(),
            parts == old_stream.parts@,
            old_stream@.len() == parts.len(),
            inner_level == next_level(indent_level),
            forall|k: int| 0 <= k < parts.len() ==> #[trigger] old_stream@[k] == tree_model(parts[k]),
            new_stream@ == ind_seq(old_stream@.take(i as int), indent_level),
        decreases parts.len() - i,
    {
        assert(old_stream@.take(i + 1).drop_last() =~= old_stream@.take(i as int));
        let ghost before = new_stream@;
        let tree = &old_stream.parts[i];
        match tree {
            TokenTree::Group(Group { delimiter, content }) => {
                let mut formatted = insert_indents(content, inner_level);
                let ghost f = formatted@;
                let ghost fp = formatted.parts@;
                let n = formatted.parts.len();
                proof {
                    lemma_trees_model(fp);
                }
                if n > 0 {
                    let last_is_indent = match &formatted.parts[n - 1] {
                        TokenTree::Formatting(Formatting::Indent(x)) => *x > 0,
                        _ => false,
                    };
                    if last_is_indent {
                        let last = formatted.parts.pop().unwrap();
                        if let TokenTree::Formatting(Formatting::Indent(x)) = last {
                            let t = TokenTree::Formatting(Formatting::Indent(x - 1));
                            formatted.parts.push(t);
                            proof {
                                assert(fp.drop_last() =~= formatted.parts@.drop_last());
                                assert(fp =~= fp.drop_last().push(fp.last()));
                                lemma_trees_model_push(fp.drop_last(), fp.last());
                                lemma_trees_model_push(fp.drop_last(), t);
                                assert(formatted.parts@ =~= fp.drop_last().push(t));
                                assert(f.last() == Tok::Format(Formatting::Indent(x)));
                                assert(formatted@ =~= dedent_last(f));
                            }
                        }
                    } else {
                        proof {
                            if f.len() > 0 && f.last() is Format && f.last()->Format_0 is Indent {
                                assert(f.last() == tree_model(fp[n - 1]));
                            }
                        }
                    }
                }
                assert(formatted@ == dedent_last(f));
                new_stream.push_group(*delimiter, formatted);
            },
            TokenTree::Formatting(Formatting::Newline) => {
                new_stream.push(TokenTree::Formatting(Formatting::Newline));
                new_stream.push(TokenTree::Formatting(Formatting::Indent(indent_level)));
            },
            _ => new_stream.push(copy_leaf(tree)),
        }
        assert(new_stream@ =~= before + ind_tree(old_stream@[i as int], indent_level));
        i = i + 1;
    }
    assert(old_stream@.take(i as int) =~= old_stream@);
    new_stream
}

/// Line breaks, then indentation from depth 0.
pub fn format_tokens(input: &TokenStream) -> (r: TokenStream)
    ensures
        r@ == ind_seq(nl_seq(input@), 0),
{
    let output = insert_newlines(input);
    insert_indents(&output, 0)
}

} // verus!
