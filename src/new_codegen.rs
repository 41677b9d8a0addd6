//! Method bodies as lists of self-contained statements, each of which may
//! open a scope for the statements after it.

use vstd::prelude::*;
use crate::level_0::{Delimiter, Punct, Tok, TokenStream, ToTokens};
use crate::level_1::{
    join_toks, ident_words, type_toks, word, CSharpType, Ident, IdentView, lemma_join_step,
};

verus! {

broadcast use vstd::std_specs::vec::group_vec_axioms, vstd::seq::group_seq_axioms;

/// `$ty $ident = ($ty) $source_ident;`
#[derive(Debug)]
pub struct Cast {
    pub ident: Ident,
    pub ty: CSharpType,
    pub source_ident: Ident,
}

/// `$return_type $return_ident = $object.$method($args,*);`, or the call
/// alone when nothing is returned.
#[derive(Debug)]
pub struct MethodCall {
    pub return_ident: Option<Ident>,
    pub return_type: CSharpType,
    pub object: Ident,
    pub method: Ident,
    pub args: Vec<Ident>,
}

/// `return $ident;`
#[derive(Debug)]
pub struct Return {
    pub ident: Ident,
}

#[derive(Debug)]
pub struct MethodArg {
    pub name: Ident,
    pub ty: CSharpType,
}

/// A statement of a method body.
#[derive(Debug)]
pub enum BodyElement {
    Cast(Cast),
    MethodCall(MethodCall),
    Return(Return),
}

/// `$return_type $name($args) { $body }`
#[derive(Debug)]
pub struct Method {
    pub name: Ident,
    pub return_type: CSharpType,
    pub args: Vec<MethodArg>,
    pub body: Vec<BodyElement>,
}

pub open spec fn cast_toks(c: Cast) -> Seq<Tok> {
    type_toks(c.ty@) + seq![word(c.ident@), Tok::Punct(Punct::Equals)] + seq![
        Tok::Group(Delimiter::Paren, type_toks(c.ty@)),
        word(c.source_ident@),
        Tok::Punct(Punct::Semicolon),
    ]
}

pub open spec fn call_toks(m: MethodCall) -> Seq<Tok> {
    (match m.return_ident {
        Some(i) => type_toks(m.return_type@) + seq![word(i@), Tok::Punct(Punct::Equals)],
        None => Seq::empty(),
    }) + seq![
        word(m.object@),
        Tok::Punct(Punct::Period),
        word(m.method@),
        Tok::Group(Delimiter::Paren, join_toks(ident_words(m.args@), Tok::Punct(Punct::Comma))),
        Tok::Punct(Punct::Semicolon),
    ]
}

pub open spec fn return_toks(r: Return) -> Seq<Tok> {
    seq![Tok::Word("return"@), word(r.ident@), Tok::Punct(Punct::Semicolon)]
}

pub open spec fn element_toks(e: BodyElement) -> Seq<Tok> {
    match e {
        BodyElement::Cast(c) => cast_toks(c),
        BodyElement::MethodCall(m) => call_toks(m),
        BodyElement::Return(r) => return_toks(r),
    }
}

pub open spec fn elements_toks(s: Seq<BodyElement>) -> Seq<Tok>
    decreases s.len(),
{
    if s.len() == 0 {
        Seq::empty()
    } else {
        elements_toks(s.drop_last()) + element_toks(s.last())
    }
}

pub open spec fn arg_items(args: Seq<MethodArg>) -> Seq<Seq<Tok>> {
    args.map_values(|a: MethodArg| type_toks(a.ty@) + seq![word(a.name@)])
}

pub open spec fn method_toks(m: Method) -> Seq<Tok> {
    type_toks(m.return_type@) + seq![
        word(m.name@),
        Tok::Group(Delimiter::Paren, join_toks(arg_items(m.args@), Tok::Punct(Punct::Comma))),
        Tok::Group(Delimiter::Brace, elements_toks(m.body@)),
    ]
}

impl ToTokens for Cast {
    open spec fn token_model(&self) -> Seq<Tok> {
        cast_toks(*self)
    }

    fn to_tokens(&self, tokens: &mut TokenStream) {
        self.ty.to_tokens(tokens);
        self.ident.to_tokens(tokens);
        tokens.push_punct(Punct::Equals);
        let ty = self.ty.to_token_stream();
        tokens.push_group(Delimiter::Paren, ty);
        self.source_ident.to_tokens(tokens);
        tokens.push_punct(Punct::Semicolon);
        assert(tokens@ =~= old(tokens)@ + cast_toks(*self));
    }
}

fn idents_to_tokens(ids: &Vec<Ident>, tokens: &mut TokenStream)
    ensures
        final(tokens)@ == old(tokens)@ + join_toks(ident_words(ids@), Tok::Punct(Punct::Comma)),
{
    let ghost items = ident_words(ids@);
    let mut i: usize = 0;
    assert(items.take(0) =~= Seq::<Seq<Tok>>::empty());
    while i < ids.len()
        invariant
            i <= ids@.len(),
            items == ident_words(ids@),
            items.len() == ids@.len(),
            tokens@ == old(tokens)@ + join_toks(items.take(i as int), Tok::Punct(Punct::Comma)),
        decreases ids.len() - i,
    {
        proof {
            lemma_join_step(items, Tok::Punct(Punct::Comma), i as int);
        }
        if i > 0 {
            tokens.push_punct(Punct::Comma);
        }
        ids[i].to_tokens(tokens);
        assert(tokens@ =~= old(tokens)@ + join_toks(items.take(i + 1), Tok::Punct(Punct::Comma)));
        i = i + 1;
    }
    assert(items.take(ids@.len() as int) =~= items);
}

impl ToTokens for MethodCall {
    open spec fn token_model(&self) -> Seq<Tok> {
        call_toks(*self)
    }

    fn to_tokens(&self, tokens: &mut TokenStream) {
        if let Some(ident) = &self.return_ident {
            self.return_type.to_tokens(tokens);
            ident.to_tokens(tokens);
            tokens.push_punct(Punct::Equals);
        }
        self.object.to_tokens(tokens);
        tokens.push_punct(Punct::Period);
        self.method.to_tokens(tokens);
        let mut args = TokenStream::new();
        idents_to_tokens(&self.args, &mut args);
        tokens.push_group(Delimiter::Paren, args);
        tokens.push_punct(Punct::Semicolon);
        assert(tokens@ =~= old(tokens)@ + call_toks(*self));
    }
}

impl ToTokens for Return {
    open spec fn token_model(&self) -> Seq<Tok> {
        return_toks(*self)
    }

    fn to_tokens(&self, tokens: &mut TokenStream) {
        tokens.push_ident("return");
        self.ident.to_tokens(tokens);
        tokens.push_punct(Punct::Semicolon);
        assert(tokens@ =~= old(tokens)@ + return_toks(*self));
    }
}

impl ToTokens for BodyElement {
    open spec fn token_model(&self) -> Seq<Tok> {
        element_toks(*self)
    }

    fn to_tokens(&self, tokens: &mut TokenStream) {
        match self {
            BodyElement::Cast(c) => c.to_tokens(tokens),
            BodyElement::MethodCall(m) => m.to_tokens(tokens),
            BodyElement::Return(r) => r.to_tokens(tokens),
        }
    }
}

impl ToTokens for Method {
    open spec fn token_model(&self) -> Seq<Tok> {
        method_toks(*self)
    }

    fn to_tokens(&self, tokens: &mut TokenStream) {
        self.return_type.to_tokens(tokens);
        self.name.to_tokens(tokens);
        let ghost items = arg_items(self.args@);
        let mut arg_tokens = TokenStream::new();
        let mut i: usize = 0;
        assert(items.take(0) =~= Seq::<Seq<Tok>>::empty());
        while i < self.args.len()
            invariant
                i <= self.args@.len(),
                items == arg_items(self.args@),
                items.len() == self.args@.len(),
                arg_tokens@ == join_toks(items.take(i as int), Tok::Punct(Punct::Comma)),
            decreases self.args.len() - i,
        {
            proof {
                lemma_join_step(items, Tok::Punct(Punct::Comma), i as int);
            }
            if i > 0 {
                arg_tokens.push_punct(Punct::Comma);
            }
            self.args[i].ty.to_tokens(&mut arg_tokens);
            self.args[i].name.to_tokens(&mut arg_tokens);
            assert(arg_tokens@ =~= join_toks(items.take(i + 1), Tok::Punct(Punct::Comma)));
            i = i + 1;
        }
        assert(items.take(self.args@.len() as int) =~= items);
        tokens.push_group(Delimiter::Paren, arg_tokens);
        let mut body = TokenStream::new();
        let mut j: usize = 0;
        assert(self.body@.take(0) =~= Seq::<BodyElement>::empty());
        while j < self.body.len()
            invariant
                j <= self.body@.len(),
                body@ == elements_toks(self.body@.take(j as int)),
            decreases self.body.len() - j,
        {
            assert(self.body@.take(j + 1).drop_last() =~= self.body@.take(j as int));
            self.body[j].to_tokens(&mut body);
            j = j + 1;
        }
        assert(self.body@.take(self.body@.len() as int) =~= self.body@);
        tokens.push_group(Delimiter::Brace, body);
        assert(tokens@ =~= old(tokens)@ + method_toks(*self));
    }
}

} // verus!
