//! Blocks of target-language source free of any binding-specific meaning, and
//! their lowering to tokens.

use vstd::prelude::*;
use crate::level_0::{Delimiter, Punct, Tok, TokenStream, TokenTree, ToTokens};
use crate::text::{int_text, int_to_text, push_int_text};

verus! {

broadcast use vstd::std_specs::vec::group_vec_axioms, vstd::seq::group_seq_axioms;

/// The number of a generated identifier.
#[derive(Debug, Clone, Copy, PartialEq, Eq, PartialOrd, Ord, Structural)]
pub struct GeneratedIdentId(pub i32);

/// A variable or member name: written by hand, or numbered by a generator.
#[derive(Debug, Clone)]
pub enum Ident {
    Named(String),
    Generated(GeneratedIdentId),
}

/// The model of an identifier.
pub enum IdentView {
    Named(Seq<char>),
    Generated(int),
}

impl View for Ident {
    type V = IdentView;

    open spec fn view(&self) -> IdentView {
        match self {
            Ident::Named(s) => IdentView::Named(s@),
            Ident::Generated(g) => IdentView::Generated(g.0 as int),
        }
    }
}

/// Generated identifiers start with a prefix that no hand-written name in the
/// bindings starts with.
pub open spec fn ident_text(i: IdentView) -> Seq<char> {
    match i {
        IdentView::Named(s) => s,
        IdentView::Generated(n) => seq!['_', 'g', 'e', 'n'] + int_text(n),
    }
}

pub open spec fn word(i: IdentView) -> Tok {
    Tok::Word(ident_text(i))
}

impl Ident {
    pub fn new(s: &str) -> (r: Ident)
        ensures
            r@ == IdentView::Named(s@),
    {
        Ident::Named(String::from_str(s))
    }

    pub fn new_generated(num: i32) -> (r: Ident)
        ensures
            r@ == IdentView::Generated(num as int),
    {
        Ident::Generated(GeneratedIdentId(num))
    }

    pub fn copy(&self) -> (r: Ident)
        ensures
            r@ == self@,
    {
        match self {
            Ident::Named(s) => Ident::Named(s.clone()),
            Ident::Generated(g) => Ident::Generated(*g),
        }
    }

    /// The text that the identifier renders as.
    pub fn text(&self) -> (r: String)
        ensures
            r@ == ident_text(self@),
    {
        match self {
            Ident::Named(s) => s.clone(),
            Ident::Generated(g) => {
                let mut out = String::from_str("_gen");
                proof {
                    reveal_strlit("_gen");
                }
                push_int_text(&mut out, g.0 as i64);
                out
            },
        }
    }

    pub fn declare_with_ty(self, ty: CSharpType) -> (r: DeclareVariableExpr)
        ensures
            r == (DeclareVariableExpr { ty, ident: self }),
    {
        DeclareVariableExpr { ty, ident: self }
    }
}

impl ToTokens for Ident {
    open spec fn token_model(&self) -> Seq<Tok> {
        seq![word(self@)]
    }

    fn to_tokens(&self, tokens: &mut TokenStream) {
        let t = self.text();
        tokens.push(TokenTree::Ident(crate::level_0::Ident::from_string(t)));
    }
}

/// Hands out fresh generated identifiers, in increasing order.
pub struct IdentGenerator {
    pub counter: i32,
}

impl IdentGenerator {
    pub fn new() -> (r: IdentGenerator)
        ensures
            r.counter == 0,
    {
        IdentGenerator { counter: 0 }
    }

    pub fn generate_ident(&mut self) -> (r: Ident)
        requires
            old(self).counter < i32::MAX,
        ensures
            r@ == IdentView::Generated(old(self).counter as int),
            final(self).counter == old(self).counter + 1,
    {
        let num = self.counter;
        self.counter = self.counter + 1;
        Ident::Generated(GeneratedIdentId(num))
    }
}

/// A type of the target language.
#[derive(Debug)]
pub enum CSharpType {
    /// A pseudo-type that may stand only where the type can be inferred.
    Var,
    Void,
    SByte,
    Int16,
    Int32,
    Int64,
    Byte,
    UInt16,
    UInt32,
    UInt64,
    Bool,
    Array { elem_type: Box<CSharpType> },
    Ptr { target: Box<CSharpType> },
    Struct { name: Ident },
}

/// The model of a type.
pub enum TypeView {
    Var,
    Void,
    SByte,
    Int16,
    Int32,
    Int64,
    Byte,
    UInt16,
    UInt32,
    UInt64,
    Bool,
    Array(Box<TypeView>),
    Ptr(Box<TypeView>),
    Struct(IdentView),
}

pub open spec fn type_view(t: CSharpType) -> TypeView
    decreases t,
{
    match t {
        CSharpType::Var => TypeView::Var,
        CSharpType::Void => TypeView::Void,
        CSharpType::SByte => TypeView::SByte,
        CSharpType::Int16 => TypeView::Int16,
        CSharpType::Int32 => TypeView::Int32,
        CSharpType::Int64 => TypeView::Int64,
        CSharpType::Byte => TypeView::Byte,
        CSharpType::UInt16 => TypeView::UInt16,
        CSharpType::UInt32 => TypeView::UInt32,
        CSharpType::UInt64 => TypeView::UInt64,
        CSharpType::Bool => TypeView::Bool,
        CSharpType::Array { elem_type } => TypeView::Array(Box::new(type_view(*elem_type))),
        CSharpType::Ptr { target } => TypeView::Ptr(Box::new(type_view(*target))),
        CSharpType::Struct { name } => TypeView::Struct(name@),
    }
}

impl View for CSharpType {
    type V = TypeView;

    open spec fn view(&self) -> TypeView {
        type_view(*self)
    }
}

pub open spec fn type_toks(t: TypeView) -> Seq<Tok>
    decreases t,
{
    match t {
        TypeView::Var => seq![Tok::Word("var"@)],
        TypeView::Void => seq![Tok::Word("void"@)],
        TypeView::SByte => seq![Tok::Word("SByte"@)],
        TypeView::Int16 => seq![Tok::Word("Int16"@)],
        TypeView::Int32 => seq![Tok::Word("Int32"@)],
        TypeView::Int64 => seq![Tok::Word("Int64"@)],
        TypeView::Byte => seq![Tok::Word("Byte"@)],
        TypeView::UInt16 => seq![Tok::Word("UInt16"@)],
        TypeView::UInt32 => seq![Tok::Word("UInt32"@)],
        TypeView::UInt64 => seq![Tok::Word("UInt64"@)],
        TypeView::Bool => seq![Tok::Word("bool"@)],
        TypeView::Array(e) => type_toks(*e) + seq![Tok::Group(Delimiter::Bracket, Seq::empty())],
        TypeView::Ptr(t) => type_toks(*t) + seq![Tok::Punct(Punct::Asterisk)],
        TypeView::Struct(n) => seq![word(n)],
    }
}

impl CSharpType {
    pub fn copy(&self) -> (r: CSharpType)
        ensures
            r@ == self@,
        decreases self,
    {
        match self {
            CSharpType::Var => CSharpType::Var,
            CSharpType::Void => CSharpType::Void,
            CSharpType::SByte => CSharpType::SByte,
            CSharpType::Int16 => CSharpType::Int16,
            CSharpType::Int32 => CSharpType::Int32,
            CSharpType::Int64 => CSharpType::Int64,
            CSharpType::Byte => CSharpType::Byte,
            CSharpType::UInt16 => CSharpType::UInt16,
            CSharpType::UInt32 => CSharpType::UInt32,
            CSharpType::UInt64 => CSharpType::UInt64,
            CSharpType::Bool => CSharpType::Bool,
            CSharpType::Array { elem_type } => CSharpType::Array {
                elem_type: Box::new(elem_type.copy()),
            },
            CSharpType::Ptr { target } => CSharpType::Ptr { target: Box::new(target.copy()) },
            CSharpType::Struct { name } => CSharpType::Struct { name: name.copy() },
        }
    }

    pub fn new_ptr(other: &CSharpType) -> (r: CSharpType)
        ensures
            r@ == TypeView::Ptr(Box::new(other@)),
    {
        CSharpType::Ptr { target: Box::new(other.copy()) }
    }

    pub fn new_struct(name: Ident) -> (r: CSharpType)
        ensures
            r@ == TypeView::Struct(name@),
    {
        CSharpType::Struct { name }
    }

    pub fn array_of(self) -> (r: CSharpType)
        ensures
            r@ == TypeView::Array(Box::new(self@)),
    {
        CSharpType::Array { elem_type: Box::new(self) }
    }

    pub fn ptr_to(self) -> (r: CSharpType)
        ensures
            r@ == TypeView::Ptr(Box::new(self@)),
    {
        CSharpType::Ptr { target: Box::new(self) }
    }
}

fn type_to_tokens(t: &CSharpType, tokens: &mut TokenStream)
    ensures
        final(tokens)@ == old(tokens)@ + type_toks(t@),
    decreases t,
{
    match t {
        CSharpType::Var => tokens.push_ident("var"),
        CSharpType::Void => tokens.push_ident("void"),
        CSharpType::SByte => tokens.push_ident("SByte"),
        CSharpType::Int16 => tokens.push_ident("Int16"),
        CSharpType::Int32 => tokens.push_ident("Int32"),
        CSharpType::Int64 => tokens.push_ident("Int64"),
        CSharpType::Byte => tokens.push_ident("Byte"),
        CSharpType::UInt16 => tokens.push_ident("UInt16"),
        CSharpType::UInt32 => tokens.push_ident("UInt32"),
        CSharpType::UInt64 => tokens.push_ident("UInt64"),
        CSharpType::Bool => tokens.push_ident("bool"),
        CSharpType::Array { elem_type } => {
            type_to_tokens(elem_type, tokens);
            tokens.push_group(Delimiter::Bracket, TokenStream::new());
        },
        CSharpType::Ptr { target } => {
            type_to_tokens(target, tokens);
            tokens.push_punct(Punct::Asterisk);
        },
        CSharpType::Struct { name } => name.to_tokens(tokens),
    }
    assert(tokens@ =~= old(tokens)@ + type_toks(t@));
}

impl ToTokens for CSharpType {
    open spec fn token_model(&self) -> Seq<Tok> {
        type_toks(self@)
    }

    fn to_tokens(&self, tokens: &mut TokenStream) {
        type_to_tokens(self, tokens);
    }
}


/// A literal value.
#[derive(Debug, Clone)]
pub enum Literal {
    Integer(i32),
    String(String),
}

pub open spec fn literal_text(l: Literal) -> Seq<char> {
    match l {
        Literal::Integer(i) => int_text(i as int),
        Literal::String(s) => seq!['"'] + s@ + seq!['"'],
    }
}

/// `$ty $ident`
#[derive(Debug)]
pub struct DeclareVariableExpr {
    pub ty: CSharpType,
    pub ident: Ident,
}

/// `(($ty) $source)`
#[derive(Debug)]
pub struct Cast {
    pub ty: CSharpType,
    pub source: Box<BodyExpression>,
}

/// `$root.$field_name`
#[derive(Debug)]
pub struct FieldAccess {
    pub root: Box<BodyExpression>,
    pub field_name: Ident,
}

/// `&$target`
#[derive(Debug)]
pub struct AddressOf {
    pub target: Box<BodyExpression>,
}

/// `$target[$index]`
#[derive(Debug)]
pub struct Index {
    pub target: Box<BodyExpression>,
    pub index: Box<BodyExpression>,
}

/// `$lhs = $rhs`
#[derive(Debug)]
pub struct Assignment {
    pub lhs: Box<BodyExpression>,
    pub rhs: Box<BodyExpression>,
}

/// `$predicate ? $true_branch : $false_branch`
#[derive(Debug)]
pub struct TernaryExpression {
    pub predicate: Box<BodyExpression>,
    pub true_branch: Box<BodyExpression>,
    pub false_branch: Box<BodyExpression>,
}

/// `$object.$method($args,*)`; a call on the current object names `this`.
#[derive(Debug)]
pub struct MethodCall {
    pub object: Option<Ident>,
    pub method: Ident,
    pub args: Vec<Ident>,
}

/// A node that has a value inside a method body.
///
/// No distinction is made between lvalues and rvalues.
#[derive(Debug)]
pub enum BodyExpression {
    Ident(Ident),
    Literal(Literal),
    Declare(DeclareVariableExpr),
    Cast(Cast),
    FieldAccess(FieldAccess),
    AddressOf(AddressOf),
    Index(Index),
    Assignment(Assignment),
    Ternary(TernaryExpression),
    MethodCall(MethodCall),
}

pub open spec fn join_toks(items: Seq<Seq<Tok>>, sep: Tok) -> Seq<Tok>
    decreases items.len(),
{
    if items.len() == 0 {
        Seq::empty()
    } else if items.len() == 1 {
        items[0]
    } else {
        join_toks(items.drop_last(), sep) + seq![sep] + items.last()
    }
}

pub open spec fn concat_toks(items: Seq<Seq<Tok>>) -> Seq<Tok>
    decreases items.len(),
{
    if items.len() == 0 {
        Seq::empty()
    } else {
        concat_toks(items.drop_last()) + items.last()
    }
}

pub proof fn lemma_join_step(items: Seq<Seq<Tok>>, sep: Tok, i: int)
    requires
        0 <= i < items.len(),
    ensures
        join_toks(items.take(i + 1), sep) == if i == 0 {
            items[0]
        } else {
            join_toks(items.take(i), sep) + seq![sep] + items[i]
        },
{
    assert(items.take(i + 1).drop_last() =~= items.take(i));
}

pub proof fn lemma_concat_step(items: Seq<Seq<Tok>>, i: int)
    requires
        0 <= i < items.len(),
    ensures
        concat_toks(items.take(i + 1)) == concat_toks(items.take(i)) + items[i],
{
    assert(items.take(i + 1).drop_last() =~= items.take(i));
}

pub open spec fn ident_words(ids: Seq<Ident>) -> Seq<Seq<Tok>> {
    ids.map_values(|i: Ident| seq![word(i@)])
}

pub open spec fn call_toks(m: MethodCall) -> Seq<Tok> {
    (match m.object {
        Some(o) => seq![word(o@), Tok::Punct(Punct::Period)],
        None => Seq::empty(),
    }) + seq![
        word(m.method@),
        Tok::Group(Delimiter::Paren, join_toks(ident_words(m.args@), Tok::Punct(Punct::Comma))),
    ]
}

pub open spec fn expr_toks(e: BodyExpression) -> Seq<Tok>
    decreases e,
{
    match e {
        BodyExpression::Ident(i) => seq![word(i@)],
        BodyExpression::Literal(l) => seq![Tok::Word(literal_text(l))],
        BodyExpression::Declare(d) => type_toks(d.ty@) + seq![word(d.ident@)],
        BodyExpression::Cast(c) => seq![
            Tok::Group(
                Delimiter::Paren,
                seq![Tok::Group(Delimiter::Paren, type_toks(c.ty@))] + expr_toks(*c.source),
            ),
        ],
        BodyExpression::FieldAccess(f) => expr_toks(*f.root) + seq![
            Tok::Punct(Punct::Period),
            word(f.field_name@),
        ],
        BodyExpression::AddressOf(a) => seq![Tok::Punct(Punct::Ampersand)] + expr_toks(*a.target),
        BodyExpression::Index(x) => expr_toks(*x.target) + seq![
            Tok::Group(Delimiter::Bracket, expr_toks(*x.index)),
        ],
        BodyExpression::Assignment(a) => expr_toks(*a.lhs) + seq![Tok::Punct(Punct::Equals)]
            + expr_toks(*a.rhs),
        BodyExpression::Ternary(t) => expr_toks(*t.predicate) + seq![Tok::Punct(Punct::QuestionMark)]
            + expr_toks(*t.true_branch) + seq![Tok::Punct(Punct::Colon)] + expr_toks(
            *t.false_branch,
        ),
        BodyExpression::MethodCall(m) => call_toks(m),
    }
}

pub open spec fn assign_toks(a: Assignment) -> Seq<Tok> {
    expr_toks(BodyExpression::Assignment(a))
}

fn idents_to_tokens(ids: &Vec<Ident>, tokens: &mut TokenStream)
    ensures
        final(tokens)@ == old(tokens)@ + join_toks(ident_words(ids@), Tok::Punct(Punct::Comma)),
{
    let ghost items = ident_words(ids@);
    let mut i: usize = 0;
    assert(items.take(0) =~= Seq::<Seq<Tok>>::empty());
    while i < ids.len()
        invariant
            i <= ids@.len(),
            items == ident_words(ids@),
            items.len() == ids@.len(),
            tokens@ == old(tokens)@ + join_toks(items.take(i as int), Tok::Punct(Punct::Comma)),
        decreases ids.len() - i,
    {
        proof {
            lemma_join_step(items, Tok::Punct(Punct::Comma), i as int);
        }
        if i > 0 {
            tokens.push_punct(Punct::Comma);
        }
        ids[i].to_tokens(tokens);
        assert(tokens@ =~= old(tokens)@ + join_toks(items.take(i + 1), Tok::Punct(Punct::Comma)));
        i = i + 1;
    }
    assert(items.take(ids@.len() as int) =~= items);
}

fn literal_to_tokens(l: &Literal, tokens: &mut TokenStream)
    ensures
        final(tokens)@ == old(tokens)@.push(Tok::Word(literal_text(*l))),
{
    match l {
        Literal::Integer(i) => {
            let t = int_to_text(*i as i64);
            let id = crate::level_0::Ident::from_string(t);
            assert(id@ == literal_text(*l));
            tokens.push(TokenTree::Ident(id));
            assert(TokenTree::Ident(id)@ == Tok::Word(literal_text(*l)));
        },
        Literal::String(s) => {
            proof {
                reveal_strlit("\"");
            }
            let mut t = String::from_str("\"");
            t.append(s.as_str());
            t.append("\"");
            assert(t@ =~= literal_text(*l));
            let id = crate::level_0::Ident::from_string(t);
            tokens.push(TokenTree::Ident(id));
            assert(TokenTree::Ident(id)@ == Tok::Word(literal_text(*l)));
        },
    }
}

fn call_to_tokens(m: &MethodCall, tokens: &mut TokenStream)
    ensures
        final(tokens)@ == old(tokens)@ + call_toks(*m),
{
    if let Some(object) = &m.object {
        object.to_tokens(tokens);
        tokens.push_punct(Punct::Period);
    }
    m.method.to_tokens(tokens);
    let mut args = TokenStream::new();
    idents_to_tokens(&m.args, &mut args);
    tokens.push_group(Delimiter::Paren, args);
    assert(tokens@ =~= old(tokens)@ + call_toks(*m));
}

fn expr_to_tokens(e: &BodyExpression, tokens: &mut TokenStream)
    ensures
        final(tokens)@ == old(tokens)@ + expr_toks(*e),
    decreases e,
{
    match e {
        BodyExpression::Ident(i) => i.to_tokens(tokens),
        BodyExpression::Literal(l) => literal_to_tokens(l, tokens),
        BodyExpression::Declare(d) => {
            type_to_tokens(&d.ty, tokens);
            d.ident.to_tokens(tokens);
        },
        BodyExpression::Cast(c) => {
            let mut content = TokenStream::new();
            let mut ty = TokenStream::new();
            type_to_tokens(&c.ty, &mut ty);
            content.push_group(Delimiter::Paren, ty);
            expr_to_tokens(&c.source, &mut content);
            tokens.push_group(Delimiter::Paren, content);
        },
        BodyExpression::FieldAccess(f) => {
            expr_to_tokens(&f.root, tokens);
            tokens.push_punct(Punct::Period);
            f.field_name.to_tokens(tokens);
        },
        BodyExpression::AddressOf(a) => {
            tokens.push_punct(Punct::Ampersand);
            expr_to_tokens(&a.target, tokens);
        },
        BodyExpression::Index(x) => {
            expr_to_tokens(&x.target, tokens);
            let mut index = TokenStream::new();
            expr_to_tokens(&x.index, &mut index);
            tokens.push_group(Delimiter::Bracket, index);
        },
        BodyExpression::Assignment(a) => {
            expr_to_tokens(&a.lhs, tokens);
            tokens.push_punct(Punct::Equals);
            expr_to_tokens(&a.rhs, tokens);
        },
        BodyExpression::Ternary(t) => {
            expr_to_tokens(&t.predicate, tokens);
            tokens.push_punct(Punct::QuestionMark);
            expr_to_tokens(&t.true_branch, tokens);
            tokens.push_punct(Punct::Colon);
            expr_to_tokens(&t.false_branch, tokens);
        },
        BodyExpression::MethodCall(m) => call_to_tokens(m, tokens),
    }
    assert(tokens@ =~= old(tokens)@ + expr_toks(*e));
}

impl ToTokens for BodyExpression {
    open spec fn token_model(&self) -> Seq<Tok> {
        expr_toks(*self)
    }

    fn to_tokens(&self, tokens: &mut TokenStream) {
        expr_to_tokens(self, tokens);
    }
}

impl ToTokens for Literal {
    open spec fn token_model(&self) -> Seq<Tok> {
        seq![Tok::Word(literal_text(*self))]
    }

    fn to_tokens(&self, tokens: &mut TokenStream) {
        literal_to_tokens(self, tokens);
    }
}

impl ToTokens for DeclareVariableExpr {
    open spec fn token_model(&self) -> Seq<Tok> {
        type_toks(self.ty@) + seq![word(self.ident@)]
    }

    fn to_tokens(&self, tokens: &mut TokenStream) {
        type_to_tokens(&self.ty, tokens);
        self.ident.to_tokens(tokens);
        assert(tokens@ =~= old(tokens)@ + self.token_model());
    }
}

impl ToTokens for MethodCall {
    open spec fn token_model(&self) -> Seq<Tok> {
        call_toks(*self)
    }

    fn to_tokens(&self, tokens: &mut TokenStream) {
        call_to_tokens(self, tokens);
    }
}

impl ToTokens for Assignment {
    open spec fn token_model(&self) -> Seq<Tok> {
        expr_toks(*self.lhs) + seq![Tok::Punct(Punct::Equals)] + expr_toks(*self.rhs)
    }

    fn to_tokens(&self, tokens: &mut TokenStream) {
        expr_to_tokens(&self.lhs, tokens);
        tokens.push_punct(Punct::Equals);
        expr_to_tokens(&self.rhs, tokens);
        assert(tokens@ =~= old(tokens)@ + self.token_model());
    }
}

impl DeclareVariableExpr {
    pub fn stmt(self) -> (r: DeclareVariableStmt)
        ensures
            r == (DeclareVariableStmt { ty: self.ty, ident: self.ident }),
    {
        DeclareVariableStmt { ty: self.ty, ident: self.ident }
    }
}

impl Assignment {
    pub fn new(lhs: BodyExpression, rhs: BodyExpression) -> (r: Assignment)
        ensures
            r == (Assignment { lhs: Box::new(lhs), rhs: Box::new(rhs) }),
    {
        Assignment { lhs: Box::new(lhs), rhs: Box::new(rhs) }
    }

    pub fn stmt(self) -> (r: AssignmentStatment)
        ensures
            r == AssignmentStatment(self),
    {
        AssignmentStatment(self)
    }

    pub fn fixed(self) -> (r: AssignmentFixed)
        ensures
            r == AssignmentFixed(self),
    {
        AssignmentFixed(self)
    }
}

impl MethodCall {
    pub fn stmt(self) -> (r: MethodCallStmt)
        ensures
            r == MethodCallStmt(self),
    {
        MethodCallStmt(self)
    }
}

/// Builds `(($ty) $self)`.
pub trait DoCast: Sized {
    /// The expression that `self` stands for.
    spec fn as_expr(self) -> BodyExpression;

    fn cast(self, ty: CSharpType) -> (r: Cast)
        ensures
            r == (Cast { ty, source: Box::new(self.as_expr()) }),
    ;
}

impl DoCast for BodyExpression {
    open spec fn as_expr(self) -> BodyExpression {
        self
    }

    fn cast(self, ty: CSharpType) -> (r: Cast) {
        Cast { ty, source: Box::new(self) }
    }
}

impl DoCast for Ident {
    open spec fn as_expr(self) -> BodyExpression {
        BodyExpression::Ident(self)
    }

    fn cast(self, ty: CSharpType) -> (r: Cast) {
        Cast { ty, source: Box::new(BodyExpression::Ident(self)) }
    }
}

/// Builds `$self.$field`.
pub trait DoFieldAccess {
    /// The tokens of the expression that `self` stands for.
    spec fn expr_tokens(&self) -> Seq<Tok>;

    fn access_field(&self, field: Ident) -> (r: FieldAccess)
        ensures
            r.field_name == field,
            expr_toks(*r.root) == self.expr_tokens(),
    ;
}

impl DoFieldAccess for Ident {
    open spec fn expr_tokens(&self) -> Seq<Tok> {
        seq![word(self@)]
    }

    fn access_field(&self, field: Ident) -> (r: FieldAccess) {
        FieldAccess { root: Box::new(BodyExpression::Ident(self.copy())), field_name: field }
    }
}

/// Builds `&$self`.
pub trait DoAddressOf: Sized {
    spec fn as_expr(self) -> BodyExpression;

    fn address_of(self) -> (r: AddressOf)
        ensures
            r == (AddressOf { target: Box::new(self.as_expr()) }),
    ;
}

impl DoAddressOf for BodyExpression {
    open spec fn as_expr(self) -> BodyExpression {
        self
    }

    fn address_of(self) -> (r: AddressOf) {
        AddressOf { target: Box::new(self) }
    }
}

impl DoAddressOf for Index {
    open spec fn as_expr(self) -> BodyExpression {
        BodyExpression::Index(self)
    }

    fn address_of(self) -> (r: AddressOf) {
        AddressOf { target: Box::new(BodyExpression::Index(self)) }
    }
}

/// Builds `$self[$index]`.
pub trait DoIndex: Sized {
    spec fn as_expr(self) -> BodyExpression;

    fn index(self, index: BodyExpression) -> (r: Index)
        ensures
            r == (Index { target: Box::new(self.as_expr()), index: Box::new(index) }),
    ;
}

impl DoIndex for Ident {
    open spec fn as_expr(self) -> BodyExpression {
        BodyExpression::Ident(self)
    }

    fn index(self, index: BodyExpression) -> (r: Index) {
        Index { target: Box::new(BodyExpression::Ident(self)), index: Box::new(index) }
    }
}

/// Builds `$ty $self`.
pub trait DoDeclare: Sized {
    spec fn as_ident(self) -> Ident;

    fn declare(self, ty: CSharpType) -> (r: DeclareVariableExpr)
        ensures
            r == (DeclareVariableExpr { ty, ident: self.as_ident() }),
    ;
}

impl DoDeclare for Ident {
    open spec fn as_ident(self) -> Ident {
        self
    }

    fn declare(self, ty: CSharpType) -> (r: DeclareVariableExpr) {
        DeclareVariableExpr { ty, ident: self }
    }
}

/// `$ty $ident ;`
#[derive(Debug)]
pub struct DeclareVariableStmt {
    pub ty: CSharpType,
    pub ident: Ident,
}

/// `$assignment ;`
#[derive(Debug)]
pub struct AssignmentStatment(pub Assignment);

/// `fixed ( $assignment )`, with every following statement in its scope.
#[derive(Debug)]
pub struct AssignmentFixed(pub Assignment);

/// `unsafe`, with every following statement in its scope.
#[derive(Debug)]
pub struct UnsafeBlock();

/// `$call ;`
#[derive(Debug)]
pub struct MethodCallStmt(pub MethodCall);

/// `return $ident ;`
#[derive(Debug)]
pub struct Return {
    pub ident: Ident,
}

/// A node that stands alone in a method body.
#[derive(Debug)]
pub enum BodyStatement {
    Declare(DeclareVariableStmt),
    Assign(AssignmentStatment),
    Fixed(AssignmentFixed),
    Unsafe(UnsafeBlock),
    Call(MethodCallStmt),
    Return(Return),
}

pub open spec fn stmt_toks(s: BodyStatement) -> Seq<Tok> {
    match s {
        BodyStatement::Declare(d) => type_toks(d.ty@) + seq![
            word(d.ident@),
            Tok::Punct(Punct::Semicolon),
        ],
        BodyStatement::Assign(a) => assign_toks(a.0) + seq![Tok::Punct(Punct::Semicolon)],
        BodyStatement::Fixed(a) => seq![
            Tok::Word("fixed"@),
            Tok::Group(Delimiter::Paren, assign_toks(a.0)),
        ],
        BodyStatement::Unsafe(_) => seq![Tok::Word("unsafe"@)],
        BodyStatement::Call(c) => call_toks(c.0) + seq![Tok::Punct(Punct::Semicolon)],
        BodyStatement::Return(r) => seq![
            Tok::Word("return"@),
            word(r.ident@),
            Tok::Punct(Punct::Semicolon),
        ],
    }
}

/// Whether every statement after this one lies in a new scope of its own.
pub open spec fn opens_scope(s: BodyStatement) -> bool {
    s is Fixed || s is Unsafe
}

/// The tokens of a statement list: a statement that opens a scope is followed
/// by one brace group that holds all the statements after it.
pub open spec fn stmts_toks(s: Seq<BodyStatement>) -> Seq<Tok>
    decreases s.len(),
{
    if s.len() == 0 {
        Seq::empty()
    } else if opens_scope(s[0]) && s.len() > 1 {
        stmt_toks(s[0]) + seq![Tok::Group(Delimiter::Brace, stmts_toks(s.drop_first()))]
    } else {
        stmt_toks(s[0]) + stmts_toks(s.drop_first())
    }
}

impl BodyStatement {
    pub fn requires_block(&self) -> (r: bool)
        ensures
            r == opens_scope(*self),
    {
        match self {
            BodyStatement::Fixed(_) => true,
            BodyStatement::Unsafe(_) => true,
            _ => false,
        }
    }
}

fn stmt_to_tokens(s: &BodyStatement, tokens: &mut TokenStream)
    ensures
        final(tokens)@ == old(tokens)@ + stmt_toks(*s),
{
    match s {
        BodyStatement::Declare(d) => {
            type_to_tokens(&d.ty, tokens);
            d.ident.to_tokens(tokens);
            tokens.push_punct(Punct::Semicolon);
        },
        BodyStatement::Assign(a) => {
            a.0.to_tokens(tokens);
            tokens.push_punct(Punct::Semicolon);
        },
        BodyStatement::Fixed(a) => {
            tokens.push_ident("fixed");
            let inner = a.0.to_token_stream();
            tokens.push_group(Delimiter::Paren, inner);
        },
        BodyStatement::Unsafe(_) => tokens.push_ident("unsafe"),
        BodyStatement::Call(c) => {
            call_to_tokens(&c.0, tokens);
            tokens.push_punct(Punct::Semicolon);
        },
        BodyStatement::Return(r) => {
            tokens.push_ident("return");
            r.ident.to_tokens(tokens);
            tokens.push_punct(Punct::Semicolon);
        },
    }
    assert(tokens@ =~= old(tokens)@ + stmt_toks(*s));
}

impl ToTokens for BodyStatement {
    open spec fn token_model(&self) -> Seq<Tok> {
        stmt_toks(*self)
    }

    fn to_tokens(&self, tokens: &mut TokenStream) {
        stmt_to_tokens(self, tokens);
    }
}

/// Lowers the statements from `start` on, nesting the tail after each
/// scope-opening statement in a brace group.
pub fn stmts_to_tokens(s: &Vec<BodyStatement>, start: usize, tokens: &mut TokenStream)
    requires
        start <= s@.len(),
    ensures
        final(tokens)@ == old(tokens)@ + stmts_toks(s@.skip(start as int)),
    decreases s@.len() - start,
{
    let mut i: usize = start;
    while i < s.len()
        invariant
            start <= i <= s@.len(),
            old(tokens)@ + stmts_toks(s@.skip(start as int)) == tokens@ + stmts_toks(
                s@.skip(i as int),
            ),
        decreases s@.len() - i,
    {
        assert(s@.skip(i as int).drop_first() =~= s@.skip(i + 1));
        assert(s@.skip(i as int)[0] == s@[i as int]);
        stmt_to_tokens(&s[i], tokens);
        if s[i].requires_block() && i + 1 < s.len() {
            let mut rest = TokenStream::new();
            stmts_to_tokens(s, i + 1, &mut rest);
            tokens.push_group(Delimiter::Brace, rest);
            assert(s@.skip(s@.len() as int) =~= Seq::<BodyStatement>::empty());
            assert(old(tokens)@ + stmts_toks(s@.skip(start as int)) =~= tokens@);
            return;
        }
        i = i + 1;
    }
    assert(s@.skip(i as int) =~= Seq::<BodyStatement>::empty());
    assert(tokens@ + Seq::<Tok>::empty() =~= tokens@);
}

impl ToTokens for Vec<BodyStatement> {
    open spec fn token_model(&self) -> Seq<Tok> {
        stmts_toks(self@)
    }

    fn to_tokens(&self, tokens: &mut TokenStream) {
        stmts_to_tokens(self, 0, tokens);
        assert(self@.skip(0) =~= self@);
    }
}


impl ToTokens for Cast {
    open spec fn token_model(&self) -> Seq<Tok> {
        seq![
            Tok::Group(
                Delimiter::Paren,
                seq![Tok::Group(Delimiter::Paren, type_toks(self.ty@))] + expr_toks(*self.source),
            ),
        ]
    }

    fn to_tokens(&self, tokens: &mut TokenStream) {
        let mut content = TokenStream::new();
        let mut ty = TokenStream::new();
        type_to_tokens(&self.ty, &mut ty);
        content.push_group(Delimiter::Paren, ty);
        expr_to_tokens(&self.source, &mut content);
        tokens.push_group(Delimiter::Paren, content);
        assert(tokens@ =~= old(tokens)@ + self.token_model());
    }
}

impl ToTokens for Return {
    open spec fn token_model(&self) -> Seq<Tok> {
        seq![Tok::Word("return"@), word(self.ident@), Tok::Punct(Punct::Semicolon)]
    }

    fn to_tokens(&self, tokens: &mut TokenStream) {
        tokens.push_ident("return");
        self.ident.to_tokens(tokens);
        tokens.push_punct(Punct::Semicolon);
        assert(tokens@ =~= old(tokens)@ + self.token_model());
    }
}

/// `using $path ;`
#[derive(Debug)]
pub struct UsingStatement {
    pub path: String,
}

/// `namespace $path { $contents }`
#[derive(Debug)]
pub struct Namespace {
    pub path: Ident,
    pub contents: Vec<TopLevelElement>,
}

/// `[$name]` or `[$name($args,*)]`, followed by a line break.
#[derive(Debug)]
pub struct Attribute {
    pub name: Ident,
    pub args: Vec<BodyExpression>,
}

/// `$ty $name` in a parameter list.
#[derive(Debug)]
pub struct MethodArg {
    pub name: Ident,
    pub ty: CSharpType,
}

#[derive(Debug, Clone, Copy, PartialEq, Eq, Structural)]
pub enum Visibility {
    Public,
    Private,
    Protected,
}

/// A method: with a body, or a bare declaration such as an external import.
#[derive(Debug)]
pub struct Method {
    pub attributes: Vec<Attribute>,
    pub visibility: Visibility,
    pub is_static: bool,
    pub is_extern: bool,
    pub name: Ident,
    pub return_type: CSharpType,
    pub args: Vec<MethodArg>,
    pub body: Option<Vec<BodyStatement>>,
}

/// `$attributes $visibility $ty $name ;`
#[derive(Debug)]
pub struct ObjectField {
    pub attributes: Vec<Attribute>,
    pub visibility: Visibility,
    pub ty: CSharpType,
    pub name: Ident,
}

#[derive(Debug, Clone, Copy, PartialEq, Eq, Structural)]
pub enum ObjectKind {
    Class,
    Struct,
}

/// A class or struct with its fields and methods.
#[derive(Debug)]
pub struct Object {
    pub attributes: Vec<Attribute>,
    pub visibility: Visibility,
    pub is_sealed: bool,
    pub is_static: bool,
    pub kind: ObjectKind,
    pub name: Ident,
    pub fields: Vec<ObjectField>,
    pub methods: Vec<Method>,
}

/// A node that can stand at the top level of a source file.
#[derive(Debug)]
pub enum TopLevelElement {
    Using(UsingStatement),
    Namespace(Namespace),
    Object(Object),
}

/// A whole source file.
#[derive(Debug)]
pub struct CsSource {
    pub elements: Vec<TopLevelElement>,
}

pub open spec fn visibility_toks(v: Visibility) -> Seq<Tok> {
    match v {
        Visibility::Public => seq![Tok::Word("public"@)],
        Visibility::Private => seq![Tok::Word("private"@)],
        Visibility::Protected => seq![Tok::Word("protected"@)],
    }
}

pub open spec fn expr_items(args: Seq<BodyExpression>) -> Seq<Seq<Tok>> {
    args.map_values(|e: BodyExpression| expr_toks(e))
}

pub open spec fn attr_toks(a: Attribute) -> Seq<Tok> {
    seq![
        Tok::Group(
            Delimiter::Bracket,
            seq![word(a.name@)] + if a.args@.len() > 0 {
                seq![
                    Tok::Group(
                        Delimiter::Paren,
                        join_toks(expr_items(a.args@), Tok::Punct(Punct::Comma)),
                    ),
                ]
            } else {
                Seq::empty()
            },
        ),
        Tok::Format(crate::level_0::Formatting::Newline),
    ]
}

pub open spec fn attrs_toks(attrs: Seq<Attribute>) -> Seq<Tok> {
    concat_toks(attrs.map_values(|a: Attribute| attr_toks(a)))
}

pub open spec fn arg_items(args: Seq<MethodArg>) -> Seq<Seq<Tok>> {
    args.map_values(|a: MethodArg| type_toks(a.ty@) + seq![word(a.name@)])
}

pub open spec fn flag_toks(flag: bool, w: Seq<char>) -> Seq<Tok> {
    if flag {
        seq![Tok::Word(w)]
    } else {
        Seq::empty()
    }
}

pub open spec fn method_toks(m: Method) -> Seq<Tok> {
    attrs_toks(m.attributes@) + visibility_toks(m.visibility) + flag_toks(m.is_static, "static"@)
        + flag_toks(m.is_extern, "extern"@) + type_toks(m.return_type@) + seq![
        word(m.name@),
        Tok::Group(Delimiter::Paren, join_toks(arg_items(m.args@), Tok::Punct(Punct::Comma))),
        match m.body {
            Some(b) => Tok::Group(Delimiter::Brace, stmts_toks(b@)),
            None => Tok::Punct(Punct::Semicolon),
        },
    ]
}

pub open spec fn field_toks(f: ObjectField) -> Seq<Tok> {
    attrs_toks(f.attributes@) + visibility_toks(f.visibility) + type_toks(f.ty@) + seq![
        word(f.name@),
        Tok::Punct(Punct::Semicolon),
    ]
}

pub open spec fn kind_toks(k: ObjectKind) -> Seq<Tok> {
    match k {
        ObjectKind::Class => seq![Tok::Word("class"@)],
        ObjectKind::Struct => seq![Tok::Word("struct"@)],
    }
}

pub open spec fn object_toks(o: Object) -> Seq<Tok> {
    attrs_toks(o.attributes@) + visibility_toks(o.visibility) + flag_toks(o.is_sealed, "sealed"@)
        + flag_toks(o.is_static, "static"@) + kind_toks(o.kind) + seq![
        word(o.name@),
        Tok::Group(
            Delimiter::Brace,
            concat_toks(o.fields@.map_values(|f: ObjectField| field_toks(f))) + concat_toks(
                o.methods@.map_values(|m: Method| method_toks(m)),
            ),
        ),
    ]
}

pub open spec fn using_toks(u: UsingStatement) -> Seq<Tok> {
    seq![Tok::Word("using"@), Tok::Word(u.path@), Tok::Punct(Punct::Semicolon)]
}

pub open spec fn top_toks(e: TopLevelElement) -> Seq<Tok>
    decreases e,
{
    match e {
        TopLevelElement::Using(u) => using_toks(u),
        TopLevelElement::Namespace(n) => seq![
            Tok::Word("namespace"@),
            word(n.path@),
            Tok::Group(Delimiter::Brace, tops_toks(n.contents@)),
        ],
        TopLevelElement::Object(o) => object_toks(o),
    }
}

pub open spec fn tops_toks(s: Seq<TopLevelElement>) -> Seq<Tok>
    decreases s,
{
    if s.len() == 0 {
        Seq::empty()
    } else {
        tops_toks(s.drop_last()) + top_toks(s.last())
    }
}

fn visibility_to_tokens(v: Visibility, tokens: &mut TokenStream)
    ensures
        final(tokens)@ == old(tokens)@ + visibility_toks(v),
{
    match v {
        Visibility::Public => tokens.push_ident("public"),
        Visibility::Private => tokens.push_ident("private"),
        Visibility::Protected => tokens.push_ident("protected"),
    }
    assert(tokens@ =~= old(tokens)@ + visibility_toks(v));
}

impl ToTokens for Visibility {
    open spec fn token_model(&self) -> Seq<Tok> {
        visibility_toks(*self)
    }

    fn to_tokens(&self, tokens: &mut TokenStream) {
        visibility_to_tokens(*self, tokens);
    }
}

impl ToTokens for ObjectKind {
    open spec fn token_model(&self) -> Seq<Tok> {
        kind_toks(*self)
    }

    fn to_tokens(&self, tokens: &mut TokenStream) {
        match self {
            ObjectKind::Class => tokens.push_ident("class"),
            ObjectKind::Struct => tokens.push_ident("struct"),
        }
        assert(tokens@ =~= old(tokens)@ + kind_toks(*self));
    }
}

fn exprs_to_tokens(args: &Vec<BodyExpression>, tokens: &mut TokenStream)
    ensures
        final(tokens)@ == old(tokens)@ + join_toks(expr_items(args@), Tok::Punct(Punct::Comma)),
{
    let ghost items = expr_items(args@);
    let mut i: usize = 0;
    assert(items.take(0) =~= Seq::<Seq<Tok>>::empty());
    while i < args.len()
        invariant
            i <= args@.len(),
            items == expr_items(args@),
            items.len() == args@.len(),
            tokens@ == old(tokens)@ + join_toks(items.take(i as int), Tok::Punct(Punct::Comma)),
        decreases args.len() - i,
    {
        proof {
            lemma_join_step(items, Tok::Punct(Punct::Comma), i as int);
        }
        if i > 0 {
            tokens.push_punct(Punct::Comma);
        }
        expr_to_tokens(&args[i], tokens);
        assert(tokens@ =~= old(tokens)@ + join_toks(items.take(i + 1), Tok::Punct(Punct::Comma)));
        i = i + 1;
    }
    assert(items.take(args@.len() as int) =~= items);
}

impl ToTokens for Attribute {
    open spec fn token_model(&self) -> Seq<Tok> {
        attr_toks(*self)
    }

    fn to_tokens(&self, tokens: &mut TokenStream) {
        let mut content = TokenStream::new();
        self.name.to_tokens(&mut content);
        if self.args.len() > 0 {
            let mut arg_content = TokenStream::new();
            exprs_to_tokens(&self.args, &mut arg_content);
            content.push_group(Delimiter::Paren, arg_content);
        }
        assert(content@ =~= seq![word(self.name@)] + if self.args@.len() > 0 {
            seq![
                Tok::Group(
                    Delimiter::Paren,
                    join_toks(expr_items(self.args@), Tok::Punct(Punct::Comma)),
                ),
            ]
        } else {
            Seq::empty()
        });
        tokens.push_group(Delimiter::Bracket, content);
        tokens.push(TokenTree::Formatting(crate::level_0::Formatting::Newline));
        assert(tokens@ =~= old(tokens)@ + attr_toks(*self));
    }
}

fn attrs_to_tokens(attrs: &Vec<Attribute>, tokens: &mut TokenStream)
    ensures
        final(tokens)@ == old(tokens)@ + attrs_toks(attrs@),
{
    let ghost items = attrs@.map_values(|a: Attribute| attr_toks(a));
    let mut i: usize = 0;
    assert(items.take(0) =~= Seq::<Seq<Tok>>::empty());
    while i < attrs.len()
        invariant
            i <= attrs@.len(),
            items == attrs@.map_values(|a: Attribute| attr_toks(a)),
            tokens@ == old(tokens)@ + concat_toks(items.take(i as int)),
        decreases attrs.len() - i,
    {
        proof {
            lemma_concat_step(items, i as int);
        }
        attrs[i].to_tokens(tokens);
        assert(tokens@ =~= old(tokens)@ + concat_toks(items.take(i + 1)));
        i = i + 1;
    }
    assert(items.take(attrs@.len() as int) =~= items);
}

fn method_args_to_tokens(args: &Vec<MethodArg>, tokens: &mut TokenStream)
    ensures
        final(tokens)@ == old(tokens)@ + join_toks(arg_items(args@), Tok::Punct(Punct::Comma)),
{
    let ghost items = arg_items(args@);
    let mut i: usize = 0;
    assert(items.take(0) =~= Seq::<Seq<Tok>>::empty());
    while i < args.len()
        invariant
            i <= args@.len(),
            items == arg_items(args@),
            items.len() == args@.len(),
            tokens@ == old(tokens)@ + join_toks(items.take(i as int), Tok::Punct(Punct::Comma)),
        decreases args.len() - i,
    {
        proof {
            lemma_join_step(items, Tok::Punct(Punct::Comma), i as int);
        }
        if i > 0 {
            tokens.push_punct(Punct::Comma);
        }
        type_to_tokens(&args[i].ty, tokens);
        args[i].name.to_tokens(tokens);
        assert(tokens@ =~= old(tokens)@ + join_toks(items.take(i + 1), Tok::Punct(Punct::Comma)));
        i = i + 1;
    }
    assert(items.take(args@.len() as int) =~= items);
}

impl ToTokens for Method {
    open spec fn token_model(&self) -> Seq<Tok> {
        method_toks(*self)
    }

    fn to_tokens(&self, tokens: &mut TokenStream) {
        attrs_to_tokens(&self.attributes, tokens);
        visibility_to_tokens(self.visibility, tokens);
        if self.is_static {
            tokens.push_ident("static");
        }
        if self.is_extern {
            tokens.push_ident("extern");
        }
        type_to_tokens(&self.return_type, tokens);
        let ghost head = tokens@;
        assert(head =~= old(tokens)@ + attrs_toks(self.attributes@) + visibility_toks(
            self.visibility,
        ) + flag_toks(self.is_static, "static"@) + flag_toks(self.is_extern, "extern"@)
            + type_toks(self.return_type@));
        let mut rest = TokenStream::new();
        self.name.to_tokens(&mut rest);
        let mut arg_tokens = TokenStream::new();
        method_args_to_tokens(&self.args, &mut arg_tokens);
        rest.push_group(Delimiter::Paren, arg_tokens);
        let last = match &self.body {
            Some(body) => {
                let content = body.to_token_stream();
                TokenTree::Group(crate::level_0::Group { delimiter: Delimiter::Brace, content })
            },
            None => TokenTree::Punct(Punct::Semicolon),
        };
        rest.push(last);
        tokens.extend(rest);
        assert(tokens@ =~= old(tokens)@ + method_toks(*self));
    }
}

impl ToTokens for ObjectField {
    open spec fn token_model(&self) -> Seq<Tok> {
        field_toks(*self)
    }

    fn to_tokens(&self, tokens: &mut TokenStream) {
        attrs_to_tokens(&self.attributes, tokens);
        visibility_to_tokens(self.visibility, tokens);
        type_to_tokens(&self.ty, tokens);
        self.name.to_tokens(tokens);
        tokens.push_punct(Punct::Semicolon);
        assert(tokens@ =~= old(tokens)@ + field_toks(*self));
    }
}

fn fields_to_tokens(fields: &Vec<ObjectField>, tokens: &mut TokenStream)
    ensures
        final(tokens)@ == old(tokens)@ + concat_toks(
            fields@.map_values(|f: ObjectField| field_toks(f)),
        ),
{
    let ghost items = fields@.map_values(|f: ObjectField| field_toks(f));
    let mut i: usize = 0;
    assert(items.take(0) =~= Seq::<Seq<Tok>>::empty());
    while i < fields.len()
        invariant
            i <= fields@.len(),
            items == fields@.map_values(|f: ObjectField| field_toks(f)),
            tokens@ == old(tokens)@ + concat_toks(items.take(i as int)),
        decreases fields.len() - i,
    {
        proof {
            lemma_concat_step(items, i as int);
        }
        fields[i].to_tokens(tokens);
        assert(tokens@ =~= old(tokens)@ + concat_toks(items.take(i + 1)));
        i = i + 1;
    }
    assert(items.take(fields@.len() as int) =~= items);
}

fn methods_to_tokens(methods: &Vec<Method>, tokens: &mut TokenStream)
    ensures
        final(tokens)@ == old(tokens)@ + concat_toks(methods@.map_values(|m: Method| method_toks(m))),
{
    let ghost items = methods@.map_values(|m: Method| method_toks(m));
    let mut i: usize = 0;
    assert(items.take(0) =~= Seq::<Seq<Tok>>::empty());
    while i < methods.len()
        invariant
            i <= methods@.len(),
            items == methods@.map_values(|m: Method| method_toks(m)),
            tokens@ == old(tokens)@ + concat_toks(items.take(i as int)),
        decreases methods.len() - i,
    {
        proof {
            lemma_concat_step(items, i as int);
        }
        methods[i].to_tokens(tokens);
        assert(tokens@ =~= old(tokens)@ + concat_toks(items.take(i + 1)));
        i = i + 1;
    }
    assert(items.take(methods@.len() as int) =~= items);
}

impl ToTokens for Object {
    open spec fn token_model(&self) -> Seq<Tok> {
        object_toks(*self)
    }

    fn to_tokens(&self, tokens: &mut TokenStream) {
        attrs_to_tokens(&self.attributes, tokens);
        visibility_to_tokens(self.visibility, tokens);
        if self.is_sealed {
            tokens.push_ident("sealed");
        }
        if self.is_static {
            tokens.push_ident("static");
        }
        self.kind.to_tokens(tokens);
        self.name.to_tokens(tokens);
        let mut content = TokenStream::new();
        fields_to_tokens(&self.fields, &mut content);
        methods_to_tokens(&self.methods, &mut content);
        tokens.push_group(Delimiter::Brace, content);
        assert(tokens@ =~= old(tokens)@ + object_toks(*self));
    }
}

impl ToTokens for UsingStatement {
    open spec fn token_model(&self) -> Seq<Tok> {
        using_toks(*self)
    }

    fn to_tokens(&self, tokens: &mut TokenStream) {
        tokens.push_ident("using");
        tokens.push_ident(self.path.as_str());
        tokens.push_punct(Punct::Semicolon);
        assert(tokens@ =~= old(tokens)@ + using_toks(*self));
    }
}

fn top_to_tokens(e: &TopLevelElement, tokens: &mut TokenStream)
    ensures
        final(tokens)@ == old(tokens)@ + top_toks(*e),
    decreases e,
{
    match e {
        TopLevelElement::Using(u) => u.to_tokens(tokens),
        TopLevelElement::Namespace(n) => {
            let mut group = TokenStream::new();
            tops_to_tokens(&n.contents, &mut group);
            tokens.push_ident("namespace");
            n.path.to_tokens(tokens);
            tokens.push_group(Delimiter::Brace, group);
        },
        TopLevelElement::Object(o) => o.to_tokens(tokens),
    }
    assert(tokens@ =~= old(tokens)@ + top_toks(*e));
}

fn tops_to_tokens(s: &Vec<TopLevelElement>, tokens: &mut TokenStream)
    ensures
        final(tokens)@ == old(tokens)@ + tops_toks(s@),
    decreases s,
{
    let mut i: usize = 0;
    assert(s@.take(0) =~= Seq::<TopLevelElement>::empty());
    while i < s.len()
        invariant
            i <= s@.len(),
            tokens@ == old(tokens)@ + tops_toks(s@.take(i as int)),
        decreases s.len() - i,
    {
        assert(s@.take(i + 1).drop_last() =~= s@.take(i as int));
        top_to_tokens(&s[i], tokens);
        assert(tokens@ =~= old(tokens)@ + tops_toks(s@.take(i + 1)));
        i = i + 1;
    }
    assert(s@.take(s@.len() as int) =~= s@);
}

impl ToTokens for TopLevelElement {
    open spec fn token_model(&self) -> Seq<Tok> {
        top_toks(*self)
    }

    fn to_tokens(&self, tokens: &mut TokenStream) {
        top_to_tokens(self, tokens);
    }
}

impl ToTokens for Namespace {
    open spec fn token_model(&self) -> Seq<Tok> {
        seq![
            Tok::Word("namespace"@),
            word(self.path@),
            Tok::Group(Delimiter::Brace, tops_toks(self.contents@)),
        ]
    }

    fn to_tokens(&self, tokens: &mut TokenStream) {
        let mut group = TokenStream::new();
        tops_to_tokens(&self.contents, &mut group);
        tokens.push_ident("namespace");
        self.path.to_tokens(tokens);
        tokens.push_group(Delimiter::Brace, group);
        assert(tokens@ =~= old(tokens)@ + self.token_model());
    }
}

impl ToTokens for CsSource {
    open spec fn token_model(&self) -> Seq<Tok> {
        tops_toks(self.elements@)
    }

    fn to_tokens(&self, tokens: &mut TokenStream) {
        tops_to_tokens(&self.elements, tokens);
    }
}

} // verus!
