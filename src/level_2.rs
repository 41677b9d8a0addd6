//! Binding-specific conversions between the idiomatic and the boundary
//! representation of a value, lowered to blocks of source.

use vstd::prelude::*;
use crate::level_0::{Delimiter, Punct, Tok};
use crate::level_1::{
    self as lower, assign_toks, stmts_toks, type_toks, word, Assignment, BodyExpression,
    BodyStatement, CSharpType, Ident, IdentGenerator, IdentView, TypeView,
};
use crate::descriptor::BindgenFunctionDescriptor;
use crate::case::{camel_case_of, to_camel_case};

verus! {

broadcast use vstd::std_specs::vec::group_vec_axioms, vstd::seq::group_seq_axioms;

/// Leaves a value that is both idiomatic and stable as it is.
#[derive(Debug)]
pub struct IdentityTypeConversion {
    pub ident: Ident,
    pub ty: CSharpType,
}

/// Converts a managed one-dimensional array of stable elements into the
/// pointer-and-length record.
#[derive(Debug)]
pub struct CsArrToSliceAbi {
    pub source_ident: Ident,
    pub source_type: CSharpType,
    pub dest_ident: Ident,
    pub dest_type: CSharpType,
    pub element_type: CSharpType,
    /// Holds the pinned pointer inside the `fixed` statement.
    pub temp_ptr_indent: Ident,
}

/// Converts a boolean to a byte.
#[derive(Debug)]
pub struct BoolToUint {
    pub source_ident: Ident,
    pub dest_ident: Ident,
}

/// A conversion from an idiomatic value to one that can cross the boundary.
#[derive(Debug)]
pub enum CsToFfiStableConversion {
    Identity(IdentityTypeConversion),
    ArrToSlice(CsArrToSliceAbi),
    BoolToUint(BoolToUint),
}

/// No statement of the list is an `unsafe` marker.
pub open spec fn no_unsafe(s: Seq<BodyStatement>) -> bool {
    forall|j: int| 0 <= j < s.len() ==> !(#[trigger] s[j] is Unsafe)
}

pub open spec fn flatten_stmts(parts: Seq<Seq<BodyStatement>>) -> Seq<BodyStatement>
    decreases parts.len(),
{
    if parts.len() == 0 {
        Seq::empty()
    } else {
        flatten_stmts(parts.drop_last()) + parts.last()
    }
}

pub open spec fn slice_abi_type() -> TypeView {
    TypeView::Struct(IdentView::Named("SliceAbi"@))
}

pub open spec fn declare_piece(d: IdentView) -> Seq<Tok> {
    type_toks(slice_abi_type()) + seq![word(d), Tok::Punct(Punct::Semicolon)]
}

pub open spec fn len_piece(s: IdentView, d: IdentView) -> Seq<Tok> {
    seq![word(d), Tok::Punct(Punct::Period), Tok::Word("Len"@)] + seq![Tok::Punct(Punct::Equals)]
        + seq![
        Tok::Group(
            Delimiter::Paren,
            seq![Tok::Group(Delimiter::Paren, type_toks(TypeView::UInt64))] + seq![
                word(s),
                Tok::Punct(Punct::Period),
                Tok::Word("Length"@),
            ],
        ),
    ] + seq![Tok::Punct(Punct::Semicolon)]
}

pub open spec fn fixed_piece(s: IdentView, p: IdentView, elem: TypeView) -> Seq<Tok> {
    seq![
        Tok::Word("fixed"@),
        Tok::Group(
            Delimiter::Paren,
            type_toks(TypeView::Ptr(Box::new(elem))) + seq![word(p)] + seq![
                Tok::Punct(Punct::Equals),
            ] + (seq![Tok::Punct(Punct::Ampersand)] + (seq![word(s)] + seq![
                Tok::Group(Delimiter::Bracket, seq![Tok::Word(crate::text::int_text(0))]),
            ])),
        ),
    ]
}

pub open spec fn ptr_piece(d: IdentView, p: IdentView) -> Seq<Tok> {
    seq![word(d), Tok::Punct(Punct::Period), Tok::Word("Ptr"@)] + seq![Tok::Punct(Punct::Equals)]
        + seq![
        Tok::Group(
            Delimiter::Paren,
            seq![
                Tok::Group(
                    Delimiter::Paren,
                    type_toks(TypeView::Struct(IdentView::Named("IntPtr"@))),
                ),
            ] + seq![word(p)],
        ),
    ] + seq![Tok::Punct(Punct::Semicolon)]
}

/// `SliceAbi d; d.Len = ((UInt64) s.Length); fixed (T* p = &s[0]) { d.Ptr = ((IntPtr) p); }`
/// as tokens: everything after the `fixed` statement lies in its scope.
pub open spec fn arr_to_slice_toks(s: IdentView, d: IdentView, p: IdentView, elem: TypeView) -> Seq<Tok> {
    declare_piece(d) + len_piece(s, d) + fixed_piece(s, p, elem) + seq![
        Tok::Group(Delimiter::Brace, ptr_piece(d, p)),
    ]
}

/// `((Byte) n)` as tokens.
pub open spec fn byte_toks(n: int) -> Seq<Tok> {
    seq![
        Tok::Group(
            Delimiter::Paren,
            seq![Tok::Group(Delimiter::Paren, type_toks(TypeView::Byte))] + seq![
                Tok::Word(crate::text::int_text(n)),
            ],
        ),
    ]
}

/// `Byte d = s ? ((Byte) 1) : ((Byte) 0);` as tokens.
pub open spec fn bool_to_uint_toks(s: IdentView, d: IdentView) -> Seq<Tok> {
    type_toks(TypeView::Byte) + seq![word(d)] + seq![Tok::Punct(Punct::Equals)] + (seq![word(s)]
        + seq![Tok::Punct(Punct::QuestionMark)] + byte_toks(1) + seq![Tok::Punct(Punct::Colon)]
        + byte_toks(0)) + seq![Tok::Punct(Punct::Semicolon)]
}

pub open spec fn conversion_toks(c: CsToFfiStableConversion) -> Seq<Tok> {
    match c {
        CsToFfiStableConversion::Identity(_) => Seq::empty(),
        CsToFfiStableConversion::ArrToSlice(a) => arr_to_slice_toks(
            a.source_ident@,
            a.dest_ident@,
            a.temp_ptr_indent@,
            a.element_type@,
        ),
        CsToFfiStableConversion::BoolToUint(b) => bool_to_uint_toks(b.source_ident@, b.dest_ident@),
    }
}

fn ident_expr(i: &Ident) -> (r: BodyExpression)
    ensures
        lower::expr_toks(r) == seq![word(i@)],
{
    BodyExpression::Ident(i.copy())
}

fn field_expr(i: &Ident, field: &str) -> (r: BodyExpression)
    ensures
        lower::expr_toks(r) == seq![word(i@), Tok::Punct(Punct::Period), Tok::Word(field@)],
{
    let f = lower::FieldAccess { root: Box::new(ident_expr(i)), field_name: Ident::new(field) };
    let r = BodyExpression::FieldAccess(f);
    assert(lower::expr_toks(r) =~= seq![word(i@), Tok::Punct(Punct::Period), Tok::Word(field@)]);
    r
}

fn cast_expr(ty: CSharpType, e: BodyExpression) -> (r: BodyExpression)
    ensures
        lower::expr_toks(r) == seq![
            Tok::Group(
                Delimiter::Paren,
                seq![Tok::Group(Delimiter::Paren, type_toks(ty@))] + lower::expr_toks(e),
            ),
        ],
{
    BodyExpression::Cast(lower::Cast { ty, source: Box::new(e) })
}

fn byte_literal(n: i32) -> (r: BodyExpression)
    requires
        n == 0 || n == 1,
    ensures
        lower::expr_toks(r) == byte_toks(n as int),
{
    let lit = BodyExpression::Literal(lower::Literal::Integer(n));
    assert(lower::expr_toks(lit) == seq![Tok::Word(crate::text::int_text(n as int))]);
    cast_expr(CSharpType::Byte, lit)
}

impl CsArrToSliceAbi {
    /// The conversion of the array `source_ident`, with two fresh
    /// identifiers for the record and the pinned pointer.
    pub fn new(source_ident: Ident, element_type: CSharpType, ident_gen: &mut IdentGenerator) -> (r:
        CsArrToSliceAbi)
        requires
            old(ident_gen).counter < i32::MAX - 1,
        ensures
            r.source_ident@ == source_ident@,
            r.source_type@ == TypeView::Array(Box::new(element_type@)),
            r.dest_ident@ == IdentView::Generated(old(ident_gen).counter as int),
            r.dest_type@ == slice_abi_type(),
            r.element_type@ == element_type@,
            r.temp_ptr_indent@ == IdentView::Generated(old(ident_gen).counter + 1),
            final(ident_gen).counter == old(ident_gen).counter + 2,
    {
        let dest_ident = ident_gen.generate_ident();
        let temp_ptr_indent = ident_gen.generate_ident();
        CsArrToSliceAbi {
            source_ident,
            source_type: element_type.copy().array_of(),
            dest_ident,
            dest_type: CSharpType::new_struct(Ident::new("SliceAbi")),
            element_type,
            temp_ptr_indent,
        }
    }

    pub fn to_statements(&self) -> (r: Vec<BodyStatement>)
        ensures
            stmts_toks(r@) == arr_to_slice_toks(
                self.source_ident@,
                self.dest_ident@,
                self.temp_ptr_indent@,
                self.element_type@,
            ),
            no_unsafe(r@),
    {
        let declare = declare_stmt(&self.dest_ident);
        let len = len_stmt(&self.source_ident, &self.dest_ident);
        let fixed = fixed_stmt(&self.source_ident, &self.temp_ptr_indent, &self.element_type);
        let ptr = ptr_stmt(&self.dest_ident, &self.temp_ptr_indent);
        let ghost d = declare;
        let ghost l = len;
        let ghost f = fixed;
        let ghost p = ptr;
        let mut r = Vec::new();
        r.push(declare);
        r.push(len);
        r.push(fixed);
        r.push(ptr);
        proof {
            let s = r@;
            let s1 = s.drop_first();
            let s2 = s1.drop_first();
            let s3 = s2.drop_first();
            assert(s3.drop_first() =~= Seq::<BodyStatement>::empty());
            assert(s3[0] == p);
            assert(stmts_toks(s3) =~= lower::stmt_toks(p) + stmts_toks(s3.drop_first()));
            assert(stmts_toks(s3) =~= ptr_piece(self.dest_ident@, self.temp_ptr_indent@));
            assert(s2[0] == f);
            assert(stmts_toks(s2) == lower::stmt_toks(f) + seq![
                Tok::Group(Delimiter::Brace, stmts_toks(s3)),
            ]);
            assert(s1[0] == l);
            assert(stmts_toks(s1) == lower::stmt_toks(l) + stmts_toks(s2));
            assert(s[0] == d);
            assert(stmts_toks(s) == lower::stmt_toks(d) + stmts_toks(s1));
            assert(stmts_toks(s) =~= arr_to_slice_toks(
                self.source_ident@,
                self.dest_ident@,
                self.temp_ptr_indent@,
                self.element_type@,
            ));
        }
        r
    }
}

fn declare_stmt(d: &Ident) -> (r: BodyStatement)
    ensures
        lower::stmt_toks(r) == declare_piece(d@),
        !lower::opens_scope(r),
{
    let r = BodyStatement::Declare(
        lower::DeclareVariableStmt { ty: CSharpType::new_struct(Ident::new("SliceAbi")), ident: d.copy() },
    );
    assert(lower::stmt_toks(r) =~= declare_piece(d@));
    r
}

fn len_stmt(s: &Ident, d: &Ident) -> (r: BodyStatement)
    ensures
        lower::stmt_toks(r) == len_piece(s@, d@),
        !lower::opens_scope(r),
{
    let lhs = field_expr(d, "Len");
    let rhs = cast_expr(CSharpType::UInt64, field_expr(s, "Length"));
    let a = Assignment::new(lhs, rhs);
    assert(assign_toks(a) == lower::expr_toks(*a.lhs) + seq![Tok::Punct(Punct::Equals)]
        + lower::expr_toks(*a.rhs));
    let r = BodyStatement::Assign(a.stmt());
    assert(lower::stmt_toks(r) =~= len_piece(s@, d@));
    r
}

fn fixed_stmt(s: &Ident, p: &Ident, elem: &CSharpType) -> (r: BodyStatement)
    ensures
        lower::stmt_toks(r) == fixed_piece(s@, p@, elem@),
        lower::opens_scope(r),
{
    let lit = BodyExpression::Literal(lower::Literal::Integer(0));
    assert(lower::expr_toks(lit) == seq![Tok::Word(crate::text::int_text(0))]);
    let index = BodyExpression::Index(
        lower::Index { target: Box::new(ident_expr(s)), index: Box::new(lit) },
    );
    assert(lower::expr_toks(index) == seq![word(s@)] + seq![
        Tok::Group(Delimiter::Bracket, seq![Tok::Word(crate::text::int_text(0))]),
    ]);
    let address = BodyExpression::AddressOf(lower::AddressOf { target: Box::new(index) });
    assert(lower::expr_toks(address) == seq![Tok::Punct(Punct::Ampersand)] + lower::expr_toks(
        index,
    ));
    let ty = elem.copy().ptr_to();
    let declare_ptr = BodyExpression::Declare(lower::DeclareVariableExpr { ty, ident: p.copy() });
    assert(lower::expr_toks(declare_ptr) == type_toks(TypeView::Ptr(Box::new(elem@))) + seq![
        word(p@),
    ]);
    let a = Assignment::new(declare_ptr, address);
    assert(assign_toks(a) == lower::expr_toks(*a.lhs) + seq![Tok::Punct(Punct::Equals)]
        + lower::expr_toks(*a.rhs));
    let r = BodyStatement::Fixed(a.fixed());
    assert(lower::stmt_toks(r) =~= fixed_piece(s@, p@, elem@));
    r
}

fn ptr_stmt(d: &Ident, p: &Ident) -> (r: BodyStatement)
    ensures
        lower::stmt_toks(r) == ptr_piece(d@, p@),
        !lower::opens_scope(r),
{
    let lhs = field_expr(d, "Ptr");
    let rhs = cast_expr(CSharpType::new_struct(Ident::new("IntPtr")), ident_expr(p));
    let a = Assignment::new(lhs, rhs);
    assert(assign_toks(a) == lower::expr_toks(*a.lhs) + seq![Tok::Punct(Punct::Equals)]
        + lower::expr_toks(*a.rhs));
    let r = BodyStatement::Assign(a.stmt());
    assert(lower::stmt_toks(r) =~= ptr_piece(d@, p@));
    r
}

impl BoolToUint {
    pub fn to_statements(&self) -> (r: Vec<BodyStatement>)
        ensures
            stmts_toks(r@) == bool_to_uint_toks(self.source_ident@, self.dest_ident@),
            no_unsafe(r@),
    {
        let ternary = BodyExpression::Ternary(
            lower::TernaryExpression {
                predicate: Box::new(ident_expr(&self.source_ident)),
                true_branch: Box::new(byte_literal(1)),
                false_branch: Box::new(byte_literal(0)),
            },
        );
        let declare = BodyExpression::Declare(
            lower::DeclareVariableExpr { ty: CSharpType::Byte, ident: self.dest_ident.copy() },
        );
        let a = Assignment::new(declare, ternary);
        assert(assign_toks(a) == lower::expr_toks(*a.lhs) + seq![Tok::Punct(Punct::Equals)]
            + lower::expr_toks(*a.rhs));
        let st = BodyStatement::Assign(a.stmt());
        let ghost g = st;
        let mut r = Vec::new();
        r.push(st);
        proof {
            assert(r@.drop_first() =~= Seq::<BodyStatement>::empty());
            assert(r@[0] == g);
            assert(stmts_toks(r@) =~= lower::stmt_toks(g) + stmts_toks(r@.drop_first()));
            assert(stmts_toks(r@) =~= bool_to_uint_toks(self.source_ident@, self.dest_ident@));
        }
        r
    }
}

impl CsToFfiStableConversion {
    pub open spec fn needs_unsafe(&self) -> bool {
        self is ArrToSlice
    }

    pub fn to_statements(&self) -> (r: Vec<BodyStatement>)
        ensures
            stmts_toks(r@) == conversion_toks(*self),
            no_unsafe(r@),
    {
        match self {
            CsToFfiStableConversion::Identity(_) => {
                let r = Vec::new();
                assert(r@ =~= Seq::<BodyStatement>::empty());
                r
            },
            CsToFfiStableConversion::ArrToSlice(a) => a.to_statements(),
            CsToFfiStableConversion::BoolToUint(b) => b.to_statements(),
        }
    }

    pub open spec fn source_view(&self) -> IdentView {
        match self {
            CsToFfiStableConversion::Identity(c) => c.ident@,
            CsToFfiStableConversion::ArrToSlice(c) => c.source_ident@,
            CsToFfiStableConversion::BoolToUint(c) => c.source_ident@,
        }
    }

    pub open spec fn dest_view(&self) -> IdentView {
        match self {
            CsToFfiStableConversion::Identity(c) => c.ident@,
            CsToFfiStableConversion::ArrToSlice(c) => c.dest_ident@,
            CsToFfiStableConversion::BoolToUint(c) => c.dest_ident@,
        }
    }

    pub open spec fn source_type_view(&self) -> TypeView {
        match self {
            CsToFfiStableConversion::Identity(c) => c.ty@,
            CsToFfiStableConversion::ArrToSlice(c) => c.source_type@,
            CsToFfiStableConversion::BoolToUint(_) => TypeView::Bool,
        }
    }

    pub open spec fn dest_type_view(&self) -> TypeView {
        match self {
            CsToFfiStableConversion::Identity(c) => c.ty@,
            CsToFfiStableConversion::ArrToSlice(c) => c.dest_type@,
            CsToFfiStableConversion::BoolToUint(_) => TypeView::Byte,
        }
    }

    pub fn source_ident(&self) -> (r: &Ident)
        ensures
            r@ == self.source_view(),
    {
        match self {
            CsToFfiStableConversion::Identity(c) => &c.ident,
            CsToFfiStableConversion::ArrToSlice(c) => &c.source_ident,
            CsToFfiStableConversion::BoolToUint(c) => &c.source_ident,
        }
    }

    pub fn dest_ident(&self) -> (r: &Ident)
        ensures
            r@ == self.dest_view(),
    {
        match self {
            CsToFfiStableConversion::Identity(c) => &c.ident,
            CsToFfiStableConversion::ArrToSlice(c) => &c.dest_ident,
            CsToFfiStableConversion::BoolToUint(c) => &c.dest_ident,
        }
    }

    pub fn source_type(&self) -> (r: CSharpType)
        ensures
            r@ == match self {
                CsToFfiStableConversion::Identity(c) => c.ty@,
                CsToFfiStableConversion::ArrToSlice(c) => c.source_type@,
                CsToFfiStableConversion::BoolToUint(_) => TypeView::Bool,
            },
    {
        match self {
            CsToFfiStableConversion::Identity(c) => c.ty.copy(),
            CsToFfiStableConversion::ArrToSlice(c) => c.source_type.copy(),
            CsToFfiStableConversion::BoolToUint(_) => CSharpType::Bool,
        }
    }

    pub fn dest_type(&self) -> (r: CSharpType)
        ensures
            r@ == match self {
                CsToFfiStableConversion::Identity(c) => c.ty@,
                CsToFfiStableConversion::ArrToSlice(c) => c.dest_type@,
                CsToFfiStableConversion::BoolToUint(_) => TypeView::Byte,
            },
    {
        match self {
            CsToFfiStableConversion::Identity(c) => c.ty.copy(),
            CsToFfiStableConversion::ArrToSlice(c) => c.dest_type.copy(),
            CsToFfiStableConversion::BoolToUint(_) => CSharpType::Byte,
        }
    }

    pub fn requires_unsafe(&self) -> (r: bool)
        ensures
            r == self.needs_unsafe(),
    {
        match self {
            CsToFfiStableConversion::ArrToSlice(_) => true,
            _ => false,
        }
    }
}


/// A function binding: its descriptor, the binary that holds it, and the
/// conversion of each argument.
#[derive(Debug)]
pub struct BindingMethod {
    pub source_descriptor: BindgenFunctionDescriptor,
    pub dll_name: String,
    pub args: Vec<CsToFfiStableConversion>,
}

pub open spec fn any_unsafe(args: Seq<CsToFfiStableConversion>) -> bool {
    exists|i: int| 0 <= i < args.len() && (#[trigger] args[i]).needs_unsafe()
}

impl BindingMethod {
    /// The public wrapper: one `unsafe` ahead of everything when any
    /// conversion needs it, then the conversions in argument order, then the
    /// call of the external declaration with the converted values.
    pub fn thunk_method(&self) -> (r: lower::Method)
        ensures
            r.attributes@.len() == 0,
            r.visibility == lower::Visibility::Public,
            r.is_static && !r.is_extern,
            r.name@ == IdentView::Named(camel_case_of(self.source_descriptor.real_name@)),
            r.return_type@ == TypeView::Void,
            r.args@.len() == self.args@.len(),
            forall|i: int|
                0 <= i < self.args@.len() ==> (#[trigger] r.args@[i]).name@ == self.args@[i].source_view()
                    && r.args@[i].ty@ == self.args@[i].source_type_view(),
            r.body is Some,
            exists|parts: Seq<Seq<BodyStatement>>|
                {
                    &&& parts.len() == self.args@.len()
                    &&& forall|i: int|
                        0 <= i < parts.len() ==> stmts_toks(#[trigger] parts[i]) == conversion_toks(
                            self.args@[i],
                        ) && no_unsafe(parts[i])
                    &&& r.body->Some_0@ == (if any_unsafe(self.args@) {
                        seq![BodyStatement::Unsafe(lower::UnsafeBlock())]
                    } else {
                        Seq::empty()
                    }) + flatten_stmts(parts) + seq![r.body->Some_0@.last()]
                },
            any_unsafe(self.args@) ==> r.body->Some_0@[0] is Unsafe,
            !any_unsafe(self.args@) ==> no_unsafe(r.body->Some_0@),
            r.body->Some_0@.last() is Call,
            r.body->Some_0@.last()->Call_0.0.object is None,
            r.body->Some_0@.last()->Call_0.0.method@ == IdentView::Named(
                self.source_descriptor.thunk_name@,
            ),
            r.body->Some_0@.last()->Call_0.0.args@.len() == self.args@.len(),
            forall|i: int|
                0 <= i < self.args@.len() ==> (#[trigger] r.body->Some_0@.last()->Call_0.0.args@[i])@
                    == self.args@[i].dest_view(),
    {
        let mut args: Vec<lower::MethodArg> = Vec::new();
        let mut call_args: Vec<Ident> = Vec::new();
        let mut needs_unsafe = false;
        let mut i: usize = 0;
        while i < self.args.len()
            invariant
                i <= self.args@.len(),
                args@.len() == i,
                call_args@.len() == i,
                forall|k: int|
                    0 <= k < i ==> (#[trigger] args@[k]).name@ == self.args@[k].source_view()
                        && args@[k].ty@ == self.args@[k].source_type_view(),
                forall|k: int| 0 <= k < i ==> (#[trigger] call_args@[k])@ == self.args@[k].dest_view(),
                needs_unsafe <==> exists|k: int| 0 <= k < i && (#[trigger] self.args@[k]).needs_unsafe(),
            decreases self.args.len() - i,
        {
            let a = &self.args[i];
            args.push(lower::MethodArg { name: a.source_ident().copy(), ty: a.source_type() });
            call_args.push(a.dest_ident().copy());
            if a.requires_unsafe() {
                needs_unsafe = true;
            }
            i = i + 1;
        }
        let mut body: Vec<BodyStatement> = Vec::new();
        if needs_unsafe {
            body.push(BodyStatement::Unsafe(lower::UnsafeBlock()));
        }
        let ghost prefix = body@;
        assert(prefix == if any_unsafe(self.args@) {
            seq![BodyStatement::Unsafe(lower::UnsafeBlock())]
        } else {
            Seq::<BodyStatement>::empty()
        });
        let ghost mut parts: Seq<Seq<BodyStatement>> = Seq::empty();
        let mut j: usize = 0;
        assert(body@ =~= prefix + flatten_stmts(parts));
        while j < self.args.len()
            invariant
                j <= self.args@.len(),
                parts.len() == j,
                body@ == prefix + flatten_stmts(parts),
                forall|k: int|
                    0 <= k < j ==> stmts_toks(#[trigger] parts[k]) == conversion_toks(self.args@[k])
                        && no_unsafe(parts[k]),
            decreases self.args.len() - j,
        {
            let mut stmts = self.args[j].to_statements();
            let ghost st = stmts@;
            let ghost prev = parts;
            body.append(&mut stmts);
            proof {
                parts = parts.push(st);
                assert(parts.drop_last() =~= prev);
                assert(body@ =~= prefix + flatten_stmts(parts));
            }
            j = j + 1;
        }
        let call = lower::MethodCall {
            object: None,
            method: Ident::Named(self.source_descriptor.thunk_name.clone()),
            args: call_args,
        };
        let ghost before_call = body@;
        body.push(BodyStatement::Call(call.stmt()));
        proof {
            assert(body@ =~= prefix + flatten_stmts(parts) + seq![body@.last()]);
            if !any_unsafe(self.args@) {
                lemma_flatten_no_unsafe(parts);
                assert forall|k: int| 0 <= k < body@.len() implies !(#[trigger] body@[k] is Unsafe) by {
                    if k < before_call.len() {
                        assert(body@[k] == flatten_stmts(parts)[k]);
                    }
                }
            }
        }
        lower::Method {
            attributes: Vec::new(),
            visibility: lower::Visibility::Public,
            is_static: true,
            is_extern: false,
            name: Ident::Named(to_camel_case(self.source_descriptor.real_name.as_str())),
            return_type: CSharpType::Void,
            args,
            body: Some(body),
        }
    }
}

proof fn lemma_flatten_no_unsafe(parts: Seq<Seq<BodyStatement>>)
    requires
        forall|k: int| 0 <= k < parts.len() ==> no_unsafe(#[trigger] parts[k]),
    ensures
        no_unsafe(flatten_stmts(parts)),
    decreases parts.len(),
{
    if parts.len() > 0 {
        lemma_flatten_no_unsafe(parts.drop_last());
        let f = flatten_stmts(parts.drop_last());
        let l = parts.last();
        assert(no_unsafe(l));
        assert forall|j: int| 0 <= j < f.len() + l.len() implies !(#[trigger] (f + l)[j] is Unsafe) by {
            if j >= f.len() {
                assert((f + l)[j] == l[j - f.len()]);
            }
        }
    }
}

/// A static class of bindings to free functions.
#[derive(Debug)]
pub struct MethodContainer {
    pub name: Ident,
    pub methods: Vec<BindingMethod>,
}

/// A field of a struct with explicit layout.
#[derive(Debug)]
pub struct BindingField {
    pub offset: i32,
    pub ty: CSharpType,
    pub name: String,
}

/// A struct with explicit layout: its size, packing and fields.
#[derive(Debug)]
pub struct BindingStruct {
    pub size: i32,
    pub alignment: i32,
    pub name: String,
    pub fields: Vec<BindingField>,
}

/// Everything that the bindings of one library hold.
#[derive(Debug)]
pub struct BindingModule {
    pub namespace: Ident,
    pub free_methods: Option<MethodContainer>,
    pub structs: Vec<BindingStruct>,
}

} // verus!
