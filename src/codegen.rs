//! Classification of descriptor types into binding strategies, and the
//! synthesis of the statements that marshal the complex ones.

use vstd::prelude::*;
use crate::ast;
use crate::case::{mixed_case_of, to_mixed_case};
use crate::descriptor::{function_descs, struct_descs, BindgenExportDescriptor, BindgenFunctionArgumentDescriptor, BindgenFunctionDescriptor, BindgenStructDescriptor, BindgenStructFieldDescriptor, BindgenTypeDescriptor, desc_view};
use crate::case::{camel_case_of, to_camel_case};
use crate::level_1::{IdentView, TypeView, ident_text};
use crate::level_0::indent_text;
use crate::ast::{AstNode, node_text, nodes_text, line, deeper, join_text, type_text, literal_text};
use crate::text::int_text;

verus! {

broadcast use vstd::std_specs::vec::group_vec_axioms, vstd::seq::group_seq_axioms, vstd::set::group_set_axioms;

/// Why a type cannot cross the boundary.
#[derive(Debug, Clone, Copy, PartialEq, Eq, Structural)]
pub enum ClassificationError {
    /// An integer of a width other than 8, 16, 32 or 64 bits.
    UnrecognizedType,
    /// A slice whose elements need a conversion of their own.
    NonTrivialSlice,
    /// A struct with a field that needs a conversion.
    NonFfiStableField,
}

impl ClassificationError {
    pub fn message(&self) -> (r: &'static str) {
        match self {
            ClassificationError::UnrecognizedType => "Unrecognized type",
            ClassificationError::NonTrivialSlice => "Can't generate code for slices of non-trivial types yet",
            ClassificationError::NonFfiStableField => "Can't create bindings for structs with non-ffi-stable fields",
        }
    }
}

/// A type with one representation on both sides of the boundary.
#[derive(Debug)]
pub struct SimpleBindingType {
    /// The descriptor that the type was classified from.
    pub descriptor: Option<BindgenTypeDescriptor>,
    /// The type, both in the external declaration and in the wrapper.
    pub cs_type: ast::CSharpType,
}

/// A type that needs a conversion to cross the boundary.
#[derive(Debug)]
pub struct ComplexBindingType {
    /// The descriptor that the type was classified from.
    pub descriptor: BindgenTypeDescriptor,
    /// The type in the external declaration.
    pub thunk_type: ast::CSharpType,
    /// The type in the wrapper's signature.
    pub idiomatic_type: ast::CSharpType,
}

/// How a type is passed between the native and the managed side.
#[derive(Debug)]
pub enum BindingType {
    Simple(SimpleBindingType),
    Complex(ComplexBindingType),
}

/// The model of a binding type: the native type, and for a complex type the
/// idiomatic one.
pub enum BindingView {
    Simple(TypeView),
    Complex(TypeView, TypeView),
}

impl View for BindingType {
    type V = BindingView;

    open spec fn view(&self) -> BindingView {
        match self {
            BindingType::Simple(s) => BindingView::Simple(s.cs_type@),
            BindingType::Complex(c) => BindingView::Complex(c.thunk_type@, c.idiomatic_type@),
        }
    }
}

pub open spec fn native_view(b: BindingView) -> TypeView {
    match b {
        BindingView::Simple(t) => t,
        BindingView::Complex(n, _) => n,
    }
}

pub open spec fn idiomatic_view(b: BindingView) -> TypeView {
    match b {
        BindingView::Simple(t) => t,
        BindingView::Complex(_, i) => i,
    }
}

/// The integer type of a width and signedness, if the width is legal.
pub open spec fn int_view(width: u8, signed: bool) -> Option<TypeView> {
    if width == 8 {
        Some(if signed { TypeView::SByte } else { TypeView::Byte })
    } else if width == 16 {
        Some(if signed { TypeView::Int16 } else { TypeView::UInt16 })
    } else if width == 32 {
        Some(if signed { TypeView::Int32 } else { TypeView::UInt32 })
    } else if width == 64 {
        Some(if signed { TypeView::Int64 } else { TypeView::UInt64 })
    } else {
        None
    }
}

pub open spec fn slice_abi_view() -> TypeView {
    TypeView::Struct(IdentView::Named("SliceAbi"@))
}

/// The binding strategy of a descriptor type.
pub open spec fn classify_view(d: BindgenTypeDescriptor) -> Result<BindingView, ClassificationError>
    decreases d,
{
    match d {
        BindgenTypeDescriptor::Void => Ok(BindingView::Simple(TypeView::Void)),
        BindgenTypeDescriptor::Int { width, signed } => match int_view(width, signed) {
            Some(t) => Ok(BindingView::Simple(t)),
            None => Err(ClassificationError::UnrecognizedType),
        },
        BindgenTypeDescriptor::Bool => Ok(BindingView::Complex(TypeView::Byte, TypeView::Bool)),
        BindgenTypeDescriptor::Slice { elem_type } => match classify_view(*elem_type) {
            Ok(BindingView::Simple(t)) => Ok(
                BindingView::Complex(slice_abi_view(), TypeView::Array(Box::new(t))),
            ),
            Ok(BindingView::Complex(_, _)) => Err(ClassificationError::NonTrivialSlice),
            Err(e) => Err(e),
        },
        BindgenTypeDescriptor::Struct(s) => Ok(
            BindingView::Simple(TypeView::Struct(IdentView::Named(s.name@))),
        ),
    }
}

pub fn int_cs_type(width: u8, signed: bool) -> (r: Option<ast::CSharpType>)
    ensures
        match int_view(width, signed) {
            Some(t) => r is Some && r->Some_0@ == t,
            None => r is None,
        },
{
    match (width, signed) {
        (8, false) => Some(ast::CSharpType::Byte),
        (16, false) => Some(ast::CSharpType::UInt16),
        (32, false) => Some(ast::CSharpType::UInt32),
        (64, false) => Some(ast::CSharpType::UInt64),
        (8, true) => Some(ast::CSharpType::SByte),
        (16, true) => Some(ast::CSharpType::Int16),
        (32, true) => Some(ast::CSharpType::Int32),
        (64, true) => Some(ast::CSharpType::Int64),
        _ => None,
    }
}

/// The native type, and for a complex type the idiomatic one, of a
/// descriptor.
fn classify_types(d: &BindgenTypeDescriptor) -> (r: Result<
    (ast::CSharpType, Option<ast::CSharpType>),
    ClassificationError,
>)
    ensures
        match classify_view(*d) {
            Ok(BindingView::Simple(t)) => r is Ok && r->Ok_0.0@ == t && r->Ok_0.1 is None,
            Ok(BindingView::Complex(n, i)) => r is Ok && r->Ok_0.0@ == n && r->Ok_0.1 is Some
                && r->Ok_0.1->Some_0@ == i,
            Err(e) => r == Err::<(ast::CSharpType, Option<ast::CSharpType>), _>(e),
        },
    decreases d,
{
    match d {
        BindgenTypeDescriptor::Void => Ok((ast::CSharpType::Void, None)),
        BindgenTypeDescriptor::Int { width, signed } => match int_cs_type(*width, *signed) {
            Some(t) => Ok((t, None)),
            None => Err(ClassificationError::UnrecognizedType),
        },
        BindgenTypeDescriptor::Bool => Ok((ast::CSharpType::Byte, Some(ast::CSharpType::Bool))),
        BindgenTypeDescriptor::Slice { elem_type } => match classify_types(elem_type) {
            Ok((t, None)) => Ok(
                (
                    ast::CSharpType::Struct { name: ast::Ident::new("SliceAbi") },
                    Some(ast::CSharpType::Array { elem_type: Box::new(t) }),
                ),
            ),
            Ok((_, Some(_))) => Err(ClassificationError::NonTrivialSlice),
            Err(e) => Err(e),
        },
        BindgenTypeDescriptor::Struct(s) => Ok(
            (ast::CSharpType::Struct { name: ast::Ident(s.name.clone()) }, None),
        ),
    }
}

impl BindingType {
    /// Classifies a descriptor type as simple or complex.
    pub fn try_from(descriptor: BindgenTypeDescriptor) -> (r: Result<
        BindingType,
        ClassificationError,
    >)
        ensures
            match classify_view(descriptor) {
                Ok(v) => r is Ok && r->Ok_0@ == v && r->Ok_0.descriptor() == descriptor && (
                r->Ok_0 is Simple ==> r->Ok_0->Simple_0.descriptor is Some),
                Err(e) => r == Err::<BindingType, _>(e),
            },
    {
        match classify_types(&descriptor) {
            Ok((t, None)) => Ok(
                BindingType::Simple(SimpleBindingType { descriptor: Some(descriptor), cs_type: t }),
            ),
            Ok((n, Some(i))) => Ok(
                BindingType::Complex(
                    ComplexBindingType { descriptor, thunk_type: n, idiomatic_type: i },
                ),
            ),
            Err(e) => Err(e),
        }
    }

    pub open spec fn descriptor(&self) -> BindgenTypeDescriptor {
        match self {
            BindingType::Simple(s) => s.descriptor->Some_0,
            BindingType::Complex(c) => c.descriptor,
        }
    }

    /// The type in the external declaration.
    pub fn native_type(&self) -> (r: ast::CSharpType)
        ensures
            r@ == native_view(self@),
    {
        match self {
            BindingType::Simple(s) => s.cs_type.copy(),
            BindingType::Complex(c) => c.thunk_type.copy(),
        }
    }

    /// The type in the wrapper's signature.
    pub fn idiomatic_type(&self) -> (r: ast::CSharpType)
        ensures
            r@ == idiomatic_view(self@),
    {
        match self {
            BindingType::Simple(s) => s.cs_type.copy(),
            BindingType::Complex(c) => c.idiomatic_type.copy(),
        }
    }
}


/// The name of a variable before it is resolved: written by hand, or a
/// number that is unique within one method body.
#[derive(Debug)]
pub enum AbstractIdent {
    Explicit(String),
    Generated(u32),
}

impl View for AbstractIdent {
    type V = IdentView;

    open spec fn view(&self) -> IdentView {
        match self {
            AbstractIdent::Explicit(s) => IdentView::Named(s@),
            AbstractIdent::Generated(n) => IdentView::Generated(*n as int),
        }
    }
}

pub open spec fn gen_id(i: IdentView) -> Option<int> {
    match i {
        IdentView::Generated(n) => Some(n),
        IdentView::Named(_) => None,
    }
}

pub open spec fn shift_ident(i: IdentView, offset: int) -> IdentView {
    match i {
        IdentView::Generated(n) => IdentView::Generated(n + offset),
        IdentView::Named(s) => IdentView::Named(s),
    }
}

impl AbstractIdent {
    pub fn generated_id(&self) -> (r: Option<u32>)
        ensures
            match r {
                Some(n) => gen_id(self@) == Some(n as int),
                None => gen_id(self@) is None,
            },
    {
        match self {
            AbstractIdent::Explicit(_) => None,
            AbstractIdent::Generated(x) => Some(*x),
        }
    }

    pub fn copy(&self) -> (r: AbstractIdent)
        ensures
            r@ == self@,
    {
        match self {
            AbstractIdent::Explicit(s) => AbstractIdent::Explicit(s.clone()),
            AbstractIdent::Generated(x) => AbstractIdent::Generated(*x),
        }
    }

    pub fn shifted(&self, offset: u32) -> (r: AbstractIdent)
        requires
            gen_id(self@) is Some ==> gen_id(self@)->Some_0 + offset <= u32::MAX,
        ensures
            r@ == shift_ident(self@, offset as int),
    {
        match self {
            AbstractIdent::Explicit(s) => AbstractIdent::Explicit(s.clone()),
            AbstractIdent::Generated(x) => AbstractIdent::Generated(*x + offset),
        }
    }

    pub fn apply_abstract_id_offset(&mut self, offset: u32)
        requires
            gen_id(old(self)@) is Some ==> gen_id(old(self)@)->Some_0 + offset <= u32::MAX,
        ensures
            final(self)@ == shift_ident(old(self)@, offset as int),
    {
        let r = self.shifted(offset);
        *self = r;
    }

    /// The identifier that this one resolves to.
    pub fn to_concrete_ident(&self) -> (r: ast::Ident)
        ensures
            r.0@ == crate::level_1::ident_text(self@),
    {
        match self {
            AbstractIdent::Explicit(name) => ast::Ident(name.clone()),
            AbstractIdent::Generated(idx) => {
                let mut out = String::from_str("_gen");
                proof {
                    reveal_strlit("_gen");
                }
                crate::text::push_int_text(&mut out, *idx as i64);
                ast::Ident(out)
            },
        }
    }
}

#[derive(Debug, Clone, Copy, PartialEq, Eq, Structural)]
pub enum BinaryOperation {
    NotEqual,
}

impl BinaryOperation {
    pub fn sym(&self) -> (r: &'static str)
        ensures
            r@ == "!="@,
    {
        match self {
            BinaryOperation::NotEqual => "!=",
        }
    }
}

#[derive(Debug, Clone, Copy, PartialEq, Eq, Structural)]
pub enum LiteralValue {
    Number(i64),
}

/// An abstract part of a method body, roughly one node of the syntax tree.
#[derive(Debug)]
pub enum BodyElement {
    Ident(AbstractIdent),
    /// Declares a new local variable of the given type.
    DeclareLocal { id: AbstractIdent, ty: ast::CSharpType },
    /// Calls a method.
    MethodCall { method_name: String, args: Vec<AbstractIdent> },
    /// A field or property of a value, e.g. `foo.Length`.
    FieldAccess { element: Box<BodyElement>, field_name: String },
    /// An element of an array, e.g. `foo[12]`.
    IndexAccess { element: Box<BodyElement>, index: i32 },
    /// The address of a value.
    AddressOf { element: Box<BodyElement> },
    /// A value converted to a type.
    Cast { ty: ast::CSharpType, element: Box<BodyElement> },
    Assignment { lhs: Box<BodyElement>, rhs: Box<BodyElement> },
    /// Pins a value and binds its address; every following element lies in
    /// its scope.
    FixedAssignment { ty: ast::CSharpType, id: AbstractIdent, rhs: Box<BodyElement> },
    /// Every following element lies in an unsafe scope.
    Unsafe,
    Return { element: Option<Box<BodyElement>> },
    /// e.g. `a != b`
    BinaryExpression { lhs: Box<BodyElement>, rhs: Box<BodyElement>, operation: BinaryOperation },
    /// e.g. `test ? a : b`
    TernaryExpression {
        test: Box<BodyElement>,
        true_branch: Box<BodyElement>,
        false_branch: Box<BodyElement>,
    },
    LiteralValue(LiteralValue),
}

/// The model of a body element.
pub enum ElemView {
    Ident(IdentView),
    DeclareLocal(IdentView, TypeView),
    MethodCall(Seq<char>, Seq<IdentView>),
    FieldAccess(Box<ElemView>, Seq<char>),
    IndexAccess(Box<ElemView>, int),
    AddressOf(Box<ElemView>),
    Cast(TypeView, Box<ElemView>),
    Assignment(Box<ElemView>, Box<ElemView>),
    FixedAssignment(TypeView, IdentView, Box<ElemView>),
    Unsafe,
    Return(Option<Box<ElemView>>),
    BinaryExpression(Box<ElemView>, Box<ElemView>, BinaryOperation),
    TernaryExpression(Box<ElemView>, Box<ElemView>, Box<ElemView>),
    LiteralValue(int),
}

pub open spec fn idents_view(s: Seq<AbstractIdent>) -> Seq<IdentView> {
    s.map_values(|a: AbstractIdent| a@)
}

pub open spec fn elem_view(e: BodyElement) -> ElemView
    decreases e,
{
    match e {
        BodyElement::Ident(i) => ElemView::Ident(i@),
        BodyElement::DeclareLocal { id, ty } => ElemView::DeclareLocal(id@, ty@),
        BodyElement::MethodCall { method_name, args } => ElemView::MethodCall(
            method_name@,
            idents_view(args@),
        ),
        BodyElement::FieldAccess { element, field_name } => ElemView::FieldAccess(
            Box::new(elem_view(*element)),
            field_name@,
        ),
        BodyElement::IndexAccess { element, index } => ElemView::IndexAccess(
            Box::new(elem_view(*element)),
            index as int,
        ),
        BodyElement::AddressOf { element } => ElemView::AddressOf(Box::new(elem_view(*element))),
        BodyElement::Cast { ty, element } => ElemView::Cast(ty@, Box::new(elem_view(*element))),
        BodyElement::Assignment { lhs, rhs } => ElemView::Assignment(
            Box::new(elem_view(*lhs)),
            Box::new(elem_view(*rhs)),
        ),
        BodyElement::FixedAssignment { ty, id, rhs } => ElemView::FixedAssignment(
            ty@,
            id@,
            Box::new(elem_view(*rhs)),
        ),
        BodyElement::Unsafe => ElemView::Unsafe,
        BodyElement::Return { element } => ElemView::Return(
            match element {
                Some(b) => Some(Box::new(elem_view(*b))),
                None => None,
            },
        ),
        BodyElement::BinaryExpression { lhs, rhs, operation } => ElemView::BinaryExpression(
            Box::new(elem_view(*lhs)),
            Box::new(elem_view(*rhs)),
            operation,
        ),
        BodyElement::TernaryExpression { test, true_branch, false_branch } => ElemView::TernaryExpression(
            Box::new(elem_view(*test)),
            Box::new(elem_view(*true_branch)),
            Box::new(elem_view(*false_branch)),
        ),
        BodyElement::LiteralValue(LiteralValue::Number(n)) => ElemView::LiteralValue(n as int),
    }
}

impl View for BodyElement {
    type V = ElemView;

    open spec fn view(&self) -> ElemView {
        elem_view(*self)
    }
}

pub open spec fn omax(a: Option<int>, b: Option<int>) -> Option<int> {
    match (a, b) {
        (Some(x), Some(y)) => Some(if x >= y { x } else { y }),
        (Some(x), None) => Some(x),
        (None, y) => y,
    }
}

pub open spec fn idents_max(s: Seq<IdentView>) -> Option<int>
    decreases s.len(),
{
    if s.len() == 0 {
        None
    } else {
        omax(idents_max(s.drop_last()), gen_id(s.last()))
    }
}

/// The greatest generated id in an element, if it has any.
pub open spec fn max_id(v: ElemView) -> Option<int>
    decreases v,
{
    match v {
        ElemView::Ident(i) => gen_id(i),
        ElemView::DeclareLocal(i, _) => gen_id(i),
        ElemView::MethodCall(_, args) => idents_max(args),
        ElemView::FieldAccess(e, _) => max_id(*e),
        ElemView::IndexAccess(e, _) => max_id(*e),
        ElemView::AddressOf(e) => max_id(*e),
        ElemView::Cast(_, e) => max_id(*e),
        ElemView::Assignment(l, r) => omax(max_id(*l), max_id(*r)),
        ElemView::FixedAssignment(_, i, r) => omax(gen_id(i), max_id(*r)),
        ElemView::Unsafe => None,
        ElemView::Return(Some(e)) => max_id(*e),
        ElemView::Return(None) => None,
        ElemView::BinaryExpression(l, r, _) => omax(max_id(*l), max_id(*r)),
        ElemView::TernaryExpression(t, a, b) => omax(omax(max_id(*t), max_id(*a)), max_id(*b)),
        ElemView::LiteralValue(_) => None,
    }
}

pub open spec fn shift_idents(s: Seq<IdentView>, offset: int) -> Seq<IdentView> {
    s.map_values(|a: IdentView| shift_ident(a, offset))
}

/// The element with every generated id raised by `offset`.
pub open spec fn shift_view(v: ElemView, offset: int) -> ElemView
    decreases v,
{
    match v {
        ElemView::Ident(i) => ElemView::Ident(shift_ident(i, offset)),
        ElemView::DeclareLocal(i, t) => ElemView::DeclareLocal(shift_ident(i, offset), t),
        ElemView::MethodCall(m, args) => ElemView::MethodCall(
            m,
            shift_idents(args, offset),
        ),
        ElemView::FieldAccess(e, f) => ElemView::FieldAccess(Box::new(shift_view(*e, offset)), f),
        ElemView::IndexAccess(e, i) => ElemView::IndexAccess(Box::new(shift_view(*e, offset)), i),
        ElemView::AddressOf(e) => ElemView::AddressOf(Box::new(shift_view(*e, offset))),
        ElemView::Cast(t, e) => ElemView::Cast(t, Box::new(shift_view(*e, offset))),
        ElemView::Assignment(l, r) => ElemView::Assignment(
            Box::new(shift_view(*l, offset)),
            Box::new(shift_view(*r, offset)),
        ),
        ElemView::FixedAssignment(t, i, r) => ElemView::FixedAssignment(
            t,
            shift_ident(i, offset),
            Box::new(shift_view(*r, offset)),
        ),
        ElemView::Unsafe => ElemView::Unsafe,
        ElemView::Return(Some(e)) => ElemView::Return(Some(Box::new(shift_view(*e, offset)))),
        ElemView::Return(None) => ElemView::Return(None),
        ElemView::BinaryExpression(l, r, o) => ElemView::BinaryExpression(
            Box::new(shift_view(*l, offset)),
            Box::new(shift_view(*r, offset)),
            o,
        ),
        ElemView::TernaryExpression(t, a, b) => ElemView::TernaryExpression(
            Box::new(shift_view(*t, offset)),
            Box::new(shift_view(*a, offset)),
            Box::new(shift_view(*b, offset)),
        ),
        ElemView::LiteralValue(n) => ElemView::LiteralValue(n),
    }
}

/// The set of generated ids that an element uses.
pub open spec fn elem_ids(v: ElemView) -> Set<int>
    decreases v,
{
    match v {
        ElemView::Ident(i) => ident_ids(i),
        ElemView::DeclareLocal(i, _) => ident_ids(i),
        ElemView::MethodCall(_, args) => idents_ids(args),
        ElemView::FieldAccess(e, _) => elem_ids(*e),
        ElemView::IndexAccess(e, _) => elem_ids(*e),
        ElemView::AddressOf(e) => elem_ids(*e),
        ElemView::Cast(_, e) => elem_ids(*e),
        ElemView::Assignment(l, r) => elem_ids(*l) + elem_ids(*r),
        ElemView::FixedAssignment(_, i, r) => ident_ids(i) + elem_ids(*r),
        ElemView::Unsafe => Set::empty(),
        ElemView::Return(Some(e)) => elem_ids(*e),
        ElemView::Return(None) => Set::empty(),
        ElemView::BinaryExpression(l, r, _) => elem_ids(*l) + elem_ids(*r),
        ElemView::TernaryExpression(t, a, b) => elem_ids(*t) + elem_ids(*a) + elem_ids(*b),
        ElemView::LiteralValue(_) => Set::empty(),
    }
}

pub open spec fn ident_ids(i: IdentView) -> Set<int> {
    match i {
        IdentView::Generated(n) => set![n],
        IdentView::Named(_) => Set::empty(),
    }
}

pub open spec fn idents_ids(s: Seq<IdentView>) -> Set<int>
    decreases s.len(),
{
    if s.len() == 0 {
        Set::empty()
    } else {
        idents_ids(s.drop_last()) + ident_ids(s.last())
    }
}

/// Whether every element after this one lies in a new scope of its own.
pub open spec fn opens_scope(v: ElemView) -> bool {
    v is FixedAssignment || v is Unsafe
}

/// Whether the element stands as a statement of its own, without a `;`
/// added.
pub open spec fn top_level(v: ElemView) -> bool {
    v is DeclareLocal || v is FixedAssignment || v is Unsafe || v is Return
}

fn idents_max_exec(args: &Vec<AbstractIdent>) -> (r: Option<u32>)
    ensures
        match r {
            Some(n) => idents_max(idents_view(args@)) == Some(n as int),
            None => idents_max(idents_view(args@)) is None,
        },
{
    let ghost v = idents_view(args@);
    let mut best: Option<u32> = None;
    let mut i: usize = 0;
    while i < args.len()
        invariant
            i <= args@.len(),
            v == idents_view(args@),
            v.len() == args@.len(),
            match best {
                Some(n) => idents_max(v.take(i as int)) == Some(n as int),
                None => idents_max(v.take(i as int)) is None,
            },
        decreases args.len() - i,
    {
        assert(v.take(i + 1).drop_last() =~= v.take(i as int));
        let g = args[i].generated_id();
        best = match (best, g) {
            (Some(x), Some(y)) => Some(if x >= y { x } else { y }),
            (Some(x), None) => Some(x),
            (None, y) => y,
        };
        i = i + 1;
    }
    assert(v.take(args@.len() as int) =~= v);
    best
}

fn omax_exec(a: Option<u32>, b: Option<u32>) -> (r: Option<u32>)
    ensures
        opt_int(r) == omax(opt_int(a), opt_int(b)),
{
    match (a, b) {
        (Some(x), Some(y)) => Some(if x >= y { x } else { y }),
        (Some(x), None) => Some(x),
        (None, y) => y,
    }
}

pub open spec fn opt_int(o: Option<u32>) -> Option<int> {
    match o {
        Some(n) => Some(n as int),
        None => None,
    }
}

pub open spec fn fits_offset(v: ElemView, offset: int) -> bool {
    max_id(v) is Some ==> max_id(v)->Some_0 + offset <= u32::MAX
}

proof fn lemma_idents_max_bound(s: Seq<IdentView>, i: int)
    requires
        0 <= i < s.len(),
        gen_id(s[i]) is Some,
    ensures
        idents_max(s) is Some,
        gen_id(s[i])->Some_0 <= idents_max(s)->Some_0,
    decreases s.len(),
{
    if i < s.len() - 1 {
        lemma_idents_max_bound(s.drop_last(), i);
    }
}

impl BodyElement {
    /// The greatest generated id in this element, if it has any.
    pub fn max_abstract_id(&self) -> (r: Option<u32>)
        ensures
            opt_int(r) == max_id(self@),
        decreases self,
    {
        match self {
            BodyElement::Ident(id) => id.generated_id(),
            BodyElement::DeclareLocal { id, ty: _ } => id.generated_id(),
            BodyElement::MethodCall { method_name: _, args } => idents_max_exec(args),
            BodyElement::FieldAccess { element, field_name: _ } => element.max_abstract_id(),
            BodyElement::IndexAccess { element, index: _ } => element.max_abstract_id(),
            BodyElement::AddressOf { element } => element.max_abstract_id(),
            BodyElement::Cast { ty: _, element } => element.max_abstract_id(),
            BodyElement::Assignment { lhs, rhs } => omax_exec(
                lhs.max_abstract_id(),
                rhs.max_abstract_id(),
            ),
            BodyElement::FixedAssignment { ty: _, id, rhs } => omax_exec(
                id.generated_id(),
                rhs.max_abstract_id(),
            ),
            BodyElement::Unsafe => None,
            BodyElement::Return { element: Some(element) } => element.max_abstract_id(),
            BodyElement::Return { element: None } => None,
            BodyElement::BinaryExpression { lhs, rhs, operation: _ } => omax_exec(
                lhs.max_abstract_id(),
                rhs.max_abstract_id(),
            ),
            BodyElement::TernaryExpression { test, true_branch, false_branch } => omax_exec(
                omax_exec(test.max_abstract_id(), true_branch.max_abstract_id()),
                false_branch.max_abstract_id(),
            ),
            BodyElement::LiteralValue(_) => None,
        }
    }

    /// This element with every generated id raised by `offset`.
    pub fn shifted(self, offset: u32) -> (r: BodyElement)
        requires
            fits_offset(self@, offset as int),
        ensures
            r@ == shift_view(self@, offset as int),
        decreases self,
    {
        match self {
            BodyElement::Ident(id) => BodyElement::Ident(id.shifted(offset)),
            BodyElement::DeclareLocal { id, ty } => BodyElement::DeclareLocal {
                id: id.shifted(offset),
                ty,
            },
            BodyElement::MethodCall { method_name, args } => {
                let ghost v = idents_view(args@);
                let mut out: Vec<AbstractIdent> = Vec::new();
                let mut i: usize = 0;
                while i < args.len()
                    invariant
                        i <= args@.len(),
                        v == idents_view(args@),
                        idents_max(v) is Some ==> idents_max(v)->Some_0 + offset <= u32::MAX,
                        idents_view(out@) =~= v.take(i as int).map_values(
                            |a: IdentView| shift_ident(a, offset as int),
                        ),
                    decreases args.len() - i,
                {
                    proof {
                        if gen_id(v[i as int]) is Some {
                            lemma_idents_max_bound(v, i as int);
                        }
                    }
                    let a = args[i].shifted(offset);
                    let ghost prev = out@;
                    out.push(a);
                    assert(idents_view(out@) =~= idents_view(prev).push(a@));
                    assert(v.take(i + 1).map_values(|a: IdentView| shift_ident(a, offset as int))
                        =~= v.take(i as int).map_values(
                        |a: IdentView| shift_ident(a, offset as int),
                    ).push(shift_ident(v[i as int], offset as int)));
                    i = i + 1;
                }
                assert(v.take(args@.len() as int) =~= v);
                BodyElement::MethodCall { method_name, args: out }
            },
            BodyElement::FieldAccess { element, field_name } => BodyElement::FieldAccess {
                element: Box::new((*element).shifted(offset)),
                field_name,
            },
            BodyElement::IndexAccess { element, index } => BodyElement::IndexAccess {
                element: Box::new((*element).shifted(offset)),
                index,
            },
            BodyElement::AddressOf { element } => BodyElement::AddressOf {
                element: Box::new((*element).shifted(offset)),
            },
            BodyElement::Cast { ty, element } => BodyElement::Cast {
                ty,
                element: Box::new((*element).shifted(offset)),
            },
            BodyElement::Assignment { lhs, rhs } => BodyElement::Assignment {
                lhs: Box::new((*lhs).shifted(offset)),
                rhs: Box::new((*rhs).shifted(offset)),
            },
            BodyElement::FixedAssignment { ty, id, rhs } => BodyElement::FixedAssignment {
                ty,
                id: id.shifted(offset),
                rhs: Box::new((*rhs).shifted(offset)),
            },
            BodyElement::Unsafe => BodyElement::Unsafe,
            BodyElement::Return { element: Some(element) } => BodyElement::Return {
                element: Some(Box::new((*element).shifted(offset))),
            },
            BodyElement::Return { element: None } => BodyElement::Return { element: None },
            BodyElement::BinaryExpression { lhs, rhs, operation } => BodyElement::BinaryExpression {
                lhs: Box::new((*lhs).shifted(offset)),
                rhs: Box::new((*rhs).shifted(offset)),
                operation,
            },
            BodyElement::TernaryExpression { test, true_branch, false_branch } => {
                BodyElement::TernaryExpression {
                    test: Box::new((*test).shifted(offset)),
                    true_branch: Box::new((*true_branch).shifted(offset)),
                    false_branch: Box::new((*false_branch).shifted(offset)),
                }
            },
            BodyElement::LiteralValue(v) => BodyElement::LiteralValue(v),
        }
    }

    /// Raises every generated id in this element by `offset`.
    pub fn apply_abstract_id_offset(&mut self, offset: u32)
        requires
            fits_offset(old(self)@, offset as int),
        ensures
            final(self)@ == shift_view(old(self)@, offset as int),
    {
        let mut taken = BodyElement::Unsafe;
        core::mem::swap(self, &mut taken);
        *self = taken.shifted(offset);
    }

    pub fn requires_new_scope(&self) -> (r: bool)
        ensures
            r == opens_scope(self@),
    {
        match self {
            BodyElement::FixedAssignment { .. } => true,
            BodyElement::Unsafe => true,
            _ => false,
        }
    }

    pub fn is_top_level(&self) -> (r: bool)
        ensures
            r == top_level(self@),
    {
        match self {
            BodyElement::DeclareLocal { .. } => true,
            BodyElement::FixedAssignment { .. } => true,
            BodyElement::Unsafe => true,
            BodyElement::Return { .. } => true,
            _ => false,
        }
    }
}


/// An argument of a bound method.
#[derive(Debug)]
pub struct BindingMethodArgument {
    pub ty: BindingType,
    /// The name in the native source.
    pub rust_name: String,
    /// The name in the wrapper: the native name in mixed case.
    pub cs_name: String,
}

impl BindingMethodArgument {
    /// The type of the argument is the classification of its descriptor.
    pub open spec fn wf(&self) -> bool {
        &&& classify_view(self.ty.descriptor()) == Ok::<BindingView, ClassificationError>(self.ty@)
        &&& (self.ty is Simple ==> self.ty->Simple_0.descriptor is Some)
    }

    pub fn try_from(descriptor: BindgenFunctionArgumentDescriptor) -> (r: Result<
        BindingMethodArgument,
        ClassificationError,
    >)
        ensures
            match classify_view(descriptor.ty) {
                Ok(v) => r is Ok && r->Ok_0.wf() && r->Ok_0.ty@ == v && r->Ok_0.ty.descriptor()
                    == descriptor.ty && r->Ok_0.rust_name@ == descriptor.name@
                    && r->Ok_0.cs_name@ == mixed_case_of(descriptor.name@),
                Err(e) => r == Err::<BindingMethodArgument, _>(e),
            },
    {
        let cs_name = to_mixed_case(descriptor.name.as_str());
        let rust_name = descriptor.name;
        match BindingType::try_from(descriptor.ty) {
            Ok(ty) => Ok(BindingMethodArgument { ty, rust_name, cs_name }),
            Err(e) => Err(e),
        }
    }
}

/// The model of a conversion fragment: its elements, and the identifier that
/// holds the converted value.
pub struct FragView {
    pub elements: Seq<ElemView>,
    pub output: IdentView,
}

pub open spec fn ident_elem(i: IdentView) -> Box<ElemView> {
    Box::new(ElemView::Ident(i))
}

/// `byte g0; g0 = src ? (byte) 1 : (byte) 0;`
pub open spec fn bool_fragment(src: Seq<char>) -> FragView {
    FragView {
        elements: seq![
            ElemView::DeclareLocal(IdentView::Generated(0), TypeView::Byte),
            ElemView::Assignment(
                ident_elem(IdentView::Generated(0)),
                Box::new(
                    ElemView::TernaryExpression(
                        ident_elem(IdentView::Named(src)),
                        Box::new(ElemView::Cast(TypeView::Byte, Box::new(ElemView::LiteralValue(1)))),
                        Box::new(ElemView::Cast(TypeView::Byte, Box::new(ElemView::LiteralValue(0)))),
                    ),
                ),
            ),
        ],
        output: IdentView::Generated(0),
    }
}

/// Declares a record `g0`, sets its length from the array `src`, opens an
/// unsafe scope, pins `src` with `g1` bound to the address of its first
/// element, and inside the pinned scope sets the record's pointer from `g1`.
pub open spec fn slice_fragment(src: Seq<char>, elem: TypeView) -> FragView {
    FragView {
        elements: seq![
            ElemView::DeclareLocal(IdentView::Generated(0), slice_abi_view()),
            ElemView::Assignment(
                Box::new(ElemView::FieldAccess(ident_elem(IdentView::Generated(0)), "Len"@)),
                Box::new(
                    ElemView::Cast(
                        TypeView::UInt64,
                        Box::new(ElemView::FieldAccess(ident_elem(IdentView::Named(src)), "Length"@)),
                    ),
                ),
            ),
            ElemView::Unsafe,
            ElemView::FixedAssignment(
                TypeView::Ptr(Box::new(elem)),
                IdentView::Generated(1),
                Box::new(
                    ElemView::AddressOf(
                        Box::new(ElemView::IndexAccess(ident_elem(IdentView::Named(src)), 0)),
                    ),
                ),
            ),
            ElemView::Assignment(
                Box::new(ElemView::FieldAccess(ident_elem(IdentView::Generated(0)), "Ptr"@)),
                Box::new(
                    ElemView::Cast(
                        TypeView::Struct(IdentView::Named("IntPtr"@)),
                        ident_elem(IdentView::Generated(1)),
                    ),
                ),
            ),
        ],
        output: IdentView::Generated(0),
    }
}

pub open spec fn array_elem(t: TypeView) -> TypeView {
    match t {
        TypeView::Array(e) => *e,
        _ => t,
    }
}

/// The conversion fragment of an argument: nothing for a simple type.
pub open spec fn arg_fragment(a: BindingMethodArgument) -> FragView {
    match a.ty@ {
        BindingView::Simple(_) => FragView {
            elements: Seq::empty(),
            output: IdentView::Named(a.cs_name@),
        },
        BindingView::Complex(_, i) => if a.ty.descriptor() is Bool {
            bool_fragment(a.cs_name@)
        } else {
            slice_fragment(a.cs_name@, array_elem(i))
        },
    }
}

/// The statements that convert one argument, and the identifier that holds
/// the converted value.
#[derive(Debug)]
pub struct ArgTransformBodyFragment {
    pub elements: Vec<BodyElement>,
    pub output_ident: AbstractIdent,
}

pub open spec fn elems_view(s: Seq<BodyElement>) -> Seq<ElemView> {
    s.map_values(|e: BodyElement| e@)
}

impl View for ArgTransformBodyFragment {
    type V = FragView;

    open spec fn view(&self) -> FragView {
        FragView { elements: elems_view(self.elements@), output: self.output_ident@ }
    }
}

pub open spec fn elems_max(s: Seq<ElemView>) -> Option<int>
    decreases s.len(),
{
    if s.len() == 0 {
        None
    } else {
        omax(elems_max(s.drop_last()), max_id(s.last()))
    }
}

pub open spec fn frag_max(f: FragView) -> Option<int> {
    elems_max(f.elements)
}

/// The output identifier is declared among the fragment's elements.
pub open spec fn frag_wf(f: FragView) -> bool {
    gen_id(f.output) is Some ==> (frag_max(f) is Some && gen_id(f.output)->Some_0 <= frag_max(
        f,
    )->Some_0)
}

pub open spec fn shift_elems(s: Seq<ElemView>, offset: int) -> Seq<ElemView> {
    s.map_values(|e: ElemView| shift_view(e, offset))
}

pub open spec fn shift_frag(f: FragView, offset: int) -> FragView {
    FragView {
        elements: shift_elems(f.elements, offset),
        output: shift_ident(f.output, offset),
    }
}

proof fn lemma_elems_max_bound(s: Seq<ElemView>, i: int)
    requires
        0 <= i < s.len(),
        max_id(s[i]) is Some,
    ensures
        elems_max(s) is Some,
        max_id(s[i])->Some_0 <= elems_max(s)->Some_0,
    decreases s.len(),
{
    if i < s.len() - 1 {
        lemma_elems_max_bound(s.drop_last(), i);
    }
}

impl ArgTransformBodyFragment {
    /// The greatest generated id that the fragment uses, if any.
    pub fn max_abstract_id(&self) -> (r: Option<u32>)
        requires
            frag_wf(self@),
        ensures
            opt_int(r) == frag_max(self@),
    {
        let ghost v = elems_view(self.elements@);
        let mut best: Option<u32> = None;
        let mut i: usize = 0;
        while i < self.elements.len()
            invariant
                i <= self.elements@.len(),
                v == elems_view(self.elements@),
                opt_int(best) == elems_max(v.take(i as int)),
            decreases self.elements.len() - i,
        {
            assert(v.take(i + 1).drop_last() =~= v.take(i as int));
            best = omax_exec(best, self.elements[i].max_abstract_id());
            i = i + 1;
        }
        assert(v.take(self.elements@.len() as int) =~= v);
        best
    }

    /// Raises every generated id in the fragment by `offset`.
    pub fn apply_abstract_id_offset(&mut self, offset: u32)
        requires
            frag_wf(old(self)@),
            frag_max(old(self)@) is Some ==> frag_max(old(self)@)->Some_0 + offset <= u32::MAX,
        ensures
            final(self)@ == shift_frag(old(self)@, offset as int),
    {
        let ghost v = elems_view(self.elements@);
        let mut out: Vec<BodyElement> = Vec::new();
        let mut rest = Vec::new();
        core::mem::swap(&mut rest, &mut self.elements);
        let ghost orig = rest@;
        let mut i: usize = 0;
        // Take the elements from the back and restore their order after.
        while rest.len() > 0
            invariant
                v == elems_view(orig),
                rest@ == orig.take(rest@.len() as int),
                rest@.len() + out@.len() == orig.len(),
                frag_max(FragView { elements: v, output: IdentView::Named(Seq::empty()) }) is Some
                    ==> elems_max(v)->Some_0 + offset <= u32::MAX,
                forall|k: int|
                    0 <= k < out@.len() ==> #[trigger] out@[k]@ == shift_view(
                        v[orig.len() - 1 - k],
                        offset as int,
                    ),
            decreases rest@.len(),
        {
            let e = rest.pop().unwrap();
            proof {
                let idx = rest@.len() as int;
                assert(e == orig[idx]);
                if max_id(v[idx]) is Some {
                    lemma_elems_max_bound(v, idx);
                }
            }
            out.push(e.shifted(offset));
        }
        let mut elements: Vec<BodyElement> = Vec::new();
        while out.len() > 0
            invariant
                v == elems_view(orig),
                elements@.len() + out@.len() == orig.len(),
                forall|k: int|
                    0 <= k < out@.len() ==> #[trigger] out@[k]@ == shift_view(
                        v[orig.len() - 1 - k],
                        offset as int,
                    ),
                forall|k: int|
                    0 <= k < elements@.len() ==> #[trigger] elements@[k]@ == shift_view(
                        v[k],
                        offset as int,
                    ),
            decreases out@.len(),
        {
            let e = out.pop().unwrap();
            elements.push(e);
        }
        self.elements = elements;
        proof {
            if gen_id(self.output_ident@) is Some {
                assert(frag_max(old(self)@) is Some);
            }
        }
        self.output_ident.apply_abstract_id_offset(offset);
        assert(elems_view(self.elements@) =~= v.map_values(|e: ElemView| shift_view(e, offset as int)));
    }
}

impl BindingMethodArgument {
    /// The fragment that converts this argument from its idiomatic type to
    /// its native one.
    pub fn transform_body_fragment(&self) -> (r: ArgTransformBodyFragment)
        requires
            self.wf(),
        ensures
            r@ == arg_fragment(*self),
    {
        match &self.ty {
            BindingType::Simple(_) => {
                let r = ArgTransformBodyFragment {
                    elements: Vec::new(),
                    output_ident: AbstractIdent::Explicit(self.cs_name.clone()),
                };
                assert(elems_view(r.elements@) =~= Seq::<ElemView>::empty());
                r
            },
            BindingType::Complex(complex_ty) => {
                let elements = match &complex_ty.descriptor {
                    BindgenTypeDescriptor::Bool => bool_elements(&self.cs_name),
                    _ => {
                        let elem_type = match &complex_ty.idiomatic_type {
                            ast::CSharpType::Array { elem_type } => elem_type.copy(),
                            other => other.copy(),
                        };
                        assert(elem_type@ == array_elem(complex_ty.idiomatic_type@));
                        slice_elements(&self.cs_name, elem_type)
                    },
                };
                let r = ArgTransformBodyFragment { elements, output_ident: AbstractIdent::Generated(0) };
                assert(r@.elements == arg_fragment(*self).elements);
                assert(r@.output == arg_fragment(*self).output);
                r
            },
        }
    }
}

fn source_ident(name: &String) -> (r: Box<BodyElement>)
    ensures
        r@ == ElemView::Ident(IdentView::Named(name@)),
{
    Box::new(BodyElement::Ident(AbstractIdent::Explicit(name.clone())))
}

fn generated(n: u32) -> (r: Box<BodyElement>)
    ensures
        r@ == ElemView::Ident(IdentView::Generated(n as int)),
{
    Box::new(BodyElement::Ident(AbstractIdent::Generated(n)))
}

fn boxed(e: BodyElement) -> (r: Box<BodyElement>)
    ensures
        r@ == e@,
{
    Box::new(e)
}

fn mk_cast(ty: ast::CSharpType, element: Box<BodyElement>) -> (r: Box<BodyElement>)
    ensures
        r@ == ElemView::Cast(ty@, Box::new(element@)),
{
    Box::new(BodyElement::Cast { ty, element })
}

fn mk_assign(lhs: Box<BodyElement>, rhs: Box<BodyElement>) -> (r: BodyElement)
    ensures
        r@ == ElemView::Assignment(Box::new(lhs@), Box::new(rhs@)),
{
    BodyElement::Assignment { lhs, rhs }
}

fn byte_literal(n: i64) -> (r: Box<BodyElement>)
    ensures
        r@ == ElemView::Cast(TypeView::Byte, Box::new(ElemView::LiteralValue(n as int))),
{
    let lit = BodyElement::LiteralValue(LiteralValue::Number(n));
    assert(lit@ == ElemView::LiteralValue(n as int));
    mk_cast(ast::CSharpType::Byte, boxed(lit))
}

fn bool_elements(cs_name: &String) -> (r: Vec<BodyElement>)
    ensures
        elems_view(r@) == bool_fragment(cs_name@).elements,
{
    let declare = BodyElement::DeclareLocal { id: AbstractIdent::Generated(0), ty: ast::CSharpType::Byte };
    assert(declare@ == ElemView::DeclareLocal(IdentView::Generated(0), TypeView::Byte));
    let test = source_ident(cs_name);
    let t = byte_literal(1);
    let f = byte_literal(0);
    let ternary = BodyElement::TernaryExpression { test, true_branch: t, false_branch: f };
    assert(ternary@ == ElemView::TernaryExpression(Box::new(test@), Box::new(t@), Box::new(f@)));
    let assign = mk_assign(generated(0), boxed(ternary));
    let mut v = Vec::new();
    v.push(declare);
    v.push(assign);
    assert(elems_view(v@) =~= bool_fragment(cs_name@).elements);
    v
}

fn field_of(element: Box<BodyElement>, name: &str) -> (r: Box<BodyElement>)
    ensures
        r@ == ElemView::FieldAccess(Box::new(element@), name@),
{
    Box::new(BodyElement::FieldAccess { element, field_name: String::from_str(name) })
}

fn slice_elements(cs_name: &String, elem_type: ast::CSharpType) -> (r: Vec<BodyElement>)
    ensures
        elems_view(r@) == slice_fragment(cs_name@, elem_type@).elements,
{
    let ghost elem = elem_type@;
    let declare = BodyElement::DeclareLocal {
        id: AbstractIdent::Generated(0),
        ty: ast::CSharpType::Struct { name: ast::Ident::new("SliceAbi") },
    };
    assert(declare@ == ElemView::DeclareLocal(IdentView::Generated(0), slice_abi_view()));
    let len = mk_assign(
        field_of(generated(0), "Len"),
        mk_cast(ast::CSharpType::UInt64, field_of(source_ident(cs_name), "Length")),
    );
    let index = BodyElement::IndexAccess { element: source_ident(cs_name), index: 0 };
    assert(index@ == ElemView::IndexAccess(ident_elem(IdentView::Named(cs_name@)), 0));
    let address = BodyElement::AddressOf { element: boxed(index) };
    assert(address@ == ElemView::AddressOf(Box::new(index@)));
    let ptr_ty = ast::CSharpType::Ptr { target: Box::new(elem_type) };
    assert(ptr_ty@ == TypeView::Ptr(Box::new(elem)));
    let fixed = BodyElement::FixedAssignment {
        ty: ptr_ty,
        id: AbstractIdent::Generated(1),
        rhs: boxed(address),
    };
    assert(fixed@ == ElemView::FixedAssignment(
        TypeView::Ptr(Box::new(elem)),
        IdentView::Generated(1),
        Box::new(address@),
    ));
    let ptr = mk_assign(
        field_of(generated(0), "Ptr"),
        mk_cast(ast::CSharpType::intptr(), generated(1)),
    );
    let mut v = Vec::new();
    v.push(declare);
    v.push(len);
    v.push(BodyElement::Unsafe);
    v.push(fixed);
    v.push(ptr);
    assert(elems_view(v@) =~= slice_fragment(cs_name@, elem).elements);
    v
}


/// How far the ids of the fragments after this one are raised.
pub open spec fn step(f: FragView) -> int {
    match frag_max(f) {
        Some(m) => m + 1,
        None => 0,
    }
}

/// The offset that the fragment at `i` is raised by: the sum of the steps of
/// the fragments before it.
pub open spec fn offset_before(frags: Seq<FragView>, i: int) -> int
    decreases i,
{
    if i <= 0 {
        0
    } else {
        offset_before(frags, i - 1) + step(frags[i - 1])
    }
}

/// The fragment at `i` as it stands in the method body.
pub open spec fn placed(frags: Seq<FragView>, i: int) -> FragView {
    if frag_max(frags[i]) is Some {
        shift_frag(frags[i], offset_before(frags, i))
    } else {
        frags[i]
    }
}

pub open spec fn placed_elements(frags: Seq<FragView>, n: int) -> Seq<ElemView>
    decreases n,
{
    if n <= 0 {
        Seq::empty()
    } else {
        placed_elements(frags, n - 1) + placed(frags, n - 1).elements
    }
}

pub open spec fn placed_outputs(frags: Seq<FragView>, n: int) -> Seq<IdentView> {
    Seq::new(n as nat, |i: int| placed(frags, i).output)
}

pub open spec fn arg_fragments(args: Seq<BindingMethodArgument>) -> Seq<FragView> {
    args.map_values(|a: BindingMethodArgument| arg_fragment(a))
}

/// The body of a wrapper: the conversion fragments of its arguments, each
/// raised past the ids of those before it, then the call of the external
/// method with the converted values, returned when the method gives_value one.
pub open spec fn body_view(thunk: Seq<char>, gives_value: bool, frags: Seq<FragView>) -> Seq<ElemView> {
    let call = ElemView::MethodCall(thunk, placed_outputs(frags, frags.len() as int));
    placed_elements(frags, frags.len() as int) + seq![
        if gives_value {
            ElemView::Return(Some(Box::new(call)))
        } else {
            call
        },
    ]
}

proof fn lemma_arg_fragment_shape(a: BindingMethodArgument)
    ensures
        frag_wf(arg_fragment(a)),
        frag_max(arg_fragment(a)) is None || frag_max(arg_fragment(a)) == Some(0int)
            || frag_max(arg_fragment(a)) == Some(1int),
{
    reveal_with_fuel(elems_max, 6);
    reveal_with_fuel(max_id, 5);
    let f = arg_fragment(a);
    match a.ty@ {
        BindingView::Simple(_) => {
            assert(f.elements.len() == 0);
        },
        BindingView::Complex(_, i) => {
            if a.ty.descriptor() is Bool {
                let e = bool_fragment(a.cs_name@).elements;
                assert(e.drop_last().drop_last() =~= Seq::<ElemView>::empty());
                assert(max_id(e[0]) == Some(0int));
                assert(max_id(e[1]) == Some(0int));
                assert(e.drop_last().last() == e[0]);
            } else {
                let e = slice_fragment(a.cs_name@, array_elem(i)).elements;
                assert(max_id(e[0]) == Some(0int));
                assert(max_id(e[1]) == Some(0int));
                assert(max_id(e[2]) is None);
                assert(max_id(e[3]) == Some(1int));
                assert(max_id(e[4]) == Some(1int));
                let e4 = e.drop_last();
                let e3 = e4.drop_last();
                let e2 = e3.drop_last();
                let e1 = e2.drop_last();
                assert(e1.drop_last() =~= Seq::<ElemView>::empty());
                assert(e1.last() == e[0]);
                assert(e2.last() == e[1]);
                assert(e3.last() == e[2]);
                assert(e4.last() == e[3]);
            }
        },
    }
}

/// The statements of a wrapper method.
#[derive(Debug)]
pub struct BindingMethodBody {
    pub body_elements: Vec<BodyElement>,
}

impl BindingMethodBody {
    pub fn new(descriptor: &BindgenFunctionDescriptor, args: &Vec<BindingMethodArgument>) -> (r:
        BindingMethodBody)
        requires
            forall|i: int| 0 <= i < args@.len() ==> #[trigger] args@[i].wf(),
            args@.len() < 0x7fff_ffff,
        ensures
            elems_view(r.body_elements@) == body_view(
                descriptor.thunk_name@,
                !(descriptor.return_ty is Void),
                arg_fragments(args@),
            ),
    {
        let ghost frags = arg_fragments(args@);
        let mut offset: u32 = 0;
        let mut body: Vec<BodyElement> = Vec::new();
        let mut outputs: Vec<AbstractIdent> = Vec::new();
        let mut i: usize = 0;
        assert(elems_view(body@) =~= placed_elements(frags, 0));
        assert(idents_view(outputs@) =~= placed_outputs(frags, 0));
        while i < args.len()
            invariant
                i <= args@.len(),
                args@.len() < 0x7fff_ffff,
                frags == arg_fragments(args@),
                forall|k: int| 0 <= k < args@.len() ==> #[trigger] args@[k].wf(),
                offset == offset_before(frags, i as int),
                offset <= 2 * i,
                elems_view(body@) == placed_elements(frags, i as int),
                idents_view(outputs@) == placed_outputs(frags, i as int),
            decreases args.len() - i,
        {
            let mut frag = args[i].transform_body_fragment();
            proof {
                lemma_arg_fragment_shape(args@[i as int]);
                assert(frags[i as int] == frag@);
            }
            let ghost before = frag@;
            match frag.max_abstract_id() {
                Some(m) => {
                    frag.apply_abstract_id_offset(offset);
                    offset = offset + m + 1;
                },
                None => {},
            }
            assert(frag@ == placed(frags, i as int));
            let ghost out_v = frag@.output;
            let ArgTransformBodyFragment { elements, output_ident } = frag;
            assert(output_ident@ == out_v);
            let mut elements = elements;
            let ghost prev = body@;
            body.append(&mut elements);
            assert(elems_view(body@) =~= elems_view(prev) + placed(frags, i as int).elements);
            let ghost prev_out = outputs@;
            outputs.push(output_ident);
            assert(idents_view(outputs@) =~= idents_view(prev_out).push(out_v));
            assert(idents_view(outputs@) =~= placed_outputs(frags, i + 1));
            i = i + 1;
        }
        let ghost n = frags.len() as int;
        assert(n == i);
        let call = BodyElement::MethodCall {
            method_name: descriptor.thunk_name.clone(),
            args: outputs,
        };
        assert(call@ == ElemView::MethodCall(descriptor.thunk_name@, placed_outputs(frags, n)));
        let ghost prev = body@;
        let gives_value = match &descriptor.return_ty {
            BindgenTypeDescriptor::Void => false,
            _ => true,
        };
        if gives_value {
            let ret = BodyElement::Return { element: Some(Box::new(call)) };
            assert(ret@ == ElemView::Return(Some(Box::new(call@))));
            body.push(ret);
        } else {
            body.push(call);
        }
        assert(elems_view(body@) =~= body_view(
            descriptor.thunk_name@,
            !(descriptor.return_ty is Void),
            frags,
        ));
        BindingMethodBody { body_elements: body }
    }
}


pub open spec fn elems_ids(s: Seq<ElemView>) -> Set<int>
    decreases s.len(),
{
    if s.len() == 0 {
        Set::empty()
    } else {
        elems_ids(s.drop_last()) + elem_ids(s.last())
    }
}

/// The generated ids that a fragment uses.
pub open spec fn frag_ids(f: FragView) -> Set<int> {
    elems_ids(f.elements) + ident_ids(f.output)
}

proof fn lemma_idents_ids(s: Seq<IdentView>, offset: int)
    ensures
        forall|x: int| #[trigger] idents_ids(s).contains(x) ==> idents_max(s) is Some && x
            <= idents_max(s)->Some_0,
        forall|x: int|
            #[trigger] idents_ids(shift_idents(s, offset)).contains(x)
                ==> idents_ids(s).contains(x - offset),
    decreases s.len(),
{
    if s.len() > 0 {
        let d = s.drop_last();
        let l = s.last();
        lemma_idents_ids(d, offset);
        let t = shift_idents(s, offset);
        assert(t.drop_last() =~= shift_idents(d, offset));
        assert(t.last() == shift_ident(l, offset));
        assert forall|x: int| #[trigger] idents_ids(s).contains(x) implies idents_max(s) is Some
            && x <= idents_max(s)->Some_0 by {
            if !idents_ids(d).contains(x) {
                assert(ident_ids(l).contains(x));
            }
        }
        assert forall|x: int| #[trigger] idents_ids(t).contains(x) implies idents_ids(s).contains(
            x - offset,
        ) by {
            if !idents_ids(t.drop_last()).contains(x) {
                assert(ident_ids(t.last()).contains(x));
                assert(ident_ids(l).contains(x - offset));
            }
        }
    }
}

pub open spec fn ids_bounded(v: ElemView) -> bool {
    forall|x: int| #[trigger] elem_ids(v).contains(x) ==> max_id(v) is Some && x <= max_id(
        v,
    )->Some_0
}

pub open spec fn ids_shift(v: ElemView, offset: int) -> bool {
    forall|x: int| #[trigger]
        elem_ids(shift_view(v, offset)).contains(x) ==> elem_ids(v).contains(x - offset)
}

proof fn lemma_elem_ids(v: ElemView, offset: int)
    ensures
        ids_bounded(v),
        ids_shift(v, offset),
    decreases v,
{
    match v {
        ElemView::Ident(i) => {
            assert(ids_bounded(v) && ids_shift(v, offset)) by {
                assert forall|x: int| #[trigger] elem_ids(shift_view(v, offset)).contains(x) implies elem_ids(
                    v,
                ).contains(x - offset) by {
                    assert(ident_ids(shift_ident(i, offset)).contains(x));
                }
            }
        },
        ElemView::DeclareLocal(i, _) => {
            assert(ids_bounded(v) && ids_shift(v, offset)) by {
                assert forall|x: int| #[trigger] elem_ids(shift_view(v, offset)).contains(x) implies elem_ids(
                    v,
                ).contains(x - offset) by {
                    assert(ident_ids(shift_ident(i, offset)).contains(x));
                }
            }
        },
        ElemView::MethodCall(_, args) => {
            lemma_idents_ids(args, offset);
            assert(ids_bounded(v));
            assert(ids_shift(v, offset));
        },
        ElemView::FieldAccess(e, _) => {
            lemma_elem_ids(*e, offset);
            assert(elem_ids(v) == elem_ids(*e));
            assert(max_id(v) == max_id(*e));
            assert(elem_ids(shift_view(v, offset)) == elem_ids(shift_view(*e, offset)));
            assert(ids_bounded(v));
            assert(ids_shift(v, offset));
        },
        ElemView::IndexAccess(e, _) => {
            lemma_elem_ids(*e, offset);
            assert(elem_ids(v) == elem_ids(*e));
            assert(max_id(v) == max_id(*e));
            assert(elem_ids(shift_view(v, offset)) == elem_ids(shift_view(*e, offset)));
            assert(ids_bounded(v));
            assert(ids_shift(v, offset));
        },
        ElemView::AddressOf(e) => {
            lemma_elem_ids(*e, offset);
            assert(elem_ids(v) == elem_ids(*e));
            assert(max_id(v) == max_id(*e));
            assert(elem_ids(shift_view(v, offset)) == elem_ids(shift_view(*e, offset)));
            assert(ids_bounded(v));
            assert(ids_shift(v, offset));
        },
        ElemView::Cast(_, e) => {
            lemma_elem_ids(*e, offset);
            assert(elem_ids(v) == elem_ids(*e));
            assert(max_id(v) == max_id(*e));
            assert(elem_ids(shift_view(v, offset)) == elem_ids(shift_view(*e, offset)));
            assert(ids_bounded(v));
            assert(ids_shift(v, offset));
        },
        ElemView::Assignment(l, r) => {
            lemma_elem_ids(*l, offset);
            lemma_elem_ids(*r, offset);
            assert forall|x: int| #[trigger] elem_ids(v).contains(x) implies max_id(v) is Some && x
                <= max_id(v)->Some_0 by {
                if elem_ids(*l).contains(x) {
                } else {
                    assert(elem_ids(*r).contains(x));
                }
            }
            assert forall|x: int| #[trigger] elem_ids(shift_view(v, offset)).contains(x) implies elem_ids(
                v,
            ).contains(x - offset) by {
                if elem_ids(shift_view(*l, offset)).contains(x) {
                } else {
                    assert(elem_ids(shift_view(*r, offset)).contains(x));
                }
            }

        },
        ElemView::FixedAssignment(_, i, r) => {
            lemma_elem_ids(*r, offset);
            assert forall|x: int| #[trigger] elem_ids(v).contains(x) implies max_id(v) is Some && x
                <= max_id(v)->Some_0 by {
                if !elem_ids(*r).contains(x) {
                    assert(ident_ids(i).contains(x));
                }
            }
            assert forall|x: int| #[trigger] elem_ids(shift_view(v, offset)).contains(x) implies elem_ids(
                v,
            ).contains(x - offset) by {
                if !elem_ids(shift_view(*r, offset)).contains(x) {
                    assert(ident_ids(shift_ident(i, offset)).contains(x));
                }
            }
        },
        ElemView::Return(Some(e)) => {
            lemma_elem_ids(*e, offset);
            assert(elem_ids(v) == elem_ids(*e));
            assert(max_id(v) == max_id(*e));
            assert(elem_ids(shift_view(v, offset)) == elem_ids(shift_view(*e, offset)));
            assert(ids_bounded(v));
            assert(ids_shift(v, offset));
        },
        ElemView::BinaryExpression(l, r, _) => {
            lemma_elem_ids(*l, offset);
            lemma_elem_ids(*r, offset);
            assert forall|x: int| #[trigger] elem_ids(v).contains(x) implies max_id(v) is Some && x
                <= max_id(v)->Some_0 by {
                if elem_ids(*l).contains(x) {
                } else {
                    assert(elem_ids(*r).contains(x));
                }
            }
            assert forall|x: int| #[trigger] elem_ids(shift_view(v, offset)).contains(x) implies elem_ids(
                v,
            ).contains(x - offset) by {
                if elem_ids(shift_view(*l, offset)).contains(x) {
                } else {
                    assert(elem_ids(shift_view(*r, offset)).contains(x));
                }
            }

        },
        ElemView::TernaryExpression(t, a, b) => {
            lemma_elem_ids(*t, offset);
            lemma_elem_ids(*a, offset);
            lemma_elem_ids(*b, offset);
            assert forall|x: int| #[trigger] elem_ids(v).contains(x) implies max_id(v) is Some && x
                <= max_id(v)->Some_0 by {
                if elem_ids(*t).contains(x) {
                } else if elem_ids(*a).contains(x) {
                } else {
                    assert(elem_ids(*b).contains(x));
                }
            }
            assert forall|x: int| #[trigger] elem_ids(shift_view(v, offset)).contains(x) implies elem_ids(
                v,
            ).contains(x - offset) by {
                if elem_ids(shift_view(*t, offset)).contains(x) {
                } else if elem_ids(shift_view(*a, offset)).contains(x) {
                } else {
                    assert(elem_ids(shift_view(*b, offset)).contains(x));
                }
            }
        },
        _ => {
            assert(elem_ids(v) =~= Set::<int>::empty());
            assert(shift_view(v, offset) == v);
        },
    }
}

proof fn lemma_elems_ids(s: Seq<ElemView>, offset: int)
    ensures
        forall|x: int| #[trigger] elems_ids(s).contains(x) ==> elems_max(s) is Some && x
            <= elems_max(s)->Some_0,
        forall|x: int|
            #[trigger] elems_ids(shift_elems(s, offset)).contains(x)
                ==> elems_ids(s).contains(x - offset),
    decreases s.len(),
{
    if s.len() > 0 {
        let d = s.drop_last();
        let l = s.last();
        lemma_elems_ids(d, offset);
        lemma_elem_ids(l, offset);
        let t = shift_elems(s, offset);
        assert(t.drop_last() =~= shift_elems(d, offset));
        assert(t.last() == shift_view(l, offset));
        assert forall|x: int| #[trigger] elems_ids(s).contains(x) implies elems_max(s) is Some
            && x <= elems_max(s)->Some_0 by {
            if !elems_ids(d).contains(x) {
                assert(elem_ids(l).contains(x));
            }
        }
        assert forall|x: int| #[trigger] elems_ids(t).contains(x) implies elems_ids(s).contains(
            x - offset,
        ) by {
            if !elems_ids(t.drop_last()).contains(x) {
                assert(elem_ids(t.last()).contains(x));
                assert(elem_ids(l).contains(x - offset));
            }
        }
    }
}

/// Two fragments that stand one after the other in a method body use
/// disjoint generated ids: the second is raised past every id of the first.
pub proof fn lemma_fragment_ids_disjoint(f1: FragView, f2: FragView)
    requires
        frag_wf(f1),
        forall|x: int| #[trigger] frag_ids(f2).contains(x) ==> x >= 0,
    ensures
        frag_ids(f1).disjoint(frag_ids(shift_frag(f2, step(f1)))),
{
    let off = step(f1);
    lemma_elems_ids(f1.elements, 0);
    lemma_elems_ids(f2.elements, off);
    assert forall|x: int| frag_ids(f1).contains(x) implies !frag_ids(shift_frag(f2, off)).contains(
        x,
    ) by {
        assert(frag_max(f1) is Some);
        if frag_ids(shift_frag(f2, off)).contains(x) {
            if elems_ids(shift_frag(f2, off).elements).contains(x) {
                assert(frag_ids(f2).contains(x - off));
            } else {
                assert(frag_ids(f2).contains(x - off));
            }
        }
    }
}

/// In a method body, the fragment of the second argument is the fragment
/// of its own raised by the step of the first.
pub proof fn lemma_second_fragment_placement(frags: Seq<FragView>)
    requires
        frags.len() >= 2,
        frag_max(frags[1]) is Some,
    ensures
        placed(frags, 1) == shift_frag(frags[1], step(frags[0])),
        placed(frags, 0) == frags[0],
{
    assert(offset_before(frags, 1) == offset_before(frags, 0) + step(frags[0]));
    if frag_max(frags[0]) is Some {
        assert(offset_before(frags, 0) == 0);
        assert(shift_frag(frags[0], 0).elements =~= frags[0].elements) by {
            lemma_shift_zero_elems(frags[0].elements);
        }
        assert(shift_ident(frags[0].output, 0) == frags[0].output);
    }
}

proof fn lemma_shift_zero(v: ElemView)
    ensures
        shift_view(v, 0) == v,
    decreases v,
{
    match v {
        ElemView::MethodCall(m, args) => {
            assert(shift_idents(args, 0) =~= args);
        },
        ElemView::FieldAccess(e, _) => lemma_shift_zero(*e),
        ElemView::IndexAccess(e, _) => lemma_shift_zero(*e),
        ElemView::AddressOf(e) => lemma_shift_zero(*e),
        ElemView::Cast(_, e) => lemma_shift_zero(*e),
        ElemView::Assignment(l, r) => {
            lemma_shift_zero(*l);
            lemma_shift_zero(*r);
        },
        ElemView::FixedAssignment(_, _, r) => lemma_shift_zero(*r),
        ElemView::Return(Some(e)) => lemma_shift_zero(*e),
        ElemView::BinaryExpression(l, r, _) => {
            lemma_shift_zero(*l);
            lemma_shift_zero(*r);
        },
        ElemView::TernaryExpression(t, a, b) => {
            lemma_shift_zero(*t);
            lemma_shift_zero(*a);
            lemma_shift_zero(*b);
        },
        _ => {},
    }
}

proof fn lemma_shift_zero_elems(s: Seq<ElemView>)
    ensures
        shift_elems(s, 0) =~= s,
{
    assert forall|i: int| 0 <= i < s.len() implies shift_elems(s, 0)[i]
        == s[i] by {
        lemma_shift_zero(s[i]);
    }
}


/// The text that an element renders as, at an indentation level.
pub open spec fn elem_text(v: ElemView, l: nat) -> Seq<char>
    decreases v,
{
    match v {
        ElemView::Ident(i) => ident_text(i),
        ElemView::DeclareLocal(i, t) => line(l, type_text(t) + seq![' '] + ident_text(i) + seq![';']),
        ElemView::MethodCall(m, args) => m + seq!['('] + join_text(
            args.map_values(|a: IdentView| ident_text(a)),
            ", "@,
        ) + seq![')'],
        ElemView::FieldAccess(e, f) => seq!['('] + elem_text(*e, 0) + ")."@ + f,
        ElemView::IndexAccess(e, i) => seq!['('] + elem_text(*e, 0) + ")["@ + int_text(i) + seq![
            ']',
        ],
        ElemView::AddressOf(e) => "&("@ + elem_text(*e, 0) + seq![')'],
        ElemView::Cast(t, e) => seq!['('] + type_text(t) + ")("@ + elem_text(*e, 0) + seq![')'],
        ElemView::Assignment(a, b) => elem_text(*a, l) + " = "@ + elem_text(*b, l),
        ElemView::FixedAssignment(t, i, r) => indent_text(l) + "fixed ("@ + type_text(t) + seq![' ']
            + ident_text(i) + " = "@ + elem_text(*r, l) + ")\n"@,
        ElemView::Unsafe => line(l, "unsafe"@),
        ElemView::Return(Some(e)) => indent_text(l) + "return "@ + elem_text(*e, l) + ";\n"@,
        ElemView::Return(None) => line(l, "return;"@),
        ElemView::BinaryExpression(a, b, _) => elem_text(*a, l) + " != "@ + elem_text(*b, l),
        ElemView::TernaryExpression(t, a, b) => "( ("@ + elem_text(*t, l) + ") ? ("@ + elem_text(
            *a,
            l,
        ) + ") : ("@ + elem_text(*b, l) + ") )"@,
        ElemView::LiteralValue(n) => int_text(n),
    }
}

/// The text of a method body: each element on its own, an expression ended
/// by `;`; after an element that opens a scope, all the rest inside braces.
pub open spec fn body_text(s: Seq<ElemView>, l: nat) -> Seq<char>
    decreases s.len(),
{
    if s.len() == 0 {
        Seq::empty()
    } else {
        let first = if top_level(s[0]) {
            elem_text(s[0], l)
        } else {
            indent_text(l) + elem_text(s[0], l) + ";\n"@
        };
        if opens_scope(s[0]) {
            first + line(l, "{"@) + body_text(s.drop_first(), deeper(l)) + line(l, "}"@)
        } else {
            first + body_text(s.drop_first(), l)
        }
    }
}

proof fn lemma_ident_text_map(args: Seq<AbstractIdent>, names: Seq<ast::Ident>)
    requires
        args.len() == names.len(),
        forall|i: int| 0 <= i < args.len() ==> #[trigger] names[i].0@ == ident_text(args[i]@),
    ensures
        names.map_values(|a: ast::Ident| a.0@) == idents_view(args).map_values(
            |a: IdentView| ident_text(a),
        ),
{
    assert(names.map_values(|a: ast::Ident| a.0@) =~= idents_view(args).map_values(
        |a: IdentView| ident_text(a),
    ));
}

impl BodyElement {
    /// The syntax tree node of this element.
    pub fn to_ast_node(&self) -> (r: AstNode)
        ensures
            forall|l: nat| #[trigger] node_text(r, l) == elem_text(self@, l),
        decreases self,
    {
        let r = match self {
            BodyElement::Ident(id) => AstNode::Ident(id.to_concrete_ident()),
            BodyElement::DeclareLocal { id, ty } => AstNode::VariableDeclaration(
                ast::VariableDeclaration { name: id.to_concrete_ident(), ty: ty.copy() },
            ),
            BodyElement::MethodCall { method_name, args } => {
                let mut names: Vec<ast::Ident> = Vec::new();
                let mut i: usize = 0;
                while i < args.len()
                    invariant
                        i <= args@.len(),
                        names@.len() == i,
                        forall|k: int| 0 <= k < i ==> #[trigger] names@[k].0@ == ident_text(args@[k]@),
                    decreases args.len() - i,
                {
                    names.push(args[i].to_concrete_ident());
                    i = i + 1;
                }
                proof {
                    lemma_ident_text_map(args@, names@);
                }
                AstNode::MethodInvocation(
                    ast::MethodInvocation {
                        target: None,
                        method_name: ast::Ident(method_name.clone()),
                        args: names,
                    },
                )
            },
            BodyElement::FieldAccess { element, field_name } => AstNode::FieldAccess(
                ast::FieldAccess {
                    element: Box::new(element.to_ast_node()),
                    field_name: ast::Ident(field_name.clone()),
                },
            ),
            BodyElement::IndexAccess { element, index } => AstNode::IndexAccess(
                ast::IndexAccess { element: Box::new(element.to_ast_node()), index: *index },
            ),
            BodyElement::AddressOf { element } => AstNode::AddressOf(
                ast::AddressOf { element: Box::new(element.to_ast_node()) },
            ),
            BodyElement::Cast { ty, element } => AstNode::Cast(
                ast::Cast { ty: ty.copy(), element: Box::new(element.to_ast_node()) },
            ),
            BodyElement::Assignment { lhs, rhs } => AstNode::BinaryExpression(
                ast::BinaryExpression {
                    lhs: Box::new(lhs.to_ast_node()),
                    rhs: Box::new(rhs.to_ast_node()),
                    operation_sym: "=",
                },
            ),
            BodyElement::FixedAssignment { ty, id, rhs } => AstNode::FixedAssignment(
                ast::FixedAssignment {
                    ty: ty.copy(),
                    id: id.to_concrete_ident(),
                    rhs: Box::new(rhs.to_ast_node()),
                },
            ),
            BodyElement::Unsafe => AstNode::UnsafeStatement(ast::UnsafeStatement {  }),
            BodyElement::Return { element } => AstNode::ReturnStatement(
                ast::ReturnStatement {
                    value: match element {
                        Some(e) => Some(Box::new(e.to_ast_node())),
                        None => None,
                    },
                },
            ),
            BodyElement::BinaryExpression { lhs, rhs, operation } => AstNode::BinaryExpression(
                ast::BinaryExpression {
                    lhs: Box::new(lhs.to_ast_node()),
                    rhs: Box::new(rhs.to_ast_node()),
                    operation_sym: operation.sym(),
                },
            ),
            BodyElement::LiteralValue(LiteralValue::Number(n)) => AstNode::Literal(
                ast::LiteralValue::Number(*n),
            ),
            BodyElement::TernaryExpression { test, true_branch, false_branch } => AstNode::TernaryExpression(
                ast::TernaryExpression {
                    test: Box::new(test.to_ast_node()),
                    true_branch: Box::new(true_branch.to_ast_node()),
                    false_branch: Box::new(false_branch.to_ast_node()),
                },
            ),
        };
        proof {
            reveal_strlit("=");
            reveal_strlit(" ");
            reveal_strlit(" = ");
            reveal_strlit(" != ");
            reveal_strlit("!=");
            assert forall|l: nat| #[trigger] node_text(r, l) == elem_text(self@, l) by {
                match self {
                    BodyElement::FieldAccess { element, .. } => {
                        assert(node_text(*r->FieldAccess_0.element, 0) == elem_text(element@, 0));
                    },
                    BodyElement::IndexAccess { element, .. } => {
                        assert(node_text(*r->IndexAccess_0.element, 0) == elem_text(element@, 0));
                    },
                    BodyElement::AddressOf { element } => {
                        assert(node_text(*r->AddressOf_0.element, 0) == elem_text(element@, 0));
                    },
                    BodyElement::Cast { element, .. } => {
                        assert(node_text(*r->Cast_0.element, 0) == elem_text(element@, 0));
                    },
                    BodyElement::Assignment { lhs, rhs } => {
                        assert(node_text(*r->BinaryExpression_0.lhs, l) == elem_text(lhs@, l));
                        assert(node_text(*r->BinaryExpression_0.rhs, l) == elem_text(rhs@, l));
                    },
                    BodyElement::FixedAssignment { rhs, .. } => {
                        assert(node_text(*r->FixedAssignment_0.rhs, l) == elem_text(rhs@, l));
                    },
                    BodyElement::Return { element: Some(e) } => {
                        assert(node_text(*r->ReturnStatement_0.value->Some_0, l) == elem_text(
                            e@,
                            l,
                        ));
                    },
                    BodyElement::BinaryExpression { lhs, rhs, .. } => {
                        assert(node_text(*r->BinaryExpression_0.lhs, l) == elem_text(lhs@, l));
                        assert(node_text(*r->BinaryExpression_0.rhs, l) == elem_text(rhs@, l));
                    },
                    BodyElement::TernaryExpression { test, true_branch, false_branch } => {
                        assert(node_text(*r->TernaryExpression_0.test, l) == elem_text(test@, l));
                        assert(node_text(*r->TernaryExpression_0.true_branch, l) == elem_text(
                            true_branch@,
                            l,
                        ));
                        assert(node_text(*r->TernaryExpression_0.false_branch, l) == elem_text(
                            false_branch@,
                            l,
                        ));
                    },
                    _ => {},
                }
                assert(node_text(r, l) =~= elem_text(self@, l));
            }
        }
        r
    }
}

fn render_elements(elements: &Vec<BodyElement>, start: usize) -> (r: Vec<AstNode>)
    requires
        start <= elements@.len(),
    ensures
        forall|l: nat| #[trigger] nodes_text(r@, l) == body_text(
            elems_view(elements@).skip(start as int),
            l,
        ),
    decreases elements@.len() - start,
{
    let ghost v = elems_view(elements@);
    let mut nodes: Vec<AstNode> = Vec::new();
    let mut i: usize = start;
    while i < elements.len()
        invariant
            start <= i <= elements@.len(),
            v == elems_view(elements@),
            forall|l: nat| #[trigger] body_text(v.skip(start as int), l) == nodes_text(nodes@, l)
                + body_text(v.skip(i as int), l),
        decreases elements@.len() - i,
    {
        let el = &elements[i];
        let node = el.to_ast_node();
        let ghost node_v = node;
        let wrapped = if el.is_top_level() {
            node
        } else {
            AstNode::Statement(ast::Statement { expr: Box::new(node) })
        };
        proof {
            assert forall|l: nat| #[trigger] node_text(wrapped, l) == if top_level(el@) {
                elem_text(el@, l)
            } else {
                indent_text(l) + elem_text(el@, l) + ";\n"@
            } by {
                assert(node_text(node_v, l) == elem_text(el@, l));
            }
        }
        assert(v.skip(i as int)[0] == el@);
        assert(v.skip(i as int).drop_first() =~= v.skip(i + 1));
        let ghost prev = nodes@;
        if el.requires_new_scope() {
            nodes.push(wrapped);
            let children = render_elements(elements, i + 1);
            let ghost ch = children@;
            nodes.push(AstNode::Scope(ast::Scope { children }));
            proof {
                assert forall|l: nat| #[trigger] body_text(v.skip(start as int), l) == nodes_text(
                    nodes@,
                    l,
                ) by {
                    reveal_strlit(";\n");
                    assert(nodes_text(ch, deeper(l)) == body_text(v.skip(i + 1), deeper(l)));
                    assert(node_text(nodes@.last(), l) == line(l, "{"@) + nodes_text(ch, deeper(l))
                        + line(l, "}"@));
                    assert(nodes@.drop_last().drop_last() =~= prev);
                    assert(nodes@.drop_last().last() == wrapped);
                    assert(body_text(v.skip(i as int), l) =~= node_text(wrapped, l) + line(l, "{"@)
                        + body_text(v.skip(i + 1), deeper(l)) + line(l, "}"@));
                    assert(nodes_text(nodes@.drop_last(), l) == nodes_text(prev, l) + node_text(
                        wrapped,
                        l,
                    ));
                    assert(nodes_text(nodes@, l) == nodes_text(nodes@.drop_last(), l) + node_text(
                        nodes@.last(),
                        l,
                    ));
                }
            }
            return nodes;
        }
        nodes.push(wrapped);
        proof {
            assert forall|l: nat| #[trigger] body_text(v.skip(start as int), l) == nodes_text(
                nodes@,
                l,
            ) + body_text(v.skip(i + 1), l) by {
                reveal_strlit(";\n");
                assert(nodes@.drop_last() =~= prev);
                assert(body_text(v.skip(i as int), l) =~= node_text(wrapped, l) + body_text(
                    v.skip(i + 1),
                    l,
                ));
            }
        }
        i = i + 1;
    }
    proof {
        assert forall|l: nat| #[trigger] nodes_text(nodes@, l) == body_text(
            v.skip(start as int),
            l,
        ) by {
            assert(v.skip(i as int) =~= Seq::<ElemView>::empty());
        }
    }
    nodes
}

impl BindingMethodBody {
    /// The syntax tree nodes of the body.
    pub fn to_ast_nodes(&self) -> (r: Vec<AstNode>)
        ensures
            forall|l: nat| #[trigger] nodes_text(r@, l) == body_text(
                elems_view(self.body_elements@),
                l,
            ),
    {
        let r = render_elements(&self.body_elements, 0);
        assert(elems_view(self.body_elements@).skip(0) =~= elems_view(self.body_elements@));
        r
    }
}


proof fn lemma_classify_by_view(a: BindgenTypeDescriptor, b: BindgenTypeDescriptor)
    requires
        desc_view(a) == desc_view(b),
    ensures
        classify_view(a) == classify_view(b),
    decreases a,
{
    match (a, b) {
        (BindgenTypeDescriptor::Slice { elem_type: x }, BindgenTypeDescriptor::Slice { elem_type: y }) => {
            lemma_classify_by_view(*x, *y);
        },
        _ => {},
    }
}

/// The error of the first argument, in order, whose type does not classify.
pub open spec fn first_arg_error(args: Seq<BindgenFunctionArgumentDescriptor>) -> Option<
    ClassificationError,
>
    decreases args.len(),
{
    if args.len() == 0 {
        None
    } else {
        match first_arg_error(args.drop_last()) {
            Some(e) => Some(e),
            None => match classify_view(args.last().ty) {
                Err(e) => Some(e),
                Ok(_) => None,
            },
        }
    }
}

/// The error of a function descriptor: that of its first argument that
/// fails, else that of its return type.
pub open spec fn function_error(d: BindgenFunctionDescriptor) -> Option<ClassificationError> {
    match first_arg_error(d.arguments@) {
        Some(e) => Some(e),
        None => match classify_view(d.return_ty) {
            Err(e) => Some(e),
            Ok(_) => None,
        },
    }
}

/// One exported function: the external declaration of its symbol, and a
/// wrapper that converts the arguments and calls it.
#[derive(Debug)]
pub struct BindingMethod {
    pub args: Vec<BindingMethodArgument>,
    pub return_ty: BindingType,
    /// The binary that holds the function, as named in the import attribute.
    pub binary_name: String,
    /// The name of the function in its source; not unique.
    pub rust_name: String,
    /// The symbol of the function; unique among the bindings.
    pub rust_thunk_name: String,
    /// The name of the wrapper: the source name in camel case.
    pub cs_name: String,
    pub cs_thunk_body: Option<BindingMethodBody>,
}

impl BindingMethod {
    pub open spec fn wf(&self) -> bool {
        &&& forall|i: int| 0 <= i < self.args@.len() ==> #[trigger] self.args@[i].wf()
        &&& self.cs_thunk_body is Some
    }

    pub fn new(binary_name: &str, descriptor: &BindgenFunctionDescriptor) -> (r: Result<
        BindingMethod,
        ClassificationError,
    >)
        requires
            descriptor.arguments@.len() < 0x7fff_ffff,
        ensures
            match function_error(*descriptor) {
                Some(e) => r == Err::<BindingMethod, _>(e),
                None => {
                    &&& r is Ok
                    &&& r->Ok_0.wf()
                    &&& r->Ok_0.binary_name@ == binary_name@
                    &&& r->Ok_0.rust_name@ == descriptor.real_name@
                    &&& r->Ok_0.rust_thunk_name@ == descriptor.thunk_name@
                    &&& r->Ok_0.cs_name@ == camel_case_of(descriptor.real_name@)
                    &&& r->Ok_0.return_ty@ == classify_view(descriptor.return_ty)->Ok_0
                    &&& r->Ok_0.args@.len() == descriptor.arguments@.len()
                    &&& forall|i: int|
                        0 <= i < r->Ok_0.args@.len() ==> {
                            &&& Ok::<BindingView, ClassificationError>(#[trigger] r->Ok_0.args@[i].ty@)
                                == classify_view(descriptor.arguments@[i].ty)
                            &&& r->Ok_0.args@[i].cs_name@ == mixed_case_of(
                                descriptor.arguments@[i].name@,
                            )
                            &&& r->Ok_0.args@[i].rust_name@ == descriptor.arguments@[i].name@
                        }
                    &&& elems_view(r->Ok_0.cs_thunk_body->Some_0.body_elements@) == body_view(
                        descriptor.thunk_name@,
                        !(descriptor.return_ty is Void),
                        arg_fragments(r->Ok_0.args@),
                    )
                },
            },
    {
        let mut args: Vec<BindingMethodArgument> = Vec::new();
        let mut i: usize = 0;
        while i < descriptor.arguments.len()
            invariant
                i <= descriptor.arguments@.len(),
                args@.len() == i,
                first_arg_error(descriptor.arguments@.take(i as int)) is None,
                forall|k: int| 0 <= k < i ==> #[trigger] args@[k].wf(),
                forall|k: int|
                    0 <= k < i ==> {
                        &&& Ok::<BindingView, ClassificationError>(#[trigger] args@[k].ty@)
                            == classify_view(descriptor.arguments@[k].ty)
                        &&& args@[k].cs_name@ == mixed_case_of(descriptor.arguments@[k].name@)
                        &&& args@[k].rust_name@ == descriptor.arguments@[k].name@
                    },
            decreases descriptor.arguments.len() - i,
        {
            let a = &descriptor.arguments[i];
            let copy = BindgenFunctionArgumentDescriptor { name: a.name.clone(), ty: a.ty.copy() };
            proof {
                lemma_classify_by_view(copy.ty, a.ty);
                assert(descriptor.arguments@.take(i + 1).drop_last() =~= descriptor.arguments@.take(
                    i as int,
                ));
            }
            match BindingMethodArgument::try_from(copy) {
                Ok(arg) => {
                    args.push(arg);
                },
                Err(e) => {
                    proof {
                        lemma_first_arg_error_prefix(descriptor.arguments@, i as int + 1);
                    }
                    return Err(e);
                },
            }
            i = i + 1;
        }
        assert(descriptor.arguments@.take(i as int) =~= descriptor.arguments@);
        let ret = descriptor.return_ty.copy();
        proof {
            lemma_classify_by_view(ret, descriptor.return_ty);
        }
        let return_ty = match BindingType::try_from(ret) {
            Ok(t) => t,
            Err(e) => {
                return Err(e);
            },
        };
        let cs_name = to_camel_case(descriptor.real_name.as_str());
        let body = BindingMethodBody::new(descriptor, &args);
        Ok(
            BindingMethod {
                args,
                return_ty,
                binary_name: String::from_str(binary_name),
                rust_name: descriptor.real_name.clone(),
                rust_thunk_name: descriptor.thunk_name.clone(),
                cs_name,
                cs_thunk_body: Some(body),
            },
        )
    }

    /// The external declaration and the wrapper.
    pub fn to_ast_methods(&self) -> (r: Vec<ast::Method>)
        requires
            self.wf(),
        ensures
            r@.len() == 2,
            r@[0].is_extern && !r@[0].is_public && r@[0].name@ == self.rust_thunk_name@,
            !r@[1].is_extern && r@[1].is_public && r@[1].name@ == self.cs_name@,
    {
        let mut r = Vec::new();
        r.push(self.dll_imported_method());
        r.push(self.thunk_method());
        r
    }

    /// `[DllImport] private static extern` declaration of the symbol, with
    /// the native types.
    pub fn dll_imported_method(&self) -> (r: ast::Method)
        ensures
            r.attributes@.len() == 1,
            r.attributes@[0].name@ == "DllImport"@,
            literal_text(r.attributes@[0].positional_parameters@[0]) == seq!['"'] + self.binary_name@
                + seq!['"'],
            literal_text(r.attributes@[0].named_parameters@[0].1) == seq!['"'] + self.rust_thunk_name@
                + seq!['"'],
            !r.is_public && r.is_static && r.is_extern && !r.is_unsafe,
            r.name@ == self.rust_thunk_name@,
            r.return_ty@ == native_view(self.return_ty@),
            r.args@.len() == self.args@.len(),
            forall|i: int|
                0 <= i < r.args@.len() ==> #[trigger] r.args@[i].name.0@ == self.args@[i].rust_name@
                    && r.args@[i].ty@ == native_view(self.args@[i].ty@),
            r.body is None,
    {
        let mut attributes = Vec::new();
        attributes.push(
            ast::Attribute::dll_import(self.binary_name.as_str(), self.rust_thunk_name.as_str()),
        );
        let mut args: Vec<ast::MethodArgument> = Vec::new();
        let mut i: usize = 0;
        while i < self.args.len()
            invariant
                i <= self.args@.len(),
                args@.len() == i,
                forall|k: int|
                    0 <= k < i ==> #[trigger] args@[k].name.0@ == self.args@[k].rust_name@
                        && args@[k].ty@ == native_view(self.args@[k].ty@),
            decreases self.args.len() - i,
        {
            args.push(
                ast::MethodArgument {
                    name: ast::Ident(self.args[i].rust_name.clone()),
                    ty: self.args[i].ty.native_type(),
                },
            );
            i = i + 1;
        }
        ast::Method {
            attributes,
            is_public: false,
            is_static: true,
            is_extern: true,
            is_unsafe: false,
            name: self.rust_thunk_name.clone(),
            return_ty: self.return_ty.native_type(),
            args,
            body: None,
        }
    }

    /// The public wrapper, with the idiomatic types, whose body converts the
    /// arguments and calls the external declaration.
    pub fn thunk_method(&self) -> (r: ast::Method)
        requires
            self.wf(),
        ensures
            r.attributes@.len() == 0,
            r.is_public && r.is_static && !r.is_extern && !r.is_unsafe,
            r.name@ == self.cs_name@,
            r.return_ty@ == native_view(self.return_ty@),
            r.args@.len() == self.args@.len(),
            forall|i: int|
                0 <= i < r.args@.len() ==> #[trigger] r.args@[i].name.0@ == self.args@[i].cs_name@
                    && r.args@[i].ty@ == idiomatic_view(self.args@[i].ty@),
            r.body is Some,
            forall|l: nat| #[trigger] nodes_text(r.body->Some_0@, l) == body_text(
                elems_view(self.cs_thunk_body->Some_0.body_elements@),
                l,
            ),
    {
        let mut args: Vec<ast::MethodArgument> = Vec::new();
        let mut i: usize = 0;
        while i < self.args.len()
            invariant
                i <= self.args@.len(),
                args@.len() == i,
                forall|k: int|
                    0 <= k < i ==> #[trigger] args@[k].name.0@ == self.args@[k].cs_name@
                        && args@[k].ty@ == idiomatic_view(self.args@[k].ty@),
            decreases self.args.len() - i,
        {
            args.push(
                ast::MethodArgument {
                    name: ast::Ident(self.args[i].cs_name.clone()),
                    ty: self.args[i].ty.idiomatic_type(),
                },
            );
            i = i + 1;
        }
        let body = match &self.cs_thunk_body {
            Some(b) => b.to_ast_nodes(),
            None => Vec::new(),
        };
        ast::Method {
            attributes: Vec::new(),
            is_public: true,
            is_static: true,
            is_extern: false,
            is_unsafe: false,
            name: self.cs_name.clone(),
            return_ty: self.return_ty.native_type(),
            args,
            body: Some(body),
        }
    }
}

proof fn lemma_first_arg_error_prefix(args: Seq<BindgenFunctionArgumentDescriptor>, n: int)
    requires
        0 <= n <= args.len(),
        first_arg_error(args.take(n)) is Some,
    ensures
        first_arg_error(args) == first_arg_error(args.take(n)),
    decreases args.len() - n,
{
    if n < args.len() {
        assert(args.take(n + 1).drop_last() =~= args.take(n));
        lemma_first_arg_error_prefix(args, n + 1);
    } else {
        assert(args.take(n) =~= args);
    }
}

/// A field of a bound struct; its type must cross the boundary unchanged.
#[derive(Debug)]
pub struct BindingStructField {
    /// The name in the bindings: the source name in camel case.
    pub cs_name: String,
    pub ty: SimpleBindingType,
}

/// What becomes of a struct field: its type when it is simple, else the
/// error that rejects the struct.
pub open spec fn field_result(d: BindgenStructFieldDescriptor) -> Result<TypeView, ClassificationError> {
    match classify_view(d.ty) {
        Ok(BindingView::Simple(t)) => Ok(t),
        Ok(BindingView::Complex(_, _)) => Err(ClassificationError::NonFfiStableField),
        Err(e) => Err(e),
    }
}

impl BindingStructField {
    pub fn new(descriptor: &BindgenStructFieldDescriptor) -> (r: Result<
        BindingStructField,
        ClassificationError,
    >)
        ensures
            match field_result(*descriptor) {
                Ok(t) => r is Ok && r->Ok_0.ty.cs_type@ == t && r->Ok_0.cs_name@ == camel_case_of(
                    descriptor.name@,
                ),
                Err(e) => r == Err::<BindingStructField, _>(e),
            },
    {
        let cs_name = to_camel_case(descriptor.name.as_str());
        let d = descriptor.ty.copy();
        proof {
            lemma_classify_by_view(d, descriptor.ty);
        }
        match BindingType::try_from(d) {
            Ok(BindingType::Simple(s)) => Ok(BindingStructField { cs_name, ty: s }),
            Ok(BindingType::Complex(_)) => Err(ClassificationError::NonFfiStableField),
            Err(e) => Err(e),
        }
    }

    pub fn to_ast_field(&self) -> (r: ast::Field)
        ensures
            r.name@ == self.cs_name@,
            r.ty@ == self.ty.cs_type@,
    {
        ast::Field { name: self.cs_name.clone(), ty: self.ty.cs_type.copy() }
    }
}

/// The error of the first field, in order, that rejects a struct.
pub open spec fn first_field_error(fs: Seq<BindgenStructFieldDescriptor>) -> Option<ClassificationError>
    decreases fs.len(),
{
    if fs.len() == 0 {
        None
    } else {
        match first_field_error(fs.drop_last()) {
            Some(e) => Some(e),
            None => match field_result(fs.last()) {
                Err(e) => Some(e),
                Ok(_) => None,
            },
        }
    }
}

/// A bound struct.
#[derive(Debug)]
pub struct BindingStruct {
    pub name: String,
    /// The fields in their order, laid out sequentially.
    pub fields: Vec<BindingStructField>,
    pub methods: Vec<BindingMethod>,
}

impl BindingStruct {
    pub fn new(descriptor: &BindgenStructDescriptor) -> (r: Result<BindingStruct, ClassificationError>)
        ensures
            match first_field_error(descriptor.fields@) {
                Some(e) => r == Err::<BindingStruct, _>(e),
                None => r is Ok && r->Ok_0.name@ == descriptor.name@ && r->Ok_0.fields@.len()
                    == descriptor.fields@.len() && r->Ok_0.methods@.len() == 0 && forall|i: int|
                    0 <= i < r->Ok_0.fields@.len() ==> Ok::<TypeView, ClassificationError>(
                        #[trigger] r->Ok_0.fields@[i].ty.cs_type@,
                    ) == field_result(descriptor.fields@[i]) && r->Ok_0.fields@[i].cs_name@
                        == camel_case_of(descriptor.fields@[i].name@),
            },
    {
        let mut fields: Vec<BindingStructField> = Vec::new();
        let mut i: usize = 0;
        while i < descriptor.fields.len()
            invariant
                i <= descriptor.fields@.len(),
                fields@.len() == i,
                first_field_error(descriptor.fields@.take(i as int)) is None,
                forall|k: int|
                    0 <= k < i ==> Ok::<TypeView, ClassificationError>(
                        #[trigger] fields@[k].ty.cs_type@,
                    ) == field_result(descriptor.fields@[k]) && fields@[k].cs_name@ == camel_case_of(
                        descriptor.fields@[k].name@,
                    ),
            decreases descriptor.fields.len() - i,
        {
            assert(descriptor.fields@.take(i + 1).drop_last() =~= descriptor.fields@.take(i as int));
            match BindingStructField::new(&descriptor.fields[i]) {
                Ok(f) => fields.push(f),
                Err(e) => {
                    proof {
                        lemma_first_field_error_prefix(descriptor.fields@, i as int + 1);
                    }
                    return Err(e);
                },
            }
            i = i + 1;
        }
        assert(descriptor.fields@.take(i as int) =~= descriptor.fields@);
        Ok(BindingStruct { name: descriptor.name.clone(), fields, methods: Vec::new() })
    }

    /// A sequential-layout struct, or a static class when it has no fields.
    pub fn to_ast_object(&self) -> (r: ast::Object)
        requires
            forall|i: int| 0 <= i < self.methods@.len() ==> #[trigger] self.methods@[i].wf(),
        ensures
            r.name@ == self.name@,
            r.is_static == (self.fields@.len() == 0),
            r.object_type == (if self.fields@.len() == 0 {
                ast::ObjectType::Class
            } else {
                ast::ObjectType::Struct
            }),
            r.fields@.len() == self.fields@.len(),
            forall|i: int|
                0 <= i < r.fields@.len() ==> #[trigger] r.fields@[i].name@ == self.fields@[i].cs_name@
                    && r.fields@[i].ty@ == self.fields@[i].ty.cs_type@,
            r.methods@.len() == 2 * self.methods@.len(),
            r.attributes@.len() == 1,
            r.attributes@[0].name@ == "StructLayout"@,
    {
        let is_static = self.fields.len() == 0;
        let object_type = if is_static {
            ast::ObjectType::Class
        } else {
            ast::ObjectType::Struct
        };
        let mut fields: Vec<ast::Field> = Vec::new();
        let mut i: usize = 0;
        while i < self.fields.len()
            invariant
                i <= self.fields@.len(),
                fields@.len() == i,
                forall|k: int|
                    0 <= k < i ==> #[trigger] fields@[k].name@ == self.fields@[k].cs_name@
                        && fields@[k].ty@ == self.fields@[k].ty.cs_type@,
            decreases self.fields.len() - i,
        {
            fields.push(self.fields[i].to_ast_field());
            i = i + 1;
        }
        let methods = methods_of(&self.methods);
        let mut attributes = Vec::new();
        attributes.push(ast::Attribute::struct_layout("Sequential"));
        ast::Object {
            attributes,
            object_type,
            is_static,
            name: self.name.clone(),
            methods,
            fields,
        }
    }
}

fn methods_of(ms: &Vec<BindingMethod>) -> (r: Vec<ast::Method>)
    requires
        forall|i: int| 0 <= i < ms@.len() ==> #[trigger] ms@[i].wf(),
    ensures
        r@.len() == 2 * ms@.len(),
        forall|k: int| 0 <= k < ms@.len() ==> methods_pair(r@, k, #[trigger] ms@[k]),
{
    let mut r: Vec<ast::Method> = Vec::new();
    let mut i: usize = 0;
    while i < ms.len()
        invariant
            i <= ms@.len(),
            r@.len() == 2 * i,
            forall|k: int| 0 <= k < ms@.len() ==> #[trigger] ms@[k].wf(),
            forall|k: int| 0 <= k < i ==> methods_pair(r@, k, #[trigger] ms@[k]),
        decreases ms.len() - i,
    {
        let mut two = ms[i].to_ast_methods();
        let ghost prev = r@;
        let ghost t = two@;
        r.append(&mut two);
        assert(r@ == prev + t);
        assert forall|k: int| 0 <= k <= i implies methods_pair(r@, k, #[trigger] ms@[k]) by {
            if k < i {
                assert(r@[2 * k] == prev[2 * k]);
                assert(r@[2 * k + 1] == prev[2 * k + 1]);
            } else {
                assert(r@[2 * k] == t[0]);
                assert(r@[2 * k + 1] == t[1]);
            }
        }
        i = i + 1;
    }
    r
}

/// The external declaration and the wrapper of a method at `2k` and `2k+1`.
pub open spec fn methods_pair(r: Seq<ast::Method>, k: int, m: BindingMethod) -> bool {
    &&& r[2 * k].is_extern && !r[2 * k].is_public && r[2 * k].name@ == m.rust_thunk_name@
    &&& !r[2 * k + 1].is_extern && r[2 * k + 1].is_public && r[2 * k + 1].name@ == m.cs_name@
}

/// The object of a struct: its layout attribute, its name, and one field
/// per field of the descriptor, named in camel case, with its simple type.
pub open spec fn struct_object_matches(o: ast::Object, d: BindgenStructDescriptor) -> bool {
    &&& o.name@ == d.name@
    &&& o.attributes@.len() == 1
    &&& o.attributes@[0].name@ == "StructLayout"@
    &&& o.is_static == (d.fields@.len() == 0)
    &&& o.object_type == (if d.fields@.len() == 0 {
        ast::ObjectType::Class
    } else {
        ast::ObjectType::Struct
    })
    &&& o.methods@.len() == 0
    &&& o.fields@.len() == d.fields@.len()
    &&& forall|i: int|
        0 <= i < o.fields@.len() ==> (#[trigger] o.fields@[i]).name@ == camel_case_of(
            d.fields@[i].name@,
        ) && Ok::<TypeView, ClassificationError>(o.fields@[i].ty@) == field_result(d.fields@[i])
}

proof fn lemma_first_field_error_prefix(fs: Seq<BindgenStructFieldDescriptor>, n: int)
    requires
        0 <= n <= fs.len(),
        first_field_error(fs.take(n)) is Some,
    ensures
        first_field_error(fs) == first_field_error(fs.take(n)),
    decreases fs.len() - n,
{
    if n < fs.len() {
        assert(fs.take(n + 1).drop_last() =~= fs.take(n));
        lemma_first_field_error_prefix(fs, n + 1);
    } else {
        assert(fs.take(n) =~= fs);
    }
}


/// The record that a slice crosses the boundary as: a pointer-sized handle
/// and a 64-bit length, laid out sequentially.
pub fn slice_abi_obj() -> (r: ast::Object)
    ensures
        r.name@ == "SliceAbi"@,
        r.object_type == ast::ObjectType::Struct,
        !r.is_static,
        r.fields@.len() == 2,
        r.fields@[0].name@ == "Ptr"@,
        r.fields@[0].ty@ == TypeView::Struct(IdentView::Named("IntPtr"@)),
        r.fields@[1].name@ == "Len"@,
        r.fields@[1].ty@ == TypeView::UInt64,
        r.methods@.len() == 0,
{
    let mut attributes = Vec::new();
    attributes.push(ast::Attribute::struct_layout("Sequential"));
    let mut fields = Vec::new();
    fields.push(ast::Field { name: String::from_str("Ptr"), ty: ast::CSharpType::intptr() });
    fields.push(ast::Field { name: String::from_str("Len"), ty: ast::CSharpType::UInt64 });
    ast::Object {
        attributes,
        object_type: ast::ObjectType::Struct,
        is_static: false,
        name: String::from_str("SliceAbi"),
        methods: Vec::new(),
        fields,
    }
}

/// The static class that holds the bindings of the free functions.
pub fn top_level_methods_obj(methods: &Vec<BindingMethod>) -> (r: ast::Object)
    requires
        forall|i: int| 0 <= i < methods@.len() ==> #[trigger] methods@[i].wf(),
    ensures
        r.name@ == "TopLevelMethods"@,
        r.object_type == ast::ObjectType::Class,
        r.is_static,
        r.fields@.len() == 0,
        r.methods@.len() == 2 * methods@.len(),
        forall|k: int| 0 <= k < methods@.len() ==> methods_pair(r.methods@, k, #[trigger] methods@[k]),
{
    ast::Object {
        attributes: Vec::new(),
        object_type: ast::ObjectType::Class,
        is_static: true,
        name: String::from_str("TopLevelMethods"),
        methods: methods_of(methods),
        fields: Vec::new(),
    }
}

pub open spec fn struct_ok(d: BindgenExportDescriptor) -> bool {
    d is Struct ==> first_field_error(d->Struct_0.fields@) is None
}

pub open spec fn function_ok(d: BindgenExportDescriptor) -> bool {
    d is Function ==> function_error(d->Function_0) is None
}

pub open spec fn count_structs(ds: Seq<BindgenExportDescriptor>) -> nat
    decreases ds.len(),
{
    if ds.len() == 0 {
        0
    } else {
        count_structs(ds.drop_last()) + if ds.last() is Struct {
            1nat
        } else {
            0nat
        }
    }
}

/// The objects of the namespace: one per struct descriptor in order, then
/// the slice record, then the class with the two methods of each function
/// in order.
pub open spec fn namespace_matches(ns: Seq<AstNode>, ds: Seq<BindgenExportDescriptor>) -> bool {
    let sd = struct_descs(ds);
    let fd = function_descs(ds);
    let n = sd.len() as int;
    &&& ns.len() == n + 2
    &&& forall|k: int|
        0 <= k < n ==> (#[trigger] ns[k]) is Object && struct_object_matches(ns[k]->Object_0, sd[k])
    &&& ns[n] is Object && ns[n]->Object_0.name@ == "SliceAbi"@ && ns[n]->Object_0.fields@.len() == 2
    &&& ns[n]->Object_0.fields@[0].name@ == "Ptr"@ && ns[n]->Object_0.fields@[1].name@ == "Len"@
    &&& ns[n + 1] is Object && ns[n + 1]->Object_0.name@ == "TopLevelMethods"@
    &&& ns[n + 1]->Object_0.is_static
    &&& ns[n + 1]->Object_0.methods@.len() == 2 * fd.len()
    &&& forall|j: int|
        0 <= j < fd.len() ==> function_methods_match(ns[n + 1]->Object_0.methods@, j, #[trigger] fd[j])
}

/// The declaration and the wrapper of function `f` at `2j` and `2j+1`.
pub open spec fn function_methods_match(ms: Seq<ast::Method>, j: int, f: BindgenFunctionDescriptor) -> bool {
    &&& ms[2 * j].is_extern && ms[2 * j].name@ == f.thunk_name@
    &&& ms[2 * j + 1].is_public && ms[2 * j + 1].name@ == camel_case_of(f.real_name@)
}

proof fn lemma_count_structs(ds: Seq<BindgenExportDescriptor>)
    ensures
        count_structs(ds) == struct_descs(ds).len(),
    decreases ds.len(),
{
    if ds.len() > 0 {
        lemma_count_structs(ds.drop_last());
    }
}

/// The source file of the bindings of a library: a generated-file comment,
/// the interop imports, and a namespace named after the library that holds
/// one struct per struct descriptor, the slice record and the class of the
/// free functions. Any struct or function that does not classify fails the
/// whole file.
pub fn form_ast_from_data(descriptors: &Vec<BindgenExportDescriptor>, lib_name: &str) -> (r: Result<
    ast::Root,
    ClassificationError,
>)
    requires
        forall|i: int|
            0 <= i < descriptors@.len() ==> (#[trigger] descriptors@[i] is Function
                ==> descriptors@[i]->Function_0.arguments@.len() < 0x7fff_ffff),
    ensures
        r is Ok <==> forall|i: int|
            0 <= i < descriptors@.len() ==> struct_ok(#[trigger] descriptors@[i]) && function_ok(
                descriptors@[i],
            ),
        r is Ok ==> {
            let root = r->Ok_0;
            &&& root.file_comment is Some
            &&& root.file_comment->Some_0.text@.len() == 1
            &&& root.file_comment->Some_0.text@[0]@
                == "This is a generated file, do not modify by hand."@
            &&& root.using_statements@.len() == 2
            &&& root.using_statements@[0].path@ == "System"@
            &&& root.using_statements@[1].path@ == "System.Runtime.InteropServices"@
            &&& root.children@.len() == 1
            &&& root.children@[0] is Namespace
            &&& root.children@[0]->Namespace_0.name@ == camel_case_of(lib_name@) + "Bindings"@
            &&& root.children@[0]->Namespace_0.children@.len() == count_structs(descriptors@) + 2
            &&& namespace_matches(root.children@[0]->Namespace_0.children@, descriptors@)
        },
{
    let mut objects: Vec<AstNode> = Vec::new();
    let mut i: usize = 0;
    while i < descriptors.len()
        invariant
            i <= descriptors@.len(),
            objects@.len() == count_structs(descriptors@.take(i as int)),
            objects@.len() == struct_descs(descriptors@.take(i as int)).len(),
            forall|k: int| 0 <= k < i ==> struct_ok(#[trigger] descriptors@[k]),
            forall|k: int|
                0 <= k < objects@.len() ==> (#[trigger] objects@[k]) is Object && struct_object_matches(
                    objects@[k]->Object_0,
                    struct_descs(descriptors@.take(i as int))[k],
                ),
        decreases descriptors.len() - i,
    {
        assert(descriptors@.take(i + 1).drop_last() =~= descriptors@.take(i as int));
        assert(descriptors@.take(i + 1).last() == descriptors@[i as int]);
        proof {
            lemma_count_structs(descriptors@.take(i + 1));
        }
        if let BindgenExportDescriptor::Struct(sd) = &descriptors[i] {
            match BindingStruct::new(sd) {
                Ok(st) => objects.push(AstNode::Object(st.to_ast_object())),
                Err(e) => {
                    assert(!struct_ok(descriptors@[i as int]));
                    return Err(e);
                },
            }
        }
        i = i + 1;
    }
    assert(descriptors@.take(i as int) =~= descriptors@);
    let lib = String::from_str(lib_name);
    let mut methods: Vec<BindingMethod> = Vec::new();
    let mut j: usize = 0;
    while j < descriptors.len()
        invariant
            j <= descriptors@.len(),
            forall|k: int| 0 <= k < j ==> function_ok(#[trigger] descriptors@[k]),
            forall|k: int| 0 <= k < methods@.len() ==> #[trigger] methods@[k].wf(),
            methods@.len() == function_descs(descriptors@.take(j as int)).len(),
            lib@ == lib_name@,
            forall|k: int|
                0 <= k < methods@.len() ==> (#[trigger] methods@[k]).rust_thunk_name@
                    == function_descs(descriptors@.take(j as int))[k].thunk_name@
                    && methods@[k].cs_name@ == camel_case_of(
                    function_descs(descriptors@.take(j as int))[k].real_name@,
                ),
            forall|k: int|
                0 <= k < descriptors@.len() ==> (#[trigger] descriptors@[k] is Function
                    ==> descriptors@[k]->Function_0.arguments@.len() < 0x7fff_ffff),
        decreases descriptors.len() - j,
    {
        assert(descriptors@.take(j + 1).drop_last() =~= descriptors@.take(j as int));
        assert(descriptors@.take(j + 1).last() == descriptors@[j as int]);
        if let BindgenExportDescriptor::Function(fd) = &descriptors[j] {
            match BindingMethod::new(lib.as_str(), fd) {
                Ok(m) => methods.push(m),
                Err(e) => {
                    assert(!function_ok(descriptors@[j as int]));
                    return Err(e);
                },
            }
        }
        j = j + 1;
    }
    assert(descriptors@.take(j as int) =~= descriptors@);
    proof {
        lemma_count_structs(descriptors@);
    }
    let ghost before = objects@;
    let ghost fd = function_descs(descriptors@);
    let sa = slice_abi_obj();
    let tl = top_level_methods_obj(&methods);
    proof {
        assert forall|jj: int| 0 <= jj < fd.len() implies function_methods_match(
            tl.methods@,
            jj,
            #[trigger] fd[jj],
        ) by {
            assert(methods_pair(tl.methods@, jj, methods@[jj]));
        }
    }
    objects.push(AstNode::Object(sa));
    objects.push(AstNode::Object(tl));
    proof {
        let n = before.len() as int;
        assert(objects@[n] == AstNode::Object(sa));
        assert(objects@[n + 1] == AstNode::Object(tl));
        assert forall|k: int| 0 <= k < n implies (#[trigger] objects@[k]) is Object
            && struct_object_matches(objects@[k]->Object_0, struct_descs(descriptors@)[k]) by {
            assert(objects@[k] == before[k]);
        }
        assert(namespace_matches(objects@, descriptors@));
    }
    let mut text = Vec::new();
    text.push(String::from_str("This is a generated file, do not modify by hand."));
    let mut using_statements = Vec::new();
    using_statements.push(ast::UsingStatement { path: String::from_str("System") });
    using_statements.push(
        ast::UsingStatement { path: String::from_str("System.Runtime.InteropServices") },
    );
    let mut name = to_camel_case(lib_name);
    name.append("Bindings");
    let mut children = Vec::new();
    children.push(AstNode::Namespace(ast::Namespace { name, children: objects }));
    Ok(
        ast::Root {
            file_comment: Some(ast::BlockComment { text }),
            using_statements,
            children,
        },
    )
}


/// The name of the integer type of a legal width and signedness.
pub open spec fn int_type_name(width: u8, signed: bool) -> Seq<char> {
    if width == 8 {
        if signed {
            "SByte"@
        } else {
            "Byte"@
        }
    } else if width == 16 {
        if signed {
            "Int16"@
        } else {
            "UInt16"@
        }
    } else if width == 32 {
        if signed {
            "Int32"@
        } else {
            "UInt32"@
        }
    } else if signed {
        "Int64"@
    } else {
        "UInt64"@
    }
}

/// Every integer of width 8, 16, 32 or 64, signed or not, is simple: its
/// native and idiomatic types are one type, which renders as the fixed name
/// of that width and signedness.
pub proof fn lemma_int_classification(width: u8, signed: bool)
    requires
        width == 8 || width == 16 || width == 32 || width == 64,
    ensures
        classify_view(BindgenTypeDescriptor::Int { width, signed }) is Ok,
        classify_view(BindgenTypeDescriptor::Int { width, signed })->Ok_0 is Simple,
        native_view(classify_view(BindgenTypeDescriptor::Int { width, signed })->Ok_0)
            == idiomatic_view(classify_view(BindgenTypeDescriptor::Int { width, signed })->Ok_0),
        type_text(native_view(classify_view(BindgenTypeDescriptor::Int { width, signed })->Ok_0))
            == int_type_name(width, signed),
{
}

} // verus!
