//! A syntax tree of the target language that renders straight to indented
//! source text.

use vstd::prelude::*;
use crate::level_1::{IdentView, TypeView};
use crate::text::{int_text, push_int_text};
use crate::level_0::{indent_text};

verus! {

broadcast use vstd::std_specs::vec::group_vec_axioms, vstd::seq::group_seq_axioms;

/// A name as it appears in the source.
#[derive(Debug)]
pub struct Ident(pub String);

impl Ident {
    pub fn new(s: &str) -> (r: Ident)
        ensures
            r.0@ == s@,
    {
        Ident(String::from_str(s))
    }

    pub fn copy(&self) -> (r: Ident)
        ensures
            r.0@ == self.0@,
    {
        Ident(self.0.clone())
    }
}

/// A type of the target language.
#[derive(Debug)]
pub enum CSharpType {
    Void,
    SByte,
    Int16,
    Int32,
    Int64,
    Byte,
    UInt16,
    UInt32,
    UInt64,
    Bool,
    Array { elem_type: Box<CSharpType> },
    Ptr { target: Box<CSharpType> },
    Struct { name: Ident },
}

pub open spec fn ast_type_view(t: CSharpType) -> TypeView
    decreases t,
{
    match t {
        CSharpType::Void => TypeView::Void,
        CSharpType::SByte => TypeView::SByte,
        CSharpType::Int16 => TypeView::Int16,
        CSharpType::Int32 => TypeView::Int32,
        CSharpType::Int64 => TypeView::Int64,
        CSharpType::Byte => TypeView::Byte,
        CSharpType::UInt16 => TypeView::UInt16,
        CSharpType::UInt32 => TypeView::UInt32,
        CSharpType::UInt64 => TypeView::UInt64,
        CSharpType::Bool => TypeView::Bool,
        CSharpType::Array { elem_type } => TypeView::Array(Box::new(ast_type_view(*elem_type))),
        CSharpType::Ptr { target } => TypeView::Ptr(Box::new(ast_type_view(*target))),
        CSharpType::Struct { name } => TypeView::Struct(IdentView::Named(name.0@)),
    }
}

impl View for CSharpType {
    type V = TypeView;

    open spec fn view(&self) -> TypeView {
        ast_type_view(*self)
    }
}

/// The source text of a type.
pub open spec fn type_text(t: TypeView) -> Seq<char>
    decreases t,
{
    match t {
        TypeView::Var => "var"@,
        TypeView::Void => "void"@,
        TypeView::SByte => "SByte"@,
        TypeView::Int16 => "Int16"@,
        TypeView::Int32 => "Int32"@,
        TypeView::Int64 => "Int64"@,
        TypeView::Byte => "Byte"@,
        TypeView::UInt16 => "UInt16"@,
        TypeView::UInt32 => "UInt32"@,
        TypeView::UInt64 => "UInt64"@,
        TypeView::Bool => "bool"@,
        TypeView::Array(e) => type_text(*e) + "[]"@,
        TypeView::Ptr(t) => type_text(*t) + "*"@,
        TypeView::Struct(n) => crate::level_1::ident_text(n),
    }
}

impl CSharpType {
    /// The platform's pointer-sized handle type.
    pub fn intptr() -> (r: CSharpType)
        ensures
            r@ == TypeView::Struct(IdentView::Named("IntPtr"@)),
    {
        CSharpType::Struct { name: Ident::new("IntPtr") }
    }

    pub fn copy(&self) -> (r: CSharpType)
        ensures
            r@ == self@,
        decreases self,
    {
        match self {
            CSharpType::Void => CSharpType::Void,
            CSharpType::SByte => CSharpType::SByte,
            CSharpType::Int16 => CSharpType::Int16,
            CSharpType::Int32 => CSharpType::Int32,
            CSharpType::Int64 => CSharpType::Int64,
            CSharpType::Byte => CSharpType::Byte,
            CSharpType::UInt16 => CSharpType::UInt16,
            CSharpType::UInt32 => CSharpType::UInt32,
            CSharpType::UInt64 => CSharpType::UInt64,
            CSharpType::Bool => CSharpType::Bool,
            CSharpType::Array { elem_type } => CSharpType::Array {
                elem_type: Box::new(elem_type.copy()),
            },
            CSharpType::Ptr { target } => CSharpType::Ptr { target: Box::new(target.copy()) },
            CSharpType::Struct { name } => CSharpType::Struct { name: name.copy() },
        }
    }

    pub fn push_text(&self, out: &mut String)
        ensures
            final(out)@ == old(out)@ + type_text(self@),
        decreases self,
    {
        match self {
            CSharpType::Void => out.append("void"),
            CSharpType::SByte => out.append("SByte"),
            CSharpType::Int16 => out.append("Int16"),
            CSharpType::Int32 => out.append("Int32"),
            CSharpType::Int64 => out.append("Int64"),
            CSharpType::Byte => out.append("Byte"),
            CSharpType::UInt16 => out.append("UInt16"),
            CSharpType::UInt32 => out.append("UInt32"),
            CSharpType::UInt64 => out.append("UInt64"),
            CSharpType::Bool => out.append("bool"),
            CSharpType::Array { elem_type } => {
                elem_type.push_text(out);
                out.append("[]");
            },
            CSharpType::Ptr { target } => {
                target.push_text(out);
                out.append("*");
            },
            CSharpType::Struct { name } => out.append(name.0.as_str()),
        }
        assert(out@ =~= old(out)@ + type_text(self@));
    }

    /// The source text of the type.
    pub fn to_text(&self) -> (r: String)
        ensures
            r@ == type_text(self@),
    {
        let mut out = String::new();
        self.push_text(&mut out);
        assert(out@ =~= type_text(self@));
        out
    }
}


/// The indentation that a node renders at.
#[derive(Debug, Clone, Copy)]
pub struct RenderContext {
    pub indent_level: u8,
}

pub open spec fn deeper(l: nat) -> nat {
    if l < 255 {
        l + 1
    } else {
        255
    }
}

impl RenderContext {
    pub fn indented(&self) -> (r: RenderContext)
        ensures
            r.indent_level as nat == deeper(self.indent_level as nat),
    {
        RenderContext {
            indent_level: if self.indent_level < 255 {
                self.indent_level + 1
            } else {
                255
            },
        }
    }
}

impl Default for RenderContext {
    fn default() -> (r: RenderContext)
        ensures
            r.indent_level == 0,
    {
        RenderContext { indent_level: 0 }
    }
}

/// A literal value.
#[derive(Debug)]
pub enum LiteralValue {
    QuotedString(String),
    EnumValue(String, String),
    Number(i64),
}

pub open spec fn literal_text(l: LiteralValue) -> Seq<char> {
    match l {
        LiteralValue::QuotedString(v) => seq!['"'] + v@ + seq!['"'],
        LiteralValue::EnumValue(e, v) => e@ + seq!['.'] + v@,
        LiteralValue::Number(n) => int_text(n as int),
    }
}

/// A comment block, one ` * ` line per entry.
#[derive(Debug)]
pub struct BlockComment {
    pub text: Vec<String>,
}

/// `using $path;`
#[derive(Debug)]
pub struct UsingStatement {
    pub path: String,
}

/// Its children between a pair of braces, one level deeper.
#[derive(Debug)]
pub struct Scope {
    pub children: Vec<AstNode>,
}

/// `unsafe`
#[derive(Debug)]
pub struct UnsafeStatement {}

/// `namespace $name { ... }`, its children separated by blank lines.
#[derive(Debug)]
pub struct Namespace {
    pub name: String,
    pub children: Vec<AstNode>,
}

/// `[$name($positional, $key = $value)]`
#[derive(Debug)]
pub struct Attribute {
    pub name: String,
    pub positional_parameters: Vec<LiteralValue>,
    pub named_parameters: Vec<(Ident, LiteralValue)>,
}

impl Attribute {
    /// `[DllImport("$binary", EntryPoint = "$entrypoint")]`
    pub fn dll_import(binary: &str, entrypoint: &str) -> (r: Attribute)
        ensures
            r.name@ == "DllImport"@,
            r.positional_parameters@.len() == 1,
            literal_text(r.positional_parameters@[0]) == seq!['"'] + binary@ + seq!['"'],
            r.named_parameters@.len() == 1,
            r.named_parameters@[0].0.0@ == "EntryPoint"@,
            literal_text(r.named_parameters@[0].1) == seq!['"'] + entrypoint@ + seq!['"'],
    {
        let mut positional_parameters = Vec::new();
        positional_parameters.push(LiteralValue::QuotedString(String::from_str(binary)));
        let mut named_parameters = Vec::new();
        named_parameters.push(
            (Ident::new("EntryPoint"), LiteralValue::QuotedString(String::from_str(entrypoint))),
        );
        Attribute { name: String::from_str("DllImport"), positional_parameters, named_parameters }
    }

    /// `[StructLayout(LayoutKind.$layout_kind)]`
    pub fn struct_layout(layout_kind: &str) -> (r: Attribute)
        ensures
            r.name@ == "StructLayout"@,
            r.positional_parameters@.len() == 1,
            literal_text(r.positional_parameters@[0]) == "LayoutKind"@ + seq!['.'] + layout_kind@,
            r.named_parameters@.len() == 0,
    {
        let mut positional_parameters = Vec::new();
        positional_parameters.push(
            LiteralValue::EnumValue(String::from_str("LayoutKind"), String::from_str(layout_kind)),
        );
        Attribute {
            name: String::from_str("StructLayout"),
            positional_parameters,
            named_parameters: Vec::new(),
        }
    }
}

/// An expression on a line of its own, ended by `;`.
#[derive(Debug)]
pub struct Statement {
    pub expr: Box<AstNode>,
}

/// `$ty $name;`
#[derive(Debug)]
pub struct VariableDeclaration {
    pub name: Ident,
    pub ty: CSharpType,
}

/// `($element).$field_name`
#[derive(Debug)]
pub struct FieldAccess {
    pub element: Box<AstNode>,
    pub field_name: Ident,
}

/// `($element)[$index]`
#[derive(Debug)]
pub struct IndexAccess {
    pub element: Box<AstNode>,
    pub index: i32,
}

/// `&($element)`
#[derive(Debug)]
pub struct AddressOf {
    pub element: Box<AstNode>,
}

/// `($ty)($element)`
#[derive(Debug)]
pub struct Cast {
    pub ty: CSharpType,
    pub element: Box<AstNode>,
}

/// `$lhs $operation_sym $rhs`
#[derive(Debug)]
pub struct BinaryExpression {
    pub lhs: Box<AstNode>,
    pub rhs: Box<AstNode>,
    pub operation_sym: &'static str,
}

/// `( ($test) ? ($true_branch) : ($false_branch) )`
#[derive(Debug)]
pub struct TernaryExpression {
    pub test: Box<AstNode>,
    pub true_branch: Box<AstNode>,
    pub false_branch: Box<AstNode>,
}

/// `fixed ($ty $id = $rhs)`; the following nodes are its scope.
#[derive(Debug)]
pub struct FixedAssignment {
    pub ty: CSharpType,
    pub id: Ident,
    pub rhs: Box<AstNode>,
}

/// `$target.$method_name($args)`
#[derive(Debug)]
pub struct MethodInvocation {
    pub target: Option<Ident>,
    pub method_name: Ident,
    pub args: Vec<Ident>,
}

/// `return $value;` or `return;`
#[derive(Debug)]
pub struct ReturnStatement {
    pub value: Option<Box<AstNode>>,
}

/// `$ty $name` in a parameter list.
#[derive(Debug)]
pub struct MethodArgument {
    pub name: Ident,
    pub ty: CSharpType,
}

#[derive(Debug)]
pub struct Method {
    pub attributes: Vec<Attribute>,
    pub is_public: bool,
    pub is_static: bool,
    pub is_extern: bool,
    pub is_unsafe: bool,
    pub name: String,
    pub return_ty: CSharpType,
    pub args: Vec<MethodArgument>,
    pub body: Option<Vec<AstNode>>,
}

/// `public $ty $name;`
#[derive(Debug)]
pub struct Field {
    pub name: String,
    pub ty: CSharpType,
}

#[derive(Debug, Clone, Copy, PartialEq, Eq, Structural)]
pub enum ObjectType {
    Class,
    Struct,
}

#[derive(Debug)]
pub struct Object {
    pub attributes: Vec<Attribute>,
    pub object_type: ObjectType,
    pub is_static: bool,
    pub name: String,
    pub methods: Vec<Method>,
    pub fields: Vec<Field>,
}

/// Any node of the tree.
#[derive(Debug)]
pub enum AstNode {
    Ident(Ident),
    Literal(LiteralValue),
    BlockComment(BlockComment),
    UsingStatement(UsingStatement),
    Scope(Scope),
    UnsafeStatement(UnsafeStatement),
    Namespace(Namespace),
    Attribute(Attribute),
    Statement(Statement),
    VariableDeclaration(VariableDeclaration),
    FieldAccess(FieldAccess),
    IndexAccess(IndexAccess),
    AddressOf(AddressOf),
    Cast(Cast),
    BinaryExpression(BinaryExpression),
    TernaryExpression(TernaryExpression),
    FixedAssignment(FixedAssignment),
    MethodInvocation(MethodInvocation),
    ReturnStatement(ReturnStatement),
    MethodArgument(MethodArgument),
    Method(Method),
    Field(Field),
    Object(Object),
}

/// One line: the indentation, the text and a line break.
pub open spec fn line(l: nat, text: Seq<char>) -> Seq<char> {
    indent_text(l) + text + seq!['\n']
}

pub open spec fn join_text(items: Seq<Seq<char>>, sep: Seq<char>) -> Seq<char>
    decreases items.len(),
{
    if items.len() == 0 {
        Seq::empty()
    } else if items.len() == 1 {
        items[0]
    } else {
        join_text(items.drop_last(), sep) + sep + items.last()
    }
}

pub open spec fn concat_text(items: Seq<Seq<char>>) -> Seq<char>
    decreases items.len(),
{
    if items.len() == 0 {
        Seq::empty()
    } else {
        concat_text(items.drop_last()) + items.last()
    }
}

pub proof fn lemma_join_text_step(items: Seq<Seq<char>>, sep: Seq<char>, i: int)
    requires
        0 <= i < items.len(),
    ensures
        join_text(items.take(i + 1), sep) == if i == 0 {
            items[0]
        } else {
            join_text(items.take(i), sep) + sep + items[i]
        },
{
    assert(items.take(i + 1).drop_last() =~= items.take(i));
}

pub proof fn lemma_concat_text_step(items: Seq<Seq<char>>, i: int)
    requires
        0 <= i < items.len(),
    ensures
        concat_text(items.take(i + 1)) == concat_text(items.take(i)) + items[i],
{
    assert(items.take(i + 1).drop_last() =~= items.take(i));
}

pub open spec fn comment_text(c: BlockComment, l: nat) -> Seq<char> {
    line(l, "/*"@) + concat_text(c.text@.map_values(|t: String| line(l, " * "@ + t@))) + line(
        l,
        " */"@,
    )
}

pub open spec fn param_text(p: (Ident, LiteralValue)) -> Seq<char> {
    p.0.0@ + " = "@ + literal_text(p.1)
}

pub open spec fn attribute_text(a: Attribute, l: nat) -> Seq<char> {
    indent_text(l) + seq!['['] + a.name@ + if a.positional_parameters@.len()
        + a.named_parameters@.len() == 0 {
        "]\n"@
    } else {
        seq!['('] + join_text(
            a.positional_parameters@.map_values(|p: LiteralValue| literal_text(p))
                + a.named_parameters@.map_values(|p: (Ident, LiteralValue)| param_text(p)),
            ", "@,
        ) + ")]\n"@
    }
}

pub open spec fn invocation_text(m: MethodInvocation) -> Seq<char> {
    (match m.target {
        Some(t) => t.0@ + seq!['.'],
        None => Seq::empty(),
    }) + m.method_name.0@ + seq!['('] + join_text(m.args@.map_values(|a: Ident| a.0@), ", "@)
        + seq![')']
}

pub open spec fn flag_text(flag: bool, w: Seq<char>) -> Seq<char> {
    if flag {
        w
    } else {
        Seq::empty()
    }
}

pub open spec fn arg_text(a: MethodArgument) -> Seq<char> {
    type_text(a.ty@) + seq![' '] + a.name.0@
}

pub open spec fn field_text(f: Field, l: nat) -> Seq<char> {
    line(l, "public "@ + type_text(f.ty@) + seq![' '] + f.name@ + seq![';'])
}

pub open spec fn attributes_text(attrs: Seq<Attribute>, l: nat) -> Seq<char> {
    concat_text(attrs.map_values(|a: Attribute| attribute_text(a, l)))
}

/// The text of a node at an indentation level.
pub open spec fn node_text(n: AstNode, l: nat) -> Seq<char>
    decreases n,
{
    match n {
        AstNode::Ident(i) => i.0@,
        AstNode::Literal(v) => literal_text(v),
        AstNode::BlockComment(c) => comment_text(c, l),
        AstNode::UsingStatement(u) => line(l, "using "@ + u.path@ + seq![';']),
        AstNode::Scope(s) => line(l, "{"@) + nodes_text(s.children@, deeper(l)) + line(l, "}"@),
        AstNode::UnsafeStatement(_) => line(l, "unsafe"@),
        AstNode::Namespace(ns) => line(l, "namespace "@ + ns.name@) + line(l, "{"@) + spaced_text(
            ns.children@,
            deeper(l),
        ) + line(l, "}"@),
        AstNode::Attribute(a) => attribute_text(a, l),
        AstNode::Statement(st) => indent_text(l) + node_text(*st.expr, l) + ";\n"@,
        AstNode::VariableDeclaration(v) => line(
            l,
            type_text(v.ty@) + seq![' '] + v.name.0@ + seq![';'],
        ),
        AstNode::FieldAccess(f) => seq!['('] + node_text(*f.element, 0) + ")."@ + f.field_name.0@,
        AstNode::IndexAccess(x) => seq!['('] + node_text(*x.element, 0) + ")["@ + int_text(
            x.index as int,
        ) + seq![']'],
        AstNode::AddressOf(a) => "&("@ + node_text(*a.element, 0) + seq![')'],
        AstNode::Cast(c) => seq!['('] + type_text(c.ty@) + ")("@ + node_text(*c.element, 0) + seq![
            ')',
        ],
        AstNode::BinaryExpression(b) => node_text(*b.lhs, l) + seq![' '] + b.operation_sym@
            + seq![' '] + node_text(*b.rhs, l),
        AstNode::TernaryExpression(t) => "( ("@ + node_text(*t.test, l) + ") ? ("@ + node_text(
            *t.true_branch,
            l,
        ) + ") : ("@ + node_text(*t.false_branch, l) + ") )"@,
        AstNode::FixedAssignment(f) => indent_text(l) + "fixed ("@ + type_text(f.ty@) + seq![' ']
            + f.id.0@ + " = "@ + node_text(*f.rhs, l) + ")\n"@,
        AstNode::MethodInvocation(m) => invocation_text(m),
        AstNode::ReturnStatement(r) => match r.value {
            Some(v) => indent_text(l) + "return "@ + node_text(*v, l) + ";\n"@,
            None => line(l, "return;"@),
        },
        AstNode::MethodArgument(a) => arg_text(a),
        AstNode::Method(m) => method_text(m, l),
        AstNode::Field(f) => field_text(f, l),
        AstNode::Object(o) => object_text(o, l),
    }
}

/// The texts of the nodes, one after the other.
pub open spec fn nodes_text(s: Seq<AstNode>, l: nat) -> Seq<char>
    decreases s,
{
    if s.len() == 0 {
        Seq::empty()
    } else {
        nodes_text(s.drop_last(), l) + node_text(s.last(), l)
    }
}

/// The texts of the nodes, separated by blank lines.
pub open spec fn spaced_text(s: Seq<AstNode>, l: nat) -> Seq<char>
    decreases s,
{
    if s.len() == 0 {
        Seq::empty()
    } else if s.len() == 1 {
        node_text(s[0], l)
    } else {
        spaced_text(s.drop_last(), l) + seq!['\n'] + node_text(s.last(), l)
    }
}

pub open spec fn method_head_text(m: Method) -> Seq<char> {
    (if m.is_public {
        "public "@
    } else {
        "private "@
    }) + flag_text(m.is_static, "static "@) + flag_text(m.is_extern, "extern "@) + flag_text(
        m.is_unsafe,
        "unsafe "@,
    ) + type_text(m.return_ty@) + seq![' '] + m.name@ + seq!['(']
}

pub open spec fn method_tail_text(body: Option<Vec<AstNode>>, l: nat) -> Seq<char>
    decreases body,
{
    match body {
        Some(b) => ")\n"@ + line(l, "{"@) + nodes_text(b@, deeper(l)) + line(l, "}"@),
        None => ");\n"@,
    }
}

pub open spec fn method_text(m: Method, l: nat) -> Seq<char>
    decreases m,
{
    attributes_text(m.attributes@, l) + indent_text(l) + method_head_text(m) + join_text(
        m.args@.map_values(|a: MethodArgument| arg_text(a)),
        ", "@,
    ) + method_tail_text(m.body, l)
}

/// The methods of an object, a blank line before each one that follows a
/// field or another method.
pub open spec fn methods_text(ms: Seq<Method>, l: nat, after_fields: bool) -> Seq<char>
    decreases ms,
{
    if ms.len() == 0 {
        Seq::empty()
    } else {
        methods_text(ms.drop_last(), l, after_fields) + (if after_fields || ms.len() > 1 {
            seq!['\n']
        } else {
            Seq::empty()
        }) + method_text(ms.last(), l)
    }
}

pub open spec fn object_head_text(o: Object) -> Seq<char> {
    "public "@ + flag_text(o.is_static, "static "@) + (match o.object_type {
        ObjectType::Class => "class "@,
        ObjectType::Struct => "struct "@,
    }) + o.name@
}

pub open spec fn fields_text(fs: Seq<Field>, l: nat) -> Seq<char> {
    concat_text(fs.map_values(|f: Field| field_text(f, l)))
}

pub open spec fn object_text(o: Object, l: nat) -> Seq<char>
    decreases o,
{
    attributes_text(o.attributes@, l) + line(l, object_head_text(o)) + line(l, "{"@) + fields_text(
        o.fields@,
        deeper(l),
    ) + methods_text(o.methods@, deeper(l), o.fields@.len() > 0) + line(l, "}"@)
}

fn push_indent_text(out: &mut String, l: u8)
    ensures
        final(out)@ == old(out)@ + indent_text(l as nat),
{
    let mut i: u8 = 0;
    while i < l
        invariant
            i <= l,
            out@ == old(out)@ + indent_text(i as nat),
        decreases l - i,
    {
        out.append("    ");
        proof {
            reveal_strlit("    ");
        }
        assert(indent_text((i + 1) as nat) == indent_text(i as nat) + seq![' ', ' ', ' ', ' ']);
        assert(out@ =~= old(out)@ + indent_text((i + 1) as nat));
        i = i + 1;
    }
}

fn push_line(out: &mut String, l: u8, text: &str)
    ensures
        final(out)@ == old(out)@ + line(l as nat, text@),
{
    push_indent_text(out, l);
    out.append(text);
    out.append("\n");
    proof {
        reveal_strlit("\n");
    }
    assert(out@ =~= old(out)@ + line(l as nat, text@));
}

fn push_literal(out: &mut String, v: &LiteralValue)
    ensures
        final(out)@ == old(out)@ + literal_text(*v),
{
    proof {
        reveal_strlit("\"");
        reveal_strlit(".");
    }
    match v {
        LiteralValue::QuotedString(val) => {
            out.append("\"");
            out.append(val.as_str());
            out.append("\"");
        },
        LiteralValue::EnumValue(e, val) => {
            out.append(e.as_str());
            out.append(".");
            out.append(val.as_str());
        },
        LiteralValue::Number(n) => push_int_text(out, *n),
    }
    assert(out@ =~= old(out)@ + literal_text(*v));
}

fn push_comment(out: &mut String, c: &BlockComment, l: u8)
    ensures
        final(out)@ == old(out)@ + comment_text(*c, l as nat),
{
    push_line(out, l, "/*");
    let ghost start = out@;
    let ghost items = c.text@.map_values(|t: String| line(l as nat, " * "@ + t@));
    let mut i: usize = 0;
    assert(items.take(0) =~= Seq::<Seq<char>>::empty());
    while i < c.text.len()
        invariant
            i <= c.text@.len(),
            items == c.text@.map_values(|t: String| line(l as nat, " * "@ + t@)),
            out@ == start + concat_text(items.take(i as int)),
        decreases c.text.len() - i,
    {
        proof {
            lemma_concat_text_step(items, i as int);
        }
        let mut text = String::from_str(" * ");
        text.append(c.text[i].as_str());
        push_line(out, l, text.as_str());
        assert(out@ =~= start + concat_text(items.take(i + 1)));
        i = i + 1;
    }
    assert(items.take(c.text@.len() as int) =~= items);
    push_line(out, l, " */");
    assert(out@ =~= old(out)@ + comment_text(*c, l as nat));
}

fn push_attribute(out: &mut String, a: &Attribute, l: u8)
    ensures
        final(out)@ == old(out)@ + attribute_text(*a, l as nat),
{
    proof {
        reveal_strlit("[");
        reveal_strlit("(");
    }
    push_indent_text(out, l);
    out.append("[");
    out.append(a.name.as_str());
    if a.positional_parameters.len() == 0 && a.named_parameters.len() == 0 {
        out.append("]\n");
    } else {
        out.append("(");
        let ghost start = out@;
        let ghost pos = a.positional_parameters@.map_values(|p: LiteralValue| literal_text(p));
        let ghost named = a.named_parameters@.map_values(|p: (Ident, LiteralValue)| param_text(p));
        let ghost items = pos + named;
        let mut i: usize = 0;
        assert(items.take(0) =~= Seq::<Seq<char>>::empty());
        while i < a.positional_parameters.len()
            invariant
                i <= a.positional_parameters@.len(),
                pos == a.positional_parameters@.map_values(|p: LiteralValue| literal_text(p)),
                items == pos + named,
                out@ == start + join_text(items.take(i as int), ", "@),
            decreases a.positional_parameters.len() - i,
        {
            proof {
                lemma_join_text_step(items, ", "@, i as int);
            }
            if i > 0 {
                out.append(", ");
            }
            push_literal(out, &a.positional_parameters[i]);
            assert(out@ =~= start + join_text(items.take(i + 1), ", "@));
            i = i + 1;
        }
        let n = a.positional_parameters.len();
        let mut j: usize = 0;
        while j < a.named_parameters.len()
            invariant
                n == a.positional_parameters@.len(),
                j <= a.named_parameters@.len(),
                pos.len() == n,
                named == a.named_parameters@.map_values(|p: (Ident, LiteralValue)| param_text(p)),
                items == pos + named,
                out@ == start + join_text(items.take(n + j), ", "@),
            decreases a.named_parameters.len() - j,
        {
            proof {
                lemma_join_text_step(items, ", "@, n + j);
            }
            if n > 0 || j > 0 {
                out.append(", ");
            }
            let (key, value) = &a.named_parameters[j];
            out.append(key.0.as_str());
            out.append(" = ");
            push_literal(out, value);
            assert(items[n + j] == param_text(a.named_parameters@[j as int]));
            assert(out@ =~= start + join_text(items.take(n + j + 1), ", "@));
            j = j + 1;
        }
        assert(items.take(n + j) =~= items);
        out.append(")]\n");
    }
    assert(out@ =~= old(out)@ + attribute_text(*a, l as nat));
}

fn push_attributes(out: &mut String, attrs: &Vec<Attribute>, l: u8)
    ensures
        final(out)@ == old(out)@ + attributes_text(attrs@, l as nat),
{
    let ghost items = attrs@.map_values(|a: Attribute| attribute_text(a, l as nat));
    let mut i: usize = 0;
    assert(items.take(0) =~= Seq::<Seq<char>>::empty());
    while i < attrs.len()
        invariant
            i <= attrs@.len(),
            items == attrs@.map_values(|a: Attribute| attribute_text(a, l as nat)),
            out@ == old(out)@ + concat_text(items.take(i as int)),
        decreases attrs.len() - i,
    {
        proof {
            lemma_concat_text_step(items, i as int);
        }
        push_attribute(out, &attrs[i], l);
        assert(out@ =~= old(out)@ + concat_text(items.take(i + 1)));
        i = i + 1;
    }
    assert(items.take(attrs@.len() as int) =~= items);
}

fn push_joined_idents(out: &mut String, args: &Vec<Ident>)
    ensures
        final(out)@ == old(out)@ + join_text(args@.map_values(|a: Ident| a.0@), ", "@),
{
    let ghost items = args@.map_values(|a: Ident| a.0@);
    let mut i: usize = 0;
    assert(items.take(0) =~= Seq::<Seq<char>>::empty());
    while i < args.len()
        invariant
            i <= args@.len(),
            items == args@.map_values(|a: Ident| a.0@),
            out@ == old(out)@ + join_text(items.take(i as int), ", "@),
        decreases args.len() - i,
    {
        proof {
            lemma_join_text_step(items, ", "@, i as int);
        }
        if i > 0 {
            out.append(", ");
        }
        out.append(args[i].0.as_str());
        assert(out@ =~= old(out)@ + join_text(items.take(i + 1), ", "@));
        i = i + 1;
    }
    assert(items.take(args@.len() as int) =~= items);
}

fn push_invocation(out: &mut String, m: &MethodInvocation)
    ensures
        final(out)@ == old(out)@ + invocation_text(*m),
{
    proof {
        reveal_strlit(".");
        reveal_strlit("(");
        reveal_strlit(")");
    }
    if let Some(t) = &m.target {
        out.append(t.0.as_str());
        out.append(".");
    }
    out.append(m.method_name.0.as_str());
    out.append("(");
    push_joined_idents(out, &m.args);
    out.append(")");
    assert(out@ =~= old(out)@ + invocation_text(*m));
}

fn push_args(out: &mut String, args: &Vec<MethodArgument>)
    ensures
        final(out)@ == old(out)@ + join_text(args@.map_values(|a: MethodArgument| arg_text(a)), ", "@),
{
    let ghost items = args@.map_values(|a: MethodArgument| arg_text(a));
    let mut i: usize = 0;
    assert(items.take(0) =~= Seq::<Seq<char>>::empty());
    while i < args.len()
        invariant
            i <= args@.len(),
            items == args@.map_values(|a: MethodArgument| arg_text(a)),
            out@ == old(out)@ + join_text(items.take(i as int), ", "@),
        decreases args.len() - i,
    {
        proof {
            lemma_join_text_step(items, ", "@, i as int);
            reveal_strlit(" ");
        }
        if i > 0 {
            out.append(", ");
        }
        args[i].ty.push_text(out);
        out.append(" ");
        out.append(args[i].name.0.as_str());
        assert(out@ =~= old(out)@ + join_text(items.take(i + 1), ", "@));
        i = i + 1;
    }
    assert(items.take(args@.len() as int) =~= items);
}

fn push_field(out: &mut String, f: &Field, l: u8)
    ensures
        final(out)@ == old(out)@ + field_text(*f, l as nat),
{
    let mut text = String::from_str("public ");
    f.ty.push_text(&mut text);
    text.append(" ");
    text.append(f.name.as_str());
    text.append(";");
    proof {
        reveal_strlit(" ");
        reveal_strlit(";");
    }
    push_line(out, l, text.as_str());
    assert(out@ =~= old(out)@ + field_text(*f, l as nat));
}

fn method_head(m: &Method) -> (r: String)
    ensures
        r@ == method_head_text(*m),
{
    proof {
        reveal_strlit(" ");
        reveal_strlit("(");
    }
    let mut out = if m.is_public {
        String::from_str("public ")
    } else {
        String::from_str("private ")
    };
    if m.is_static {
        out.append("static ");
    }
    if m.is_extern {
        out.append("extern ");
    }
    if m.is_unsafe {
        out.append("unsafe ");
    }
    m.return_ty.push_text(&mut out);
    out.append(" ");
    out.append(m.name.as_str());
    out.append("(");
    assert(out@ =~= method_head_text(*m));
    out
}

fn push_method_tail(out: &mut String, body: &Option<Vec<AstNode>>, l: u8)
    ensures
        final(out)@ == old(out)@ + method_tail_text(*body, l as nat),
    decreases body,
{
    match body {
        Some(b) => {
            out.append(")\n");
            push_line(out, l, "{");
            let inner = RenderContext { indent_level: l }.indented();
            push_nodes(out, b, inner.indent_level);
            push_line(out, l, "}");
        },
        None => {
            out.append(");\n");
        },
    }
    assert(out@ =~= old(out)@ + method_tail_text(*body, l as nat));
}

#[verifier::rlimit(60)]
fn push_method(out: &mut String, m: &Method, l: u8)
    ensures
        final(out)@ == old(out)@ + method_text(*m, l as nat),
    decreases m,
{
    push_attributes(out, &m.attributes, l);
    push_indent_text(out, l);
    let head = method_head(m);
    out.append(head.as_str());
    push_args(out, &m.args);
    push_method_tail(out, &m.body, l);
    assert(out@ =~= old(out)@ + method_text(*m, l as nat));
}

fn push_fields(out: &mut String, fields: &Vec<Field>, l: u8)
    ensures
        final(out)@ == old(out)@ + fields_text(fields@, l as nat),
{
    let ghost items = fields@.map_values(|f: Field| field_text(f, l as nat));
    let mut i: usize = 0;
    assert(items.take(0) =~= Seq::<Seq<char>>::empty());
    while i < fields.len()
        invariant
            i <= fields@.len(),
            items == fields@.map_values(|f: Field| field_text(f, l as nat)),
            out@ == old(out)@ + concat_text(items.take(i as int)),
        decreases fields.len() - i,
    {
        proof {
            lemma_concat_text_step(items, i as int);
        }
        push_field(out, &fields[i], l);
        assert(out@ =~= old(out)@ + concat_text(items.take(i + 1)));
        i = i + 1;
    }
    assert(items.take(fields@.len() as int) =~= items);
}

fn push_methods(out: &mut String, ms: &Vec<Method>, l: u8, after_fields: bool)
    ensures
        final(out)@ == old(out)@ + methods_text(ms@, l as nat, after_fields),
    decreases ms,
{
    let mut j: usize = 0;
    assert(ms@.take(0) =~= Seq::<Method>::empty());
    while j < ms.len()
        invariant
            j <= ms@.len(),
            out@ == old(out)@ + methods_text(ms@.take(j as int), l as nat, after_fields),
        decreases ms.len() - j,
    {
        assert(ms@.take(j + 1).drop_last() =~= ms@.take(j as int));
        if after_fields || j > 0 {
            out.append("\n");
            proof {
                reveal_strlit("\n");
            }
        }
        push_method(out, &ms[j], l);
        assert(out@ =~= old(out)@ + methods_text(ms@.take(j + 1), l as nat, after_fields));
        j = j + 1;
    }
    assert(ms@.take(ms@.len() as int) =~= ms@);
}

fn object_head(o: &Object) -> (r: String)
    ensures
        r@ == object_head_text(*o),
{
    let mut head = String::from_str("public ");
    if o.is_static {
        head.append("static ");
    }
    match o.object_type {
        ObjectType::Class => head.append("class "),
        ObjectType::Struct => head.append("struct "),
    }
    head.append(o.name.as_str());
    assert(head@ =~= object_head_text(*o));
    head
}

#[verifier::rlimit(60)]
fn push_object(out: &mut String, o: &Object, l: u8)
    ensures
        final(out)@ == old(out)@ + object_text(*o, l as nat),
    decreases o,
{
    push_attributes(out, &o.attributes, l);
    let head = object_head(o);
    push_line(out, l, head.as_str());
    push_line(out, l, "{");
    let inner = RenderContext { indent_level: l }.indented().indent_level;
    push_fields(out, &o.fields, inner);
    push_methods(out, &o.methods, inner, o.fields.len() > 0);
    push_line(out, l, "}");
    assert(out@ =~= old(out)@ + object_text(*o, l as nat));
}

fn push_nodes(out: &mut String, s: &Vec<AstNode>, l: u8)
    ensures
        final(out)@ == old(out)@ + nodes_text(s@, l as nat),
    decreases s,
{
    let mut i: usize = 0;
    assert(s@.take(0) =~= Seq::<AstNode>::empty());
    while i < s.len()
        invariant
            i <= s@.len(),
            out@ == old(out)@ + nodes_text(s@.take(i as int), l as nat),
        decreases s.len() - i,
    {
        assert(s@.take(i + 1).drop_last() =~= s@.take(i as int));
        push_node(out, &s[i], l);
        assert(out@ =~= old(out)@ + nodes_text(s@.take(i + 1), l as nat));
        i = i + 1;
    }
    assert(s@.take(s@.len() as int) =~= s@);
}

fn push_spaced(out: &mut String, s: &Vec<AstNode>, l: u8)
    ensures
        final(out)@ == old(out)@ + spaced_text(s@, l as nat),
    decreases s,
{
    let mut i: usize = 0;
    assert(s@.take(0) =~= Seq::<AstNode>::empty());
    while i < s.len()
        invariant
            i <= s@.len(),
            out@ == old(out)@ + spaced_text(s@.take(i as int), l as nat),
        decreases s.len() - i,
    {
        assert(s@.take(i + 1).drop_last() =~= s@.take(i as int));
        if i > 0 {
            out.append("\n");
            proof {
                reveal_strlit("\n");
            }
        }
        push_node(out, &s[i], l);
        assert(out@ =~= old(out)@ + spaced_text(s@.take(i + 1), l as nat));
        i = i + 1;
    }
    assert(s@.take(s@.len() as int) =~= s@);
}

#[verifier::rlimit(60)]
fn push_node(out: &mut String, n: &AstNode, l: u8)
    ensures
        final(out)@ == old(out)@ + node_text(*n, l as nat),
    decreases n,
{
    proof {
        reveal_strlit(" ");
        reveal_strlit("(");
        reveal_strlit(")");
        reveal_strlit(";");
        reveal_strlit("]");
    }
    let inner = RenderContext { indent_level: l }.indented().indent_level;
    match n {
        AstNode::Ident(i) => out.append(i.0.as_str()),
        AstNode::Literal(v) => push_literal(out, v),
        AstNode::BlockComment(c) => push_comment(out, c, l),
        AstNode::UsingStatement(u) => {
            let mut text = String::from_str("using ");
            text.append(u.path.as_str());
            text.append(";");
            push_line(out, l, text.as_str());
        },
        AstNode::Scope(sc) => {
            push_line(out, l, "{");
            push_nodes(out, &sc.children, inner);
            push_line(out, l, "}");
        },
        AstNode::UnsafeStatement(_) => push_line(out, l, "unsafe"),
        AstNode::Namespace(ns) => {
            let mut text = String::from_str("namespace ");
            text.append(ns.name.as_str());
            push_line(out, l, text.as_str());
            push_line(out, l, "{");
            push_spaced(out, &ns.children, inner);
            push_line(out, l, "}");
        },
        AstNode::Attribute(a) => push_attribute(out, a, l),
        AstNode::Statement(st) => {
            push_indent_text(out, l);
            push_node(out, &st.expr, l);
            out.append(";\n");
        },
        AstNode::VariableDeclaration(v) => {
            let mut text = v.ty.to_text();
            text.append(" ");
            text.append(v.name.0.as_str());
            text.append(";");
            push_line(out, l, text.as_str());
        },
        AstNode::FieldAccess(f) => {
            out.append("(");
            push_node(out, &f.element, 0);
            out.append(").");
            out.append(f.field_name.0.as_str());
        },
        AstNode::IndexAccess(x) => {
            out.append("(");
            push_node(out, &x.element, 0);
            out.append(")[");
            push_int_text(out, x.index as i64);
            out.append("]");
        },
        AstNode::AddressOf(a) => {
            out.append("&(");
            push_node(out, &a.element, 0);
            out.append(")");
        },
        AstNode::Cast(c) => {
            out.append("(");
            c.ty.push_text(out);
            out.append(")(");
            push_node(out, &c.element, 0);
            out.append(")");
        },
        AstNode::BinaryExpression(b) => {
            push_node(out, &b.lhs, l);
            out.append(" ");
            out.append(b.operation_sym);
            out.append(" ");
            push_node(out, &b.rhs, l);
        },
        AstNode::TernaryExpression(t) => {
            out.append("( (");
            push_node(out, &t.test, l);
            out.append(") ? (");
            push_node(out, &t.true_branch, l);
            out.append(") : (");
            push_node(out, &t.false_branch, l);
            out.append(") )");
        },
        AstNode::FixedAssignment(f) => {
            push_indent_text(out, l);
            out.append("fixed (");
            f.ty.push_text(out);
            out.append(" ");
            out.append(f.id.0.as_str());
            out.append(" = ");
            push_node(out, &f.rhs, l);
            out.append(")\n");
        },
        AstNode::MethodInvocation(m) => push_invocation(out, m),
        AstNode::ReturnStatement(r) => match &r.value {
            Some(v) => {
                push_indent_text(out, l);
                out.append("return ");
                push_node(out, v, l);
                out.append(";\n");
            },
            None => push_line(out, l, "return;"),
        },
        AstNode::MethodArgument(a) => {
            a.ty.push_text(out);
            out.append(" ");
            out.append(a.name.0.as_str());
        },
        AstNode::Method(m) => push_method(out, m, l),
        AstNode::Field(f) => push_field(out, f, l),
        AstNode::Object(o) => push_object(out, o, l),
    }
    assert(out@ =~= old(out)@ + node_text(*n, l as nat));
}

impl AstNode {
    /// The text of the node at the context's indentation.
    pub fn render(&self, ctx: RenderContext) -> (r: String)
        ensures
            r@ == node_text(*self, ctx.indent_level as nat),
    {
        let mut out = String::new();
        push_node(&mut out, self, ctx.indent_level);
        assert(out@ =~= node_text(*self, ctx.indent_level as nat));
        out
    }
}

/// A whole source file: a leading comment, the using statements and the
/// top-level nodes.
#[derive(Debug)]
pub struct Root {
    pub file_comment: Option<BlockComment>,
    pub using_statements: Vec<UsingStatement>,
    pub children: Vec<AstNode>,
}

pub open spec fn usings_text(us: Seq<UsingStatement>) -> Seq<char> {
    concat_text(us.map_values(|u: UsingStatement| line(0, "using "@ + u.path@ + seq![';'])))
}

pub open spec fn children_text(cs: Seq<AstNode>, first: bool) -> Seq<char>
    decreases cs.len(),
{
    if cs.len() == 0 {
        Seq::empty()
    } else {
        children_text(cs.drop_last(), first) + (if first && cs.len() == 1 {
            Seq::empty()
        } else {
            seq!['\n']
        }) + node_text(cs.last(), 0)
    }
}

/// The text of a file: the comment; a blank line when both a comment and
/// using statements are there; the using statements; then each child,
/// preceded by a blank line unless it comes first.
pub open spec fn root_text(r: Root) -> Seq<char> {
    let has_comment = r.file_comment is Some;
    let has_usings = r.using_statements@.len() > 0;
    (match r.file_comment {
        Some(c) => comment_text(c, 0),
        None => Seq::empty(),
    }) + (if has_comment && has_usings {
        seq!['\n']
    } else {
        Seq::empty()
    }) + usings_text(r.using_statements@) + children_text(
        r.children@,
        !has_comment && !has_usings,
    )
}

impl Root {
    pub fn render(&self) -> (r: String)
        ensures
            r@ == root_text(*self),
    {
        let mut out = String::new();
        let mut first = true;
        if let Some(c) = &self.file_comment {
            push_comment(&mut out, c, 0);
            first = false;
        }
        if !first && self.using_statements.len() > 0 {
            out.append("\n");
            proof {
                reveal_strlit("\n");
            }
        }
        let ghost start = out@;
        let ghost items = self.using_statements@.map_values(
            |u: UsingStatement| line(0, "using "@ + u.path@ + seq![';']),
        );
        let mut i: usize = 0;
        assert(items.take(0) =~= Seq::<Seq<char>>::empty());
        while i < self.using_statements.len()
            invariant
                i <= self.using_statements@.len(),
                items == self.using_statements@.map_values(
                    |u: UsingStatement| line(0, "using "@ + u.path@ + seq![';']),
                ),
                out@ == start + concat_text(items.take(i as int)),
            decreases self.using_statements.len() - i,
        {
            proof {
                lemma_concat_text_step(items, i as int);
                reveal_strlit(";");
            }
            let mut text = String::from_str("using ");
            text.append(self.using_statements[i].path.as_str());
            text.append(";");
            push_line(&mut out, 0, text.as_str());
            assert(out@ =~= start + concat_text(items.take(i + 1)));
            i = i + 1;
        }
        assert(items.take(self.using_statements@.len() as int) =~= items);
        let first_child = first && self.using_statements.len() == 0;
        let ghost mid = out@;
        let mut j: usize = 0;
        assert(self.children@.take(0) =~= Seq::<AstNode>::empty());
        while j < self.children.len()
            invariant
                j <= self.children@.len(),
                out@ == mid + children_text(self.children@.take(j as int), first_child),
            decreases self.children.len() - j,
        {
            assert(self.children@.take(j + 1).drop_last() =~= self.children@.take(j as int));
            if !(first_child && j == 0) {
                out.append("\n");
                proof {
                    reveal_strlit("\n");
                }
            }
            push_node(&mut out, &self.children[j], 0);
            assert(out@ =~= mid + children_text(self.children@.take(j + 1), first_child));
            j = j + 1;
        }
        assert(self.children@.take(self.children@.len() as int) =~= self.children@);
        assert(out@ =~= root_text(*self));
        out
    }
}

} // verus!
