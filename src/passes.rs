//! The passes of the generator and their composition: descriptors to
//! bindings, bindings to source blocks, blocks to tokens, tokens to layout.

use vstd::prelude::*;
use crate::case::{camel_case_of, mixed_case_of, to_camel_case, to_mixed_case};
use crate::codegen::{int_view, ClassificationError};
use crate::descriptor::{BindgenExportDescriptor, BindgenFunctionArgumentDescriptor, BindgenFunctionDescriptor, BindgenTypeDescriptor, desc_view, function_descs};
use crate::bindings::args_view;
use crate::format_level_0::{format_tokens, ind_seq, nl_seq};
use crate::level_0::{Delimiter, ToTokens, Tok, TokenStream};
use crate::level_1::{
    self as l1, Attribute, BodyExpression, CSharpType, CsSource, Ident, IdentGenerator, IdentView,
    Literal, Method, MethodArg, Object, ObjectField, ObjectKind, TopLevelElement, TypeView,
    UsingStatement, Visibility,
};
use crate::level_2::{
    self as l2, BindingField, BindingModule, BindingStruct, BoolToUint, CsArrToSliceAbi,
    CsToFfiStableConversion, IdentityTypeConversion, MethodContainer,
};

verus! {

broadcast use vstd::std_specs::vec::group_vec_axioms, vstd::seq::group_seq_axioms;

/// A transformation from one representation to the next.
pub trait Pass {
    type Input;
    type Output;

    /// Whether `output` is what the pass gives for `input`.
    spec fn performs(&self, input: Self::Input, output: Self::Output) -> bool;

    fn perform(&self, input: &Self::Input) -> (r: Self::Output)
        ensures
            self.performs(*input, r),
    ;
}

/// One pass, then another on its result.
pub struct ComposedPass<First, Second> {
    pub first: First,
    pub second: Second,
}

impl<M, First: Pass<Output = M>, Second: Pass<Input = M>> Pass for ComposedPass<First, Second> {
    type Input = First::Input;
    type Output = Second::Output;

    /// The second pass applied to what the first gives.
    open spec fn performs(&self, input: First::Input, output: Second::Output) -> bool {
        exists|m: M| self.first.performs(input, m) && #[trigger] self.second.performs(m, output)
    }

    fn perform(&self, input: &First::Input) -> (r: Second::Output) {
        let intermediate = self.first.perform(input);
        let r = self.second.perform(&intermediate);
        assert(self.first.performs(*input, intermediate) && self.second.performs(intermediate, r));
        r
    }
}

/// Composes a pass with the one after it.
pub trait AndThen<T> {
    fn and_then(self, second: T) -> (r: ComposedPass<Self, T>) where Self: Sized
        ensures
            r == (ComposedPass { first: self, second }),
    ;
}

impl<First: Pass, Second: Pass> AndThen<Second> for First {
    fn and_then(self, second: Second) -> (r: ComposedPass<First, Second>) {
        ComposedPass { first: self, second }
    }
}

/// A pass on token streams that may be switched off; off, it hands its
/// input on unchanged.
pub struct Maybe<Inner> {
    pub enabled: bool,
    pub inner: Inner,
}

impl<Inner: Pass<Input = TokenStream, Output = TokenStream>> Pass for Maybe<Inner> {
    type Input = TokenStream;
    type Output = TokenStream;

    /// The inner pass when enabled; else the input unchanged.
    open spec fn performs(&self, input: TokenStream, output: TokenStream) -> bool {
        if self.enabled {
            self.inner.performs(input, output)
        } else {
            output@ == input@
        }
    }

    fn perform(&self, input: &TokenStream) -> (r: TokenStream) {
        if self.enabled {
            self.inner.perform(input)
        } else {
            input.copy()
        }
    }
}

/// Makes a pass on token streams optional.
pub trait OnlyIf {
    fn only_if(self, enabled: bool) -> (r: Maybe<Self>) where Self: Sized
        ensures
            r == (Maybe { enabled, inner: self }),
    ;
}

impl<Inner: Pass<Input = TokenStream, Output = TokenStream>> OnlyIf for Inner {
    fn only_if(self, enabled: bool) -> (r: Maybe<Inner>) {
        Maybe { enabled, inner: self }
    }
}

/// Line breaks and indentation.
pub struct FormatLevel0 {}

impl Pass for FormatLevel0 {
    type Input = TokenStream;
    type Output = TokenStream;

    open spec fn performs(&self, input: TokenStream, output: TokenStream) -> bool {
        output@ == ind_seq(nl_seq(input@), 0)
    }

    fn perform(&self, input: &TokenStream) -> (r: TokenStream) {
        format_tokens(input)
    }
}

/// Source blocks to tokens.
pub struct LowerLevel1ToLevel0 {}

impl Pass for LowerLevel1ToLevel0 {
    type Input = CsSource;
    type Output = TokenStream;

    open spec fn performs(&self, input: CsSource, output: TokenStream) -> bool {
        output@ == input.token_model()
    }

    fn perform(&self, input: &CsSource) -> (r: TokenStream) {
        input.to_token_stream()
    }
}


pub fn int_cs_type(width: u8, signed: bool) -> (r: Option<CSharpType>)
    ensures
        match int_view(width, signed) {
            Some(t) => r is Some && r->Some_0@ == t,
            None => r is None,
        },
{
    match (width, signed) {
        (8, false) => Some(CSharpType::Byte),
        (16, false) => Some(CSharpType::UInt16),
        (32, false) => Some(CSharpType::UInt32),
        (64, false) => Some(CSharpType::UInt64),
        (8, true) => Some(CSharpType::SByte),
        (16, true) => Some(CSharpType::Int16),
        (32, true) => Some(CSharpType::Int32),
        (64, true) => Some(CSharpType::Int64),
        _ => None,
    }
}

/// Whether a descriptor type has a conversion: an integer, a struct, a
/// boolean, or a slice of integers.
pub open spec fn convertible(d: BindgenTypeDescriptor) -> bool {
    match d {
        BindgenTypeDescriptor::Int { width, signed } => int_view(width, signed) is Some,
        BindgenTypeDescriptor::Struct(_) => true,
        BindgenTypeDescriptor::Slice { elem_type } => match *elem_type {
            BindgenTypeDescriptor::Int { width, signed } => int_view(width, signed) is Some,
            _ => false,
        },
        BindgenTypeDescriptor::Bool => true,
        _ => false,
    }
}

/// How many fresh identifiers the conversion of a type takes.
pub open spec fn gen_count(d: BindgenTypeDescriptor) -> int {
    match d {
        BindgenTypeDescriptor::Bool => 1,
        BindgenTypeDescriptor::Slice { .. } => 2,
        _ => 0,
    }
}

/// The conversion of the idiomatic value `ident` of type `d`, whose fresh
/// identifiers are numbered from `n`.
pub open spec fn conversion_matches(c: CsToFfiStableConversion, ident: IdentView, d: BindgenTypeDescriptor, n: int) -> bool {
    match d {
        BindgenTypeDescriptor::Int { width, signed } => c is Identity && c->Identity_0.ident@ == ident
            && c->Identity_0.ty@ == int_view(width, signed)->Some_0,
        BindgenTypeDescriptor::Struct(sd) => c is Identity && c->Identity_0.ident@ == ident
            && c->Identity_0.ty@ == TypeView::Struct(IdentView::Named(sd.name@)),
        BindgenTypeDescriptor::Bool => c is BoolToUint && c->BoolToUint_0.source_ident@ == ident
            && c->BoolToUint_0.dest_ident@ == IdentView::Generated(n),
        BindgenTypeDescriptor::Slice { elem_type } => c is ArrToSlice && {
            let a = c->ArrToSlice_0;
            let e = match *elem_type {
                BindgenTypeDescriptor::Int { width, signed } => int_view(width, signed)->Some_0,
                _ => TypeView::Void,
            };
            &&& a.source_ident@ == ident
            &&& a.dest_ident@ == IdentView::Generated(n)
            &&& a.temp_ptr_indent@ == IdentView::Generated(n + 1)
            &&& a.element_type@ == e
            &&& a.source_type@ == TypeView::Array(Box::new(e))
            &&& a.dest_type@ == l2::slice_abi_type()
        },
        BindgenTypeDescriptor::Void => false,
    }
}

/// The conversion of the idiomatic value `ident` to the boundary type of a
/// descriptor; fresh identifiers come from `id_gen`.
pub fn convert_to_ffi_stable(ident: Ident, ty: &BindgenTypeDescriptor, id_gen: &mut IdentGenerator) -> (r:
    Result<CsToFfiStableConversion, ClassificationError>)
    requires
        old(id_gen).counter < i32::MAX - 1,
    ensures
        r is Ok <==> convertible(*ty),
        r is Ok ==> conversion_matches(r->Ok_0, ident@, *ty, old(id_gen).counter as int)
            && final(id_gen).counter == old(id_gen).counter + gen_count(*ty),
{
    match ty {
        BindgenTypeDescriptor::Int { width, signed } => match int_cs_type(*width, *signed) {
            Some(t) => Ok(CsToFfiStableConversion::Identity(IdentityTypeConversion { ident, ty: t })),
            None => Err(ClassificationError::UnrecognizedType),
        },
        BindgenTypeDescriptor::Struct(sd) => Ok(
            CsToFfiStableConversion::Identity(
                IdentityTypeConversion {
                    ident,
                    ty: CSharpType::new_struct(Ident::Named(sd.name.clone())),
                },
            ),
        ),
        BindgenTypeDescriptor::Slice { elem_type } => {
            let element_type = match &**elem_type {
                BindgenTypeDescriptor::Int { width, signed } => match int_cs_type(*width, *signed) {
                    Some(t) => t,
                    None => return Err(ClassificationError::UnrecognizedType),
                },
                _ => return Err(ClassificationError::NonTrivialSlice),
            };
            Ok(CsToFfiStableConversion::ArrToSlice(CsArrToSliceAbi::new(ident, element_type, id_gen)))
        },
        BindgenTypeDescriptor::Bool => {
            let dest_ident = id_gen.generate_ident();
            Ok(CsToFfiStableConversion::BoolToUint(BoolToUint { source_ident: ident, dest_ident }))
        },
        BindgenTypeDescriptor::Void => Err(ClassificationError::UnrecognizedType),
    }
}

/// The first fresh identifier of the argument at `i`: the identifiers that
/// the arguments before it take.
pub open spec fn gen_before(args: Seq<BindgenFunctionArgumentDescriptor>, i: int) -> int
    decreases i,
{
    if i <= 0 {
        0
    } else {
        gen_before(args, i - 1) + gen_count(args[i - 1].ty)
    }
}

pub open spec fn fn_convertible(f: BindgenFunctionDescriptor) -> bool {
    forall|i: int| 0 <= i < f.arguments@.len() ==> convertible(#[trigger] f.arguments@[i].ty)
}

/// The binding of function `f` in binary `dll`: its names, and the
/// conversion of each argument in order, named in mixed case, with fresh
/// identifiers numbered on from those of the arguments before.
pub open spec fn binding_matches(m: l2::BindingMethod, f: BindgenFunctionDescriptor, dll: Seq<char>) -> bool {
    &&& m.dll_name@ == dll
    &&& m.source_descriptor.real_name@ == f.real_name@
    &&& m.source_descriptor.thunk_name@ == f.thunk_name@
    &&& args_view(m.source_descriptor.arguments@) == args_view(f.arguments@)
    &&& desc_view(m.source_descriptor.return_ty) == desc_view(f.return_ty)
    &&& m.args@.len() == f.arguments@.len()
    &&& forall|i: int|
        0 <= i < m.args@.len() ==> conversion_matches(
            #[trigger] m.args@[i],
            IdentView::Named(mixed_case_of(f.arguments@[i].name@)),
            f.arguments@[i].ty,
            gen_before(f.arguments@, i),
        )
}

/// The binding of one function: each argument named in mixed case and
/// converted in order.
pub fn create_binding_method(desc: &BindgenFunctionDescriptor, dll_name: &str) -> (r: Result<
    l2::BindingMethod,
    ClassificationError,
>)
    requires
        desc.arguments@.len() < 0x3fff_ffff,
    ensures
        r is Ok <==> fn_convertible(*desc),
        r is Ok ==> binding_matches(r->Ok_0, *desc, dll_name@),
{
    let mut id_gen = IdentGenerator::new();
    let mut args: Vec<CsToFfiStableConversion> = Vec::new();
    let mut i: usize = 0;
    while i < desc.arguments.len()
        invariant
            i <= desc.arguments@.len(),
            desc.arguments@.len() < 0x3fff_ffff,
            args@.len() == i,
            id_gen.counter == gen_before(desc.arguments@, i as int),
            0 <= gen_before(desc.arguments@, i as int) <= 2 * i,
            forall|k: int| 0 <= k < i ==> convertible(#[trigger] desc.arguments@[k].ty),
            forall|k: int|
                0 <= k < i ==> conversion_matches(
                    #[trigger] args@[k],
                    IdentView::Named(mixed_case_of(desc.arguments@[k].name@)),
                    desc.arguments@[k].ty,
                    gen_before(desc.arguments@, k),
                ),
        decreases desc.arguments.len() - i,
    {
        let a = &desc.arguments[i];
        let cs_name = Ident::Named(to_mixed_case(a.name.as_str()));
        match convert_to_ffi_stable(cs_name, &a.ty, &mut id_gen) {
            Ok(c) => args.push(c),
            Err(e) => return Err(e),
        }
        i = i + 1;
    }
    let source_descriptor = BindgenFunctionDescriptor {
        real_name: desc.real_name.clone(),
        thunk_name: desc.thunk_name.clone(),
        arguments: copy_arguments(&desc.arguments),
        return_ty: desc.return_ty.copy(),
    };
    Ok(l2::BindingMethod { source_descriptor, dll_name: String::from_str(dll_name), args })
}

/// In a binding, the fresh identifiers of an earlier argument all come
/// before those of a later one, so no two conversions share one.
pub proof fn lemma_binding_ids_ordered(args: Seq<BindgenFunctionArgumentDescriptor>, i: int, j: int)
    requires
        0 <= i < j <= args.len(),
    ensures
        gen_before(args, i) + gen_count(args[i].ty) <= gen_before(args, j),
    decreases j - i,
{
    if j > i + 1 {
        lemma_binding_ids_ordered(args, i, j - 1);
    }
}

fn copy_arguments(args: &Vec<crate::descriptor::BindgenFunctionArgumentDescriptor>) -> (r: Vec<
    crate::descriptor::BindgenFunctionArgumentDescriptor,
>)
    ensures
        args_view(r@) == args_view(args@),
{
    let mut out = Vec::new();
    let mut i: usize = 0;
    while i < args.len()
        invariant
            i <= args@.len(),
            args_view(out@) == args_view(args@.take(i as int)),
        decreases args.len() - i,
    {
        let name = args[i].name.clone();
        let ty = args[i].ty.copy();
        let ghost prev = out@;
        let x = crate::descriptor::BindgenFunctionArgumentDescriptor { name, ty };
        assert(x.name@ == args@[i as int].name@ && desc_view(x.ty) == desc_view(args@[i as int].ty));
        out.push(x);
        assert(out@ =~= prev.push(x));
        assert(args@.take(i + 1) =~= args@.take(i as int).push(args@[i as int]));
        assert(args_view(out@) =~= args_view(prev).push((x.name@, desc_view(x.ty))));
        assert(args_view(args@.take(i + 1)) =~= args_view(args@.take(i as int)).push(
            (args@[i as int].name@, desc_view(args@[i as int].ty)),
        ));
        assert(args_view(out@) =~= args_view(args@.take(i + 1)));
        i = i + 1;
    }
    assert(args@.take(i as int) =~= args@);
    out
}

/// The descriptors of one library and its base name.
#[derive(Debug)]
pub struct BindingInput {
    pub base_name: String,
    pub descriptors: Vec<BindgenExportDescriptor>,
}

pub open spec fn small_functions(ds: Seq<BindgenExportDescriptor>) -> bool {
    forall|i: int|
        0 <= i < ds.len() ==> (#[trigger] ds[i] is Function ==> ds[i]->Function_0.arguments@.len()
            < 0x3fff_ffff)
}

/// Every function among the descriptors has convertible arguments.
pub open spec fn all_convertible(ds: Seq<BindgenExportDescriptor>) -> bool {
    forall|i: int|
        0 <= i < ds.len() ==> (#[trigger] ds[i] is Function ==> fn_convertible(ds[i]->Function_0))
}

/// The class of free functions of an input: none when it has no function,
/// else one binding per function, in order.
pub open spec fn free_methods_matches(o: Option<MethodContainer>, input: BindingInput) -> bool {
    let fs = function_descs(input.descriptors@);
    if fs.len() == 0 {
        o is None
    } else {
        &&& o is Some
        &&& o->Some_0.name@ == IdentView::Named("FreeMethods"@)
        &&& o->Some_0.methods@.len() == fs.len()
        &&& forall|k: int|
            0 <= k < fs.len() ==> binding_matches(
                #[trigger] o->Some_0.methods@[k],
                fs[k],
                input.base_name@,
            )
    }
}

/// The class of the free functions, when there is any function.
pub fn free_methods(input: &BindingInput) -> (r: Result<Option<MethodContainer>, ClassificationError>)
    requires
        small_functions(input.descriptors@),
    ensures
        r is Ok <==> all_convertible(input.descriptors@),
        r is Ok ==> free_methods_matches(r->Ok_0, *input),
{
    let ghost ds = input.descriptors@;
    let mut methods: Vec<l2::BindingMethod> = Vec::new();
    let mut i: usize = 0;
    assert(ds.take(0) =~= Seq::<BindgenExportDescriptor>::empty());
    while i < input.descriptors.len()
        invariant
            i <= ds.len(),
            ds == input.descriptors@,
            small_functions(ds),
            forall|k: int| 0 <= k < i ==> (#[trigger] ds[k] is Function ==> fn_convertible(ds[k]->Function_0)),
            methods@.len() == function_descs(ds.take(i as int)).len(),
            forall|k: int|
                0 <= k < methods@.len() ==> binding_matches(
                    #[trigger] methods@[k],
                    function_descs(ds.take(i as int))[k],
                    input.base_name@,
                ),
        decreases ds.len() - i,
    {
        assert(ds.take(i + 1).drop_last() =~= ds.take(i as int));
        assert(ds.take(i + 1).last() == ds[i as int]);
        if let BindgenExportDescriptor::Function(f) = &input.descriptors[i] {
            match create_binding_method(f, input.base_name.as_str()) {
                Ok(m) => {
                    methods.push(m);
                },
                Err(e) => {
                    assert(!all_convertible(ds));
                    return Err(e);
                },
            }
        }
        i = i + 1;
    }
    assert(ds.take(i as int) =~= ds);
    if methods.len() > 0 {
        Ok(Some(MethodContainer { name: Ident::new("FreeMethods"), methods }))
    } else {
        Ok(None)
    }
}

pub open spec fn slice_abi_struct(s: BindingStruct) -> bool {
    &&& s.name@ == "SliceAbi"@
    &&& s.size == 16
    &&& s.alignment == 8
    &&& s.fields@.len() == 2
    &&& s.fields@[0].offset == 0 && s.fields@[0].name@ == "Pointer"@
    &&& s.fields@[0].ty@ == TypeView::Struct(IdentView::Named("IntPtr"@))
    &&& s.fields@[1].offset == 8 && s.fields@[1].name@ == "Length"@
    &&& s.fields@[1].ty@ == TypeView::UInt64
}

/// Adds the structs that every binding module holds: the slice record, a
/// pointer at offset 0 and a 64-bit length at offset 8.
pub fn add_default_structs(structs: &mut Vec<BindingStruct>)
    ensures
        final(structs)@.len() == old(structs)@.len() + 1,
        final(structs)@.take(old(structs)@.len() as int) == old(structs)@,
        slice_abi_struct(final(structs)@.last()),
{
    let mut fields = Vec::new();
    fields.push(BindingField { offset: 0, ty: CSharpType::new_struct(Ident::new("IntPtr")), name: String::from_str("Pointer") });
    fields.push(BindingField { offset: 8, ty: CSharpType::UInt64, name: String::from_str("Length") });
    structs.push(BindingStruct { size: 16, alignment: 8, name: String::from_str("SliceAbi"), fields });
    assert(final(structs)@.take(old(structs)@.len() as int) =~= old(structs)@);
}

/// What the entry pass gives for an input: the generated namespace, the
/// class of free functions, and the slice record.
pub open spec fn entry_matches(input: BindingInput, m: BindingModule) -> bool {
    &&& m.namespace@ == IdentView::Named("Bindings.Generated"@)
    &&& free_methods_matches(m.free_methods, input)
    &&& m.structs@.len() == 1
    &&& slice_abi_struct(m.structs@[0])
}

/// Descriptors to the binding module.
pub struct EntryPass {}

impl EntryPass {
    pub fn run(&self, input: &BindingInput) -> (r: Result<BindingModule, ClassificationError>)
        requires
            small_functions(input.descriptors@),
        ensures
            r is Ok <==> all_convertible(input.descriptors@),
            r is Ok ==> entry_matches(*input, r->Ok_0),
    {
        let free_methods = match free_methods(input) {
            Ok(m) => m,
            Err(e) => return Err(e),
        };
        let mut structs = Vec::new();
        add_default_structs(&mut structs);
        Ok(BindingModule { namespace: Ident::new("Bindings.Generated"), free_methods, structs })
    }
}

/// The import of a binding: `[DllImport("$dll")] private static extern
/// void $thunk($args);` with each argument's source name and boundary type.
pub open spec fn import_matches(x: Method, bm: l2::BindingMethod) -> bool {
    &&& x.attributes@.len() == 1
    &&& x.attributes@[0].name@ == IdentView::Named("DllImport"@)
    &&& x.attributes@[0].args@.len() == 1
    &&& x.attributes@[0].args@[0] is Literal
    &&& x.attributes@[0].args@[0]->Literal_0 is String
    &&& x.attributes@[0].args@[0]->Literal_0->String_0@ == bm.dll_name@
    &&& x.visibility == Visibility::Private
    &&& x.is_static && x.is_extern
    &&& x.body is None
    &&& x.name@ == IdentView::Named(bm.source_descriptor.thunk_name@)
    &&& x.return_type@ == TypeView::Void
    &&& x.args@.len() == bm.args@.len()
    &&& forall|i: int|
        0 <= i < x.args@.len() ==> (#[trigger] x.args@[i]).name@ == bm.args@[i].source_view()
            && x.args@[i].ty@ == bm.args@[i].dest_type_view()
}

/// `[DllImport("$dll")] private static extern void $thunk($args);`
pub fn add_free_method(binding_method: &l2::BindingMethod, methods: &mut Vec<Method>)
    ensures
        final(methods)@.len() == old(methods)@.len() + 1,
        final(methods)@.take(old(methods)@.len() as int) == old(methods)@,
        import_matches(final(methods)@.last(), *binding_method),
{
    let mut attr_args = Vec::new();
    attr_args.push(BodyExpression::Literal(Literal::String(binding_method.dll_name.clone())));
    let dll_import_attr = Attribute { name: Ident::new("DllImport"), args: attr_args };
    let mut args: Vec<MethodArg> = Vec::new();
    let mut i: usize = 0;
    while i < binding_method.args.len()
        invariant
            i <= binding_method.args@.len(),
            args@.len() == i,
            forall|k: int|
                0 <= k < i ==> (#[trigger] args@[k]).name@ == binding_method.args@[k].source_view()
                    && args@[k].ty@ == binding_method.args@[k].dest_type_view(),
        decreases binding_method.args.len() - i,
    {
        let a = &binding_method.args[i];
        args.push(MethodArg { name: a.source_ident().copy(), ty: a.dest_type() });
        i = i + 1;
    }
    let mut attributes = Vec::new();
    attributes.push(dll_import_attr);
    methods.push(
        Method {
            attributes,
            visibility: Visibility::Private,
            is_static: true,
            is_extern: true,
            name: Ident::Named(binding_method.source_descriptor.thunk_name.clone()),
            return_type: CSharpType::Void,
            args,
            body: None,
        },
    );
    assert(final(methods)@.take(old(methods)@.len() as int) =~= old(methods)@);
}

/// `public static class FreeMethods { ... }` with the import of each method.
/// The class of free functions: public, static, and the import of each
/// binding in order.
pub open spec fn container_object_matches(r: Object, container: MethodContainer) -> bool {
    &&& r.kind == ObjectKind::Class
    &&& r.is_static && !r.is_sealed
    &&& r.visibility == Visibility::Public
    &&& r.name@ == IdentView::Named("FreeMethods"@)
    &&& r.fields@.len() == 0
    &&& r.attributes@.len() == 0
    &&& r.methods@.len() == container.methods@.len()
    &&& forall|k: int|
        0 <= k < r.methods@.len() ==> import_matches(#[trigger] r.methods@[k], container.methods@[k])
}

/// The explicit-layout struct of a binding struct.
pub open spec fn struct_def_matches(r: Object, s: BindingStruct) -> bool {
    &&& r.kind == ObjectKind::Struct
    &&& !r.is_static && !r.is_sealed
    &&& r.visibility == Visibility::Public
    &&& r.name@ == IdentView::Named(s.name@)
    &&& r.attributes@.len() == 1
    &&& r.attributes@[0].name@ == IdentView::Named("StructLayout"@)
    &&& r.attributes@[0].args@.len() == 3
    &&& r.attributes@[0].args@[0] is Ident
    &&& r.attributes@[0].args@[0]->Ident_0@ == IdentView::Named("LayoutKind.Explicit"@)
    &&& l1::expr_toks(r.attributes@[0].args@[1]) == seq![
        Tok::Word("Size"@),
        Tok::Punct(crate::level_0::Punct::Equals),
        Tok::Word(crate::text::int_text(s.size as int)),
    ]
    &&& l1::expr_toks(r.attributes@[0].args@[2]) == seq![
        Tok::Word("Pack"@),
        Tok::Punct(crate::level_0::Punct::Equals),
        Tok::Word(crate::text::int_text(s.alignment as int)),
    ]
    &&& r.fields@.len() == s.fields@.len()
    &&& forall|i: int|
        0 <= i < r.fields@.len() ==> (#[trigger] r.fields@[i]).token_model() == field_tokens(
            s.fields@[i],
        )
    &&& r.methods@.len() == 0
}

pub fn build_free_method_container(container: &MethodContainer) -> (r: Object)
    ensures
        container_object_matches(r, *container),
        r.kind == ObjectKind::Class,
        r.is_static && !r.is_sealed,
        r.visibility == Visibility::Public,
        r.name@ == IdentView::Named("FreeMethods"@),
        r.fields@.len() == 0,
        r.attributes@.len() == 0,
        r.methods@.len() == container.methods@.len(),
        forall|k: int|
            0 <= k < r.methods@.len() ==> import_matches(#[trigger] r.methods@[k], container.methods@[k]),
{
    let mut methods = Vec::new();
    let mut i: usize = 0;
    while i < container.methods.len()
        invariant
            i <= container.methods@.len(),
            methods@.len() == i,
            forall|k: int| 0 <= k < i ==> import_matches(#[trigger] methods@[k], container.methods@[k]),
        decreases container.methods.len() - i,
    {
        let ghost prev = methods@;
        add_free_method(&container.methods[i], &mut methods);
        assert forall|k: int| 0 <= k < i + 1 implies import_matches(
            #[trigger] methods@[k],
            container.methods@[k],
        ) by {
            if k < i {
                assert(methods@[k] == methods@.take(i as int)[k]);
            }
        }
        i = i + 1;
    }
    Object {
        attributes: Vec::new(),
        visibility: Visibility::Public,
        is_sealed: false,
        is_static: true,
        kind: ObjectKind::Class,
        name: Ident::new("FreeMethods"),
        methods,
        fields: Vec::new(),
    }
}

/// `[FieldOffset($offset)] public $ty $name;`
/// `[FieldOffset($offset)] public $ty $name;` as tokens.
pub open spec fn field_tokens(f: BindingField) -> Seq<Tok> {
    seq![
        Tok::Group(
            Delimiter::Bracket,
            seq![Tok::Word("FieldOffset"@)] + seq![
                Tok::Group(Delimiter::Paren, seq![Tok::Word(crate::text::int_text(f.offset as int))]),
            ],
        ),
        Tok::Format(crate::level_0::Formatting::Newline),
    ] + seq![Tok::Word("public"@)] + l1::type_toks(f.ty@) + seq![
        Tok::Word(f.name@),
        Tok::Punct(crate::level_0::Punct::Semicolon),
    ]
}

pub fn struct_field(f: &BindingField) -> (r: ObjectField)
    ensures
        r.token_model() == field_tokens(*f),
        r.token_model() == l1::attr_toks(r.attributes@[0]) + seq![Tok::Word("public"@)] + l1::type_toks(
            f.ty@,
        ) + seq![Tok::Word(f.name@), Tok::Punct(crate::level_0::Punct::Semicolon)],
        r.attributes@.len() == 1,
        r.attributes@[0].name@ == IdentView::Named("FieldOffset"@),
        r.attributes@[0].args@.len() == 1,
        r.attributes@[0].args@[0] == BodyExpression::Literal(Literal::Integer(f.offset)),
{
    let mut args = Vec::new();
    args.push(BodyExpression::Literal(Literal::Integer(f.offset)));
    let attr = Attribute { name: Ident::new("FieldOffset"), args };
    let mut attributes = Vec::new();
    attributes.push(attr);
    let r = ObjectField {
        attributes,
        visibility: Visibility::Public,
        ty: f.ty.copy(),
        name: Ident::Named(f.name.clone()),
    };
    proof {
        let items = r.attributes@.map_values(|a: Attribute| l1::attr_toks(a));
        assert(items.drop_last() =~= Seq::<Seq<Tok>>::empty());
        assert(l1::concat_toks(items.drop_last()) =~= Seq::<Tok>::empty());
        assert(items.last() == l1::attr_toks(r.attributes@[0]));
        assert(l1::concat_toks(items) == l1::concat_toks(items.drop_last()) + items.last());
        assert(l1::attrs_toks(r.attributes@) =~= l1::attr_toks(r.attributes@[0]));
        let ex = l1::expr_items(r.attributes@[0].args@);
        assert(ex.len() == 1);
        assert(ex[0] == seq![Tok::Word(crate::text::int_text(f.offset as int))]);
        assert(l1::join_toks(ex, Tok::Punct(crate::level_0::Punct::Comma)) == ex[0]);
        assert(l1::attr_toks(r.attributes@[0]) =~= seq![
            Tok::Group(
                Delimiter::Bracket,
                seq![Tok::Word("FieldOffset"@)] + seq![
                    Tok::Group(Delimiter::Paren, seq![Tok::Word(crate::text::int_text(f.offset as int))]),
                ],
            ),
            Tok::Format(crate::level_0::Formatting::Newline),
        ]);
        assert(r.token_model() =~= l1::attr_toks(r.attributes@[0]) + seq![Tok::Word("public"@)]
            + l1::type_toks(f.ty@) + seq![Tok::Word(f.name@), Tok::Punct(crate::level_0::Punct::Semicolon)]);
    }
    r
}

/// `[StructLayout(LayoutKind.Explicit, Size = $size, Pack = $alignment)]
/// public struct $name { $fields }`
pub fn build_struct_definition(s: &BindingStruct) -> (r: Object)
    ensures
        struct_def_matches(r, *s),
        r.kind == ObjectKind::Struct,
        !r.is_static && !r.is_sealed,
        r.visibility == Visibility::Public,
        r.name@ == IdentView::Named(s.name@),
        r.attributes@.len() == 1,
        r.attributes@[0].name@ == IdentView::Named("StructLayout"@),
        r.attributes@[0].args@.len() == 3,
        r.fields@.len() == s.fields@.len(),
        forall|i: int| 0 <= i < r.fields@.len() ==> (#[trigger] r.fields@[i]).token_model() == field_tokens(s.fields@[i]),
        r.attributes@[0].args@[0] is Ident,
        r.attributes@[0].args@[0]->Ident_0@ == IdentView::Named("LayoutKind.Explicit"@),
        l1::expr_toks(r.attributes@[0].args@[1]) == seq![Tok::Word("Size"@), Tok::Punct(crate::level_0::Punct::Equals), Tok::Word(crate::text::int_text(s.size as int))],
        l1::expr_toks(r.attributes@[0].args@[2]) == seq![Tok::Word("Pack"@), Tok::Punct(crate::level_0::Punct::Equals), Tok::Word(crate::text::int_text(s.alignment as int))],
        r.methods@.len() == 0,
{
    let mut args = Vec::new();
    args.push(BodyExpression::Ident(Ident::new("LayoutKind.Explicit")));
    let size_lhs = BodyExpression::Ident(Ident::new("Size"));
    let size_rhs = BodyExpression::Literal(Literal::Integer(s.size));
    assert(l1::expr_toks(size_lhs) == seq![Tok::Word("Size"@)]);
    assert(l1::expr_toks(size_rhs) == seq![Tok::Word(crate::text::int_text(s.size as int))]);
    let size_expr = BodyExpression::Assignment(l1::Assignment::new(size_lhs, size_rhs));
    assert(l1::expr_toks(size_expr) =~= seq![
        Tok::Word("Size"@),
        Tok::Punct(crate::level_0::Punct::Equals),
        Tok::Word(crate::text::int_text(s.size as int)),
    ]);
    let pack_lhs = BodyExpression::Ident(Ident::new("Pack"));
    let pack_rhs = BodyExpression::Literal(Literal::Integer(s.alignment));
    assert(l1::expr_toks(pack_lhs) == seq![Tok::Word("Pack"@)]);
    assert(l1::expr_toks(pack_rhs) == seq![Tok::Word(crate::text::int_text(s.alignment as int))]);
    let pack_expr = BodyExpression::Assignment(l1::Assignment::new(pack_lhs, pack_rhs));
    assert(l1::expr_toks(pack_expr) =~= seq![
        Tok::Word("Pack"@),
        Tok::Punct(crate::level_0::Punct::Equals),
        Tok::Word(crate::text::int_text(s.alignment as int)),
    ]);
    args.push(size_expr);
    args.push(pack_expr);
    let mut attributes = Vec::new();
    attributes.push(Attribute { name: Ident::new("StructLayout"), args });
    let mut fields: Vec<ObjectField> = Vec::new();
    let mut i: usize = 0;
    while i < s.fields.len()
        invariant
            i <= s.fields@.len(),
            fields@.len() == i,
            forall|k: int| 0 <= k < i ==> (#[trigger] fields@[k]).token_model() == field_tokens(s.fields@[k]),
        decreases s.fields.len() - i,
    {
        fields.push(struct_field(&s.fields[i]));
        i = i + 1;
    }
    Object {
        attributes,
        visibility: Visibility::Public,
        is_sealed: false,
        is_static: false,
        kind: ObjectKind::Struct,
        name: Ident::Named(s.name.clone()),
        fields,
        methods: Vec::new(),
    }
}

/// The binding module to source blocks: the interop imports, then one
/// namespace with the structs and the class of free functions.
pub struct LowerLevel2ToLevel1 {}

/// What the lowering gives for a binding module: the interop imports, then
/// the namespace of the module.
pub open spec fn lowered(input: BindingModule, r: CsSource) -> bool {
    &&& r.elements@.len() == 3
    &&& r.elements@[0] is Using
    &&& r.elements@[0]->Using_0.path@ == "System"@
    &&& r.elements@[1] is Using
    &&& r.elements@[1]->Using_0.path@ == "System.Runtime.InteropServices"@
    &&& r.elements@[2] is Namespace
    &&& r.elements@[2]->Namespace_0.path@ == input.namespace@
    &&& r.elements@[2]->Namespace_0.contents@.len() == input.structs@.len() + if input.free_methods is Some {
        1int
    } else {
        0int
    }
    &&& forall|k: int|
        0 <= k < input.structs@.len() ==> (#[trigger] r.elements@[2]->Namespace_0.contents@[k]) is Object
            && struct_def_matches(r.elements@[2]->Namespace_0.contents@[k]->Object_0, input.structs@[k])
    &&& input.free_methods is Some ==> r.elements@[2]->Namespace_0.contents@[input.structs@.len() as int] is Object
        && container_object_matches(
        r.elements@[2]->Namespace_0.contents@[input.structs@.len() as int]->Object_0,
        input.free_methods->Some_0,
    )
}

impl LowerLevel2ToLevel1 {
    pub fn run(&self, input: &BindingModule) -> (r: CsSource)
        ensures
            lowered(*input, r),
            r.elements@.len() == 3,
            r.elements@[0] is Using,
            r.elements@[0]->Using_0.path@ == "System"@,
            r.elements@[1] is Using,
            r.elements@[1]->Using_0.path@ == "System.Runtime.InteropServices"@,
            r.elements@[2] is Namespace,
            r.elements@[2]->Namespace_0.path@ == input.namespace@,
            r.elements@[2]->Namespace_0.contents@.len() == input.structs@.len() + if input.free_methods is Some {
                1int
            } else {
                0int
            },
    {
        let mut elements = Vec::new();
        elements.push(TopLevelElement::Using(UsingStatement { path: String::from_str("System") }));
        elements.push(
            TopLevelElement::Using(UsingStatement { path: String::from_str("System.Runtime.InteropServices") }),
        );
        let mut contents: Vec<TopLevelElement> = Vec::new();
        let mut i: usize = 0;
        while i < input.structs.len()
            invariant
                i <= input.structs@.len(),
                contents@.len() == i,
                forall|k: int|
                    0 <= k < i ==> (#[trigger] contents@[k]) is Object && struct_def_matches(
                        contents@[k]->Object_0,
                        input.structs@[k],
                    ),
            decreases input.structs.len() - i,
        {
            contents.push(TopLevelElement::Object(build_struct_definition(&input.structs[i])));
            i = i + 1;
        }
        if let Some(free_methods) = &input.free_methods {
            contents.push(TopLevelElement::Object(build_free_method_container(free_methods)));
        }
        elements.push(TopLevelElement::Namespace(l1::Namespace { path: input.namespace.copy(), contents }));
        CsSource { elements }
    }
}

/// Descriptors to laid-out tokens: the entry pass, the lowering to source
/// blocks, the lowering to tokens, and the layout when `format` is set.
pub fn default_passes(input: &BindingInput, format: bool) -> (r: Result<TokenStream, ClassificationError>)
    requires
        small_functions(input.descriptors@),
    ensures
        r is Ok <==> all_convertible(input.descriptors@),
        r is Ok ==> exists|m: BindingModule, src: CsSource|
            #[trigger] entry_matches(*input, m) && #[trigger] lowered(m, src) && r->Ok_0@ == if format {
                ind_seq(nl_seq(src.token_model()), 0)
            } else {
                src.token_model()
            },
{
    let module = match (EntryPass {}).run(input) {
        Ok(m) => m,
        Err(e) => return Err(e),
    };
    let source = (LowerLevel2ToLevel1 {}).run(&module);
    let tail = LowerLevel1ToLevel0 {}.and_then(FormatLevel0 {}.only_if(format));
    let out = tail.perform(&source);
    proof {
        let mid = choose|mid: TokenStream|
            tail.first.performs(source, mid) && #[trigger] tail.second.performs(mid, out);
        assert(mid@ == source.token_model());
        assert(entry_matches(*input, module) && lowered(module, source));
    }
    Ok(out)
}

} // verus!
