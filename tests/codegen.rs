use dotnet_bindgen::ast::{AstNode, RenderContext};
use dotnet_bindgen::codegen::{
    form_ast_from_data, BindingMethod, BindingStruct, BindingType, ClassificationError,
};
use dotnet_bindgen::descriptor::{
    descriptor_symbols, is_descriptor_symbol, sort_descriptors, BindgenExportDescriptor,
    BindgenFunctionArgumentDescriptor, BindgenFunctionDescriptor, BindgenStructDescriptor,
    BindgenStructFieldDescriptor, BindgenTypeDescriptor,
};

fn int_desc(width: u8, signed: bool) -> BindgenTypeDescriptor {
    BindgenTypeDescriptor::Int { width, signed }
}

fn arg(name: &str, ty: BindgenTypeDescriptor) -> BindgenFunctionArgumentDescriptor {
    BindgenFunctionArgumentDescriptor { name: name.to_string(), ty }
}

fn function(real: &str, thunk: &str, args: Vec<BindgenFunctionArgumentDescriptor>) -> BindgenFunctionDescriptor {
    BindgenFunctionDescriptor {
        real_name: real.to_string(),
        thunk_name: thunk.to_string(),
        arguments: args,
        return_ty: BindgenTypeDescriptor::Void,
    }
}

fn slice_of(elem: BindgenTypeDescriptor) -> BindgenTypeDescriptor {
    BindgenTypeDescriptor::Slice { elem_type: Box::new(elem) }
}

fn render_wrapper(desc: &BindgenFunctionDescriptor) -> String {
    let method = BindingMethod::new("lib", desc).expect("the function classifies");
    AstNode::Method(method.thunk_method()).render(RenderContext::default())
}

#[test]
fn every_legal_integer_is_simple_with_its_fixed_name() {
    let cases = [
        (8, true, "SByte"),
        (16, true, "Int16"),
        (32, true, "Int32"),
        (64, true, "Int64"),
        (8, false, "Byte"),
        (16, false, "UInt16"),
        (32, false, "UInt32"),
        (64, false, "UInt64"),
    ];
    for (width, signed, name) in cases.iter() {
        let b = BindingType::try_from(int_desc(*width, *signed)).expect("a legal width");
        assert!(matches!(b, BindingType::Simple(_)));
        assert_eq!(b.native_type().to_text(), *name);
        assert_eq!(b.idiomatic_type().to_text(), *name);
    }
}

#[test]
fn integer_of_odd_width_is_rejected() {
    assert!(matches!(
        BindingType::try_from(int_desc(12, true)),
        Err(ClassificationError::UnrecognizedType)
    ));
}

#[test]
fn bool_is_complex_byte_and_bool() {
    let b = BindingType::try_from(BindgenTypeDescriptor::Bool).unwrap();
    assert!(matches!(b, BindingType::Complex(_)));
    assert_eq!(b.native_type().to_text(), "Byte");
    assert_eq!(b.idiomatic_type().to_text(), "bool");
}

#[test]
fn slice_is_complex_record_and_array() {
    let b = BindingType::try_from(slice_of(int_desc(32, true))).unwrap();
    assert_eq!(b.native_type().to_text(), "SliceAbi");
    assert_eq!(b.idiomatic_type().to_text(), "Int32[]");
}

#[test]
fn slice_of_complex_element_is_rejected() {
    assert!(matches!(
        BindingType::try_from(slice_of(BindgenTypeDescriptor::Bool)),
        Err(ClassificationError::NonTrivialSlice)
    ));
    assert!(matches!(
        BindingType::try_from(slice_of(int_desc(7, false))),
        Err(ClassificationError::UnrecognizedType)
    ));
}

#[test]
fn void_and_struct_are_simple() {
    let v = BindingType::try_from(BindgenTypeDescriptor::Void).unwrap();
    assert_eq!(v.native_type().to_text(), "void");
    let s = BindingType::try_from(BindgenTypeDescriptor::Struct(BindgenStructDescriptor {
        name: "Point".to_string(),
        fields: Vec::new(),
    }))
    .unwrap();
    assert!(matches!(s, BindingType::Simple(_)));
    assert_eq!(s.idiomatic_type().to_text(), "Point");
}

#[test]
fn bool_argument_is_encoded_as_byte_without_unsafe() {
    let text = render_wrapper(&function("f", "f_thunk", vec![arg("flag", BindgenTypeDescriptor::Bool)]));
    assert_eq!(
        text,
        "public static void F(bool flag)\n{\n    Byte _gen0;\n    _gen0 = ( (flag) ? ((Byte)(1)) : ((Byte)(0)) );\n    f_thunk(_gen0);\n}\n"
    );
    assert!(!text.contains("unsafe"));
}

#[test]
fn slice_argument_is_pinned_with_every_later_use_inside() {
    let text = render_wrapper(&function("g", "g_thunk", vec![arg("data", slice_of(int_desc(16, true)))]));
    assert_eq!(
        text,
        "public static void G(Int16[] data)\n{\n    SliceAbi _gen0;\n    (_gen0).Len = (UInt64)((data).Length);\n    unsafe\n    {\n        fixed (Int16* _gen1 = &((data)[0]))\n        {\n            (_gen0).Ptr = (IntPtr)(_gen1);\n            g_thunk(_gen0);\n        }\n    }\n}\n"
    );
}

#[test]
fn two_slices_use_disjoint_generated_ids() {
    let text = render_wrapper(&function(
        "h",
        "h_thunk",
        vec![arg("first", slice_of(int_desc(8, false))), arg("second", slice_of(int_desc(64, true)))],
    ));
    assert!(text.contains("SliceAbi _gen0;"));
    assert!(text.contains("Byte* _gen1 = &((first)[0])"));
    assert!(text.contains("SliceAbi _gen2;"));
    assert!(text.contains("Int64* _gen3 = &((second)[0])"));
    assert!(text.contains("h_thunk(_gen0, _gen2);"));
}

#[test]
fn simple_arguments_pass_straight_through() {
    let mut desc = function("add_all", "add_all_thunk", vec![arg("first_value", int_desc(32, true))]);
    desc.return_ty = int_desc(32, true);
    let text = render_wrapper(&desc);
    assert_eq!(
        text,
        "public static Int32 AddAll(Int32 firstValue)\n{\n    return add_all_thunk(firstValue);\n}\n"
    );
}

#[test]
fn external_declaration_names_binary_and_symbol() {
    let method = BindingMethod::new("mylib", &function("f", "f_thunk", vec![arg("flag", BindgenTypeDescriptor::Bool)])).unwrap();
    let text = AstNode::Method(method.dll_imported_method()).render(RenderContext::default());
    assert_eq!(
        text,
        "[DllImport(\"mylib\", EntryPoint = \"f_thunk\")]\nprivate static extern void f_thunk(Byte flag);\n"
    );
}

#[test]
fn method_with_bad_argument_fails_with_its_error() {
    let desc = function("f", "f_thunk", vec![arg("a", int_desc(3, true)), arg("b", slice_of(BindgenTypeDescriptor::Bool))]);
    assert!(matches!(BindingMethod::new("lib", &desc), Err(ClassificationError::UnrecognizedType)));
}

#[test]
fn struct_with_complex_field_is_rejected() {
    let s = BindgenStructDescriptor {
        name: "Flags".to_string(),
        fields: vec![
            BindgenStructFieldDescriptor { name: "count".to_string(), ty: int_desc(32, true) },
            BindgenStructFieldDescriptor { name: "enabled".to_string(), ty: BindgenTypeDescriptor::Bool },
        ],
    };
    assert!(matches!(BindingStruct::new(&s), Err(ClassificationError::NonFfiStableField)));
}

#[test]
fn struct_with_simple_fields_renders_sequential_layout() {
    let s = BindgenStructDescriptor {
        name: "SimpleStruct".to_string(),
        fields: vec![
            BindgenStructFieldDescriptor { name: "field_1".to_string(), ty: int_desc(32, true) },
            BindgenStructFieldDescriptor { name: "field_2".to_string(), ty: int_desc(64, false) },
        ],
    };
    let obj = BindingStruct::new(&s).unwrap().to_ast_object();
    let text = AstNode::Object(obj).render(RenderContext::default());
    assert_eq!(
        text,
        "[StructLayout(LayoutKind.Sequential)]\npublic struct SimpleStruct\n{\n    public Int32 Field1;\n    public UInt64 Field2;\n}\n"
    );
}

fn names(ds: &[BindgenExportDescriptor]) -> Vec<String> {
    ds.iter()
        .map(|d| match d {
            BindgenExportDescriptor::Function(f) => f.real_name.clone(),
            BindgenExportDescriptor::Struct(s) => s.name.clone(),
        })
        .collect()
}

fn exports(order: &[&str]) -> Vec<BindgenExportDescriptor> {
    order
        .iter()
        .map(|n| {
            if n.starts_with('S') {
                BindgenExportDescriptor::Struct(BindgenStructDescriptor { name: n.to_string(), fields: Vec::new() })
            } else {
                BindgenExportDescriptor::Function(function(n, &format!("{}_thunk", n), Vec::new()))
            }
        })
        .collect()
}

#[test]
fn sorting_is_independent_of_discovery_order() {
    let a = sort_descriptors(exports(&["zeta", "Struct", "alpha", "mid"]));
    let b = sort_descriptors(exports(&["mid", "alpha", "zeta", "Struct"]));
    assert_eq!(names(&a), vec!["Struct", "alpha", "mid", "zeta"]);
    assert_eq!(names(&a), names(&b));
}

#[test]
fn sorting_twice_changes_nothing() {
    let once = sort_descriptors(exports(&["b", "a", "c"]));
    let first = names(&once);
    let twice = sort_descriptors(once);
    assert_eq!(names(&twice), first);
}

#[test]
fn sorting_empty_and_equal_names() {
    assert!(sort_descriptors(Vec::new()).is_empty());
    let mut ds = exports(&["same"]);
    ds.push(BindgenExportDescriptor::Function(function("same", "other_thunk", Vec::new())));
    let sorted = sort_descriptors(ds);
    match &sorted[1] {
        BindgenExportDescriptor::Function(f) => assert_eq!(f.thunk_name, "other_thunk"),
        _ => panic!("expected a function"),
    }
}

#[test]
fn descriptor_symbols_are_found_by_prefix() {
    assert!(is_descriptor_symbol("__bindgen_describe_add"));
    assert!(!is_descriptor_symbol("__bindgen_descr"));
    assert!(!is_descriptor_symbol("main"));
    let found = descriptor_symbols(&vec![
        "main".to_string(),
        "__bindgen_describe_a".to_string(),
        "x__bindgen_describe".to_string(),
        "__bindgen_describe_b".to_string(),
    ]);
    assert_eq!(found, vec!["__bindgen_describe_a".to_string(), "__bindgen_describe_b".to_string()]);
}

#[test]
fn whole_file_has_header_imports_and_namespace() {
    let ds = vec![BindgenExportDescriptor::Function(function("f", "f_thunk", vec![arg("v", int_desc(8, true))]))];
    let root = form_ast_from_data(&ds, "bindings_demo").unwrap();
    let text = root.render();
    assert!(text.starts_with("/*\n * This is a generated file, do not modify by hand.\n */\n\nusing System;\nusing System.Runtime.InteropServices;\n\nnamespace BindingsDemoBindings\n{\n"));
    assert!(text.contains("    [StructLayout(LayoutKind.Sequential)]\n    public struct SliceAbi\n    {\n        public IntPtr Ptr;\n        public UInt64 Len;\n    }\n"));
    assert!(text.contains("    public static class TopLevelMethods\n"));
    assert!(text.contains("        [DllImport(\"bindings_demo\", EntryPoint = \"f_thunk\")]\n"));
    assert!(text.ends_with("    }\n}\n"));
}

#[test]
fn whole_file_fails_on_a_bad_struct() {
    let ds = vec![BindgenExportDescriptor::Struct(BindgenStructDescriptor {
        name: "Bad".to_string(),
        fields: vec![BindgenStructFieldDescriptor { name: "s".to_string(), ty: slice_of(int_desc(8, true)) }],
    })];
    assert!(matches!(form_ast_from_data(&ds, "x"), Err(ClassificationError::NonFfiStableField)));
}
