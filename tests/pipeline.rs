use dotnet_bindgen::bindings::{check_binaries, InputError};
use dotnet_bindgen::descriptor::BindgenStructDescriptor;
use dotnet_bindgen::level_2::CsToFfiStableConversion;
use dotnet_bindgen::passes::create_binding_method;
use dotnet_bindgen::csproj::{NativeBinary, NativeBinarySet, ProjFile};
use dotnet_bindgen::descriptor::{
    BindgenExportDescriptor, BindgenFunctionArgumentDescriptor, BindgenFunctionDescriptor,
    BindgenTypeDescriptor,
};
use dotnet_bindgen::format_level_0::{format_tokens, insert_newlines};
use dotnet_bindgen::level_0::ToTokens;
use dotnet_bindgen::level_1::{Ident, Namespace, TopLevelElement, UsingStatement};
use dotnet_bindgen::passes::{default_passes, BindingInput};
use dotnet_bindgen::path_ext::bin_base_name;
use dotnet_bindgen::platform::NativePlatform;

fn namespace() -> Namespace {
    Namespace {
        path: Ident::new("N"),
        contents: vec![TopLevelElement::Using(UsingStatement { path: "A".to_string() })],
    }
}

#[test]
fn newlines_follow_statements_and_surround_braces() {
    let formatted = insert_newlines(&namespace().to_token_stream()).render();
    assert_eq!(formatted.matches('\n').count(), 4);
    assert_eq!(
        formatted.split_whitespace().collect::<Vec<_>>(),
        vec!["namespace", "N", "{", "using", "A", ";", "}"]
    );
}

#[test]
fn indentation_nests_by_depth_and_realigns_closing_brace() {
    let text = format_tokens(&namespace().to_token_stream()).render();
    let lines: Vec<&str> = text.split('\n').collect();
    assert_eq!(lines[0].trim(), "namespace N");
    assert!(lines[1].trim_start().starts_with('{'));
    assert!(lines[2].starts_with("     "));
    assert_eq!(lines[2].trim(), "using A ;");
    assert!(!lines[3].starts_with("     "));
    assert_eq!(lines[3].trim(), "}");
}

#[test]
fn default_passes_build_the_binding_file() {
    let input = BindingInput {
        base_name: "demo".to_string(),
        descriptors: vec![BindgenExportDescriptor::Function(BindgenFunctionDescriptor {
            real_name: "set_flag".to_string(),
            thunk_name: "set_flag_thunk".to_string(),
            arguments: vec![BindgenFunctionArgumentDescriptor {
                name: "flag".to_string(),
                ty: BindgenTypeDescriptor::Bool,
            }],
            return_ty: BindgenTypeDescriptor::Void,
        })],
    };
    let plain = default_passes(&input, false).unwrap().render();
    let words = plain.split_whitespace().collect::<Vec<_>>().join(" ");
    assert!(words.starts_with("using System ; using System.Runtime.InteropServices ; namespace Bindings.Generated {"));
    assert!(words.contains("[ StructLayout ( LayoutKind.Explicit , Size = 16 , Pack = 8 ) ]"));
    assert!(words.contains("[ FieldOffset ( 0 ) ] public IntPtr Pointer ;"));
    assert!(words.contains("[ FieldOffset ( 8 ) ] public UInt64 Length ;"));
    assert!(words.contains("public static class FreeMethods { [ DllImport ( \"demo\" ) ] private static extern void set_flag_thunk ( Byte flag ) ; }"));
    let formatted = default_passes(&input, true).unwrap().render();
    assert_eq!(
        formatted.split_whitespace().collect::<Vec<_>>().join(" "),
        words
    );
    assert!(formatted.contains('\n'));
}

#[test]
fn unsupported_argument_fails_the_entry_pass() {
    let input = BindingInput {
        base_name: "demo".to_string(),
        descriptors: vec![BindgenExportDescriptor::Function(BindgenFunctionDescriptor {
            real_name: "f".to_string(),
            thunk_name: "f_thunk".to_string(),
            arguments: vec![BindgenFunctionArgumentDescriptor {
                name: "x".to_string(),
                ty: BindgenTypeDescriptor::Void,
            }],
            return_ty: BindgenTypeDescriptor::Void,
        })],
    };
    assert!(default_passes(&input, false).is_err());
}

#[test]
fn platforms_have_runtime_identifiers() {
    assert_eq!(NativePlatform::WinX64.to_dotnet_rid_string(), "win-x64");
    assert_eq!(NativePlatform::LinuxMuslX64.to_dotnet_rid_string(), "linux-musl-x64");
    assert_eq!(NativePlatform::from_rid("osx-x64"), Ok(NativePlatform::OsxX64));
    assert!(NativePlatform::from_rid("amiga").is_err());
    assert_eq!(NativePlatform::host_platform(), NativePlatform::LinuxX64);
}

#[test]
fn base_name_drops_lib_prefix_of_shared_objects() {
    assert_eq!(bin_base_name("/tmp/libdemo.so"), Some("demo".to_string()));
    assert_eq!(bin_base_name("/tmp/demo.dll"), Some("demo".to_string()));
    assert_eq!(bin_base_name("/tmp/libdemo.dylib"), Some("libdemo".to_string()));
    assert_eq!(bin_base_name("/"), None);
}

#[test]
fn project_file_lists_each_binary() {
    let bin = NativeBinary::new(NativePlatform::LinuxX64, "/tmp/libdemo.so".to_string());
    assert_eq!(
        bin.render_proj_xml(),
        "\n        <Content Include=\"/tmp/libdemo.so\" Link=\"libdemo.so\" PackagePath=\"runtimes/linux-x64/native/libdemo.so\">\n            <CopyToOutputDirectory>PreserveNewest</CopyToOutputDirectory>\n        </Content>\n"
    );
    let set = NativeBinarySet::try_new(vec![bin.clone()]).unwrap();
    assert_eq!(set.base_name, "demo");
    let proj = ProjFile { target_framework: "netstandard2.0".to_string(), allow_unsafe: true, binary_set: set };
    let xml = proj.render_proj_xml();
    assert!(xml.starts_with("<Project Sdk=\"Microsoft.NET.Sdk\">\n    <PropertyGroup>\n        <TargetFramework>netstandard2.0</TargetFramework>\n        <AllowUnsafeBlocks>true</AllowUnsafeBlocks>\n"));
    assert!(xml.contains("    <ItemGroup Label = \"demo native libs\">"));
    assert!(xml.ends_with("    </ItemGroup>\n</Project>\n"));
}

#[test]
fn binary_set_rejects_mixed_base_names() {
    let a = NativeBinary::new(NativePlatform::LinuxX64, "/tmp/libdemo.so".to_string());
    let b = NativeBinary::new(NativePlatform::WinX64, "/tmp/other.dll".to_string());
    assert!(NativeBinarySet::try_new(vec![a, b]).is_none());
    assert!(NativeBinarySet::try_new(Vec::new()).is_none());
}

#[test]
fn case_wrappers_change_the_name() {
    assert_eq!(dotnet_bindgen::case::camel_case("bindings_demo"), "BindingsDemo");
    assert_eq!(dotnet_bindgen::case::camel_case(""), "");
}

#[test]
fn project_inputs_are_checked() {
    let f = |name: &str| {
        vec![BindgenExportDescriptor::Function(BindgenFunctionDescriptor {
            real_name: name.to_string(),
            thunk_name: format!("{}_thunk", name),
            arguments: vec![BindgenFunctionArgumentDescriptor {
                name: "x".to_string(),
                ty: BindgenTypeDescriptor::Int { width: 32, signed: true },
            }],
            return_ty: BindgenTypeDescriptor::Void,
        })]
    };
    assert_eq!(check_binaries(&Vec::new(), &Vec::new()), Err(InputError::NoBinaries));
    assert_eq!(
        check_binaries(&vec!["a".to_string(), "b".to_string()], &vec![f("g"), f("g")]),
        Err(InputError::DifferentBaseNames)
    );
    assert_eq!(
        check_binaries(&vec!["a".to_string(), "a".to_string()], &vec![f("g"), f("h")]),
        Err(InputError::DifferentDescriptors)
    );
    assert_eq!(check_binaries(&vec!["a".to_string(), "a".to_string()], &vec![f("g"), f("g")]), Ok(()));
}

#[test]
fn struct_argument_crosses_unchanged_and_ids_are_fresh() {
    let desc = BindgenFunctionDescriptor {
        real_name: "mixed".to_string(),
        thunk_name: "mixed_thunk".to_string(),
        arguments: vec![
            BindgenFunctionArgumentDescriptor {
                name: "point".to_string(),
                ty: BindgenTypeDescriptor::Struct(BindgenStructDescriptor { name: "Point".to_string(), fields: Vec::new() }),
            },
            BindgenFunctionArgumentDescriptor { name: "flag".to_string(), ty: BindgenTypeDescriptor::Bool },
            BindgenFunctionArgumentDescriptor {
                name: "data".to_string(),
                ty: BindgenTypeDescriptor::Slice { elem_type: Box::new(BindgenTypeDescriptor::Int { width: 8, signed: false }) },
            },
            BindgenFunctionArgumentDescriptor { name: "other".to_string(), ty: BindgenTypeDescriptor::Bool },
        ],
        return_ty: BindgenTypeDescriptor::Void,
    };
    let m = create_binding_method(&desc, "lib").unwrap();
    assert!(matches!(m.args[0], CsToFfiStableConversion::Identity(_)));
    let dests: Vec<String> = m.args.iter().map(|a| a.dest_ident().text()).collect();
    assert_eq!(dests, vec!["point", "_gen0", "_gen1", "_gen3"]);
    match &m.args[2] {
        CsToFfiStableConversion::ArrToSlice(a) => assert_eq!(a.temp_ptr_indent.text(), "_gen2"),
        _ => panic!("expected a slice conversion"),
    }
}
