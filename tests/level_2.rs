use dotnet_bindgen::level_0::TokenStream;
use dotnet_bindgen::level_1::{BodyStatement, CSharpType, Ident, IdentGenerator};
use dotnet_bindgen::level_2::{BindingMethod, BoolToUint, CsArrToSliceAbi, CsToFfiStableConversion};
use dotnet_bindgen::level_0::ToTokens;
use dotnet_bindgen::descriptor::{BindgenFunctionDescriptor, BindgenTypeDescriptor};

fn render_statements(stmts: Vec<BodyStatement>) -> String {
    let mut tokens = TokenStream::new();
    dotnet_bindgen::level_1::stmts_to_tokens(&stmts, 0, &mut tokens);
    tokens.render()
}

fn fragment_test_helper(stmts: Vec<BodyStatement>, expected: &str) {
    let rendered = render_statements(stmts);
    let rendered_tokens = rendered.split_whitespace().collect::<Vec<_>>();
    let expected_tokens = expected.split_whitespace().collect::<Vec<_>>();
    assert_eq!(rendered_tokens, expected_tokens);
}

#[test]
fn test_cs_arr_to_slice_abi() {
    let mut id_gen = IdentGenerator::new();
    let frag = CsArrToSliceAbi::new(Ident::new("source"), CSharpType::Int16, &mut id_gen);

    fragment_test_helper(
        frag.to_statements(),
        "SliceAbi _gen0 ;
        _gen0 . Len = ( ( UInt64 ) source . Length ) ;
        fixed ( Int16 * _gen1 = & source [ 0 ] )
        {
            _gen0 . Ptr = ( ( IntPtr ) _gen1 ) ;
        }",
    );
}

#[test]
fn test_bool_to_ffi() {
    let frag = BoolToUint { source_ident: Ident::new("source"), dest_ident: Ident::new("dest") };

    fragment_test_helper(
        frag.to_statements(),
        "Byte dest = source ? ( ( Byte ) 1 ) : ( ( Byte ) 0 ) ;",
    );
}

#[test]
fn generator_counts_up_from_zero() {
    let mut id_gen = IdentGenerator::new();
    let a = id_gen.generate_ident();
    let b = id_gen.generate_ident();
    assert_eq!(a.text(), "_gen0");
    assert_eq!(b.text(), "_gen1");
    assert_eq!(id_gen.counter, 2);
}

#[test]
fn wrapper_shares_one_unsafe_marker() {
    let mut id_gen = IdentGenerator::new();
    let a = CsArrToSliceAbi::new(Ident::new("first"), CSharpType::Byte, &mut id_gen);
    let b = CsArrToSliceAbi::new(Ident::new("second"), CSharpType::Int32, &mut id_gen);
    let method = BindingMethod {
        source_descriptor: BindgenFunctionDescriptor {
            real_name: "take_two".to_string(),
            thunk_name: "take_two_thunk".to_string(),
            arguments: Vec::new(),
            return_ty: BindgenTypeDescriptor::Void,
        },
        dll_name: "lib".to_string(),
        args: vec![CsToFfiStableConversion::ArrToSlice(a), CsToFfiStableConversion::ArrToSlice(b)],
    };
    let text = method.thunk_method().to_token_stream().render();
    let words = text.split_whitespace().collect::<Vec<_>>();
    assert_eq!(words.iter().filter(|w| **w == "unsafe").count(), 1);
    assert_eq!(&words[..8], &["public", "static", "void", "TakeTwo", "(", "Byte", "[", "]"]);
    assert!(text.contains("take_two_thunk ( _gen0 , _gen2 ) ;"));
}

#[test]
fn wrapper_without_slices_has_no_unsafe() {
    let method = BindingMethod {
        source_descriptor: BindgenFunctionDescriptor {
            real_name: "f".to_string(),
            thunk_name: "f_thunk".to_string(),
            arguments: Vec::new(),
            return_ty: BindgenTypeDescriptor::Void,
        },
        dll_name: "lib".to_string(),
        args: vec![CsToFfiStableConversion::BoolToUint(BoolToUint {
            source_ident: Ident::new("flag"),
            dest_ident: Ident::new_generated(0),
        })],
    };
    let words = method.thunk_method().to_token_stream().render();
    assert!(!words.contains("unsafe"));
    assert!(words.contains("Byte _gen0 = flag ? ( ( Byte ) 1 ) : ( ( Byte ) 0 ) ;"));
}
