use dotnet_bindgen::level_0::ToTokens;
use dotnet_bindgen::level_1::{CSharpType, GeneratedIdentId, Ident};
use dotnet_bindgen::new_codegen::{BodyElement, Cast, Method, MethodArg, MethodCall, Return};

fn to_tokens_test_helper<T: ToTokens>(element: T, expected: &str) {
    let rendered = element.to_token_stream().render();
    let rendered_tokens = rendered.split_whitespace().collect::<Vec<_>>();
    let expected_tokens = expected.split_whitespace().collect::<Vec<_>>();
    assert_eq!(rendered_tokens, expected_tokens);
}

#[test]
fn new_codegen_test_cast_tokens() {
    to_tokens_test_helper(
        Cast { ident: Ident::new("target"), ty: CSharpType::Int16, source_ident: Ident::new("source") },
        "Int16 target = ( Int16 ) source ;",
    );
}

#[test]
fn new_codegen_test_method_call_tokens() {
    to_tokens_test_helper(
        MethodCall {
            return_ident: Some(Ident::new("ret")),
            return_type: CSharpType::Int16,
            object: Ident::new("this"),
            method: Ident::new("MethodName"),
            args: vec![Ident::new("anArg"), Ident::new("anotherArg")],
        },
        "Int16 ret = this . MethodName ( anArg , anotherArg ) ;",
    );
}

#[test]
fn new_codegen_test_return_tokens() {
    to_tokens_test_helper(
        Return { ident: Ident::Generated(GeneratedIdentId(12)) },
        "return _gen12 ;",
    );
}

#[test]
fn new_codegen_test_method_tokens() {
    let method = Method {
        name: Ident::new("FooMethod"),
        return_type: CSharpType::Int64,
        args: vec![
            MethodArg { name: Ident::new("arg1"), ty: CSharpType::UInt16 },
            MethodArg { name: Ident::new("barArg"), ty: CSharpType::Bool },
        ],
        body: vec![
            BodyElement::MethodCall(MethodCall {
                return_ident: Some(Ident::Generated(GeneratedIdentId(1))),
                return_type: CSharpType::Int64,
                object: Ident::new("this"),
                method: Ident::Generated(GeneratedIdentId(0)),
                args: vec![Ident::new("arg1"), Ident::new("barArg")],
            }),
            BodyElement::Return(Return { ident: Ident::Generated(GeneratedIdentId(1)) }),
        ],
    };

    to_tokens_test_helper(
        method,
        "Int64 FooMethod ( UInt16 arg1 , bool barArg )
        {
            Int64 _gen1 = this . _gen0 ( arg1 , barArg ) ;
            return _gen1 ;
        }",
    );
}
