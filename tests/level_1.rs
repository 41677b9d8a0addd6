use dotnet_bindgen::level_0::ToTokens;
use dotnet_bindgen::level_1::{
    Assignment, Attribute, BodyExpression, BodyStatement, CSharpType, Cast, DeclareVariableExpr,
    DoCast, GeneratedIdentId, Ident, Method, MethodArg, MethodCall, Namespace, Return,
    TopLevelElement, UsingStatement, Visibility,
};

fn to_tokens_test_helper<T: ToTokens>(element: T, expected: &str) {
    let rendered = element.to_token_stream().render();
    let rendered_tokens = rendered.split_whitespace().collect::<Vec<_>>();
    let expected_tokens = expected.split_whitespace().collect::<Vec<_>>();
    assert_eq!(rendered_tokens, expected_tokens);
}

fn named(s: &str) -> Ident {
    Ident::new(s)
}

#[test]
fn test_using_statement() {
    to_tokens_test_helper(
        UsingStatement { path: "System.Runtime.InteropServices".into() },
        "using System.Runtime.InteropServices ;",
    );
}

#[test]
fn test_namespace_tokens_empty() {
    to_tokens_test_helper(
        Namespace { path: named("Example.Namespace"), contents: Vec::new() },
        "namespace Example.Namespace { }",
    );
}

#[test]
fn test_namespace_tokens_non_empty() {
    to_tokens_test_helper(
        Namespace {
            path: named("Example.Namespace"),
            contents: vec![TopLevelElement::Using(UsingStatement { path: "Other.Namespace".into() })],
        },
        "namespace Example.Namespace { using Other.Namespace ; }",
    );
}

#[test]
fn level_1_test_cast_tokens() {
    to_tokens_test_helper(
        Cast {
            ty: CSharpType::Int16,
            source: Box::new(BodyExpression::Ident(Ident::Named("source".to_string()))),
        },
        "( ( Int16 ) source )",
    );
}

#[test]
fn test_do_cast() {
    to_tokens_test_helper(
        Ident::Named("source".to_string()).cast(CSharpType::Int16),
        "( ( Int16 ) source )",
    );
}

#[test]
fn level_1_test_method_call_tokens() {
    to_tokens_test_helper(
        MethodCall {
            object: Some(named("this")),
            method: named("MethodName"),
            args: vec![named("anArg"), named("anotherArg")],
        },
        "this . MethodName ( anArg , anotherArg )",
    );

    to_tokens_test_helper(
        MethodCall {
            object: None,
            method: named("MethodName"),
            args: vec![named("anArg"), named("anotherArg")],
        },
        "MethodName ( anArg , anotherArg )",
    );
}

#[test]
fn level_1_test_return_tokens() {
    to_tokens_test_helper(Return { ident: Ident::new_generated(12) }, "return _gen12 ;");
}

#[test]
fn test_attribute_tokens() {
    to_tokens_test_helper(Attribute { name: named("TestAttr"), args: Vec::new() }, "[ TestAttr ]");

    to_tokens_test_helper(
        Attribute {
            name: named("TestAttr"),
            args: vec![BodyExpression::Ident(Ident::new("arg1"))],
        },
        "[ TestAttr ( arg1 ) ]",
    );

    to_tokens_test_helper(
        Attribute {
            name: named("TestAttr"),
            args: vec![
                BodyExpression::Ident(Ident::new("arg1")),
                BodyExpression::Ident(Ident::new("arg2")),
            ],
        },
        "[ TestAttr ( arg1 , arg2 ) ]",
    );
}

#[test]
fn level_1_test_method_tokens() {
    let method = Method {
        attributes: vec![Attribute {
            name: named("TestAttr"),
            args: vec![
                BodyExpression::Ident(Ident::new("arg1")),
                BodyExpression::Ident(Ident::new("arg2")),
            ],
        }],
        visibility: Visibility::Public,
        is_static: false,
        is_extern: false,
        name: named("FooMethod"),
        return_type: CSharpType::Int64,
        args: vec![
            MethodArg { name: named("arg1"), ty: CSharpType::UInt16 },
            MethodArg { name: named("barArg"), ty: CSharpType::Bool },
        ],
        body: Some(vec![
            BodyStatement::Assign(
                Assignment::new(
                    BodyExpression::Declare(DeclareVariableExpr {
                        ty: CSharpType::Int64,
                        ident: Ident::new_generated(1),
                    }),
                    BodyExpression::MethodCall(MethodCall {
                        object: Some(named("this")),
                        method: named("MethodName"),
                        args: vec![named("arg1"), named("barArg")],
                    }),
                )
                .stmt(),
            ),
            BodyStatement::Return(Return { ident: Ident::Generated(GeneratedIdentId(1)) }),
        ]),
    };

    to_tokens_test_helper(
        method,
        "
        [ TestAttr ( arg1 , arg2 ) ]
        public Int64 FooMethod ( UInt16 arg1 , bool barArg )
        {
            Int64 _gen1 = this . MethodName ( arg1 , barArg ) ;
            return _gen1 ;
        }",
    );
}
