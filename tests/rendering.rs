use dotnet_bindgen::level_0::{Delimiter, Formatting, Group, Punct, ToTokens, TokenStream, TokenTree};
use dotnet_bindgen::level_1::{
    BodyExpression, CSharpType, Cast, DoCast, Ident, Namespace, TopLevelElement, UsingStatement,
};
use dotnet_bindgen::text::int_to_text;

#[test]
fn group_renders_with_spaced_delimiters() {
    let mut inner = TokenStream::new();
    inner.push(TokenTree::Ident(dotnet_bindgen::level_0::Ident::new("x")));
    let mut s = TokenStream::new();
    s.push(TokenTree::Group(Group { delimiter: Delimiter::Paren, content: inner }));
    s.push(TokenTree::Punct(Punct::Semicolon));
    assert_eq!(s.render(), "( x ) ;");
}

#[test]
fn empty_stream_renders_empty() {
    assert_eq!(TokenStream::new().render(), "");
}

#[test]
fn indent_renders_four_spaces_per_level() {
    assert_eq!(Formatting::Indent(2).render(), "        ");
    assert_eq!(Formatting::Newline.render(), "\n");
}

#[test]
fn integers_render_in_decimal() {
    assert_eq!(int_to_text(0), "0");
    assert_eq!(int_to_text(1234), "1234");
    assert_eq!(int_to_text(-56), "-56");
    assert_eq!(int_to_text(i64::MIN), "-9223372036854775808");
}

#[test]
fn independently_built_trees_render_alike() {
    let a = Ident::new("source").cast(CSharpType::Int16).to_token_stream().render();
    let b = Cast { ty: CSharpType::Int16, source: Box::new(BodyExpression::Ident(Ident::new("source"))) }
        .to_token_stream()
        .render();
    assert_eq!(a, b);

    let mut contents = Vec::new();
    contents.push(TopLevelElement::Using(UsingStatement { path: "A".to_string() }));
    contents.push(TopLevelElement::Using(UsingStatement { path: "B".to_string() }));
    let n1 = Namespace { path: Ident::new("N"), contents };
    let n2 = Namespace {
        path: Ident::Named("N".to_string()),
        contents: vec![
            TopLevelElement::Using(UsingStatement { path: "A".into() }),
            TopLevelElement::Using(UsingStatement { path: "B".into() }),
        ],
    };
    let r1 = n1.to_token_stream().render();
    let r2 = n2.to_token_stream().render();
    assert_eq!(
        r1.split_whitespace().collect::<Vec<_>>(),
        r2.split_whitespace().collect::<Vec<_>>()
    );
}
