//! The token-level representation: a language-agnostic stream of identifiers,
//! punctuation, delimited groups and formatting markers.

use vstd::prelude::*;

verus! {

broadcast use vstd::std_specs::vec::group_vec_axioms, vstd::seq::group_seq_axioms;

/// The kind of bracket around a group.
#[derive(Debug, Clone, Copy, PartialEq, Eq, Structural)]
pub enum Delimiter {
    /// `{ ... }`
    Brace,
    /// `( ... )`
    Paren,
    /// `[ ... ]`
    Bracket,
    /// No visible delimiter.
    Invisible,
}

pub open spec fn open_char(d: Delimiter) -> char {
    match d {
        Delimiter::Brace => '{',
        Delimiter::Paren => '(',
        Delimiter::Bracket => '[',
        Delimiter::Invisible => ' ',
    }
}

pub open spec fn close_char(d: Delimiter) -> char {
    match d {
        Delimiter::Brace => '}',
        Delimiter::Paren => ')',
        Delimiter::Bracket => ']',
        Delimiter::Invisible => ' ',
    }
}

impl Delimiter {
    pub fn open(&self) -> (c: char)
        ensures
            c == open_char(*self),
    {
        match self {
            Delimiter::Brace => '{',
            Delimiter::Paren => '(',
            Delimiter::Bracket => '[',
            Delimiter::Invisible => ' ',
        }
    }

    pub fn close(&self) -> (c: char)
        ensures
            c == close_char(*self),
    {
        match self {
            Delimiter::Brace => '}',
            Delimiter::Paren => ')',
            Delimiter::Bracket => ']',
            Delimiter::Invisible => ' ',
        }
    }
}

/// A word of the output: a keyword, a type name or a variable name.
#[derive(Debug, Clone)]
pub struct Ident {
    pub name: String,
}

impl View for Ident {
    type V = Seq<char>;

    open spec fn view(&self) -> Seq<char> {
        self.name@
    }
}

impl Ident {
    pub fn new(s: &str) -> (r: Ident)
        ensures
            r@ == s@,
    {
        Ident { name: String::from_str(s) }
    }

    pub fn from_string(s: String) -> (r: Ident)
        ensures
            r@ == s@,
    {
        Ident { name: s }
    }

    pub fn as_str(&self) -> (r: &str)
        ensures
            r@ == self@,
    {
        self.name.as_str()
    }
}

/// A single punctuation character.
#[derive(Debug, Clone, Copy, PartialEq, Eq, Structural)]
pub enum Punct {
    Semicolon,
    Ampersand,
    Asterisk,
    Equals,
    Period,
    Comma,
    QuestionMark,
    Colon,
}

pub open spec fn punct_char(p: Punct) -> char {
    match p {
        Punct::Semicolon => ';',
        Punct::Ampersand => '&',
        Punct::Asterisk => '*',
        Punct::Equals => '=',
        Punct::Period => '.',
        Punct::Comma => ',',
        Punct::QuestionMark => '?',
        Punct::Colon => ':',
    }
}

impl Punct {
    pub fn as_char(&self) -> (c: char)
        ensures
            c == punct_char(*self),
    {
        match self {
            Punct::Semicolon => ';',
            Punct::Ampersand => '&',
            Punct::Asterisk => '*',
            Punct::Equals => '=',
            Punct::Period => '.',
            Punct::Comma => ',',
            Punct::QuestionMark => '?',
            Punct::Colon => ':',
        }
    }
}

/// Layout markers that carry no meaning of their own.
#[derive(Debug, Clone, Copy, PartialEq, Eq, Structural)]
pub enum Formatting {
    /// A line break.
    Newline,
    /// The indentation at the start of a line, in levels.
    Indent(usize),
}

/// The mathematical model of a token tree.
pub enum Tok {
    Group(Delimiter, Seq<Tok>),
    Word(Seq<char>),
    Punct(Punct),
    Format(Formatting),
}

/// One element of a token stream.
#[derive(Debug)]
pub enum TokenTree {
    Group(Group),
    Ident(Ident),
    Punct(Punct),
    Formatting(Formatting),
}

/// A delimited, nested token stream.
#[derive(Debug)]
pub struct Group {
    pub delimiter: Delimiter,
    pub content: TokenStream,
}

/// An ordered sequence of token trees.
#[derive(Debug)]
pub struct TokenStream {
    pub parts: Vec<TokenTree>,
}

pub open spec fn tree_model(t: TokenTree) -> Tok
    decreases t,
{
    match t {
        TokenTree::Group(g) => Tok::Group(g.delimiter, trees_model(g.content.parts@)),
        TokenTree::Ident(i) => Tok::Word(i.name@),
        TokenTree::Punct(p) => Tok::Punct(p),
        TokenTree::Formatting(f) => Tok::Format(f),
    }
}

pub open spec fn trees_model(s: Seq<TokenTree>) -> Seq<Tok>
    decreases s,
{
    if s.len() == 0 {
        Seq::empty()
    } else {
        trees_model(s.drop_last()).push(tree_model(s.last()))
    }
}

impl View for TokenTree {
    type V = Tok;

    open spec fn view(&self) -> Tok {
        tree_model(*self)
    }
}

impl View for TokenStream {
    type V = Seq<Tok>;

    open spec fn view(&self) -> Seq<Tok> {
        trees_model(self.parts@)
    }
}


pub open spec fn indent_text(n: nat) -> Seq<char>
    decreases n,
{
    if n == 0 {
        Seq::empty()
    } else {
        indent_text((n - 1) as nat) + seq![' ', ' ', ' ', ' ']
    }
}

/// The text of one token tree: a group is its content between its
/// delimiters, set off by single spaces.
pub open spec fn render_tok(t: Tok) -> Seq<char>
    decreases t,
{
    match t {
        Tok::Group(d, c) => seq![open_char(d), ' '] + render_toks(c) + seq![' ', close_char(d)],
        Tok::Word(w) => w,
        Tok::Punct(p) => seq![punct_char(p)],
        Tok::Format(Formatting::Newline) => seq!['\n'],
        Tok::Format(Formatting::Indent(n)) => indent_text(n as nat),
    }
}

/// The text of a token stream: its trees separated by single spaces.
pub open spec fn render_toks(s: Seq<Tok>) -> Seq<char>
    decreases s,
{
    if s.len() == 0 {
        Seq::empty()
    } else if s.len() == 1 {
        render_tok(s[0])
    } else {
        render_toks(s.drop_last()) + seq![' '] + render_tok(s.last())
    }
}

pub proof fn lemma_trees_model(s: Seq<TokenTree>)
    ensures
        trees_model(s).len() == s.len(),
        forall|i: int| 0 <= i < s.len() ==> #[trigger] trees_model(s)[i] == tree_model(s[i]),
    decreases s.len(),
{
    if s.len() > 0 {
        lemma_trees_model(s.drop_last());
    }
}

pub proof fn lemma_trees_model_push(s: Seq<TokenTree>, t: TokenTree)
    ensures
        trees_model(s.push(t)) == trees_model(s).push(tree_model(t)),
{
    assert(s.push(t).drop_last() =~= s);
}

proof fn lemma_trees_model_take(s: Seq<TokenTree>, i: int)
    requires
        0 <= i < s.len(),
    ensures
        trees_model(s.take(i + 1)) == trees_model(s.take(i)).push(tree_model(s[i])),
{
    assert(s.take(i + 1).drop_last() =~= s.take(i));
}

fn push_indent(out: &mut String, n: usize)
    ensures
        final(out)@ == old(out)@ + indent_text(n as nat),
{
    let mut i: usize = 0;
    while i < n
        invariant
            i <= n,
            out@ == old(out)@ + indent_text(i as nat),
        decreases n - i,
    {
        proof {
            reveal_strlit("    ");
        }
        out.append("    ");
        assert(indent_text((i + 1) as nat) == indent_text(i as nat) + seq![' ', ' ', ' ', ' ']);
        i = i + 1;
    }
}

fn push_char_text(out: &mut String, c: char)
    requires
        c == '{' || c == '}' || c == '(' || c == ')' || c == '[' || c == ']' || c == ' '
            || c == ';' || c == '&' || c == '*' || c == '=' || c == '.' || c == ',' || c == '?'
            || c == ':' || c == '\n',
    ensures
        final(out)@ == old(out)@ + seq![c],
{
    let s: &str = if c == '{' {
        "{"
    } else if c == '}' {
        "}"
    } else if c == '(' {
        "("
    } else if c == ')' {
        ")"
    } else if c == '[' {
        "["
    } else if c == ']' {
        "]"
    } else if c == ' ' {
        " "
    } else if c == ';' {
        ";"
    } else if c == '&' {
        "&"
    } else if c == '*' {
        "*"
    } else if c == '=' {
        "="
    } else if c == '.' {
        "."
    } else if c == ',' {
        ","
    } else if c == '?' {
        "?"
    } else if c == ':' {
        ":"
    } else {
        "\n"
    };
    proof {
        reveal_strlit("{");
        reveal_strlit("}");
        reveal_strlit("(");
        reveal_strlit(")");
        reveal_strlit("[");
        reveal_strlit("]");
        reveal_strlit(" ");
        reveal_strlit(";");
        reveal_strlit("&");
        reveal_strlit("*");
        reveal_strlit("=");
        reveal_strlit(".");
        reveal_strlit(",");
        reveal_strlit("?");
        reveal_strlit(":");
        reveal_strlit("\n");
    }
    out.append(s);
}

impl Group {
    fn render_into(&self, out: &mut String)
        ensures
            final(out)@ == old(out)@ + render_tok(tree_model(TokenTree::Group(*self))),
        decreases self,
    {
        push_char_text(out, self.delimiter.open());
        push_char_text(out, ' ');
        self.content.render_into(out);
        push_char_text(out, ' ');
        push_char_text(out, self.delimiter.close());
        assert(out@ =~= old(out)@ + render_tok(tree_model(TokenTree::Group(*self))));
    }
}

impl Formatting {
    fn render_into(&self, out: &mut String)
        ensures
            final(out)@ == old(out)@ + render_tok(Tok::Format(*self)),
    {
        match self {
            Formatting::Newline => push_char_text(out, '\n'),
            Formatting::Indent(n) => push_indent(out, *n),
        }
    }

    pub fn render(&self) -> (r: String)
        ensures
            r@ == render_tok(Tok::Format(*self)),
    {
        let mut out = String::new();
        self.render_into(&mut out);
        out
    }
}

impl TokenTree {
    fn render_into(&self, out: &mut String)
        ensures
            final(out)@ == old(out)@ + render_tok(self@),
        decreases self,
    {
        match self {
            TokenTree::Group(g) => g.render_into(out),
            TokenTree::Ident(i) => out.append(i.name.as_str()),
            TokenTree::Punct(p) => push_char_text(out, p.as_char()),
            TokenTree::Formatting(f) => f.render_into(out),
        }
    }

    pub fn render(&self) -> (r: String)
        ensures
            r@ == render_tok(self@),
    {
        let mut out = String::new();
        self.render_into(&mut out);
        out
    }
}

impl TokenStream {
    pub fn new() -> (r: TokenStream)
        ensures
            r@ == Seq::<Tok>::empty(),
    {
        TokenStream { parts: Vec::new() }
    }

    /// A deep copy of the stream.
    pub fn copy(&self) -> (r: TokenStream)
        ensures
            r@ == self@,
        decreases self,
    {
        let mut out = TokenStream::new();
        let mut i: usize = 0;
        proof {
            lemma_trees_model(self.parts@);
        }
        assert(self.parts@.take(0) =~= Seq::<TokenTree>::empty());
        while i < self.parts.len()
            invariant
                i <= self.parts@.len(),
                out@ == trees_model(self.parts@.take(i as int)),
            decreases self.parts@.len() - i,
        {
            proof {
                lemma_trees_model_take(self.parts@, i as int);
            }
            let t = match &self.parts[i] {
                TokenTree::Group(g) => TokenTree::Group(
                    Group { delimiter: g.delimiter, content: g.content.copy() },
                ),
                TokenTree::Ident(id) => TokenTree::Ident(Ident { name: id.name.clone() }),
                TokenTree::Punct(p) => TokenTree::Punct(*p),
                TokenTree::Formatting(f) => TokenTree::Formatting(*f),
            };
            out.push(t);
            i = i + 1;
        }
        assert(self.parts@.take(i as int) =~= self.parts@);
        out
    }

    pub fn iter(&self) -> (r: &[TokenTree])
        ensures
            r@ == self.parts@,
    {
        self.parts.as_slice()
    }

    pub fn len(&self) -> (r: usize)
        ensures
            r == self@.len(),
    {
        proof {
            lemma_trees_model(self.parts@);
        }
        self.parts.len()
    }

    pub fn push(&mut self, elem: TokenTree)
        ensures
            final(self)@ == old(self)@.push(elem@),
    {
        proof {
            lemma_trees_model_push(self.parts@, elem);
        }
        self.parts.push(elem);
    }

    pub fn push_ident(&mut self, s: &str)
        ensures
            final(self)@ == old(self)@.push(Tok::Word(s@)),
    {
        self.push(TokenTree::Ident(Ident::new(s)));
    }

    pub fn push_punct(&mut self, p: Punct)
        ensures
            final(self)@ == old(self)@.push(Tok::Punct(p)),
    {
        self.push(TokenTree::Punct(p));
    }

    pub fn push_group(&mut self, delimiter: Delimiter, content: TokenStream)
        ensures
            final(self)@ == old(self)@.push(Tok::Group(delimiter, content@)),
    {
        self.push(TokenTree::Group(Group { delimiter, content }));
    }

    /// Moves every tree of `other` to the end of this stream.
    pub fn extend(&mut self, other: TokenStream)
        ensures
            final(self)@ == old(self)@ + other@,
    {
        let mut rest = other.parts;
        proof {
            lemma_trees_model_concat(self.parts@, rest@);
        }
        self.parts.append(&mut rest);
    }

    /// Inserts a tree in front of the stream.
    pub fn prepend(&mut self, elem: TokenTree)
        ensures
            final(self)@ == seq![elem@] + old(self)@,
    {
        proof {
            lemma_trees_model_concat(seq![elem], self.parts@);
            lemma_trees_model_push(Seq::empty(), elem);
            assert(seq![elem] =~= Seq::<TokenTree>::empty().push(elem));
            assert(trees_model(Seq::empty()) =~= Seq::<Tok>::empty());
            assert(seq![elem@] =~= Seq::<Tok>::empty().push(elem@));
        }
        self.parts.insert(0, elem);
        proof {
            assert(self.parts@ =~= seq![elem] + old(self).parts@);
        }
    }

    fn render_into(&self, out: &mut String)
        ensures
            final(out)@ == old(out)@ + render_toks(self@),
        decreases self,
    {
        let ghost start = out@;
        let n = self.parts.len();
        let mut i: usize = 0;
        proof {
            assert(self.parts@.take(0) =~= Seq::<TokenTree>::empty());
        }
        while i < n
            invariant
                i <= n,
                n == self.parts@.len(),
                out@ == start + render_toks(trees_model(self.parts@.take(i as int))),
            decreases n - i,
        {
            proof {
                lemma_trees_model_take(self.parts@, i as int);
                lemma_trees_model(self.parts@.take(i as int));
            }
            if i > 0 {
                push_char_text(out, ' ');
            }
            self.parts[i].render_into(out);
            proof {
                let prev = trees_model(self.parts@.take(i as int));
                let next = trees_model(self.parts@.take(i + 1));
                assert(next.drop_last() =~= prev);
                if i == 0 {
                    assert(out@ =~= start + render_toks(next));
                } else {
                    assert(out@ =~= start + render_toks(next));
                }
            }
            i = i + 1;
        }
        proof {
            assert(self.parts@.take(n as int) =~= self.parts@);
        }
    }

    pub fn render(&self) -> (r: String)
        ensures
            r@ == render_toks(self@),
    {
        let mut out = String::new();
        self.render_into(&mut out);
        out
    }
}

/// A node that lowers itself to tokens.
pub trait ToTokens {
    /// The tokens that this node lowers to.
    spec fn token_model(&self) -> Seq<Tok>;

    fn to_tokens(&self, tokens: &mut TokenStream)
        ensures
            final(tokens)@ == old(tokens)@ + self.token_model(),
    ;

    fn to_token_stream(&self) -> (r: TokenStream)
        ensures
            r@ == self.token_model(),
    {
        let mut tokens = TokenStream::new();
        self.to_tokens(&mut tokens);
        assert(tokens@ =~= self.token_model());
        tokens
    }
}

/// Rendering is a function of the content of a tree alone: two nodes,
/// however they were built, that lower to the same tokens render to the same
/// text, and so to the same words once split on whitespace.
pub proof fn lemma_render_by_content<A: ToTokens, B: ToTokens>(a: A, b: B)
    requires
        a.token_model() == b.token_model(),
    ensures
        render_toks(a.token_model()) == render_toks(b.token_model()),
{
}

pub proof fn lemma_trees_model_concat(a: Seq<TokenTree>, b: Seq<TokenTree>)
    ensures
        trees_model(a + b) == trees_model(a) + trees_model(b),
    decreases b.len(),
{
    if b.len() == 0 {
        assert(a + b =~= a);
        assert(trees_model(a) + trees_model(b) =~= trees_model(a));
    } else {
        lemma_trees_model_concat(a, b.drop_last());
        assert((a + b).drop_last() =~= a + b.drop_last());
        assert((a + b).last() == b.last());
        assert(trees_model(a) + trees_model(b) =~= (trees_model(a) + trees_model(b.drop_last())).push(tree_model(b.last())));
    }
}

} // verus!
