//! The declaration of a record type as the generator reads it: its name,
//! its fields, and the attributes on both, as tokens with source positions.
use vstd::prelude::*;

verus! {

/// A position in the source text.
#[derive(Clone, Copy, Debug, PartialEq, Eq, Structural)]
pub struct Span {
    pub line: usize,
    pub column: usize,
}

impl Span {
    pub fn new(line: usize, column: usize) -> (r: Span)
        ensures
            r == (Span { line, column }),
    {
        Span { line, column }
    }
}

/// What a token is.
#[derive(Debug)]
pub enum TokenKind {
    /// An identifier or a keyword.
    Ident(String),
    /// One punctuation character.
    Punct(char),
    /// A literal, as written.
    Literal(String),
    /// A delimited group; its contents are not inspected.
    Group,
}

/// One token of an attribute's argument list.
#[derive(Debug)]
pub struct Token {
    pub kind: TokenKind,
    /// Whether a punctuation character is immediately followed by the next
    /// one, as the two characters of `::` are.
    pub joint: bool,
    pub span: Span,
}

impl Token {
    pub fn ident(name: &str, span: Span) -> (r: Token)
        ensures
            r.kind matches TokenKind::Ident(s) && s@ == name@,
            !r.joint,
            r.span == span,
    {
        Token { kind: TokenKind::Ident(name.to_owned()), joint: false, span }
    }

    pub fn punct(ch: char, joint: bool, span: Span) -> (r: Token)
        ensures
            r == (Token { kind: TokenKind::Punct(ch), joint, span }),
    {
        Token { kind: TokenKind::Punct(ch), joint, span }
    }

    pub fn literal(text: &str, span: Span) -> (r: Token)
        ensures
            r.kind matches TokenKind::Literal(s) && s@ == text@,
            !r.joint,
            r.span == span,
    {
        Token { kind: TokenKind::Literal(text.to_owned()), joint: false, span }
    }

    pub fn group(span: Span) -> (r: Token)
        ensures
            r == (Token { kind: TokenKind::Group, joint: false, span }),
    {
        Token { kind: TokenKind::Group, joint: false, span }
    }
}

/// An outer attribute `#[path(args)]`.
#[derive(Debug)]
pub struct Attribute {
    /// The attribute's path as written, such as `merge` or `serde`.
    pub path: String,
    /// The tokens between the parentheses; `None` when the attribute has no
    /// parenthesised argument list.
    pub args: Option<Vec<Token>>,
    pub span: Span,
}

/// A field of a record: named, or positional when `ident` is `None`.
#[derive(Debug)]
pub struct FieldDecl {
    pub ident: Option<String>,
    pub attrs: Vec<Attribute>,
    pub span: Span,
}

/// The shape of a type declaration.
#[derive(Debug)]
pub enum Body {
    Struct(Vec<FieldDecl>),
    Enum,
    Union,
}

/// The declaration of a type that a `Merge` implementation is asked for.
#[derive(Debug)]
pub struct DeriveInput {
    pub ident: String,
    pub attrs: Vec<Attribute>,
    pub body: Body,
    pub span: Span,
}

} // verus!
