//! Tokens as the lexer hands them over.
use vstd::prelude::*;
use crate::types::position::Span;

verus! {

/// Binary operators of the language.
#[derive(Clone, Copy, Debug, PartialEq, Eq, Structural)]
pub enum OprType {
    Add,
    Sub,
    Mul,
    Div,
    Mod,
    Eq,
    Ne,
    Lt,
    Le,
    Gt,
    Ge,
    Concat,
    And,
    Or,
    TypeCast,
}

#[derive(Clone, Copy, Debug, PartialEq, Eq, Structural)]
pub enum Keyword {
    Proc,
    Fn,
    Class,
    Struct,
    Delete,
    Return,
    Defer,
}

/// Unary operators of the language.
#[derive(Clone, Copy, Debug, PartialEq, Eq, Structural)]
pub enum UnaryOprType {
    Not,
    UnPlus,
    UnMinus,
}

/// Modifiers that may precede a declaration.
#[derive(Clone, Copy, Debug, PartialEq, Eq, Structural)]
pub enum Flag {
    Inst,
    Pub,
    Priv,
}

/// How a member is reached from its parent.
#[derive(Clone, Copy, Debug, PartialEq, Eq, Structural)]
pub enum AccessType {
    Method,
    Field,
    Namespace,
}

/// The closed set of token kinds.
#[derive(Clone, Copy, Debug, PartialEq, Eq, Structural)]
pub enum TokenType {
    Ident,
    LiteralNumber,
    LiteralString,
    LiteralBool,
    /// `=` carries `None`; a compound form such as `+=` carries its operator.
    AssignmentOpr(Option<OprType>),
    DeclarationOpr,
    BinaryOpr(OprType),
    UnaryOpr(UnaryOprType),
    Keyword(Keyword),
    Flag(Flag),
    Bar,
    Colon,
    Comma,
    DotOpr,
    StatementEnd,
    OpenParen,
    CloseParen,
    OpenSquareParen,
    CloseSquareParen,
    OpenCurlyParen,
    CloseCurlyParen,
}

/// One token: its kind, where it stands and the exact text it was read from.
#[derive(Debug)]
pub struct Token {
    pub ty: Option<TokenType>,
    pub span: Span,
    pub value: String,
}

/// What a token is, with its text as a sequence of characters.
pub struct TokenView {
    pub ty: Option<TokenType>,
    pub span: Span,
    pub value: Seq<char>,
}

impl View for Token {
    type V = TokenView;

    open spec fn view(&self) -> TokenView {
        TokenView { ty: self.ty, span: self.span, value: self.value@ }
    }
}

impl Token {
    pub fn new(ty: Option<TokenType>, span: Span, value: String) -> (r: Token)
        ensures
            r@ == (TokenView { ty, span, value: value@ }),
    {
        Token { ty, span, value }
    }

    /// A copy with the same kind, span and text.
    pub fn duplicate(&self) -> (r: Token)
        ensures
            r@ == self@,
    {
        Token { ty: self.ty, span: self.span, value: self.value.clone() }
    }

    /// Whether the token is of kind `ty`.
    pub fn is(&self, ty: TokenType) -> (r: bool)
        ensures
            r == (self.ty == Some(ty)),
    {
        match self.ty {
            Some(t) => t == ty,
            None => false,
        }
    }
}

} // verus!
