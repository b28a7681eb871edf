//! The one error type of the pipeline. Every stage stops at its first error.
use vstd::prelude::*;
use crate::types::position::Span;
use crate::types::typeobj::{Type, TypeView};

verus! {

/// Why a parser pass gave up.
#[derive(Clone, Copy, Debug, PartialEq, Eq, Structural)]
pub enum ParseErrorKind {
    /// The input ended before an opening bracket was closed.
    UnterminatedBracket,
    /// The input ended where another item was expected.
    UnexpectedEnd,
    /// An operator stands where it has no operand to its left.
    MissingOperand,
    /// An expression was expected and nothing was there.
    EmptyExpression,
    /// The items do not reduce to a single expression.
    UnexpectedToken,
    /// A literal cannot be read as a value.
    InvalidLiteral,
}

/// Why typechecking gave up.
#[derive(Clone, Copy, Debug, PartialEq, Eq, Structural)]
pub enum TypeErrorKind {
    /// Two types that have to agree do not.
    Mismatch,
    /// The expression does not name a type.
    NotAType,
    /// The called expression is not callable.
    NotCallable,
    /// A class has both a constructor argument list and an `_init` member,
    /// or instance fields beside a constructor argument list.
    ConstructorConflict,
    /// A declaration has no name to declare, or an instance field no type.
    MalformedDeclaration,
    /// The type has no member of that name.
    NoSuchMember,
    /// The node is not part of the core language.
    NotCore,
}

/// Why a name could not be used.
#[derive(Clone, Copy, Debug, PartialEq, Eq, Structural)]
pub enum NameErrorKind {
    /// The name is not bound where it may be looked for.
    Undeclared,
    /// The name is bound in a frame of constants.
    Immutable,
}

/// Why evaluation gave up.
#[derive(Clone, Copy, Debug, PartialEq, Eq, Structural)]
pub enum EvalErrorKind {
    /// A condition is not a boolean.
    NotBool,
    /// The called value is not callable.
    NotCallable,
    /// A call has the wrong number of arguments.
    ArgumentCount,
    /// The value's type has no member of that name.
    NoSuchMember,
    /// A built-in operation rejected its operands.
    OperationFailed,
    /// Calls are nested deeper than the budget allows.
    DepthExceeded,
    /// The node is not part of the core language.
    NotCore,
    /// The target of an assignment is not a name.
    NotAssignable,
    /// The expression does not evaluate to a type.
    NotAType,
}

#[allow(inconsistent_fields)]
#[derive(Debug)]
pub enum ZError {
    /// Carries the offending source text.
    Parse { kind: ParseErrorKind, raw: String, span: Option<Span> },
    /// Carries the two types that disagree.
    Type { kind: TypeErrorKind, expected: Type, found: Type, span: Option<Span> },
    /// Carries the identifier.
    Name { kind: NameErrorKind, name: String, span: Option<Span> },
    Eval { kind: EvalErrorKind, span: Option<Span> },
}

#[allow(inconsistent_fields)]
pub enum ZErrorView {
    Parse { kind: ParseErrorKind, raw: Seq<char>, span: Option<Span> },
    Type { kind: TypeErrorKind, expected: TypeView, found: TypeView, span: Option<Span> },
    Name { kind: NameErrorKind, name: Seq<char>, span: Option<Span> },
    Eval { kind: EvalErrorKind, span: Option<Span> },
}

impl View for ZError {
    type V = ZErrorView;

    open spec fn view(&self) -> ZErrorView {
        match *self {
            ZError::Parse { kind, raw, span } => ZErrorView::Parse { kind, raw: raw@, span },
            ZError::Type { kind, expected, found, span } => ZErrorView::Type {
                kind,
                expected: expected@,
                found: found@,
                span,
            },
            ZError::Name { kind, name, span } => ZErrorView::Name { kind, name: name@, span },
            ZError::Eval { kind, span } => ZErrorView::Eval { kind, span },
        }
    }
}

pub type ZResult<T> = Result<T, ZError>;

impl ZErrorView {
    /// The same error, placed at `span`.
    pub open spec fn with_span(self, span: Option<Span>) -> ZErrorView {
        match self {
            ZErrorView::Parse { kind, raw, .. } => ZErrorView::Parse { kind, raw, span },
            ZErrorView::Type { kind, expected, found, .. } => ZErrorView::Type {
                kind,
                expected,
                found,
                span,
            },
            ZErrorView::Name { kind, name, .. } => ZErrorView::Name { kind, name, span },
            ZErrorView::Eval { kind, .. } => ZErrorView::Eval { kind, span },
        }
    }

    pub open spec fn span(self) -> Option<Span> {
        match self {
            ZErrorView::Parse { span, .. } => span,
            ZErrorView::Type { span, .. } => span,
            ZErrorView::Name { span, .. } => span,
            ZErrorView::Eval { span, .. } => span,
        }
    }
}

impl ZError {
    pub fn parse(kind: ParseErrorKind, raw: String, span: Option<Span>) -> (r: ZError)
        ensures
            r@ == (ZErrorView::Parse { kind, raw: raw@, span }),
    {
        ZError::Parse { kind, raw, span }
    }

    pub fn mismatch(expected: Type, found: Type, span: Option<Span>) -> (r: ZError)
        ensures
            r@ == (ZErrorView::Type {
                kind: TypeErrorKind::Mismatch,
                expected: expected@,
                found: found@,
                span,
            }),
    {
        ZError::Type { kind: TypeErrorKind::Mismatch, expected, found, span }
    }

    /// A type error that has no pair of types to show.
    pub fn typing(kind: TypeErrorKind, span: Option<Span>) -> (r: ZError)
        ensures
            r@ == (ZErrorView::Type { kind, expected: TypeView::Any, found: TypeView::Any, span }),
    {
        ZError::Type { kind, expected: Type::Any, found: Type::Any, span }
    }

    pub fn undeclared(name: String, span: Option<Span>) -> (r: ZError)
        ensures
            r@ == (ZErrorView::Name { kind: NameErrorKind::Undeclared, name: name@, span }),
    {
        ZError::Name { kind: NameErrorKind::Undeclared, name, span }
    }

    pub fn immutable(name: String, span: Option<Span>) -> (r: ZError)
        ensures
            r@ == (ZErrorView::Name { kind: NameErrorKind::Immutable, name: name@, span }),
    {
        ZError::Name { kind: NameErrorKind::Immutable, name, span }
    }

    pub fn eval(kind: EvalErrorKind, span: Option<Span>) -> (r: ZError)
        ensures
            r@ == (ZErrorView::Eval { kind, span }),
    {
        ZError::Eval { kind, span }
    }

    /// The same error, placed at `span`.
    pub fn with_span(self, span: Option<Span>) -> (r: ZError)
        ensures
            r@ == self@.with_span(span),
    {
        match self {
            ZError::Parse { kind, raw, .. } => ZError::Parse { kind, raw, span },
            ZError::Type { kind, expected, found, .. } => ZError::Type {
                kind,
                expected,
                found,
                span,
            },
            ZError::Name { kind, name, .. } => ZError::Name { kind, name, span },
            ZError::Eval { kind, .. } => ZError::Eval { kind, span },
        }
    }

    /// Where the error was found, if that is known.
    pub fn span(&self) -> (r: Option<Span>)
        ensures
            r == self@.span(),
    {
        match self {
            ZError::Parse { span, .. } => *span,
            ZError::Type { span, .. } => *span,
            ZError::Name { span, .. } => *span,
            ZError::Eval { span, .. } => *span,
        }
    }
}

} // verus!
