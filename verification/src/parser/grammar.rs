//! What the parser passes make of a run of items.
//!
//! A pass is a function from the items before to the items after, or to the
//! first error. An expression is parsed by the passes in their fixed order.
//! First what groups: blocks, atoms, then member accesses, calls and groups
//! in parentheses. Then what takes everything behind its trigger as a
//! sub-expression, lowest precedence first: statements, declarations,
//! assignments, procedure literals. Then what reduces neighbouring nodes:
//! class literals, unary operators, and binary operators from the tightest
//! to the loosest. What is left has to be a single node.
//!
//! Passes parse sub-expressions by the same ladder. The bound `n` that the
//! passes carry is above the length of every sub-expression that they hand
//! to it.
use vstd::prelude::*;
use crate::ast::AstView;
use crate::ast::argument::ArgumentView;
use crate::ast::assign::AssignView;
use crate::ast::binary_opr::BinaryOprView;
use crate::ast::block::BlockView;
use crate::ast::call::CallView;
use crate::ast::member::MemberView;
use crate::ast::class::ClassView;
use crate::ast::control::{DeferView, ReturnView};
use crate::ast::declare::DeclareView;
use crate::ast::delete::DeleteView;
use crate::ast::eval::literal_of;
use crate::ast::ident::IdentView;
use crate::ast::literal::LiteralView;
use crate::ast::procedure::ProcedureView;
use crate::ast::unary_opr::UnaryOprView;
use crate::errors::{ParseErrorKind, ZErrorView};
use crate::parser::buffer::{closing, item_span, raw_text, segments, split_points, unexpected_end, unterminated, BufferWindowView, ElementView, ItemView};
use crate::primitives::{in_range, prim_type};
use crate::text::signed_decimal_value;
use crate::types::position::Span;
use crate::types::token::{AccessType, Flag, Keyword, OprType, TokenType, TokenView, UnaryOprType};
use crate::types::typeobj::TypeView;
use crate::types::value::{IntKind, Prim, ValueView};

verus! {

/// A parse error placed at `at`, with its text.
pub open spec fn parse_failure(kind: ParseErrorKind, at: Option<ItemView>) -> ZErrorView {
    match at {
        Some(item) => ZErrorView::Parse { kind, raw: item.raw(), span: item_span(item) },
        None => ZErrorView::Parse { kind, raw: Seq::empty(), span: None },
    }
}

/// The first position from `i` on at which a token of kind `ty` stands.
pub open spec fn first_token(items: Seq<ItemView>, ty: TokenType, i: int) -> Option<int>
    decreases items.len() - i,
{
    if i < 0 || i >= items.len() {
        None
    } else if items[i].is_token(ty) {
        Some(i)
    } else {
        first_token(items, ty, i + 1)
    }
}

/// The text of a string literal without its quotes.
pub open spec fn unquoted(s: Seq<char>) -> Seq<char> {
    if s.len() >= 2 {
        s.subrange(1, s.len() - 1)
    } else {
        s
    }
}

/// The value that a literal token denotes. A number is an `i32`.
pub open spec fn literal_value(t: TokenView) -> Option<ValueView> {
    match t.ty {
        Some(TokenType::LiteralNumber) => match signed_decimal_value(t.value) {
            Some(v) => if in_range(IntKind::I32, v) {
                Some(ValueView::Int(IntKind::I32, v))
            } else {
                None
            },
            None => None,
        },
        Some(TokenType::LiteralString) => Some(ValueView::Str(unquoted(t.value))),
        Some(TokenType::LiteralBool) => if t.value == "true"@ {
            Some(ValueView::Bool(true))
        } else if t.value == "false"@ {
            Some(ValueView::Bool(false))
        } else {
            None
        },
        _ => None,
    }
}

/// Whether the token is a literal.
pub open spec fn is_literal(t: TokenView) -> bool {
    t.ty == Some(TokenType::LiteralNumber) || t.ty == Some(TokenType::LiteralString) || t.ty
        == Some(TokenType::LiteralBool)
}

/// What the atom pass makes of one item: an identifier token becomes an
/// identifier, a literal token the literal of its value, and anything else
/// stays. A literal without a value is an error.
pub open spec fn atom_of(item: ItemView) -> Result<ItemView, ZErrorView> {
    match item {
        ItemView::Token(t) => if t.ty == Some(TokenType::Ident) {
            Ok(
                ItemView::Node(
                    ElementView {
                        raw: t.value,
                        node: AstView::Ident(IdentView { name: t.value, name_span: Some(t.span) }),
                    },
                ),
            )
        } else if is_literal(t) {
            match literal_value(t) {
                Some(v) => Ok(
                    ItemView::Node(
                        ElementView {
                            raw: t.value,
                            node: AstView::Literal(LiteralView { span: Some(t.span), content: v }),
                        },
                    ),
                ),
                None => Err(parse_failure(ParseErrorKind::InvalidLiteral, Some(item))),
            }
        } else {
            Ok(item)
        },
        ItemView::Node(_) => Ok(item),
    }
}

/// The first position from `i` on at which the atom pass fails.
pub open spec fn first_invalid(items: Seq<ItemView>, i: int) -> Option<int>
    decreases items.len() - i,
{
    if i < 0 || i >= items.len() {
        None
    } else if atom_of(items[i]) is Err {
        Some(i)
    } else {
        first_invalid(items, i + 1)
    }
}

/// The atom pass: every item becomes its atom, and the first literal
/// without a value is the error.
pub open spec fn atoms_spec(items: Seq<ItemView>) -> Result<Seq<ItemView>, ZErrorView> {
    match first_invalid(items, 0) {
        Some(i) => Err(atom_of(items[i])->Err_0),
        None => Ok(Seq::new(items.len(), |i: int| atom_of(items[i])->Ok_0)),
    }
}

/// The error for a place where an expression was expected and nothing stands.
pub open spec fn empty_expression() -> ZErrorView {
    parse_failure(ParseErrorKind::EmptyExpression, None)
}

/// What is left at the end of the ladder has to be a single node.
pub open spec fn single(items: Seq<ItemView>) -> Result<ElementView, ZErrorView> {
    if items.len() == 0 {
        Err(empty_expression())
    } else {
        match items[0] {
            ItemView::Token(_) => Err(
                parse_failure(ParseErrorKind::UnexpectedToken, Some(items[0])),
            ),
            ItemView::Node(e) => if items.len() > 1 {
                Err(parse_failure(ParseErrorKind::UnexpectedToken, Some(items[1])))
            } else {
                Ok(e)
            },
        }
    }
}

/// The operator that an assignment token carries, if the item is one.
pub open spec fn assignment_of(item: ItemView) -> Option<Option<OprType>> {
    match item {
        ItemView::Token(t) => match t.ty {
            Some(TokenType::AssignmentOpr(opr)) => Some(opr),
            _ => None,
        },
        _ => None,
    }
}

/// The first position from `i` on at which an assignment operator stands.
pub open spec fn first_assignment(items: Seq<ItemView>, i: int) -> Option<int>
    decreases items.len() - i,
{
    if i < 0 || i >= items.len() {
        None
    } else if assignment_of(items[i]) is Some {
        Some(i)
    } else {
        first_assignment(items, i + 1)
    }
}

/// The node that an assignment reduces to. A compound assignment `x OP= y`
/// becomes the plain assignment `x = x OP y`.
pub open spec fn assign_node(
    var: ElementView,
    eq: ItemView,
    rhs: ElementView,
    raw: Seq<char>,
) -> ItemView {
    let content = match assignment_of(eq) {
        Some(Some(opr)) => AstView::BinaryOpr(
            BinaryOprView {
                ty: opr,
                opr_span: item_span(eq),
                operand1: Box::new(var.node),
                operand2: Box::new(rhs.node),
            },
        ),
        _ => rhs.node,
    };
    ItemView::Node(
        ElementView {
            raw,
            node: AstView::Assign(
                AssignView {
                    variable: Box::new(var.node),
                    eq_span: item_span(eq),
                    content: Box::new(content),
                },
            ),
        },
    )
}

/// Whether the item is a block that an earlier pass has reduced.
pub open spec fn is_block(item: ItemView) -> bool {
    item matches ItemView::Node(e) && e.node is Block
}

/// The first position from `i` on at which a block stands.
pub open spec fn first_block(items: Seq<ItemView>, i: int) -> Option<int>
    decreases items.len() - i,
{
    if i < 0 || i >= items.len() {
        None
    } else if is_block(items[i]) {
        Some(i)
    } else {
        first_block(items, i + 1)
    }
}

/// Whether a procedure literal begins with the item.
pub open spec fn is_proc_trigger(item: ItemView) -> bool {
    item.is_token(TokenType::Keyword(Keyword::Proc)) || item.is_token(
        TokenType::Keyword(Keyword::Fn),
    ) || item.is_token(TokenType::Bar)
}

/// The first position from `i` on at which a procedure literal begins.
pub open spec fn first_proc_trigger(items: Seq<ItemView>, i: int) -> Option<int>
    decreases items.len() - i,
{
    if i < 0 || i >= items.len() {
        None
    } else if is_proc_trigger(items[i]) {
        Some(i)
    } else {
        first_proc_trigger(items, i + 1)
    }
}

/// The items with `start..end` replaced by `item`.
pub open spec fn reduced(items: Seq<ItemView>, start: int, end: int, item: ItemView) -> Seq<ItemView> {
    items.subrange(0, start).push(item) + items.subrange(end, items.len() as int)
}

/// The braces, as a pair of brackets to count.
pub open spec fn braces() -> Option<(TokenType, TokenType)> {
    Some((TokenType::OpenCurlyParen, TokenType::CloseCurlyParen))
}

/// The bars of an argument list, as a pair of brackets to count.
pub open spec fn bars() -> Option<(TokenType, TokenType)> {
    Some((TokenType::Bar, TokenType::Bar))
}

/// A sub-expression: parsed by the whole ladder.
pub open spec fn parse_sub(items: Seq<ItemView>, n: nat) -> Result<ElementView, ZErrorView>
    decreases n, 0int, 0int,
{
    if items.len() < n {
        parse_expr(items)
    } else {
        Err(empty_expression())
    }
}

/// The passes that take everything behind their trigger as a
/// sub-expression, lowest precedence first: statements, declarations,
/// assignments, procedure literals.
pub open spec fn split_stage(items: Seq<ItemView>, n: nat) -> Result<Seq<ItemView>, ZErrorView>
    decreases n, 7int, 0int,
{
    match statement_spec(items, n) {
        Err(e) => Err(e),
        Ok(stated) => match declare_spec(stated, n) {
            Err(e) => Err(e),
            Ok(declared) => match assign_spec(declared, n) {
                Err(e) => Err(e),
                Ok(assigned) => proc_spec(assigned, 0, n),
            },
        },
    }
}

/// The passes that reduce neighbouring items without parsing anything
/// again: class literals.
pub open spec fn local_stage(items: Seq<ItemView>) -> Result<Seq<ItemView>, ZErrorView> {
    match class_spec(items, 0) {
        Err(e) => Err(e),
        Ok(classes) => match unary_spec(classes, classes.len() as int) {
            Err(e) => Err(e),
            Ok(unaries) => binary_levels(unaries, 6),
        },
    }
}

/// The unary operator that the item is, if it is one.
pub open spec fn unary_of(item: ItemView) -> Option<UnaryOprType> {
    match item {
        ItemView::Token(t) => match t.ty {
            Some(TokenType::UnaryOpr(op)) => Some(op),
            _ => None,
        },
        _ => None,
    }
}

/// The last position before `i` at which a unary operator stands.
pub open spec fn last_unary(items: Seq<ItemView>, i: int) -> Option<int>
    decreases i,
{
    if i <= 0 || i > items.len() {
        None
    } else if unary_of(items[i - 1]) is Some {
        Some(i - 1)
    } else {
        last_unary(items, i - 1)
    }
}

/// The node that the unary operator at `k` makes of the node behind it.
pub open spec fn unary_item(items: Seq<ItemView>, k: int) -> ItemView {
    ItemView::Node(
        ElementView {
            raw: raw_text(items.subrange(k, k + 2)),
            node: AstView::UnaryOpr(
                UnaryOprView {
                    ty: unary_of(items[k])->0,
                    opr_span: item_span(items[k]),
                    operand: Box::new(items[k + 1]->Node_0.node),
                },
            ),
        },
    )
}

/// The unary pass, over the items before `upto`, from the right: every
/// unary operator is reduced with the node behind it.
pub open spec fn unary_spec(items: Seq<ItemView>, upto: int) -> Result<Seq<ItemView>, ZErrorView>
    decreases upto,
{
    match last_unary(items, upto) {
        None => Ok(items),
        Some(k) => if k + 1 >= items.len() {
            Err(unexpected_end(items))
        } else if !(items[k + 1] is Node) {
            Err(parse_failure(ParseErrorKind::UnexpectedToken, Some(items[k + 1])))
        } else if 0 <= k < upto {
            unary_spec(reduced(items, k, k + 2, unary_item(items, k)), k)
        } else {
            Ok(items)
        },
    }
}

/// How tightly a binary operator binds: the higher, the tighter.
pub open spec fn precedence(op: OprType) -> nat {
    match op {
        OprType::TypeCast => 6,
        OprType::Mul | OprType::Div | OprType::Mod => 5,
        OprType::Add | OprType::Sub | OprType::Concat => 4,
        OprType::Lt | OprType::Le | OprType::Gt | OprType::Ge => 3,
        OprType::Eq | OprType::Ne => 2,
        OprType::And => 1,
        OprType::Or => 0,
    }
}

/// The binary operator that the item is, if it is one.
pub open spec fn operator_of(item: ItemView) -> Option<OprType> {
    match item {
        ItemView::Token(t) => match t.ty {
            Some(TokenType::BinaryOpr(op)) => Some(op),
            _ => None,
        },
        _ => None,
    }
}

/// Whether a binary operator of precedence `level` stands at the item.
pub open spec fn is_operator(item: ItemView, level: nat) -> bool {
    operator_of(item) matches Some(op) && precedence(op) == level
}

/// The first position from `i` on at which a binary operator of precedence `level` stands.
pub open spec fn first_operator(items: Seq<ItemView>, level: nat, i: int) -> Option<int>
    decreases items.len() - i,
{
    if i < 0 || i >= items.len() {
        None
    } else if is_operator(items[i], level) {
        Some(i)
    } else {
        first_operator(items, level, i + 1)
    }
}

/// The node that the binary operator at `k` makes of the nodes around it.
pub open spec fn binary_item(items: Seq<ItemView>, k: int) -> ItemView {
    ItemView::Node(
        ElementView {
            raw: raw_text(items.subrange(k - 1, k + 2)),
            node: AstView::BinaryOpr(
                BinaryOprView {
                    ty: operator_of(items[k])->0,
                    opr_span: item_span(items[k]),
                    operand1: Box::new(items[k - 1]->Node_0.node),
                    operand2: Box::new(items[k + 1]->Node_0.node),
                },
            ),
        },
    )
}

/// The pass for the binary operators of precedence `level`, from `from` on,
/// from the left: every such operator is reduced with the nodes around it,
/// so that operators of one precedence associate to the left.
pub open spec fn binary_spec(items: Seq<ItemView>, level: nat, from: int) -> Result<
    Seq<ItemView>,
    ZErrorView,
>
    decreases items.len() - from,
{
    match first_operator(items, level, from) {
        None => Ok(items),
        Some(k) => if k < 1 || k >= items.len() || !(items[k - 1] is Node) {
            Err(parse_failure(ParseErrorKind::MissingOperand, Some(items[k])))
        } else if k + 1 >= items.len() {
            Err(unexpected_end(items))
        } else if !(items[k + 1] is Node) {
            Err(parse_failure(ParseErrorKind::UnexpectedToken, Some(items[k + 1])))
        } else if from <= k {
            binary_spec(reduced(items, k - 1, k + 2, binary_item(items, k)), level, k)
        } else {
            Ok(items)
        },
    }
}

/// The passes for the binary operators of precedence `level` and below,
/// the tightest first.
pub open spec fn binary_levels(items: Seq<ItemView>, level: nat) -> Result<Seq<ItemView>, ZErrorView>
    decreases level,
{
    match binary_spec(items, level, 0) {
        Err(e) => Err(e),
        Ok(reduced) => if level == 0 {
            Ok(reduced)
        } else {
            binary_levels(reduced, (level - 1) as nat)
        },
    }
}

/// An expression: the passes in their fixed order, and then a single node.
pub open spec fn parse_expr(items: Seq<ItemView>) -> Result<ElementView, ZErrorView>
    decreases items.len(), 9int, 0int,
{
    let n = items.len();
    match block_spec(items, 0, n) {
        Err(e) => Err(e),
        Ok(with_blocks) => match atoms_spec(with_blocks) {
            Err(e) => Err(e),
            Ok(with_atoms) => match postfix_spec(with_atoms, 0, n) {
                Err(e) => Err(e),
                Ok(grouped) => match split_stage(grouped, n) {
                    Err(e) => Err(e),
                    Ok(split) => match local_stage(split) {
                        Err(e) => Err(e),
                        Ok(done) => single(done),
                    },
                },
            },
        },
    }
}

/// The parentheses, as a pair of brackets to count.
pub open spec fn parens() -> Option<(TokenType, TokenType)> {
    Some((TokenType::OpenParen, TokenType::CloseParen))
}

/// Whether a member access, a call or a group begins at the item.
pub open spec fn is_postfix_trigger(item: ItemView) -> bool {
    item.is_token(TokenType::DotOpr) || item.is_token(TokenType::OpenParen)
}

/// The first position from `i` on at which a dot or an opening parenthesis stands.
pub open spec fn first_postfix_trigger(items: Seq<ItemView>, i: int) -> Option<int>
    decreases items.len() - i,
{
    if i < 0 || i >= items.len() {
        None
    } else if is_postfix_trigger(items[i]) {
        Some(i)
    } else {
        first_postfix_trigger(items, i + 1)
    }
}

/// The member access that the dot at `k` makes of the node before it and
/// the name `id` behind it: a method access where a call follows, else a
/// field access.
pub open spec fn member_item(items: Seq<ItemView>, k: int, id: IdentView) -> ItemView {
    ItemView::Node(
        ElementView {
            raw: raw_text(items.subrange(k - 1, k + 2)),
            node: AstView::Member(
                MemberView {
                    ty: if k + 2 < items.len() && items[k + 2].is_token(TokenType::OpenParen) {
                        AccessType::Method
                    } else {
                        AccessType::Field
                    },
                    name: id.name,
                    parent: Box::new(items[k - 1]->Node_0.node),
                    name_span: id.name_span,
                    dot_span: item_span(items[k]),
                },
            ),
        },
    )
}

/// The call that the parentheses at `k` and `c` make of the node before
/// them and the arguments between them.
pub open spec fn call_item(items: Seq<ItemView>, k: int, c: int, args: Seq<AstView>) -> ItemView {
    ItemView::Node(
        ElementView {
            raw: raw_text(items.subrange(k - 1, c + 1)),
            node: AstView::Call(
                CallView {
                    called: Box::new(items[k - 1]->Node_0.node),
                    paren_spans: match (item_span(items[k]), item_span(items[c])) {
                        (Some(open), Some(close)) => Some((open, close)),
                        _ => None,
                    },
                    args,
                },
            ),
        },
    )
}

/// What the dot or the opening parenthesis at `k` reduces to, and the
/// range that it replaces. A dot makes a member access of the node before it
/// and the name behind it. A parenthesis behind a node makes a call, with
/// the expressions between the commas at its top level as arguments; any
/// other parenthesis groups the expression that it encloses.
pub open spec fn postfix_at(items: Seq<ItemView>, k: int, n: nat) -> Result<
    (ItemView, int, int),
    ZErrorView,
>
    decreases n, 5int, 0int,
{
    if items[k].is_token(TokenType::DotOpr) {
        if k < 1 || !(items[k - 1] is Node) {
            Err(parse_failure(ParseErrorKind::MissingOperand, Some(items[k])))
        } else if k + 1 >= items.len() {
            Err(unexpected_end(items))
        } else {
            match name_of(items[k + 1]) {
                None => Err(parse_failure(ParseErrorKind::UnexpectedToken, Some(items[k + 1]))),
                Some(id) => Ok((member_item(items, k, id), k - 1, k + 2)),
            }
        }
    } else {
        match closing(items, parens(), k + 1) {
            None => Err(unterminated(items, k)),
            Some(c) => if k >= 1 && items[k - 1] is Node {
                match parse_segments(
                    segments(
                        items,
                        k + 1,
                        split_points(items, parens(), TokenType::Comma, k + 1, c),
                        c,
                    ),
                    0,
                    n,
                    Seq::empty(),
                ) {
                    Err(e) => Err(e),
                    Ok(args) => Ok((call_item(items, k, c, args), k - 1, c + 1)),
                }
            } else {
                match parse_sub(items.subrange(k + 1, c), n) {
                    Err(e) => Err(e),
                    Ok(inner) => Ok(
                        (
                            ItemView::Node(
                                ElementView {
                                    raw: raw_text(items.subrange(k, c + 1)),
                                    node: inner.node,
                                },
                            ),
                            k,
                            c + 1,
                        ),
                    ),
                }
            },
        }
    }
}

/// The pass for member accesses, calls and groups, from `from` on, from
/// the left, so that a chain such as `a.b(c).d` is reduced link by link.
pub open spec fn postfix_spec(items: Seq<ItemView>, from: int, n: nat) -> Result<
    Seq<ItemView>,
    ZErrorView,
>
    decreases n, 6int, items.len() - from,
{
    match first_postfix_trigger(items, from) {
        None => Ok(items),
        Some(k) => match postfix_at(items, k, n) {
            Err(e) => Err(e),
            Ok((item, start, end)) => if from <= k && 0 <= start <= k < end <= items.len() {
                postfix_spec(reduced(items, start, end, item), start + 1, n)
            } else {
                Ok(items)
            },
        },
    }
}

/// The node of a statement, as the only item that is left.
pub open spec fn statement_item(items: Seq<ItemView>, node: AstView) -> Seq<ItemView> {
    seq![ItemView::Node(ElementView { raw: raw_text(items), node })]
}

/// The name that the item is, if it is one.
pub open spec fn name_of(item: ItemView) -> Option<IdentView> {
    match item {
        ItemView::Node(ElementView { node: AstView::Ident(id), .. }) => Some(id),
        _ => None,
    }
}

/// The names from `i` on, behind those in `acc`: names with commas between them.
pub open spec fn delete_names(items: Seq<ItemView>, i: int, acc: Seq<IdentView>) -> Result<
    Seq<IdentView>,
    ZErrorView,
>
    decreases items.len() - i,
{
    if i < 0 || i >= items.len() {
        Err(unexpected_end(items))
    } else {
        match name_of(items[i]) {
            None => Err(parse_failure(ParseErrorKind::UnexpectedToken, Some(items[i]))),
            Some(id) => if i + 1 >= items.len() {
                Ok(acc.push(id))
            } else if items[i + 1].is_token(TokenType::Comma) {
                delete_names(items, i + 2, acc.push(id))
            } else {
                Err(parse_failure(ParseErrorKind::UnexpectedToken, Some(items[i + 1])))
            },
        }
    }
}

/// The statement pass: `ret` and `defer` at the front take everything
/// behind them as their expression, and `del` the names behind it. The
/// statement is the one item that is left.
pub open spec fn statement_spec(items: Seq<ItemView>, n: nat) -> Result<Seq<ItemView>, ZErrorView>
    decreases n, 3int, 0int,
{
    if items.len() == 0 {
        Ok(items)
    } else if items[0].is_token(TokenType::Keyword(Keyword::Return)) {
        match parse_sub(items.subrange(1, items.len() as int), n) {
            Err(e) => Err(e),
            Ok(value) => Ok(
                statement_item(
                    items,
                    AstView::Return(
                        ReturnView { kwd_span: item_span(items[0]), value: Box::new(value.node) },
                    ),
                ),
            ),
        }
    } else if items[0].is_token(TokenType::Keyword(Keyword::Defer)) {
        match parse_sub(items.subrange(1, items.len() as int), n) {
            Err(e) => Err(e),
            Ok(content) => Ok(
                statement_item(
                    items,
                    AstView::Defer(
                        DeferView { kwd_span: item_span(items[0]), content: Box::new(content.node) },
                    ),
                ),
            ),
        }
    } else if items[0].is_token(TokenType::Keyword(Keyword::Delete)) {
        match delete_names(items, 1, Seq::empty()) {
            Err(e) => Err(e),
            Ok(names) => Ok(
                statement_item(
                    items,
                    AstView::Delete(DeleteView { kwd_span: item_span(items[0]), names }),
                ),
            ),
        }
    } else {
        Ok(items)
    }
}

/// The flag that the item is, if it is one.
pub open spec fn flag_of(item: ItemView) -> Option<(Flag, Span)> {
    match item {
        ItemView::Token(t) => match t.ty {
            Some(TokenType::Flag(f)) => Some((f, t.span)),
            _ => None,
        },
        _ => None,
    }
}

/// The position behind the flags that stand from `i` on.
pub open spec fn leading_flags(items: Seq<ItemView>, i: int) -> int
    decreases items.len() - i,
{
    if i < 0 || i >= items.len() {
        items.len() as int
    } else if flag_of(items[i]) is Some {
        leading_flags(items, i + 1)
    } else {
        i
    }
}

/// The first `j` items as flags.
pub open spec fn flags_upto(items: Seq<ItemView>, j: int) -> Seq<(Flag, Span)> {
    Seq::new(j as nat, |i: int| flag_of(items[i])->0)
}

/// The type that a declaration names between its name at `j` and its
/// operator at `k`: none, or a type expression behind a colon.
pub open spec fn declared_type(items: Seq<ItemView>, j: int, k: int, n: nat) -> Result<
    Option<Box<AstView>>,
    ZErrorView,
>
    decreases n, 2int, 0int,
{
    if j + 1 == k {
        Ok(None)
    } else if !items[j + 1].is_token(TokenType::Colon) {
        Err(parse_failure(ParseErrorKind::UnexpectedToken, Some(items[j + 1])))
    } else {
        match parse_sub(items.subrange(j + 2, k), n) {
            Err(e) => Err(e),
            Ok(ty) => Ok(Some(Box::new(ty.node))),
        }
    }
}

/// The declaration pass: in front of the first declaration operator stand
/// the flags, the name and, behind a colon, the type; everything behind the
/// operator is the content. The declaration is the one item that is left.
pub open spec fn declare_spec(items: Seq<ItemView>, n: nat) -> Result<Seq<ItemView>, ZErrorView>
    decreases n, 3int, 0int,
{
    match first_token(items, TokenType::DeclarationOpr, 0) {
        None => Ok(items),
        Some(k) => {
            let j = leading_flags(items, 0);
            if j < 0 || j >= k || k >= items.len() {
                Err(parse_failure(ParseErrorKind::MissingOperand, Some(items[k])))
            } else {
                match name_of(items[j]) {
                    None => Err(parse_failure(ParseErrorKind::MissingOperand, Some(items[k]))),
                    Some(id) => match declared_type(items, j, k, n) {
                        Err(e) => Err(e),
                        Ok(ty) => if k + 1 >= items.len() {
                            Err(unexpected_end(items))
                        } else {
                            match parse_sub(items.subrange(k + 1, items.len() as int), n) {
                                Err(e) => Err(e),
                                Ok(content) => Ok(
                                    statement_item(
                                        items,
                                        AstView::Declare(
                                            DeclareView {
                                                variable: Box::new(AstView::Ident(id)),
                                                content: Box::new(content.node),
                                                flags: flags_upto(items, j),
                                                ty,
                                                eq_span: item_span(items[k]),
                                            },
                                        ),
                                    ),
                                ),
                            }
                        },
                    },
                }
            }
        },
    }
}

/// Whether a class literal begins with the item.
pub open spec fn is_class_trigger(item: ItemView) -> bool {
    item.is_token(TokenType::Keyword(Keyword::Class)) || item.is_token(
        TokenType::Keyword(Keyword::Struct),
    )
}

/// The first position from `i` on at which a class literal begins.
pub open spec fn first_class_trigger(items: Seq<ItemView>, i: int) -> Option<int>
    decreases items.len() - i,
{
    if i < 0 || i >= items.len() {
        None
    } else if is_class_trigger(items[i]) {
        Some(i)
    } else {
        first_class_trigger(items, i + 1)
    }
}

/// The class that the keyword at `k` and the block behind it make.
pub open spec fn class_item(items: Seq<ItemView>, k: int) -> ItemView {
    ItemView::Node(
        ElementView {
            raw: raw_text(items.subrange(k, k + 2)),
            node: AstView::Class(
                ClassView {
                    is_struct: items[k].is_token(TokenType::Keyword(Keyword::Struct)),
                    implementations: Seq::empty(),
                    inst_fields: Seq::empty(),
                    content: Some(items[k + 1]->Node_0.node->Block_0),
                    args: None,
                },
            ),
        },
    )
}

/// The class pass, from `from` on: every `class` or `struct` is reduced,
/// with the block behind it, to a class node.
pub open spec fn class_spec(items: Seq<ItemView>, from: int) -> Result<Seq<ItemView>, ZErrorView>
    decreases items.len() - from,
{
    match first_class_trigger(items, from) {
        None => Ok(items),
        Some(k) => if k + 1 >= items.len() {
            Err(unexpected_end(items))
        } else if !is_block(items[k + 1]) {
            Err(parse_failure(ParseErrorKind::UnexpectedToken, Some(items[k + 1])))
        } else if from <= k {
            class_spec(reduced(items, k, k + 2, class_item(items, k)), k + 1)
        } else {
            Ok(items)
        },
    }
}

/// The statements of the segments `segs[i..]`, behind those in `acc`. An
/// empty segment is no statement.
pub open spec fn parse_segments(segs: Seq<BufferWindowView>, i: int, n: nat, acc: Seq<AstView>) -> Result<
    Seq<AstView>,
    ZErrorView,
>
    decreases n, 4int, segs.len() - i,
{
    if i < 0 || i >= segs.len() {
        Ok(acc)
    } else if segs[i].slice.len() == 0 {
        parse_segments(segs, i + 1, n, acc)
    } else {
        match parse_sub(segs[i].slice, n) {
            Err(e) => Err(e),
            Ok(e) => parse_segments(segs, i + 1, n, acc.push(e.node)),
        }
    }
}

/// The block that the braces at `k` and `c` enclose.
pub open spec fn block_item(items: Seq<ItemView>, k: int, c: int, content: Seq<AstView>) -> ItemView {
    ItemView::Node(
        ElementView {
            raw: raw_text(items.subrange(k, c + 1)),
            node: AstView::Block(
                BlockView {
                    brace_spans: match (item_span(items[k]), item_span(items[c])) {
                        (Some(open), Some(close)) => Some((open, close)),
                        _ => None,
                    },
                    content,
                },
            ),
        },
    )
}

/// The block that the opening brace at `k` begins, and where it ends: the
/// statements between the statement ends at the top level of what the brace
/// and its closing brace enclose.
pub open spec fn block_at(items: Seq<ItemView>, k: int, n: nat) -> Result<(ItemView, int), ZErrorView>
    decreases n, 5int, 0int,
{
    match closing(items, braces(), k + 1) {
        None => Err(unterminated(items, k)),
        Some(c) => match parse_segments(
            segments(
                items,
                k + 1,
                split_points(items, braces(), TokenType::StatementEnd, k + 1, c),
                c,
            ),
            0,
            n,
            Seq::empty(),
        ) {
            Err(e) => Err(e),
            Ok(content) => Ok((block_item(items, k, c, content), c + 1)),
        },
    }
}

/// The block pass, from `from` on: every opening brace is reduced, with
/// what it encloses, to a block.
pub open spec fn block_spec(items: Seq<ItemView>, from: int, n: nat) -> Result<
    Seq<ItemView>,
    ZErrorView,
>
    decreases n, 6int, items.len() - from,
{
    match first_token(items, TokenType::OpenCurlyParen, from) {
        None => Ok(items),
        Some(k) => match block_at(items, k, n) {
            Err(e) => Err(e),
            Ok((node, end)) => if from <= k < end <= items.len() {
                block_spec(reduced(items, k, end, node), k + 1, n)
            } else {
                Ok(items)
            },
        },
    }
}

/// The assignment pass: the first assignment operator takes the node before
/// it as its target and everything behind it, parsed as an expression, as
/// its content. The reduction reaches to the end of the items.
pub open spec fn assign_spec(items: Seq<ItemView>, n: nat) -> Result<Seq<ItemView>, ZErrorView>
    decreases n, 3int, 0int,
{
    match first_assignment(items, 0) {
        None => Ok(items),
        Some(k) => if k < 1 || k >= items.len() {
            Err(parse_failure(ParseErrorKind::MissingOperand, Some(items[k])))
        } else {
            match items[k - 1] {
                ItemView::Token(_) => Err(
                    parse_failure(ParseErrorKind::MissingOperand, Some(items[k])),
                ),
                ItemView::Node(var) => if k + 1 >= items.len() {
                    Err(unexpected_end(items))
                } else {
                    match parse_sub(items.subrange(k + 1, items.len() as int), n) {
                        Err(e) => Err(e),
                        Ok(rhs) => Ok(
                            items.subrange(0, k - 1).push(
                                assign_node(
                                    var,
                                    items[k],
                                    rhs,
                                    raw_text(items.subrange(k - 1, items.len() as int)),
                                ),
                            ),
                        ),
                    }
                },
            }
        },
    }
}

/// The type expression of a parameter that names no type.
pub open spec fn any_type() -> AstView {
    literal_of(ValueView::Type(TypeView::Any))
}

/// One parameter: a name, or a name, a colon and a type expression.
pub open spec fn argument_of(seg: Seq<ItemView>, n: nat) -> Result<ArgumentView, ZErrorView>
    decreases n, 1int, 0int,
{
    match seg[0] {
        ItemView::Node(ElementView { node: AstView::Ident(id), .. }) => if seg.len() == 1 {
            Ok(ArgumentView { name: id, ty: Box::new(any_type()), default: None })
        } else if !seg[1].is_token(TokenType::Colon) {
            Err(parse_failure(ParseErrorKind::UnexpectedToken, Some(seg[1])))
        } else {
            match parse_sub(seg.subrange(2, seg.len() as int), n) {
                Err(e) => Err(e),
                Ok(ty) => Ok(ArgumentView { name: id, ty: Box::new(ty.node), default: None }),
            }
        },
        _ => Err(parse_failure(ParseErrorKind::UnexpectedToken, Some(seg[0]))),
    }
}

/// The parameters in the segments `segs[i..]`, behind those in `acc`. An
/// empty segment is no parameter.
pub open spec fn parse_arguments(
    segs: Seq<BufferWindowView>,
    i: int,
    n: nat,
    acc: Seq<ArgumentView>,
) -> Result<Seq<ArgumentView>, ZErrorView>
    decreases n, 2int, segs.len() - i,
{
    if i < 0 || i >= segs.len() {
        Ok(acc)
    } else if segs[i].slice.len() == 0 {
        parse_arguments(segs, i + 1, n, acc)
    } else {
        match argument_of(segs[i].slice, n) {
            Err(e) => Err(e),
            Ok(arg) => parse_arguments(segs, i + 1, n, acc.push(arg)),
        }
    }
}

/// The return type of a procedure literal that writes none: the unit type,
/// as a literal without a position.
pub open spec fn unit_type_literal() -> AstView {
    literal_of(ValueView::Type(prim_type(Prim::Unit)))
}

/// What follows the argument list of a procedure literal, from `b` on: a
/// colon, a return type and a block; or a block; or an expression that
/// reaches to the end of the items and becomes a block of one statement.
/// Hands back the return type, the body and where the literal ends. Where
/// no return type is written, it is the unit type.
pub open spec fn proc_tail(items: Seq<ItemView>, b: int, n: nat) -> Result<
    (Option<Box<AstView>>, BlockView, int),
    ZErrorView,
>
    decreases n, 1int, 0int,
{
    if b < 0 || b >= items.len() {
        Err(unexpected_end(items))
    } else if items[b].is_token(TokenType::Colon) {
        match first_block(items, b + 1) {
            None => Err(unexpected_end(items)),
            Some(d) => match parse_sub(items.subrange(b + 1, d), n) {
                Err(e) => Err(e),
                Ok(ty) => Ok((Some(Box::new(ty.node)), items[d]->Node_0.node->Block_0, d + 1)),
            },
        }
    } else if is_block(items[b]) {
        Ok((Some(Box::new(unit_type_literal())), items[b]->Node_0.node->Block_0, b + 1))
    } else {
        match parse_sub(items.subrange(b, items.len() as int), n) {
            Err(e) => Err(e),
            Ok(body) => Ok(
                (
                    Some(Box::new(unit_type_literal())),
                    BlockView { brace_spans: None, content: seq![body.node] },
                    items.len() as int,
                ),
            ),
        }
    }
}

/// The procedure literal that begins at `k`: an optional keyword, an
/// optional argument list between bars, an optional return type behind a
/// colon, and a body, in that order. Hands back the node and where the
/// literal ends.
pub open spec fn proc_at(items: Seq<ItemView>, k: int, n: nat) -> Result<(ItemView, int), ZErrorView>
    decreases n, 3int, 0int,
{
    let keyword = !items[k].is_token(TokenType::Bar);
    let a = if keyword { k + 1 } else { k };
    if a >= items.len() {
        Err(unexpected_end(items))
    } else {
        let listed = if items[a].is_token(TokenType::Bar) {
            match closing(items, bars(), a + 1) {
                None => Err(unterminated(items, a)),
                Some(c) => match parse_arguments(
                    segments(
                        items,
                        a + 1,
                        split_points(items, bars(), TokenType::Comma, a + 1, c),
                        c,
                    ),
                    0,
                    n,
                    Seq::empty(),
                ) {
                    Err(e) => Err(e),
                    Ok(args) => Ok((args, c + 1)),
                },
            }
        } else {
            Ok((Seq::empty(), a))
        };
        match listed {
            Err(e) => Err(e),
            Ok((args, b)) => match proc_tail(items, b, n) {
                Err(e) => Err(e),
                Ok((return_type, content, end)) => Ok(
                    (
                        ItemView::Node(
                            ElementView {
                                raw: raw_text(items.subrange(k, end)),
                                node: AstView::Procedure(
                                    ProcedureView {
                                        is_fn: items[k].is_token(TokenType::Keyword(Keyword::Fn)),
                                        kwd_span: if keyword { item_span(items[k]) } else { None },
                                        args,
                                        return_type,
                                        content,
                                    },
                                ),
                            },
                        ),
                        end,
                    ),
                ),
            },
        }
    }
}

/// The procedure pass, from `from` on: every `proc`, `fn` or opening bar
/// is reduced, with the literal that it begins, to a procedure node.
pub open spec fn proc_spec(items: Seq<ItemView>, from: int, n: nat) -> Result<
    Seq<ItemView>,
    ZErrorView,
>
    decreases n, 4int, items.len() - from,
{
    match first_proc_trigger(items, from) {
        None => Ok(items),
        Some(k) => match proc_at(items, k, n) {
            Err(e) => Err(e),
            Ok((node, end)) => if from <= k < end <= items.len() {
                proc_spec(reduced(items, k, end, node), k + 1, n)
            } else {
                Ok(items)
            },
        },
    }
}

/// A program: the blocks are reduced, and what stands between the
/// statement ends at the top level is parsed statement by statement.
pub open spec fn parse_program(items: Seq<ItemView>) -> Result<Seq<AstView>, ZErrorView> {
    let n = (items.len() + 1) as nat;
    match block_spec(items, 0, n) {
        Err(e) => Err(e),
        Ok(with_blocks) => parse_segments(
            segments(
                with_blocks,
                0,
                split_points(
                    with_blocks,
                    None,
                    TokenType::StatementEnd,
                    0,
                    with_blocks.len() as int,
                ),
                with_blocks.len() as int,
            ),
            0,
            n,
            Seq::empty(),
        ),
    }
}

} // verus!
