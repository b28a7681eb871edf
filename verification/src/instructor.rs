//! From tokens to a checked tree, and from a checked tree to a value.
use vstd::prelude::*;
use crate::ast::{Ast, AstView};
use crate::ast::check::{check_all, TypeFrames};
use crate::ast::desugar::{desugared, desugared_seq};
use crate::ast::eval::eval_items;
use crate::ast::view::{asts_view, value_view};
use crate::errors::{ZError, ZErrorView};
use crate::parser::buffer::token_items;
use crate::parser::expr::parse_token_list;
use crate::parser::grammar::parse_program;
use crate::primitives::in_range;
use crate::types::sym_table::SymTable;
use crate::types::token::Token;
use crate::types::typeobj::Type;
use crate::types::value::{IntKind, Value, ValueView};

verus! {

/// What `gen_instructions` gives: every tree desugared, and then every
/// desugared tree typechecked in order, up to the first error.
pub open spec fn instructions(input: Seq<AstView>, st: TypeFrames) -> (
    Result<Seq<AstView>, ZErrorView>,
    TypeFrames,
) {
    let (r, st1) = check_all(desugared_seq(input), 0, st);
    match r {
        Ok(()) => (Ok(desugared_seq(input)), st1),
        Err(e) => (Err(e), st1),
    }
}

/// Desugars every tree of `input` and typechecks the desugared trees in
/// order against `typelist`. Hands back the desugared trees.
pub fn gen_instructions(input: Vec<Ast>, typelist: &mut SymTable<Type>) -> (r: Result<
    Vec<Ast>,
    ZError,
>)
    requires
        old(typelist).wf(),
    ensures
        final(typelist).wf(),
        final(typelist)@.len() == old(typelist)@.len(),
        (match r {
            Ok(out) => Ok(asts_view(out@)),
            Err(e) => Err(e@),
        }, final(typelist)@) == instructions(asts_view(input@), old(typelist)@),
{
    let ghost views = asts_view(input@);
    let mut out: Vec<Ast> = Vec::new();
    let mut i: usize = 0;
    while i < input.len()
        invariant
            i <= input.len(),
            views == asts_view(input@),
            out@.len() == i,
            forall|j: int| 0 <= j < i ==> out@[j]@ == desugared(views[j]),
        decreases input.len() - i,
    {
        assert(views[i as int] == input@[i as int]@);
        out.push(input[i].desugar());
        i += 1;
    }
    assert(asts_view(out@) =~= desugared_seq(views));
    let ghost st0 = typelist@;
    let ghost items = asts_view(out@);
    let mut j: usize = 0;
    while j < out.len()
        invariant
            typelist.wf(),
            typelist@.len() == st0.len(),
            st0 == old(typelist)@,
            j <= out.len(),
            items == asts_view(out@),
            items == desugared_seq(views),
            views == asts_view(input@),
            check_all(items, j as int, typelist@) == check_all(items, 0, st0),
        decreases out.len() - j,
    {
        assert(items[j as int] == out@[j as int]@);
        match out[j].typecheck(typelist) {
            Err(e) => {
                return Err(e);
            },
            Ok(_) => {},
        }
        j += 1;
    }
    Ok(out)
}

/// What `compile` gives: the program parsed, desugared and typechecked.
pub open spec fn compiled(tokens: Seq<Token>, st: TypeFrames) -> (
    Result<Seq<AstView>, ZErrorView>,
    TypeFrames,
) {
    match parse_program(token_items(tokens)) {
        Err(e) => (Err(e), st),
        Ok(trees) => instructions(trees, st),
    }
}

/// Turns a finished token sequence into a checked tree: the tokens are
/// parsed, the trees desugared, and the desugared trees typechecked. The
/// first error of any stage ends the compilation.
pub fn compile(input: Vec<Token>, typelist: &mut SymTable<Type>) -> (r: Result<Vec<Ast>, ZError>)
    requires
        old(typelist).wf(),
        input@.len() < usize::MAX,
    ensures
        final(typelist).wf(),
        (match r {
            Ok(out) => Ok(asts_view(out@)),
            Err(e) => Err(e@),
        }, final(typelist)@) == compiled(input@, old(typelist)@),
{
    match parse_token_list(input) {
        Err(e) => Err(e),
        Ok(trees) => gen_instructions(trees, typelist),
    }
}

/// The exit status that goes with the final value of a program: the value
/// itself where it is a number that an `i32` holds, and success otherwise.
pub open spec fn exit_status(v: ValueView) -> int {
    match v {
        ValueView::Int(_, n) => if in_range(IntKind::I32, n) {
            n
        } else {
            0
        },
        _ => 0,
    }
}

/// The exit status that goes with the final value of a program.
pub fn exit_code(v: &Value) -> (r: i32)
    ensures
        r == exit_status(v@),
{
    proof {
        reveal_with_fuel(value_view, 2);
    }
    match v {
        Value::Int(_, n) => {
            if -0x8000_0000 <= *n && *n <= 0x7fff_ffff {
                *n as i32
            } else {
                0
            }
        },
        _ => 0,
    }
}

/// Evaluates the statements of a program in order, in the frames of
/// `val_symt` as they are, and hands back the final value with its exit
/// status. `fuel` is the budget for nested calls.
pub fn interpret(input: &Vec<Ast>, val_symt: &mut SymTable<Value>, fuel: usize) -> (r: Result<
    (Value, i32),
    ZError,
>)
    requires
        old(val_symt).wf(),
    ensures
        final(val_symt).wf(),
        final(val_symt)@.len() == old(val_symt)@.len(),
        (match r {
            Ok((v, _)) => Ok(v@),
            Err(e) => Err(e@),
        }, final(val_symt)@) == eval_items(
            asts_view(input@),
            0,
            old(val_symt)@,
            fuel as nat,
            true,
            ValueView::Unit,
        ),
        r matches Ok((v, code)) ==> code == exit_status(v@),
{
    let ghost st0 = val_symt@;
    let ghost items = asts_view(input@);
    let mut last = Value::Unit;
    let mut i: usize = 0;
    while i < input.len()
        invariant
            val_symt.wf(),
            val_symt@.len() == st0.len(),
            st0 == old(val_symt)@,
            i <= input.len(),
            items == asts_view(input@),
            eval_items(items, i as int, val_symt@, fuel as nat, true, last@) == eval_items(
                items,
                0,
                st0,
                fuel as nat,
                true,
                ValueView::Unit,
            ),
        decreases input.len() - i,
    {
        assert(items[i as int] == input@[i as int]@);
        match input[i].interpret_expr(val_symt, fuel) {
            Err(e) => {
                return Err(e);
            },
            Ok(Value::Return(v)) => {
                assert(value_view(Value::Return(v)) == ValueView::Return(Box::new(v@)));
                let code = exit_code(&v);
                return Ok((*v, code));
            },
            Ok(v) => {
                assert(!(v@ is Return)) by {
                    reveal_with_fuel(value_view, 2);
                }
                last = v;
            },
        }
        i += 1;
    }
    let code = exit_code(&last);
    Ok((last, code))
}

} // verus!
