//! A tree written out as source-like text.
use vstd::prelude::*;
use vstd::string::StringExecFns;
use crate::ast::{Ast, AstView};
use crate::ast::argument::ArgumentView;
use crate::ast::binary_opr::{BinaryOpr, BinaryOprView};
use crate::ast::block::{Block, BlockView};
use crate::ast::call::Call;
use crate::ast::class::{Class, ClassView};
use crate::ast::delete::{Delete, DeleteView};
use crate::ast::eval::class_name;
use crate::ast::ident::IdentView;
use crate::ast::interpret::class_name_string;
use crate::ast::view::{ast_view, asts_view};
use crate::text::{concat, join, joined, strings_view};
use crate::types::display::value_text;
use crate::types::token::{OprType, UnaryOprType};

verus! {

/// The symbol of an operator.
pub open spec fn opr_text(op: OprType) -> Seq<char> {
    match op {
        OprType::Add => "+"@,
        OprType::Sub => "-"@,
        OprType::Mul => "*"@,
        OprType::Div => "/"@,
        OprType::Mod => "%"@,
        OprType::Eq => "=="@,
        OprType::Ne => "!="@,
        OprType::Lt => "<"@,
        OprType::Le => "<="@,
        OprType::Gt => ">"@,
        OprType::Ge => ">="@,
        OprType::Concat => ".."@,
        OprType::And => "&&"@,
        OprType::Or => "||"@,
        OprType::TypeCast => "@"@,
    }
}

/// The symbol of a unary operator.
pub open spec fn unary_text(op: UnaryOprType) -> Seq<char> {
    match op {
        UnaryOprType::Not => "!"@,
        UnaryOprType::UnPlus => "+"@,
        UnaryOprType::UnMinus => "-"@,
    }
}

pub open spec fn names_text(names: Seq<IdentView>) -> Seq<Seq<char>> {
    Seq::new(names.len(), |i: int| names[i].name)
}

pub open spec fn argument_names(args: Seq<ArgumentView>) -> Seq<Seq<char>> {
    Seq::new(args.len(), |i: int| args[i].name.name)
}

pub open spec fn reconstructed_seq(s: Seq<AstView>) -> Seq<Seq<char>>
    decreases s, 0int,
{
    Seq::new(s.len(), |i: int| if 0 <= i < s.len() { reconstructed(s[i]) } else { Seq::empty() })
}

/// A block written out: its statements between braces.
pub open spec fn block_text(b: BlockView) -> Seq<char>
    decreases b, 1int,
{
    "{ "@ + joined(reconstructed_seq(b.content), " ; "@) + " }"@
}

/// A binary operator written out, its symbol between angle brackets.
pub open spec fn binary_text(n: BinaryOprView) -> Seq<char>
    decreases n, 0int,
{
    reconstructed(*n.operand1) + " <"@ + opr_text(n.ty) + "> "@ + reconstructed(*n.operand2)
}

/// A deletion written out.
pub open spec fn delete_text(n: DeleteView) -> Seq<char> {
    "del "@ + joined(names_text(n.names), " , "@)
}

/// A class written out: its kind and its body.
pub open spec fn class_text(n: ClassView) -> Seq<char>
    decreases n, 2int,
{
    class_name(n.is_struct) + " "@ + match n.content {
        Some(b) => block_text(b),
        None => "{ }"@,
    }
}

/// The tree written out.
pub open spec fn reconstructed(a: AstView) -> Seq<char>
    decreases a, 3int,
{
    match a {
        AstView::Literal(n) => value_text(n.content),
        AstView::Ident(n) => n.name,
        AstView::BinaryOpr(n) => binary_text(n),
        AstView::Block(n) => block_text(n),
        AstView::Declare(n) => reconstructed(*n.variable) + " := "@ + reconstructed(*n.content),
        AstView::Assign(n) => reconstructed(*n.variable) + " = "@ + reconstructed(*n.content),
        AstView::Delete(n) => delete_text(n),
        AstView::Class(n) => class_text(n),
        AstView::Call(n) => reconstructed(*n.called) + "("@ + joined(
            reconstructed_seq(n.args),
            " , "@,
        ) + ")"@,
        AstView::Member(n) => reconstructed(*n.parent) + "."@ + n.name,
        AstView::Procedure(n) => (if n.is_fn {
            "fn |"@
        } else {
            "proc |"@
        }) + joined(argument_names(n.args), " , "@) + "| "@ + block_text(n.content),
        AstView::Return(n) => "ret "@ + reconstructed(*n.value),
        AstView::Defer(n) => "defer "@ + reconstructed(*n.content),
        AstView::UnaryOpr(n) => unary_text(n.ty) + reconstructed(*n.operand),
    }
}

impl OprType {
    /// The symbol of the operator.
    pub fn symbol(&self) -> (r: String)
        ensures
            r@ == opr_text(*self),
    {
        match self {
            OprType::Add => String::from_str("+"),
            OprType::Sub => String::from_str("-"),
            OprType::Mul => String::from_str("*"),
            OprType::Div => String::from_str("/"),
            OprType::Mod => String::from_str("%"),
            OprType::Eq => String::from_str("=="),
            OprType::Ne => String::from_str("!="),
            OprType::Lt => String::from_str("<"),
            OprType::Le => String::from_str("<="),
            OprType::Gt => String::from_str(">"),
            OprType::Ge => String::from_str(">="),
            OprType::Concat => String::from_str(".."),
            OprType::And => String::from_str("&&"),
            OprType::Or => String::from_str("||"),
            OprType::TypeCast => String::from_str("@"),
        }
    }
}

impl UnaryOprType {
    /// The symbol of the operator.
    pub fn symbol(&self) -> (r: String)
        ensures
            r@ == unary_text(*self),
    {
        match self {
            UnaryOprType::Not => String::from_str("!"),
            UnaryOprType::UnPlus => String::from_str("+"),
            UnaryOprType::UnMinus => String::from_str("-"),
        }
    }
}

/// `a`, `b` and `c` one after another.
fn concat3(a: &str, b: &str, c: &str) -> (r: String)
    ensures
        r@ == a@ + b@ + c@,
{
    concat(concat(a, b).as_str(), c)
}

#[verifier::loop_isolation(false)]
fn reconstruct_each(v: &Vec<Ast>) -> (r: Vec<String>)
    ensures
        strings_view(r@) == reconstructed_seq(asts_view(v@)),
    decreases v, 0int,
{
    let mut parts: Vec<String> = Vec::new();
    let mut i: usize = 0;
    while i < v.len()
        invariant
            i <= v.len(),
            parts@.len() == i,
            forall|j: int| 0 <= j < i ==> parts@[j]@ == reconstructed(ast_view(v@[j])),
        decreases v.len() - i,
    {
        parts.push(v[i].reconstruct());
        i += 1;
    }
    assert(strings_view(parts@) =~= reconstructed_seq(asts_view(v@)));
    parts
}

impl Block {
    /// The block written out: its statements between braces.
    pub fn reconstruct(&self) -> (r: String)
        ensures
            r@ == block_text(self@),
        decreases self, 1int,
    {
        let parts = reconstruct_each(&self.content);
        concat3("{ ", join(&parts, " ; ").as_str(), " }")
    }
}

impl BinaryOpr {
    /// The operator written out, with its symbol between angle brackets.
    pub fn reconstruct(&self) -> (r: String)
        ensures
            r@ == binary_text(self@),
        decreases self, 0int,
    {
        let left = self.operand1.reconstruct();
        let right = self.operand2.reconstruct();
        let opr = concat3(" <", self.ty.symbol().as_str(), "> ");
        let r = concat3(left.as_str(), opr.as_str(), right.as_str());
        assert(r@ =~= binary_text(self@));
        r
    }
}

impl Delete {
    /// The deletion written out.
    pub fn reconstruct(&self) -> (r: String)
        ensures
            r@ == delete_text(self@),
    {
        let ghost names = names_text(self@.names);
        let mut parts: Vec<String> = Vec::new();
        let mut i: usize = 0;
        while i < self.names.len()
            invariant
                i <= self.names.len(),
                parts@.len() == i,
                names == names_text(self@.names),
                forall|j: int| 0 <= j < i ==> parts@[j]@ == names[j],
            decreases self.names.len() - i,
        {
            assert(self@.names[i as int] == self.names@[i as int]@);
            parts.push(self.names[i].name.clone());
            i += 1;
        }
        assert(strings_view(parts@) =~= names);
        concat("del ", join(&parts, " , ").as_str())
    }
}

impl Class {
    /// The class written out: its kind and its body.
    pub fn reconstruct(&self) -> (r: String)
        ensures
            r@ == class_text(self@),
        decreases self, 2int,
    {
        let body = match &self.content {
            Some(b) => b.reconstruct(),
            None => String::from_str("{ }"),
        };
        let r = concat3(class_name_string(self.is_struct).as_str(), " ", body.as_str());
        assert(r@ =~= class_text(self@));
        r
    }
}

impl Call {
    /// The call written out.
    pub fn reconstruct_call(&self) -> (r: String)
        ensures
            r@ == reconstructed(AstView::Call(self@)),
        decreases self, 2int,
    {
        let parts = reconstruct_each(&self.args);
        let list = concat3("(", join(&parts, " , ").as_str(), ")");
        let r = concat(self.called.reconstruct().as_str(), list.as_str());
        assert(r@ =~= reconstructed(AstView::Call(self@)));
        r
    }
}

impl Ast {
    /// The tree written out as source-like text.
    pub fn reconstruct(&self) -> (r: String)
        ensures
            r@ == reconstructed(self@),
        decreases self, 3int,
    {
        match self {
            Ast::Literal(n) => n.content.to_string(),
            Ast::Ident(n) => n.name.clone(),
            Ast::BinaryOpr(n) => n.reconstruct(),
            Ast::Block(n) => n.reconstruct(),
            Ast::Declare(n) => concat3(
                n.variable.reconstruct().as_str(),
                " := ",
                n.content.reconstruct().as_str(),
            ),
            Ast::Assign(n) => concat3(
                n.variable.reconstruct().as_str(),
                " = ",
                n.content.reconstruct().as_str(),
            ),
            Ast::Delete(n) => n.reconstruct(),
            Ast::Class(n) => n.reconstruct(),
            Ast::Call(n) => n.reconstruct_call(),
            Ast::Member(n) => concat3(n.parent.reconstruct().as_str(), ".", n.name.as_str()),
            Ast::Procedure(n) => {
                let ghost names = crate::ast::reconstruct::argument_names(n@.args);
                let mut parts: Vec<String> = Vec::new();
                let mut i: usize = 0;
                while i < n.args.len()
                    invariant
                        i <= n.args.len(),
                        parts@.len() == i,
                        names == crate::ast::reconstruct::argument_names(n@.args),
                        forall|j: int| 0 <= j < i ==> parts@[j]@ == names[j],
                    decreases n.args.len() - i,
                {
                    assert(n@.args[i as int] == n.args@[i as int]@);
                    parts.push(n.args[i].name.name.clone());
                    i += 1;
                }
                assert(strings_view(parts@) =~= names);
                let head = concat3(
                    if n.is_fn { "fn |" } else { "proc |" },
                    join(&parts, " , ").as_str(),
                    "| ",
                );
                let r = concat(head.as_str(), n.content.reconstruct().as_str());
                assert(r@ =~= reconstructed(self@));
                r
            },
            Ast::Return(n) => concat("ret ", n.value.reconstruct().as_str()),
            Ast::Defer(n) => concat("defer ", n.content.reconstruct().as_str()),
            Ast::UnaryOpr(n) => concat(n.ty.symbol().as_str(), n.operand.reconstruct().as_str()),
        }
    }
}

} // verus!
