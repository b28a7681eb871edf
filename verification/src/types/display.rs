//! How types and values are written out.
//!
//! An instance is written as its name and, where it has type arguments, the
//! arguments in brackets: `Name[arg: val]`. A bracketed list that the name
//! already carries is stripped before the arguments are written, so that
//! writing out what was written out before gives the same text again.
use vstd::prelude::*;
use vstd::string::{StrSliceExecFns, StringExecFns};
use crate::ast::argument::ArgumentView;
use crate::ast::view::value_view;
use crate::primitives::{bool_text, type_of};
use crate::text::{concat, decimal_text, format_decimal, join, joined, strings_view};
use crate::types::name_map::NameMap;
use crate::types::sym_table::SymTable;
use crate::types::typeobj::{Type, TypeDefinition, TypeInstance, TypeInstanceView, TypeView};
use crate::types::value::{Proc, ProcView, Value, ValueView};

verus! {

/// The first position from `i` on at which an opening bracket stands, or
/// the length of the text.
pub open spec fn bracket_index(s: Seq<char>, i: int) -> int
    decreases s.len() - i,
{
    if i < 0 || i >= s.len() {
        s.len() as int
    } else if s[i] == '[' {
        i
    } else {
        bracket_index(s, i + 1)
    }
}

/// The text without the bracketed list that it ends with, if it has one.
pub open spec fn strip_brackets(s: Seq<char>) -> Seq<char> {
    s.subrange(0, bracket_index(s, 0))
}

/// The name, or a placeholder where there is none.
pub open spec fn name_text(name: Option<Seq<char>>) -> Seq<char> {
    match name {
        Some(n) => n,
        None => "{unknown}"@,
    }
}

/// The name of the `k`-th generic parameter, or a placeholder where the
/// definition declares none.
pub open spec fn generic_name(generics: Seq<ArgumentView>, k: int) -> Seq<char> {
    if 0 <= k < generics.len() {
        generics[k].name.name
    } else {
        "_"@
    }
}

/// The type arguments of an instance, each as `name: type`.
pub open spec fn argument_texts(i: TypeInstanceView) -> Seq<Seq<char>>
    decreases i, 0int,
{
    Seq::new(
        i.type_args.len(),
        |k: int|
            if 0 <= k < i.type_args.len() {
                generic_name(i.implementation.generics, k) + ": "@ + type_text(i.type_args[k])
            } else {
                Seq::empty()
            },
    )
}

/// The bracketed list of the type arguments, or nothing where there are none.
pub open spec fn bracketed(parts: Seq<Seq<char>>) -> Seq<char> {
    if parts.len() == 0 {
        Seq::empty()
    } else {
        "["@ + joined(parts, ", "@) + "]"@
    }
}

/// An instance written out.
pub open spec fn instance_text(i: TypeInstanceView) -> Seq<char>
    decreases i, 1int,
{
    strip_brackets(name_text(i.name)) + bracketed(argument_texts(i))
}

/// A type written out.
pub open spec fn type_text(t: TypeView) -> Seq<char>
    decreases t, 2int,
{
    match t {
        TypeView::Instance(i) => instance_text(i),
        TypeView::Definition(d) => name_text(d.name),
        TypeView::Any => "_any"@,
        TypeView::Return(t) => type_text(*t),
    }
}

/// A value written out.
pub open spec fn value_text(v: ValueView) -> Seq<char>
    decreases v,
{
    match v {
        ValueView::Int(_, n) => decimal_text(n),
        ValueView::Bool(b) => bool_text(b),
        ValueView::Str(s) => s,
        ValueView::Type(t) => type_text(t),
        ValueView::Proc(ProcView::Builtin(_)) => "<builtin>"@,
        ValueView::Proc(ProcView::Defined(d)) => if d.is_fn {
            "<fn>"@
        } else {
            "<proc>"@
        },
        ValueView::Unit => "()"@,
        ValueView::Return(v) => value_text(*v),
    }
}

pub proof fn lemma_bracket_index_bounds(s: Seq<char>, i: int)
    requires
        0 <= i <= s.len(),
    ensures
        i <= bracket_index(s, i) <= s.len(),
        forall|j: int| i <= j < bracket_index(s, i) ==> s[j] != '[',
        bracket_index(s, i) < s.len() ==> s[bracket_index(s, i)] == '[',
    decreases s.len() - i,
{
    if i < s.len() && s[i] != '[' {
        lemma_bracket_index_bounds(s, i + 1);
    }
}

pub proof fn lemma_bracket_index_found(s: Seq<char>, i: int, k: int)
    requires
        0 <= i <= k < s.len(),
        s[k] == '[',
        forall|j: int| i <= j < k ==> s[j] != '[',
    ensures
        bracket_index(s, i) == k,
    decreases k - i,
{
    if i < k {
        lemma_bracket_index_found(s, i + 1, k);
    }
}

/// Stripping and reapplying the bracketed list is stable: a name that
/// already carries a bracketed list is written out like the bare name.
pub proof fn lemma_strip_brackets_stable(name: Seq<char>, list: Seq<char>)
    requires
        list.len() > 0,
        list[0] == '[',
    ensures
        strip_brackets(strip_brackets(name) + list) == strip_brackets(name),
        strip_brackets(strip_brackets(name)) == strip_brackets(name),
{
    lemma_bracket_index_bounds(name, 0);
    let bare = strip_brackets(name);
    let k = bare.len() as int;
    lemma_bracket_index_found(bare + list, 0, k);
    assert((bare + list).subrange(0, k) =~= bare);
    lemma_bracket_index_bounds(bare, 0);
    assert(bare.subrange(0, bracket_index(bare, 0)) =~= bare);
}

/// Writing out an instance under the text that it was written out as
/// before gives that text again.
pub proof fn lemma_instance_text_round_trip(i: TypeInstanceView)
    ensures
        instance_text(TypeInstanceView { name: Some(instance_text(i)), ..i }) == instance_text(i),
{
    let again = TypeInstanceView { name: Some(instance_text(i)), ..i };
    assert(argument_texts(again) =~= argument_texts(i));
    let list = bracketed(argument_texts(i));
    if argument_texts(i).len() == 0 {
        lemma_strip_brackets_stable(name_text(i.name), seq!['[']);
        assert(instance_text(i) =~= strip_brackets(name_text(i.name)));
    } else {
        reveal_strlit("[");
        assert(list[0] == '[');
        lemma_strip_brackets_stable(name_text(i.name), list);
    }
}

/// The text without the bracketed list that it ends with, if it has one.
pub fn without_brackets(s: &str) -> (r: String)
    ensures
        r@ == strip_brackets(s@),
{
    let n = s.unicode_len();
    let mut i: usize = 0;
    while i < n
        invariant
            i <= n,
            n == s@.len(),
            bracket_index(s@, i as int) == bracket_index(s@, 0),
        decreases n - i,
    {
        if s.get_char(i) == '[' {
            return String::from_str(s.substring_char(0, i));
        }
        i += 1;
    }
    String::from_str(s.substring_char(0, n))
}

/// The name, or a placeholder where there is none.
pub fn name_string(name: &Option<String>) -> (r: String)
    ensures
        r@ == name_text(crate::ast::view::opt_str_view(*name)),
{
    match name {
        Some(n) => n.clone(),
        None => String::from_str("{unknown}"),
    }
}

fn bracket(parts: &Vec<String>) -> (r: String)
    ensures
        r@ == bracketed(strings_view(parts@)),
{
    if parts.len() == 0 {
        String::new()
    } else {
        let inner = join(parts, ", ");
        concat(concat("[", inner.as_str()).as_str(), "]")
    }
}

impl TypeDefinition {
    /// The definition written out: its name.
    pub fn to_string(&self) -> (r: String)
        ensures
            r@ == name_text(self@.name),
    {
        name_string(&self.name)
    }
}

impl TypeInstance {
    /// The instance written out: its name without any bracketed list that
    /// it carries, and its type arguments in brackets.
    #[verifier::loop_isolation(false)]
    pub fn to_string(&self) -> (r: String)
        ensures
            r@ == instance_text(self@),
        decreases self, 1int,
    {
        let ghost texts = argument_texts(self@);
        let mut parts: Vec<String> = Vec::new();
        let mut k: usize = 0;
        while k < self.type_args.len()
            invariant
                k <= self.type_args.len(),
                parts@.len() == k,
                forall|j: int| 0 <= j < k ==> parts@[j]@ == texts[j],
            decreases self.type_args.len() - k,
        {
            let name = if k < self.implementation.generics.len() {
                assert(self@.implementation.generics[k as int]
                    == self.implementation.generics@[k as int]@);
                self.implementation.generics[k].name.name.clone()
            } else {
                String::from_str("_")
            };
            assert(self@.type_args[k as int] == self.type_args@[k as int]@);
            let written = self.type_args[k].to_string();
            parts.push(concat(concat(name.as_str(), ": ").as_str(), written.as_str()));
            k += 1;
        }
        assert(strings_view(parts@) =~= texts);
        let bare = without_brackets(name_string(&self.name).as_str());
        concat(bare.as_str(), bracket(&parts).as_str())
    }
}

impl Type {
    /// The type written out.
    pub fn to_string(&self) -> (r: String)
        ensures
            r@ == type_text(self@),
        decreases self, 2int,
    {
        match self {
            Type::Instance(i) => i.to_string(),
            Type::Definition(d) => d.to_string(),
            Type::Any => String::from_str("_any"),
            Type::Return(t) => t.to_string(),
        }
    }
}

impl Value {
    /// The value written out.
    pub fn to_string(&self) -> (r: String)
        ensures
            r@ == value_text(self@),
        decreases self,
    {
        proof {
            reveal_with_fuel(value_view, 3);
        }
        match self {
            Value::Int(_, n) => format_decimal(*n),
            Value::Bool(b) => if *b {
                String::from_str("true")
            } else {
                String::from_str("false")
            },
            Value::Str(s) => s.clone(),
            Value::Type(t) => t.to_string(),
            Value::Proc(Proc::Builtin(_)) => String::from_str("<builtin>"),
            Value::Proc(Proc::Defined(d)) => if d.is_fn {
                String::from_str("<fn>")
            } else {
                String::from_str("<proc>")
            },
            Value::Unit => String::from_str("()"),
            Value::Return(v) => v.to_string(),
        }
    }
}

/// One binding written out as `name: type = value`.
pub open spec fn binding_text(name: Seq<char>, v: ValueView) -> Seq<char> {
    name + ": "@ + type_text(type_of(v)) + " = "@ + value_text(v)
}

/// The bindings of one frame, one line each, in the order in which the
/// frame holds them.
pub open spec fn frame_text(entries: Seq<(String, Value)>) -> Seq<char> {
    joined(Seq::new(entries.len(), |i: int| binding_text(entries[i].0@, entries[i].1@)), "\n"@)
}

/// The bindings of every frame, innermost first, with a rule between frames.
pub open spec fn heap_text(table: SymTable<Value>) -> Seq<char> {
    joined(
        Seq::new(table.frames@.len(), |i: int| frame_text(table.frames@[i].heap.entries@)),
        "\n-------\n"@,
    )
}

fn frame_string(heap: &NameMap<Value>) -> (r: String)
    ensures
        r@ == frame_text(heap.entries@),
{
    let ghost lines = Seq::new(
        heap.entries@.len(),
        |i: int| binding_text(heap.entries@[i].0@, heap.entries@[i].1@),
    );
    let mut parts: Vec<String> = Vec::new();
    let mut i: usize = 0;
    while i < heap.entries.len()
        invariant
            i <= heap.entries.len(),
            parts@.len() == i,
            lines == Seq::new(
                heap.entries@.len(),
                |i: int| binding_text(heap.entries@[i].0@, heap.entries@[i].1@),
            ),
            forall|j: int| 0 <= j < i ==> parts@[j]@ == lines[j],
        decreases heap.entries.len() - i,
    {
        let name = &heap.entries[i].0;
        let v = &heap.entries[i].1;
        let ty = v.ty().to_string();
        let written = v.to_string();
        let line = concat(
            concat(
                concat(concat(name.as_str(), ": ").as_str(), ty.as_str()).as_str(),
                " = ",
            ).as_str(),
            written.as_str(),
        );
        parts.push(line);
        i += 1;
    }
    assert(strings_view(parts@) =~= lines);
    join(&parts, "\n")
}

impl SymTable<Value> {
    /// Every binding of the table as `name: type = value`, one line each,
    /// frame by frame from the innermost, with a rule between frames.
    pub fn heap_to_string(&self) -> (r: String)
        ensures
            r@ == heap_text(*self),
    {
        let ghost blocks = Seq::new(
            self.frames@.len(),
            |i: int| frame_text(self.frames@[i].heap.entries@),
        );
        let mut parts: Vec<String> = Vec::new();
        let mut i: usize = 0;
        while i < self.frames.len()
            invariant
                i <= self.frames.len(),
                parts@.len() == i,
                blocks == Seq::new(
                    self.frames@.len(),
                    |i: int| frame_text(self.frames@[i].heap.entries@),
                ),
                forall|j: int| 0 <= j < i ==> parts@[j]@ == blocks[j],
            decreases self.frames.len() - i,
        {
            parts.push(frame_string(&self.frames[i].heap));
            i += 1;
        }
        assert(strings_view(parts@) =~= blocks);
        join(&parts, "\n-------\n")
    }
}

} // verus!
