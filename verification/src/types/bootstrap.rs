//! The tables that a program starts with: a bottom frame of constants that
//! binds every built-in primitive type under its name, and an empty ordinary
//! frame on top of it for the program's own code.
use std::collections::VecDeque;
use vstd::prelude::*;
use vstd::string::StringExecFns;
use crate::ast::AstView;
use crate::ast::view::{asts_view, type_view, value_view};
use crate::primitives::{all_prims, prim_at, prim_name, prim_type};
use crate::types::name_map::NameMap;
use crate::types::sym_table::{empty_frame, Frame, FrameType, FrameView, SymTable};
use crate::types::typeobj::{Type, TypeView};
use crate::types::value::{Prim, Value, ValueView};

verus! {

/// The name of the wildcard type.
pub open spec fn any_name() -> Seq<char> {
    "_any"@
}

/// The values of the first `n` primitive types, under their names.
pub open spec fn prim_values_upto(n: int) -> Map<Seq<char>, ValueView>
    decreases n,
{
    if n <= 0 {
        Map::empty()
    } else {
        prim_values_upto(n - 1).insert(
            prim_name(all_prims()[n - 1]),
            ValueView::Type(prim_type(all_prims()[n - 1])),
        )
    }
}

/// The types of the first `n` primitive types as values: each is a type.
pub open spec fn prim_kinds_upto(n: int) -> Map<Seq<char>, TypeView>
    decreases n,
{
    if n <= 0 {
        Map::empty()
    } else {
        prim_kinds_upto(n - 1).insert(prim_name(all_prims()[n - 1]), prim_type(Prim::Type))
    }
}

/// The types that the names of the first `n` primitive types stand for.
pub open spec fn prim_typedefs_upto(n: int) -> Map<Seq<char>, TypeView>
    decreases n,
{
    if n <= 0 {
        Map::empty()
    } else {
        prim_typedefs_upto(n - 1).insert(
            prim_name(all_prims()[n - 1]),
            prim_type(all_prims()[n - 1]),
        )
    }
}

/// The names that a fresh table binds in its frame of constants.
pub open spec fn primitive_names() -> Set<Seq<char>> {
    set![
        "str"@,
        "bool"@,
        "i8"@,
        "i16"@,
        "i32"@,
        "i64"@,
        "i128"@,
        "isize"@,
        "ibig"@,
        "u8"@,
        "u16"@,
        "u32"@,
        "u64"@,
        "u128"@,
        "usize"@,
        "ubig"@,
        "f16"@,
        "f32"@,
        "f64"@,
        "_unit"@,
        "_any"@,
        "type"@,
    ]
}

/// The frame of constants of a fresh table binds the names of the
/// primitive types, and no other name.
pub proof fn lemma_bootstrap_names()
    ensures
        bootstrap_values()[1].heap.dom() == primitive_names(),
        bootstrap_types()[1].heap.dom() == primitive_names(),
        bootstrap_types()[1].typedefs.dom() == primitive_names(),
{
    reveal_with_fuel(prim_values_upto, 22);
    reveal_with_fuel(prim_kinds_upto, 22);
    reveal_with_fuel(prim_typedefs_upto, 22);
    assert(bootstrap_values()[1].heap.dom() =~= primitive_names());
    assert(bootstrap_types()[1].heap.dom() =~= primitive_names());
    assert(bootstrap_types()[1].typedefs.dom() =~= primitive_names());
}

/// The frames of a fresh table of values.
pub open spec fn bootstrap_values() -> Seq<FrameView<ValueView>> {
    seq![
        empty_frame(None, FrameType::Normal),
        FrameView {
            heap: prim_values_upto(all_prims().len() as int).insert(
                any_name(),
                ValueView::Type(TypeView::Any),
            ),
            defer: Seq::empty(),
            frame_data: None,
            typedefs: Map::empty(),
            ty: FrameType::Constants,
        },
    ]
}

/// The frames of a fresh table of types.
pub open spec fn bootstrap_types() -> Seq<FrameView<TypeView>> {
    seq![
        empty_frame(None, FrameType::Normal),
        FrameView {
            heap: prim_kinds_upto(all_prims().len() as int).insert(
                any_name(),
                prim_type(Prim::Type),
            ),
            defer: Seq::empty(),
            frame_data: None,
            typedefs: prim_typedefs_upto(all_prims().len() as int).insert(
                any_name(),
                TypeView::Any,
            ),
            ty: FrameType::Constants,
        },
    ]
}

impl Default for SymTable<Value> {
    /// A fresh table of values: a frame of constants that binds every
    /// primitive type under its name, and an empty ordinary frame on top.
    fn default() -> (r: Self)
        ensures
            r.wf(),
            r@ == bootstrap_values(),
            r@[1].heap.dom() == primitive_names(),
    {
        proof {
            lemma_bootstrap_names();
        }
        let mut heap: NameMap<Value> = NameMap::new();
        let mut i: usize = 0;
        while i < 21
            invariant
                i <= 21,
                all_prims().len() == 21,
                heap.wf(),
                heap@ == prim_values_upto(i as int),
            decreases 21 - i,
        {
            let p = prim_at(i);
            let v = Value::Type(p.ty());
            assert(v@ == ValueView::Type(prim_type(p))) by {
                reveal_with_fuel(value_view, 2);
            }
            heap.insert(p.name(), v);
            i += 1;
        }
        let any = Value::Type(Type::Any);
        assert(any@ == ValueView::Type(TypeView::Any)) by {
            reveal_with_fuel(value_view, 3);
        }
        heap.insert(String::from_str("_any"), any);
        let constants = Frame {
            heap,
            defer: Vec::new(),
            frame_data: None,
            typedefs: NameMap::new(),
            ty: FrameType::Constants,
        };
        assert(asts_view(constants.defer@) =~= Seq::<AstView>::empty());
        let mut table: SymTable<Value> = SymTable { frames: VecDeque::new() };
        table.frames.push_front(constants);
        assert(table.frames_wf());
        table.add_frame(None, FrameType::Normal);
        assert(table@ =~= bootstrap_values());
        table
    }
}

impl Default for SymTable<Type> {
    /// A fresh table of types: a frame of constants that binds every
    /// primitive type under its name, and an empty ordinary frame on top.
    fn default() -> (r: Self)
        ensures
            r.wf(),
            r@ == bootstrap_types(),
            r@[1].heap.dom() == primitive_names(),
            r@[1].typedefs.dom() == primitive_names(),
    {
        proof {
            lemma_bootstrap_names();
        }
        let mut heap: NameMap<Type> = NameMap::new();
        let mut typedefs: NameMap<Type> = NameMap::new();
        let mut i: usize = 0;
        while i < 21
            invariant
                i <= 21,
                all_prims().len() == 21,
                heap.wf(),
                typedefs.wf(),
                heap@ == prim_kinds_upto(i as int),
                typedefs@ == prim_typedefs_upto(i as int),
            decreases 21 - i,
        {
            let p = prim_at(i);
            heap.insert(p.name(), Prim::Type.ty());
            typedefs.insert(p.name(), p.ty());
            i += 1;
        }
        let any = Type::Any;
        assert(any@ == TypeView::Any) by {
            reveal_with_fuel(type_view, 2);
        }
        heap.insert(String::from_str("_any"), Prim::Type.ty());
        typedefs.insert(String::from_str("_any"), any);
        let constants = Frame {
            heap,
            defer: Vec::new(),
            frame_data: None,
            typedefs,
            ty: FrameType::Constants,
        };
        assert(asts_view(constants.defer@) =~= Seq::<AstView>::empty());
        let mut table: SymTable<Type> = SymTable { frames: VecDeque::new() };
        table.frames.push_front(constants);
        assert(table.frames_wf());
        table.add_frame(None, FrameType::Normal);
        assert(table@ =~= bootstrap_types());
        table
    }
}

} // verus!
