//! The members and the fields of a type definition, kept as lists in the
//! order of their names. No name occurs twice: what is put under a name
//! that is there already takes the place of what was there. Two lists that
//! hold the same entries are therefore the same list, in whatever order the
//! entries were put.
use vstd::prelude::*;
use crate::ast::{Ast, AstView};
use crate::ast::view::{fields_view, named_asts_view};
use crate::types::typeobj::{Field, FieldView, TypeDefinitionView};

verus! {

/// Whether `a` stands before `b`, given that the two agree before `i`: at
/// the first place where they differ `a` has the smaller character, or `a`
/// ends there and `b` goes on.
pub open spec fn before_from(a: Seq<char>, b: Seq<char>, i: int) -> bool
    decreases a.len() - i,
{
    if i < 0 || i >= b.len() {
        false
    } else if i >= a.len() {
        true
    } else if a[i] != b[i] {
        (a[i] as int) < (b[i] as int)
    } else {
        before_from(a, b, i + 1)
    }
}

/// The order of names: that of the dictionary, by the characters' numbers.
pub open spec fn name_before(a: Seq<char>, b: Seq<char>) -> bool {
    before_from(a, b, 0)
}

/// The first position from `i` on at which a member named `name` stands.
pub open spec fn member_index(members: Seq<(Seq<char>, AstView)>, name: Seq<char>, i: int) -> Option<
    int,
>
    decreases members.len() - i,
{
    if i < 0 || i >= members.len() {
        None
    } else if members[i].0 == name {
        Some(i)
    } else {
        member_index(members, name, i + 1)
    }
}

/// The first position from `i` on whose member does not stand before
/// `name`; the length of the list where there is none.
pub open spec fn member_slot(members: Seq<(Seq<char>, AstView)>, name: Seq<char>, i: int) -> int
    decreases members.len() - i,
{
    if i < 0 || i >= members.len() {
        members.len() as int
    } else if name_before(members[i].0, name) {
        member_slot(members, name, i + 1)
    } else {
        i
    }
}

/// The members with `a` under `name`: in the place of the member of that
/// name where there is one, and else before the first member that does not
/// stand before `name`.
pub open spec fn with_member(members: Seq<(Seq<char>, AstView)>, name: Seq<char>, a: AstView) -> Seq<
    (Seq<char>, AstView),
> {
    match member_index(members, name, 0) {
        Some(i) => members.update(i, (name, a)),
        None => members.insert(member_slot(members, name, 0), (name, a)),
    }
}

/// The members stand in the order of their names, each before all that
/// follow it.
pub open spec fn ordered_members(members: Seq<(Seq<char>, AstView)>) -> bool {
    forall|i: int, j: int|
        0 <= i < j < members.len() ==> name_before(
            (#[trigger] members[i]).0,
            (#[trigger] members[j]).0,
        )
}

/// The first position from `i` on at which a field named `name` stands.
pub open spec fn field_index(fields: Seq<FieldView>, name: Seq<char>, i: int) -> Option<int>
    decreases fields.len() - i,
{
    if i < 0 || i >= fields.len() {
        None
    } else if fields[i].name == name {
        Some(i)
    } else {
        field_index(fields, name, i + 1)
    }
}

/// The first position from `i` on whose field does not stand before `name`;
/// the length of the list where there is none.
pub open spec fn field_slot(fields: Seq<FieldView>, name: Seq<char>, i: int) -> int
    decreases fields.len() - i,
{
    if i < 0 || i >= fields.len() {
        fields.len() as int
    } else if name_before(fields[i].name, name) {
        field_slot(fields, name, i + 1)
    } else {
        i
    }
}

/// The fields with `f`: in the place of the field of that name where there
/// is one, and else before the first field that does not stand before it.
pub open spec fn with_field(fields: Seq<FieldView>, f: FieldView) -> Seq<FieldView> {
    match field_index(fields, f.name, 0) {
        Some(i) => fields.update(i, f),
        None => fields.insert(field_slot(fields, f.name, 0), f),
    }
}

/// The fields stand in the order of their names, each before all that
/// follow it.
pub open spec fn ordered_fields(fields: Seq<FieldView>) -> bool {
    forall|i: int, j: int|
        0 <= i < j < fields.len() ==> name_before(
            (#[trigger] fields[i]).name,
            (#[trigger] fields[j]).name,
        )
}

/// The members `list[i..]` put one after the other into `acc`.
pub open spec fn members_of(
    list: Seq<(Seq<char>, AstView)>,
    i: int,
    acc: Seq<(Seq<char>, AstView)>,
) -> Seq<(Seq<char>, AstView)>
    decreases list.len() - i,
{
    if i < 0 || i >= list.len() {
        acc
    } else {
        members_of(list, i + 1, with_member(acc, list[i].0, list[i].1))
    }
}

impl TypeDefinitionView {
    /// The members and the fields stand in the order of their names, so
    /// that no member name and no field name occurs twice.
    pub open spec fn wf(self) -> bool {
        ordered_members(self.implementations) && ordered_fields(self.inst_fields)
    }
}

/// No name stands before itself.
pub proof fn lemma_before_irreflexive(a: Seq<char>, i: int)
    requires
        0 <= i,
    ensures
        !before_from(a, a, i),
    decreases a.len() - i,
{
    if i < a.len() {
        lemma_before_irreflexive(a, i + 1);
    }
}

/// What stands before a name stands before all that the name stands before.
pub proof fn lemma_before_transitive(a: Seq<char>, b: Seq<char>, c: Seq<char>, i: int)
    requires
        0 <= i,
        before_from(a, b, i),
        before_from(b, c, i),
    ensures
        before_from(a, c, i),
    decreases a.len() - i,
{
    if i < a.len() && a[i] == b[i] && b[i] == c[i] {
        lemma_before_transitive(a, b, c, i + 1);
    }
}

/// Of two names that differ, one stands before the other.
pub proof fn lemma_before_total(a: Seq<char>, b: Seq<char>, i: int)
    requires
        0 <= i <= a.len(),
        i <= b.len(),
        a != b,
        forall|k: int| 0 <= k < i ==> a[k] == b[k],
    ensures
        before_from(a, b, i) || before_from(b, a, i),
    decreases a.len() - i,
{
    if i < a.len() && i < b.len() {
        if a[i] == b[i] {
            lemma_before_total(a, b, i + 1);
        }
    } else if i == a.len() && i == b.len() {
        assert(a =~= b);
    }
}

/// In an ordered list no name occurs twice.
pub proof fn lemma_ordered_members_differ(members: Seq<(Seq<char>, AstView)>, i: int, j: int)
    requires
        ordered_members(members),
        0 <= i < j < members.len(),
    ensures
        members[i].0 != members[j].0,
{
    lemma_before_irreflexive(members[i].0, 0);
}

/// In an ordered list no name occurs twice.
pub proof fn lemma_ordered_fields_differ(fields: Seq<FieldView>, i: int, j: int)
    requires
        ordered_fields(fields),
        0 <= i < j < fields.len(),
    ensures
        fields[i].name != fields[j].name,
{
    lemma_before_irreflexive(fields[i].name, 0);
}

proof fn lemma_member_index(members: Seq<(Seq<char>, AstView)>, name: Seq<char>, i: int)
    requires
        0 <= i,
    ensures
        match member_index(members, name, i) {
            Some(k) => i <= k < members.len() && members[k].0 == name,
            None => forall|j: int| i <= j < members.len() ==> (#[trigger] members[j]).0 != name,
        },
    decreases members.len() - i,
{
    if i < members.len() && members[i].0 != name {
        lemma_member_index(members, name, i + 1);
    }
}

proof fn lemma_member_slot(members: Seq<(Seq<char>, AstView)>, name: Seq<char>, i: int)
    requires
        0 <= i <= members.len(),
    ensures
        i <= member_slot(members, name, i) <= members.len(),
        forall|j: int|
            i <= j < member_slot(members, name, i) ==> name_before(
                (#[trigger] members[j]).0,
                name,
            ),
        member_slot(members, name, i) < members.len() ==> !name_before(
            members[member_slot(members, name, i)].0,
            name,
        ),
    decreases members.len() - i,
{
    if i < members.len() && name_before(members[i].0, name) {
        lemma_member_slot(members, name, i + 1);
    }
}

proof fn lemma_field_index(fields: Seq<FieldView>, name: Seq<char>, i: int)
    requires
        0 <= i,
    ensures
        match field_index(fields, name, i) {
            Some(k) => i <= k < fields.len() && fields[k].name == name,
            None => forall|j: int| i <= j < fields.len() ==> (#[trigger] fields[j]).name != name,
        },
    decreases fields.len() - i,
{
    if i < fields.len() && fields[i].name != name {
        lemma_field_index(fields, name, i + 1);
    }
}

proof fn lemma_field_slot(fields: Seq<FieldView>, name: Seq<char>, i: int)
    requires
        0 <= i <= fields.len(),
    ensures
        i <= field_slot(fields, name, i) <= fields.len(),
        forall|j: int|
            i <= j < field_slot(fields, name, i) ==> name_before(
                (#[trigger] fields[j]).name,
                name,
            ),
        field_slot(fields, name, i) < fields.len() ==> !name_before(
            fields[field_slot(fields, name, i)].name,
            name,
        ),
    decreases fields.len() - i,
{
    if i < fields.len() && name_before(fields[i].name, name) {
        lemma_field_slot(fields, name, i + 1);
    }
}

/// Putting a member keeps the list in the order of its names.
pub proof fn lemma_with_member_ordered(
    members: Seq<(Seq<char>, AstView)>,
    name: Seq<char>,
    a: AstView,
)
    requires
        ordered_members(members),
    ensures
        ordered_members(with_member(members, name, a)),
{
    lemma_member_index(members, name, 0);
    if member_index(members, name, 0) is None {
        let p = member_slot(members, name, 0);
        let r = members.insert(p, (name, a));
        lemma_member_slot(members, name, 0);
        if p < members.len() {
            lemma_before_total(members[p].0, name, 0);
        }
        assert forall|i: int, j: int| 0 <= i < j < r.len() implies name_before(
            (#[trigger] r[i]).0,
            (#[trigger] r[j]).0,
        ) by {
            let i0 = if i < p {
                i
            } else {
                i - 1
            };
            let j0 = if j < p {
                j
            } else {
                j - 1
            };
            assert(i == p || r[i] == members[i0]);
            assert(j == p || r[j] == members[j0]);
            if i == p && j0 > p {
                lemma_before_transitive(name, members[p].0, members[j0].0, 0);
            }
        }
    }
}

/// Putting a field keeps the list in the order of its names.
pub proof fn lemma_with_field_ordered(fields: Seq<FieldView>, f: FieldView)
    requires
        ordered_fields(fields),
    ensures
        ordered_fields(with_field(fields, f)),
{
    lemma_field_index(fields, f.name, 0);
    if field_index(fields, f.name, 0) is None {
        let p = field_slot(fields, f.name, 0);
        let r = fields.insert(p, f);
        lemma_field_slot(fields, f.name, 0);
        if p < fields.len() {
            lemma_before_total(fields[p].name, f.name, 0);
        }
        assert forall|i: int, j: int| 0 <= i < j < r.len() implies name_before(
            (#[trigger] r[i]).name,
            (#[trigger] r[j]).name,
        ) by {
            let i0 = if i < p {
                i
            } else {
                i - 1
            };
            let j0 = if j < p {
                j
            } else {
                j - 1
            };
            assert(i == p || r[i] == fields[i0]);
            assert(j == p || r[j] == fields[j0]);
            if i == p && j0 > p {
                lemma_before_transitive(f.name, fields[p].name, fields[j0].name, 0);
            }
        }
    }
}

/// Putting a list of members one after the other keeps the order of names.
pub proof fn lemma_members_of_ordered(
    list: Seq<(Seq<char>, AstView)>,
    i: int,
    acc: Seq<(Seq<char>, AstView)>,
)
    requires
        ordered_members(acc),
    ensures
        ordered_members(members_of(list, i, acc)),
    decreases list.len() - i,
{
    if 0 <= i < list.len() {
        lemma_with_member_ordered(acc, list[i].0, list[i].1);
        lemma_members_of_ordered(list, i + 1, with_member(acc, list[i].0, list[i].1));
    }
}

/// Two ordered lists that hold the same members are the same list: the
/// order in which the members were put leaves no trace.
pub proof fn lemma_same_members_same_list(
    a: Seq<(Seq<char>, AstView)>,
    b: Seq<(Seq<char>, AstView)>,
)
    requires
        ordered_members(a),
        ordered_members(b),
        forall|i: int| 0 <= i < a.len() ==> b.contains(#[trigger] a[i]),
        forall|j: int| 0 <= j < b.len() ==> a.contains(#[trigger] b[j]),
    ensures
        a == b,
    decreases a.len(),
{
    if a.len() == 0 {
        if b.len() > 0 {
            assert(a.contains(b[0]));
        }
        assert(a =~= b);
    } else {
        let x = a.last();
        assert(b.contains(a[a.len() - 1]));
        let k = choose|k: int| 0 <= k < b.len() && b[k] == x;
        let y = b.last();
        assert(a.contains(b[b.len() - 1]));
        let m = choose|m: int| 0 <= m < a.len() && a[m] == y;
        lemma_before_irreflexive(x.0, 0);
        if k < b.len() - 1 {
            if m < a.len() - 1 {
                lemma_before_transitive(x.0, y.0, x.0, 0);
            }
        }
        assert(y == x);
        let a1 = a.drop_last();
        let b1 = b.drop_last();
        assert forall|i: int| 0 <= i < a1.len() implies b1.contains(#[trigger] a1[i]) by {
            assert(b.contains(a[i]));
            let j = choose|j: int| 0 <= j < b.len() && b[j] == a[i];
            lemma_before_irreflexive(a[i].0, 0);
            assert(j < b.len() - 1);
            assert(b1[j] == a1[i]);
        }
        assert forall|j: int| 0 <= j < b1.len() implies a1.contains(#[trigger] b1[j]) by {
            assert(a.contains(b[j]));
            let i = choose|i: int| 0 <= i < a.len() && a[i] == b[j];
            lemma_before_irreflexive(b[j].0, 0);
            assert(i < a.len() - 1);
            assert(a1[i] == b1[j]);
        }
        lemma_same_members_same_list(a1, b1);
        assert(a =~= a1.push(x));
        assert(b =~= b1.push(y));
    }
}

/// Two ordered lists that hold the same fields are the same list.
pub proof fn lemma_same_fields_same_list(a: Seq<FieldView>, b: Seq<FieldView>)
    requires
        ordered_fields(a),
        ordered_fields(b),
        forall|i: int| 0 <= i < a.len() ==> b.contains(#[trigger] a[i]),
        forall|j: int| 0 <= j < b.len() ==> a.contains(#[trigger] b[j]),
    ensures
        a == b,
    decreases a.len(),
{
    if a.len() == 0 {
        if b.len() > 0 {
            assert(a.contains(b[0]));
        }
        assert(a =~= b);
    } else {
        let x = a.last();
        assert(b.contains(a[a.len() - 1]));
        let k = choose|k: int| 0 <= k < b.len() && b[k] == x;
        let y = b.last();
        assert(a.contains(b[b.len() - 1]));
        let m = choose|m: int| 0 <= m < a.len() && a[m] == y;
        lemma_before_irreflexive(x.name, 0);
        if k < b.len() - 1 {
            if m < a.len() - 1 {
                lemma_before_transitive(x.name, y.name, x.name, 0);
            }
        }
        assert(y == x);
        let a1 = a.drop_last();
        let b1 = b.drop_last();
        assert forall|i: int| 0 <= i < a1.len() implies b1.contains(#[trigger] a1[i]) by {
            assert(b.contains(a[i]));
            let j = choose|j: int| 0 <= j < b.len() && b[j] == a[i];
            lemma_before_irreflexive(a[i].name, 0);
            assert(j < b.len() - 1);
            assert(b1[j] == a1[i]);
        }
        assert forall|j: int| 0 <= j < b1.len() implies a1.contains(#[trigger] b1[j]) by {
            assert(a.contains(b[j]));
            let i = choose|i: int| 0 <= i < a.len() && a[i] == b[j];
            lemma_before_irreflexive(b[j].name, 0);
            assert(i < a.len() - 1);
            assert(a1[i] == b1[j]);
        }
        lemma_same_fields_same_list(a1, b1);
        assert(a =~= a1.push(x));
        assert(b =~= b1.push(y));
    }
}

/// Two definitions that agree but for the order in which their members and
/// fields were put are the same definition.
pub proof fn lemma_same_entries_same_definition(a: TypeDefinitionView, b: TypeDefinitionView)
    requires
        a.wf(),
        b.wf(),
        b == (TypeDefinitionView {
            implementations: b.implementations,
            inst_fields: b.inst_fields,
            ..a
        }),
        forall|i: int|
            0 <= i < a.implementations.len() ==> b.implementations.contains(
                #[trigger] a.implementations[i],
            ),
        forall|j: int|
            0 <= j < b.implementations.len() ==> a.implementations.contains(
                #[trigger] b.implementations[j],
            ),
        forall|i: int|
            0 <= i < a.inst_fields.len() ==> b.inst_fields.contains(#[trigger] a.inst_fields[i]),
        forall|j: int|
            0 <= j < b.inst_fields.len() ==> a.inst_fields.contains(#[trigger] b.inst_fields[j]),
    ensures
        a == b,
{
    lemma_same_members_same_list(a.implementations, b.implementations);
    lemma_same_fields_same_list(a.inst_fields, b.inst_fields);
}

/// Whether the name `a` stands before the name `b`.
pub fn before(a: &String, b: &String) -> (r: bool)
    ensures
        r == name_before(a@, b@),
{
    let la = a.as_str().unicode_len();
    let lb = b.as_str().unicode_len();
    let mut i: usize = 0;
    while i < la && i < lb
        invariant
            la == a@.len(),
            lb == b@.len(),
            i <= la,
            i <= lb,
            before_from(a@, b@, i as int) == name_before(a@, b@),
        decreases la - i,
    {
        let ca = a.as_str().get_char(i);
        let cb = b.as_str().get_char(i);
        if ca != cb {
            return (ca as u32) < (cb as u32);
        }
        i += 1;
    }
    i < lb
}

/// Puts `node` under `name`: in the place of the member of that name where
/// there is one, and else where the order of names has it.
pub fn put_member(members: &mut Vec<(String, Ast)>, name: String, node: Ast)
    ensures
        named_asts_view(final(members)@) == with_member(
            named_asts_view(old(members)@),
            name@,
            node@,
        ),
{
    let ghost views = named_asts_view(members@);
    let mut i: usize = 0;
    while i < members.len()
        invariant
            i <= members.len(),
            *members == *old(members),
            views == named_asts_view(members@),
            member_index(views, name@, i as int) == member_index(views, name@, 0),
        decreases members.len() - i,
    {
        if members[i].0 == name {
            members.set(i, (name, node));
            assert(named_asts_view(members@) =~= views.update(i as int, (name@, node@)));
            return ;
        }
        i += 1;
    }
    let mut p: usize = 0;
    while p < members.len() && before(&members[p].0, &name)
        invariant
            p <= members.len(),
            *members == *old(members),
            views == named_asts_view(members@),
            member_slot(views, name@, p as int) == member_slot(views, name@, 0),
        decreases members.len() - p,
    {
        p += 1;
    }
    members.insert(p, (name, node));
    proof {
        views.insert_ensures(p as int, (name@, node@));
        old(members)@.insert_ensures(p as int, (name, node));
    }
    assert(named_asts_view(members@) =~= views.insert(p as int, (name@, node@)));
}

/// Puts `field`: in the place of the field of that name where there is one,
/// and else where the order of names has it.
pub fn put_field(fields: &mut Vec<Field>, field: Field)
    ensures
        fields_view(final(fields)@) == with_field(fields_view(old(fields)@), field@),
{
    let ghost views = fields_view(fields@);
    let mut i: usize = 0;
    while i < fields.len()
        invariant
            i <= fields.len(),
            *fields == *old(fields),
            views == fields_view(fields@),
            field_index(views, field@.name, i as int) == field_index(views, field@.name, 0),
        decreases fields.len() - i,
    {
        assert(views[i as int] == fields@[i as int]@);
        if fields[i].name == field.name {
            fields.set(i, field);
            assert(fields_view(fields@) =~= views.update(i as int, field@));
            return ;
        }
        i += 1;
    }
    let mut p: usize = 0;
    while p < fields.len() && before(&fields[p].name, &field.name)
        invariant
            p <= fields.len(),
            *fields == *old(fields),
            views == fields_view(fields@),
            field_slot(views, field@.name, p as int) == field_slot(views, field@.name, 0),
        decreases fields.len() - p,
    {
        assert(views[p as int] == fields@[p as int]@);
        p += 1;
    }
    let ghost f = field@;
    fields.insert(p, field);
    proof {
        views.insert_ensures(p as int, f);
        old(fields)@.insert_ensures(p as int, field);
    }
    assert(fields_view(fields@) =~= views.insert(p as int, f));
}

/// The members of `list` put one after the other into an empty namespace.
pub fn collect_members(list: &Vec<(String, Ast)>) -> (r: Vec<(String, Ast)>)
    ensures
        named_asts_view(r@) == members_of(named_asts_view(list@), 0, Seq::empty()),
{
    let ghost views = named_asts_view(list@);
    let mut out: Vec<(String, Ast)> = Vec::new();
    assert(named_asts_view(out@) =~= Seq::empty());
    let mut i: usize = 0;
    while i < list.len()
        invariant
            i <= list.len(),
            views == named_asts_view(list@),
            members_of(views, i as int, named_asts_view(out@)) == members_of(views, 0, Seq::empty()),
        decreases list.len() - i,
    {
        put_member(&mut out, list[i].0.clone(), list[i].1.duplicate());
        i += 1;
    }
    out
}

} // verus!
