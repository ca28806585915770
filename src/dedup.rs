//! The type deduplication table: the distinct type expressions of the tracked
//! fields, in first-seen order, compared by their text only.

use vstd::prelude::*;
use crate::shape::{ParsedField, VariantModel};
use crate::text::strs;

verus! {

/// The type expressions of the fields that are not ignored, in field order.
pub open spec fn tracked_types(fs: Seq<ParsedField>) -> Seq<Seq<char>>
    decreases fs.len(),
{
    if fs.len() == 0 {
        Seq::empty()
    } else if fs.last().ignored {
        tracked_types(fs.drop_last())
    } else {
        tracked_types(fs.drop_last()).push(fs.last().ty@)
    }
}

/// Table `t` after scanning `s`: each expression not yet present is appended.
pub open spec fn extend(t: Seq<Seq<char>>, s: Seq<Seq<char>>) -> Seq<Seq<char>>
    decreases s.len(),
{
    if s.len() == 0 {
        t
    } else if extend(t, s.drop_last()).contains(s.last()) {
        extend(t, s.drop_last())
    } else {
        extend(t, s.drop_last()).push(s.last())
    }
}

/// The deduplication table of a record's fields.
pub open spec fn struct_table(fs: Seq<ParsedField>) -> Seq<Seq<char>> {
    extend(Seq::empty(), tracked_types(fs))
}

/// The one deduplication table shared by all variants of a tagged union.
pub open spec fn enum_table(vs: Seq<VariantModel>) -> Seq<Seq<char>>
    decreases vs.len(),
{
    if vs.len() == 0 {
        Seq::empty()
    } else {
        extend(enum_table(vs.drop_last()), tracked_types(vs.last().fields))
    }
}

/// No expression occurs twice in `t`.
pub open spec fn distinct(t: Seq<Seq<char>>) -> bool {
    forall|i: int, j: int| 0 <= i < j < t.len() ==> t[i] != t[j]
}

/// The slot of `ty` in table `t`.
pub open spec fn slot_of(t: Seq<Seq<char>>, ty: Seq<char>) -> int {
    choose|i: int| 0 <= i < t.len() && t[i] == ty
}

/// A field's slot and its index among the fields.
pub open spec fn binding_view(b: Seq<(usize, usize)>) -> Seq<(int, int)> {
    b.map_values(|p: (usize, usize)| (p.0 as int, p.1 as int))
}

/// The slot of each tracked field, with the field's index, in field order.
pub open spec fn bindings_of(fs: Seq<ParsedField>, t: Seq<Seq<char>>) -> Seq<(int, int)>
    decreases fs.len(),
{
    if fs.len() == 0 {
        Seq::empty()
    } else if fs.last().ignored {
        bindings_of(fs.drop_last(), t)
    } else {
        bindings_of(fs.drop_last(), t).push((slot_of(t, fs.last().ty@), fs.len() - 1))
    }
}

/// A slot found in a table without duplicates is the slot of that expression.
pub proof fn lemma_slot_unique(t: Seq<Seq<char>>, ty: Seq<char>, k: int)
    requires
        distinct(t),
        0 <= k < t.len(),
        t[k] == ty,
    ensures
        slot_of(t, ty) == k,
{
    let i = slot_of(t, ty);
    assert(0 <= i < t.len() && t[i] == ty);
    if i < k {
        assert(t[i] != t[k]);
    } else if k < i {
        assert(t[k] != t[i]);
    }
}

/// Extending keeps what the table held, in place, and adds every scanned
/// expression; the result has no duplicates when the table had none.
pub proof fn lemma_extend(t: Seq<Seq<char>>, s: Seq<Seq<char>>)
    ensures
        t.len() <= extend(t, s).len(),
        extend(t, s).subrange(0, t.len() as int) == t,
        forall|k: int| 0 <= k < s.len() ==> extend(t, s).contains(#[trigger] s[k]),
        forall|x: Seq<char>| extend(t, s).contains(x) ==> t.contains(x) || s.contains(x),
        distinct(t) ==> distinct(extend(t, s)),
    decreases s.len(),
{
    if s.len() > 0 {
        let p = s.drop_last();
        lemma_extend(t, p);
        let u = extend(t, p);
        assert forall|k: int| 0 <= k < s.len() implies extend(t, s).contains(#[trigger] s[k]) by {
            if k < s.len() - 1 {
                assert(p[k] == s[k]);
                assert(u.contains(p[k]));
                if !u.contains(s.last()) {
                    let j = choose|j: int| 0 <= j < u.len() && u[j] == p[k];
                    assert(u.push(s.last())[j] == s[k]);
                }
            } else if !u.contains(s.last()) {
                assert(u.push(s.last())[u.len() as int] == s[k]);
            }
        }
        assert forall|x: Seq<char>| extend(t, s).contains(x) implies t.contains(x) || s.contains(
            x,
        ) by {
            let j = choose|j: int| 0 <= j < extend(t, s).len() && extend(t, s)[j] == x;
            if j < u.len() {
                assert(u[j] == x);
                assert(u.contains(x));
                if p.contains(x) {
                    let m = choose|m: int| 0 <= m < p.len() && p[m] == x;
                    assert(s[m] == x);
                }
            } else {
                assert(s[s.len() - 1] == x);
            }
        }
        if !u.contains(s.last()) {
            assert(u.push(s.last()).subrange(0, t.len() as int) =~= u.subrange(0, t.len() as int));
        }
    }
}

/// A tracked field's type is among the tracked types.
pub proof fn lemma_tracked_type(fs: Seq<ParsedField>, i: int)
    requires
        0 <= i < fs.len(),
        !fs[i].ignored,
    ensures
        tracked_types(fs).contains(fs[i].ty@),
    decreases fs.len(),
{
    let p = fs.drop_last();
    if i == fs.len() - 1 {
        assert(tracked_types(fs)[tracked_types(p).len() as int] == fs[i].ty@);
    } else {
        lemma_tracked_type(p, i);
        assert(p[i] == fs[i]);
        let j = choose|j: int| 0 <= j < tracked_types(p).len() && tracked_types(p)[j] == fs[i].ty@;
        if !fs.last().ignored {
            assert(tracked_types(fs)[j] == fs[i].ty@);
        }
    }
}

/// Every tracked type of a record is in its table, which has no duplicates.
pub proof fn lemma_struct_table(fs: Seq<ParsedField>)
    ensures
        distinct(struct_table(fs)),
        forall|i: int|
            0 <= i < fs.len() && !fs[i].ignored ==> struct_table(fs).contains(#[trigger] fs[i].ty@),
{
    lemma_extend(Seq::empty(), tracked_types(fs));
    assert forall|i: int| 0 <= i < fs.len() && !fs[i].ignored implies struct_table(fs).contains(
        #[trigger] fs[i].ty@,
    ) by {
        lemma_tracked_type(fs, i);
        let k = choose|k: int| 0 <= k < tracked_types(fs).len() && tracked_types(fs)[k] == fs[i].ty@;
    }
}

/// The union's table has no duplicates and holds every tracked type of every
/// variant.
pub proof fn lemma_enum_table(vs: Seq<VariantModel>)
    ensures
        distinct(enum_table(vs)),
        forall|v: int, i: int|
            0 <= v < vs.len() && 0 <= i < vs[v].fields.len() && !vs[v].fields[i].ignored
                ==> enum_table(vs).contains(#[trigger] vs[v].fields[i].ty@),
    decreases vs.len(),
{
    if vs.len() > 0 {
        let p = vs.drop_last();
        lemma_enum_table(p);
        let t = enum_table(p);
        let s = tracked_types(vs.last().fields);
        lemma_extend(t, s);
        assert forall|v: int, i: int|
            0 <= v < vs.len() && 0 <= i < vs[v].fields.len()
                && !vs[v].fields[i].ignored implies enum_table(vs).contains(
            #[trigger] vs[v].fields[i].ty@,
        ) by {
            if v == vs.len() - 1 {
                lemma_tracked_type(vs.last().fields, i);
                let k = choose|k: int| 0 <= k < s.len() && s[k] == vs[v].fields[i].ty@;
            } else {
                assert(p[v] == vs[v]);
                let k = choose|k: int| 0 <= k < t.len() && t[k] == vs[v].fields[i].ty@;
                assert(extend(t, s).subrange(0, t.len() as int)[k] == t[k]);
                assert(extend(t, s)[k] == vs[v].fields[i].ty@);
            }
        }
    }
}

/// The slot of `ty` in `types`, if it is there.
pub fn find_slot(types: &Vec<String>, ty: &String) -> (r: Option<usize>)
    ensures
        match r {
            Some(k) => k < types@.len() && types@[k as int]@ == ty@,
            None => !strs(types@).contains(ty@),
        },
{
    let mut i: usize = 0;
    while i < types.len()
        invariant
            i <= types@.len(),
            forall|j: int| 0 <= j < i ==> types@[j]@ != ty@,
        decreases types@.len() - i,
    {
        if types[i] == *ty {
            return Some(i);
        }
        i = i + 1;
    }
    assert forall|j: int| 0 <= j < strs(types@).len() implies strs(types@)[j] != ty@ by {
        assert(types@[j]@ != ty@);
    }
    None
}

/// Appends to `unique_types` the type of each tracked field that it does not
/// hold yet, in field order.
pub fn collect_unique_types(fields: &Vec<ParsedField>, unique_types: &mut Vec<String>)
    requires
        distinct(strs(old(unique_types)@)),
    ensures
        strs(final(unique_types)@) == extend(strs(old(unique_types)@), tracked_types(fields@)),
        distinct(strs(final(unique_types)@)),
{
    let ghost start = strs(unique_types@);
    let ghost fs = fields@;
    assert(fs.take(0) =~= Seq::<ParsedField>::empty());
    let mut i: usize = 0;
    while i < fields.len()
        invariant
            i <= fs.len(),
            fs == fields@,
            strs(unique_types@) == extend(start, tracked_types(fs.take(i as int))),
            distinct(strs(unique_types@)),
        decreases fs.len() - i,
    {
        let field = &fields[i];
        assert(fs.take(i + 1).drop_last() =~= fs.take(i as int));
        let ghost before = strs(unique_types@);
        if !field.ignored {
            let ghost tt = tracked_types(fs.take(i as int));
            assert(tracked_types(fs.take(i + 1)).drop_last() =~= tt);
            match find_slot(unique_types, &field.ty) {
                Some(k) => {
                    assert(before[k as int] == field.ty@);
                },
                None => {
                    unique_types.push(field.ty.clone());
                    assert(strs(unique_types@) =~= before.push(field.ty@));
                },
            }
        }
        i = i + 1;
    }
    assert(fs.take(i as int) =~= fs);
}

/// Resolves each tracked field to the slot of its type in `types`, giving
/// pairs of slot and field index in field order.
pub fn match_fields_to_types(fields: &Vec<ParsedField>, types: &Vec<String>) -> (r: Vec<(usize, usize)>)
    requires
        distinct(strs(types@)),
        forall|i: int|
            0 <= i < fields@.len() && !fields@[i].ignored ==> strs(types@).contains(
                #[trigger] fields@[i].ty@,
            ),
    ensures
        binding_view(r@) == bindings_of(fields@, strs(types@)),
        forall|k: int|
            0 <= k < r@.len() ==> r@[k].0 < types@.len() && r@[k].1 < fields@.len(),
{
    let ghost fs = fields@;
    let ghost t = strs(types@);
    let mut collected: Vec<(usize, usize)> = Vec::new();
    assert(fs.take(0) =~= Seq::<ParsedField>::empty());
    assert(binding_view(collected@) =~= Seq::<(int, int)>::empty());
    let mut i: usize = 0;
    while i < fields.len()
        invariant
            i <= fs.len(),
            fs == fields@,
            t == strs(types@),
            distinct(t),
            forall|j: int| 0 <= j < fs.len() && !fs[j].ignored ==> t.contains(#[trigger] fs[j].ty@),
            binding_view(collected@) == bindings_of(fs.take(i as int), t),
            forall|k: int|
                0 <= k < collected@.len() ==> collected@[k].0 < types@.len() && collected@[k].1
                    < fs.len(),
        decreases fs.len() - i,
    {
        let field = &fields[i];
        assert(fs.take(i + 1).drop_last() =~= fs.take(i as int));
        if !field.ignored {
            assert(t.contains(fs[i as int].ty@));
            match find_slot(types, &field.ty) {
                Some(k) => {
                    proof {
                        lemma_slot_unique(t, field.ty@, k as int);
                    }
                    let ghost before = collected@;
                    collected.push((k, i));
                    assert(binding_view(collected@) =~= binding_view(before).push(
                        (k as int, i as int),
                    ));
                },
                None => {
                    proof {
                        let j = choose|j: int| 0 <= j < t.len() && t[j] == fs[i as int].ty@;
                        assert(t[j] == fs[i as int].ty@);
                    }
                },
            }
        }
        i = i + 1;
    }
    assert(fs.take(i as int) =~= fs);
    collected
}

} // verus!
