//! Properties that hold of every declaration, stated over the spec functions
//! that the generator's contracts use.

use vstd::prelude::*;
use crate::codegen::{
    accessor, descriptor_item, descriptor_type, destructure_parts, dispatches, flag_expr,
    qualified, resource_idents, resource_pattern, struct_body, struct_impl, UpdateType,
};
use crate::dedup::{distinct, enum_table, extend, lemma_extend, struct_table, tracked_types};
use crate::packer::{levels, MAX_TUPLE_SIZE};
use crate::shape::{
    declaration_error, fields_error, is_ignore_keyword, marker_of, variants_error, AttrForm,
    Attribute, Declaration, FieldDecl, ParsedField, TimeTrackingMetadata, VariantDecl,
    VariantModel,
};
use crate::text::{decimal, digit_char, field_ident, resource_ident};

verus! {

/// A record whose tracked fields have the types `a, a, b, a` gets the table
/// `a, b`: one slot per distinct type, in first-seen order.
pub proof fn lemma_dedup_repeated_types(fs: Seq<ParsedField>, a: Seq<char>, b: Seq<char>)
    requires
        a != b,
        fs.len() == 4,
        forall|i: int| 0 <= i < 4 ==> !(#[trigger] fs[i]).ignored,
        fs[0].ty@ == a,
        fs[1].ty@ == a,
        fs[2].ty@ == b,
        fs[3].ty@ == a,
    ensures
        struct_table(fs) == seq![a, b],
{
    let s = tracked_types(fs);
    let f3 = fs.drop_last();
    let f2 = f3.drop_last();
    let f1 = f2.drop_last();
    assert(f1.drop_last() =~= Seq::<ParsedField>::empty());
    assert(f1[0] == fs[0] && f2[1] == fs[1] && f3[2] == fs[2]);
    assert(!fs[0].ignored && !fs[1].ignored && !fs[2].ignored && !fs[3].ignored);
    assert(tracked_types(f1.drop_last()) =~= Seq::<Seq<char>>::empty());
    assert(tracked_types(f1) =~= seq![a]);
    assert(tracked_types(f2) =~= seq![a, a]);
    assert(tracked_types(f3) =~= seq![a, a, b]);
    assert(s =~= seq![a, a, b, a]);
    let e = Seq::<Seq<char>>::empty();
    assert(s.drop_last().drop_last().drop_last() =~= seq![a]);
    assert(extend(e, seq![a]) == extend(e, Seq::empty()).push(a)) by {
        assert(seq![a].drop_last() =~= Seq::<Seq<char>>::empty());
    }
    assert(extend(e, seq![a, a]) == seq![a]) by {
        assert(seq![a, a].drop_last() =~= seq![a]);
        assert(seq![a].contains(a)) by {
            assert(seq![a][0] == a);
        }
    }
    assert(extend(e, seq![a, a, b]) == seq![a, b]) by {
        assert(seq![a, a, b].drop_last() =~= seq![a, a]);
        assert(!seq![a].contains(b)) by {
            if seq![a].contains(b) {
                let k = choose|k: int| 0 <= k < 1 && seq![a][k] == b;
            }
        }
        assert(seq![a].push(b) =~= seq![a, b]);
    }
    assert(extend(e, seq![a, a, b, a]) == seq![a, b]) by {
        assert(seq![a, a, b, a].drop_last() =~= seq![a, a, b]);
        assert(seq![a, b][0] == a);
    }
}

/// The table of a record holds each tracked type exactly once, and nothing
/// else.
pub proof fn lemma_table_is_distinct_tracked_types(fs: Seq<ParsedField>)
    ensures
        distinct(struct_table(fs)),
        forall|x: Seq<char>| struct_table(fs).contains(x) <==> tracked_types(fs).contains(x),
{
    lemma_extend(Seq::empty(), tracked_types(fs));
    assert forall|x: Seq<char>| tracked_types(fs).contains(x) implies struct_table(fs).contains(
        x,
    ) by {
        let k = choose|k: int| 0 <= k < tracked_types(fs).len() && tracked_types(fs)[k] == x;
    }
}

proof fn lemma_remove_ignored_tracked(fs: Seq<ParsedField>, k: int)
    requires
        0 <= k < fs.len(),
        fs[k].ignored,
    ensures
        tracked_types(fs.remove(k)) == tracked_types(fs),
    decreases fs.len(),
{
    if k == fs.len() - 1 {
        assert(fs.remove(k) =~= fs.drop_last());
    } else {
        assert(fs.remove(k).drop_last() =~= fs.drop_last().remove(k));
        assert(fs.remove(k).last() == fs.last());
        lemma_remove_ignored_tracked(fs.drop_last(), k);
    }
}

proof fn lemma_remove_ignored_dispatches(
    fs: Seq<ParsedField>,
    k: int,
    t: Seq<Seq<char>>,
    tp: Seq<char>,
    u: UpdateType,
    in_variant: bool,
)
    requires
        0 <= k < fs.len(),
        fs[k].ignored,
    ensures
        dispatches(fs.remove(k), t, tp, u, in_variant) == dispatches(fs, t, tp, u, in_variant),
    decreases fs.len(),
{
    if k == fs.len() - 1 {
        assert(fs.remove(k) =~= fs.drop_last());
    } else {
        assert(fs.remove(k).drop_last() =~= fs.drop_last().remove(k));
        assert(fs.remove(k).last() == fs.last());
        lemma_remove_ignored_dispatches(fs.drop_last(), k, t, tp, u, in_variant);
    }
}

/// An ignored field of a record is invisible to the generated impl: it
/// adds no slot, no flag term, no descriptor element and no statement, so
/// the impl is the same as without the field.
pub proof fn lemma_ignored_field_invisible(fs: Seq<ParsedField>, k: int, m: TimeTrackingMetadata)
    requires
        0 <= k < fs.len(),
        fs[k].ignored,
    ensures
        struct_table(fs.remove(k)) == struct_table(fs),
        struct_impl(fs.remove(k), m) == struct_impl(fs, m),
{
    lemma_remove_ignored_tracked(fs, k);
    let t = struct_table(fs);
    let tp = m.bevy_time_path@;
    lemma_remove_ignored_dispatches(fs, k, t, tp, UpdateType::First, false);
    lemma_remove_ignored_dispatches(fs, k, t, tp, UpdateType::Fixed, false);
}

proof fn lemma_enum_table_remove_ignored(vs: Seq<VariantModel>, v: int, k: int)
    requires
        0 <= v < vs.len(),
        0 <= k < vs[v].fields.len(),
        vs[v].fields[k].ignored,
    ensures
        enum_table(vs.update(v, VariantModel { fields: vs[v].fields.remove(k), ..vs[v] }))
            == enum_table(vs),
    decreases vs.len(),
{
    let w = vs.update(v, VariantModel { fields: vs[v].fields.remove(k), ..vs[v] });
    if v == vs.len() - 1 {
        assert(w.drop_last() =~= vs.drop_last());
        lemma_remove_ignored_tracked(vs[v].fields, k);
    } else {
        let p = vs.drop_last();
        assert(w.drop_last() =~= p.update(v, VariantModel { fields: p[v].fields.remove(k), ..p[v] }));
        lemma_enum_table_remove_ignored(p, v, k);
    }
}

/// An ignored field of a variant adds no slot to the shared table and no
/// statement to its variant's arm.
pub proof fn lemma_ignored_variant_field_invisible(
    vs: Seq<VariantModel>,
    v: int,
    k: int,
    tp: Seq<char>,
    u: UpdateType,
)
    requires
        0 <= v < vs.len(),
        0 <= k < vs[v].fields.len(),
        vs[v].fields[k].ignored,
    ensures
        enum_table(vs.update(v, VariantModel { fields: vs[v].fields.remove(k), ..vs[v] }))
            == enum_table(vs),
        dispatches(vs[v].fields.remove(k), enum_table(vs), tp, u, true) == dispatches(
            vs[v].fields,
            enum_table(vs),
            tp,
            u,
            true,
        ),
{
    lemma_enum_table_remove_ignored(vs, v, k);
    lemma_remove_ignored_dispatches(vs[v].fields, k, enum_table(vs), tp, u, true);
}

proof fn lemma_all_ignored(fs: Seq<ParsedField>, t: Seq<Seq<char>>, tp: Seq<char>, u: UpdateType, iv: bool)
    requires
        forall|i: int| 0 <= i < fs.len() ==> (#[trigger] fs[i]).ignored,
    ensures
        tracked_types(fs) == Seq::<Seq<char>>::empty(),
        dispatches(fs, t, tp, u, iv) == Seq::<Seq<char>>::empty(),
    decreases fs.len(),
{
    if fs.len() > 0 {
        let p = fs.drop_last();
        assert forall|i: int| 0 <= i < p.len() implies (#[trigger] p[i]).ignored by {
            assert(p[i] == fs[i]);
        }
        assert(fs[fs.len() - 1].ignored);
        lemma_all_ignored(p, t, tp, u, iv);
    }
}

proof fn lemma_empty_group()
    ensures
        resource_pattern(0) == "()"@,
        forall|tp: Seq<char>, u: UpdateType| #[trigger] descriptor_type(Seq::empty(), tp, u) == "()"@,
{
    reveal_strlit("(");
    reveal_strlit(")");
    reveal_strlit("()");
    assert(resource_idents(0) =~= Seq::<Seq<char>>::empty());
    assert("("@ + Seq::<char>::empty() + ")"@ =~= "()"@);
    assert forall|tp: Seq<char>, u: UpdateType| #[trigger] descriptor_type(Seq::empty(), tp, u) == "()"@ by {
        assert(Seq::<Seq<char>>::empty().map_values(
            |t: Seq<char>| qualified(t, tp, descriptor_item(u)),
        ) =~= Seq::<Seq<char>>::empty());
    }
}

/// A record with no tracked field gets `false` for both flags, the empty
/// group for both descriptor types and for the resource pattern, and empty
/// update bodies.
pub proof fn lemma_empty_record(fs: Seq<ParsedField>, tp: Seq<char>)
    requires
        forall|i: int| 0 <= i < fs.len() ==> (#[trigger] fs[i]).ignored,
    ensures
        struct_table(fs) == Seq::<Seq<char>>::empty(),
        flag_expr(struct_table(fs), tp, UpdateType::First) == "false"@,
        flag_expr(struct_table(fs), tp, UpdateType::Fixed) == "false"@,
        descriptor_type(struct_table(fs), tp, UpdateType::First) == "()"@,
        descriptor_type(struct_table(fs), tp, UpdateType::Fixed) == "()"@,
        resource_pattern(struct_table(fs).len()) == "()"@,
        struct_body(fs, tp, UpdateType::First) == Seq::<char>::empty(),
        struct_body(fs, tp, UpdateType::Fixed) == Seq::<char>::empty(),
{
    lemma_all_ignored(fs, struct_table(fs), tp, UpdateType::First, false);
    lemma_all_ignored(fs, struct_table(fs), tp, UpdateType::Fixed, false);
    lemma_empty_group();
    assert(descriptor_type(Seq::empty(), tp, UpdateType::First) == "()"@);
    assert(descriptor_type(Seq::empty(), tp, UpdateType::Fixed) == "()"@);
}

/// A tagged union with no tracked field in any variant gets `false` for both
/// flags, the empty group for both descriptor types and for the resource
/// pattern, and no statement in any arm.
pub proof fn lemma_empty_union(vs: Seq<VariantModel>, tp: Seq<char>, u: UpdateType)
    requires
        forall|v: int, i: int|
            0 <= v < vs.len() && 0 <= i < vs[v].fields.len() ==> (#[trigger] vs[v].fields[i]).ignored,
    ensures
        enum_table(vs) == Seq::<Seq<char>>::empty(),
        flag_expr(enum_table(vs), tp, u) == "false"@,
        descriptor_type(enum_table(vs), tp, u) == "()"@,
        resource_pattern(enum_table(vs).len()) == "()"@,
        forall|v: int|
            0 <= v < vs.len() ==> dispatches(#[trigger] vs[v].fields, enum_table(vs), tp, u, true)
                == Seq::<Seq<char>>::empty(),
    decreases vs.len(),
{
    if vs.len() > 0 {
        let p = vs.drop_last();
        assert forall|v: int, i: int|
            0 <= v < p.len() && 0 <= i < p[v].fields.len() implies (#[trigger] p[v].fields[i]).ignored by {
            assert(p[v] == vs[v]);
        }
        lemma_empty_union(p, tp, u);
        let last = vs.last();
        assert forall|i: int| 0 <= i < last.fields.len() implies (#[trigger] last.fields[i]).ignored by {
            assert(vs[vs.len() - 1].fields[i].ignored);
        }
        lemma_all_ignored(last.fields, enum_table(vs), tp, u, true);
    }
    assert forall|v: int| 0 <= v < vs.len() implies dispatches(
        #[trigger] vs[v].fields,
        enum_table(vs),
        tp,
        u,
        true,
    ) == Seq::<Seq<char>>::empty() by {
        assert forall|i: int| 0 <= i < vs[v].fields.len() implies (#[trigger] vs[v].fields[i]).ignored by {}
        lemma_all_ignored(vs[v].fields, enum_table(vs), tp, u, true);
    }
    lemma_empty_group();
}

/// Every group the packer builds for width `w` has at most `w` direct
/// elements: a level's own elements, plus the nested group unless it is the
/// innermost level.
pub proof fn lemma_group_width<A>(s: Seq<A>, w: nat)
    requires
        w >= 2,
    ensures
        forall|k: int|
            0 <= k < levels(s, (w - 1) as nat).len() ==> (#[trigger] levels(s, (w - 1) as nat)[k]).len()
                + (if k + 1 < levels(s, (w - 1) as nat).len() {
                1int
            } else {
                0int
            }) <= w,
    decreases s.len(),
{
    let c = (w - 1) as nat;
    if s.len() > c {
        lemma_group_width(s.skip(c as int), w);
        let ls = levels(s, c);
        assert forall|k: int| 0 <= k < ls.len() implies (#[trigger] ls[k]).len() + (if k + 1
            < ls.len() {
            1int
        } else {
            0int
        }) <= w by {
            if k > 0 {
                assert(ls[k] == levels(s.skip(c as int), c)[k - 1]);
            }
        }
    }
}

/// Thirty-two elements nest twice: an outer group of fifteen elements and a
/// nested group, which holds fifteen elements and a group of the last two.
pub proof fn lemma_thirty_two_elements_nest_twice<A>(s: Seq<A>)
    requires
        s.len() == 32,
    ensures
        levels(s, 15).len() == 3,
        levels(s, 15)[0].len() == 15,
        levels(s, 15)[1].len() == 15,
        levels(s, 15)[2].len() == 2,
{
    let s1 = s.skip(15);
    let s2 = s1.skip(15);
    assert(levels(s2, 15) == seq![s2]);
    assert(levels(s1, 15) =~= seq![s1.take(15), s2]);
    assert(levels(s, 15) =~= seq![s.take(15), s1.take(15), s2]);
}

/// Seventeen elements nest once: an outer group of fifteen elements and, as
/// its sixteenth, a group of the remaining two.
pub proof fn lemma_seventeen_elements_nest_once<A>(s: Seq<A>)
    requires
        s.len() == 17,
    ensures
        levels(s, 15).len() == 2,
        levels(s, 15)[0].len() == 15,
        levels(s, 15)[1].len() == 2,
{
    let s1 = s.skip(15);
    assert(levels(s1, 15) == seq![s1]);
    assert(levels(s, 15) =~= seq![s.take(15), s1]);
}

/// The element at offset `j` of level `k` is element `c * k + j` of the list.
pub proof fn lemma_levels_index<A>(s: Seq<A>, c: nat, k: int, j: int)
    requires
        c > 0,
        0 <= k < levels(s, c).len(),
        0 <= j < levels(s, c)[k].len(),
    ensures
        0 <= c * k + j < s.len(),
        levels(s, c)[k][j] == s[c * k + j],
    decreases s.len(),
{
    if k == 0 {
        assert(c * k == 0) by (nonlinear_arith)
            requires
                k == 0,
        ;
        if s.len() > c {
            assert(levels(s, c)[0] == s.take(c as int));
        }
    } else {
        let r = s.skip(c as int);
        assert(levels(s, c)[k] == levels(r, c)[k - 1]);
        lemma_levels_index(r, c, k - 1, j);
        assert(c * k == c + c * (k - 1)) by (nonlinear_arith);
        assert(r[c * (k - 1) + j] == s[c + c * (k - 1) + j]);
    }
}

/// Lists of the same length are cut into levels of the same lengths.
pub proof fn lemma_levels_same_shape<A, B>(s: Seq<A>, r: Seq<B>, c: nat)
    requires
        c > 0,
        s.len() == r.len(),
    ensures
        levels(s, c).len() == levels(r, c).len(),
        forall|k: int| 0 <= k < levels(s, c).len() ==> #[trigger] levels(s, c)[k].len() == levels(r, c)[k].len(),
    decreases s.len(),
{
    if s.len() > c {
        lemma_levels_same_shape(s.skip(c as int), r.skip(c as int), c);
        assert forall|k: int| 0 <= k < levels(s, c).len() implies #[trigger] levels(s, c)[k].len()
            == levels(r, c)[k].len() by {
            if k > 0 {
                assert(levels(s, c)[k] == levels(s.skip(c as int), c)[k - 1]);
                assert(levels(r, c)[k] == levels(r.skip(c as int), c)[k - 1]);
            }
        }
    }
}

/// The resource pattern and a descriptor type over the same table are cut at
/// the same places, and at every position the pattern binds `resource_<i>`
/// where the type holds the descriptor of slot `i`, for any number of slots.
pub proof fn lemma_positional_consistency(
    types: Seq<Seq<char>>,
    tp: Seq<char>,
    u: UpdateType,
    k: int,
    j: int,
)
    requires
        0 <= k < levels(resource_idents(types.len()), (MAX_TUPLE_SIZE - 1) as nat).len(),
        0 <= j < levels(resource_idents(types.len()), (MAX_TUPLE_SIZE - 1) as nat)[k].len(),
    ensures
        ({
            let c = (MAX_TUPLE_SIZE - 1) as nat;
            let descs = types.map_values(
                |t: Seq<char>| qualified(t, tp, descriptor_item(u)),
            );
            let pattern = levels(resource_idents(types.len()), c);
            let ty = levels(descs, c);
            let i = c * k + j;
            &&& ty.len() == pattern.len()
            &&& ty[k].len() == pattern[k].len()
            &&& 0 <= i < types.len()
            &&& pattern[k][j] == resource_ident(i as nat)
            &&& ty[k][j] == qualified(types[i], tp, descriptor_item(u))
        }),
{
    let c = (MAX_TUPLE_SIZE - 1) as nat;
    let descs = types.map_values(
        |t: Seq<char>| qualified(t, tp, descriptor_item(u)),
    );
    let idents = resource_idents(types.len());
    lemma_levels_same_shape(idents, descs, c);
    lemma_levels_index(idents, c, k, j);
    lemma_levels_index(descs, c, k, j);
}

proof fn lemma_digit_injective(x: nat, y: nat)
    requires
        x < 10,
        y < 10,
        digit_char(x) == digit_char(y),
    ensures
        x == y,
{
}

proof fn lemma_decimal_nonempty(n: nat)
    ensures
        decimal(n).len() >= 1,
        n >= 10 ==> decimal(n).len() >= 2,
    decreases n,
{
    if n >= 10 {
        lemma_decimal_nonempty(n / 10);
    }
}

/// Different numbers have different decimal spellings.
pub proof fn lemma_decimal_injective(a: nat, b: nat)
    requires
        decimal(a) == decimal(b),
    ensures
        a == b,
    decreases a,
{
    lemma_decimal_nonempty(a);
    lemma_decimal_nonempty(b);
    if a >= 10 && b >= 10 {
        assert(decimal(a).last() == digit_char(a % 10));
        assert(decimal(b).last() == digit_char(b % 10));
        assert(decimal(a).drop_last() =~= decimal(a / 10));
        assert(decimal(b).drop_last() =~= decimal(b / 10));
        lemma_decimal_injective(a / 10, b / 10);
        lemma_digit_injective(a % 10, b % 10);
        assert(a == 10 * (a / 10) + a % 10);
        assert(b == 10 * (b / 10) + b % 10);
    } else if a < 10 && b < 10 {
        assert(decimal(a) == seq![digit_char(a)]);
        assert(decimal(b) == seq![digit_char(b)]);
        assert(seq![digit_char(a)][0] == digit_char(a));
        assert(seq![digit_char(b)][0] == digit_char(b));
        lemma_digit_injective(a, b);
    }
}

/// In a variant's arm every field is bound to `field_<position>`, never to
/// its declared name, so fields that share a name in different variants get
/// independent bindings, and no two fields of one arm share a binding.
pub proof fn lemma_variant_bindings(v: VariantModel, i: int, j: int)
    requires
        forall|k: int| 0 <= k < v.fields.len() ==> (#[trigger] v.fields[k]).index_in_structure == k,
        0 <= i < v.fields.len(),
        0 <= j < v.fields.len(),
    ensures
        v.variant_type is Named ==> destructure_parts(v)[i]
            == accessor(v.fields[i]) + ": "@ + field_ident(i as nat),
        !(v.variant_type is Named) ==> destructure_parts(v)[i] == field_ident(
            i as nat,
        ),
        i != j ==> field_ident(i as nat) != field_ident(j as nat),
{
    assert(v.fields[i].index_in_structure == i);
    if i != j && field_ident(i as nat) == field_ident(j as nat) {
        let p = "field_"@;
        assert(field_ident(i as nat).skip(p.len() as int) =~= decimal(i as nat));
        assert(field_ident(j as nat).skip(p.len() as int) =~= decimal(j as nat));
        lemma_decimal_injective(i as nat, j as nat);
    }
}

/// The attribute is the marker, in a form other than `#[time_tracking(ignore)]`.
pub open spec fn malformed_marker(a: Attribute) -> bool {
    &&& a.path@ == "time_tracking"@
    &&& match a.form {
        AttrForm::List(tokens) => !is_ignore_keyword(tokens@),
        _ => true,
    }
}

/// Attribute `a` is the first marker among `attrs`, and it is malformed.
pub open spec fn first_marker_malformed(attrs: Seq<Attribute>, a: int) -> bool {
    &&& 0 <= a < attrs.len()
    &&& malformed_marker(attrs[a])
    &&& forall|j: int| 0 <= j < a ==> (#[trigger] attrs[j]).path@ != "time_tracking"@
}

proof fn lemma_marker_error(attrs: Seq<Attribute>, a: int)
    requires
        first_marker_malformed(attrs, a),
    ensures
        marker_of(attrs) is Err,
    decreases a,
{
    if a > 0 {
        assert(attrs[0].path@ != "time_tracking"@);
        let r = attrs.drop_first();
        assert forall|j: int| 0 <= j < a - 1 implies (#[trigger] r[j]).path@ != "time_tracking"@ by {
            assert(r[j] == attrs[j + 1]);
        }
        lemma_marker_error(r, a - 1);
    }
}

proof fn lemma_fields_error(fs: Seq<FieldDecl>, i: int)
    requires
        0 <= i < fs.len(),
        marker_of(fs[i].attrs@) is Err,
    ensures
        fields_error(fs) is Some,
    decreases i,
{
    if i > 0 && marker_of(fs[0].attrs@) is Ok {
        assert(fs.drop_first()[i - 1] == fs[i]);
        lemma_fields_error(fs.drop_first(), i - 1);
    }
}

proof fn lemma_variants_error(vs: Seq<VariantDecl>, v: int)
    requires
        0 <= v < vs.len(),
        fields_error(vs[v].fields.fields@) is Some,
    ensures
        variants_error(vs) is Some,
    decreases v,
{
    if v > 0 && fields_error(vs[0].fields.fields@) is None {
        assert(vs.drop_first()[v - 1] == vs[v]);
        lemma_variants_error(vs.drop_first(), v - 1);
    }
}

/// A record field whose marker is written as a bare path, in name-value form,
/// or with arguments other than `ignore` makes the declaration fail to parse,
/// so no code is generated for it.
pub proof fn lemma_record_marker_rejected(input: Declaration, i: int, a: int)
    requires
        input.data is Struct,
        0 <= i < input.data->Struct_0.fields@.len(),
        first_marker_malformed(input.data->Struct_0.fields@[i].attrs@, a),
    ensures
        declaration_error(input) is Some,
{
    lemma_marker_error(input.data->Struct_0.fields@[i].attrs@, a);
    lemma_fields_error(input.data->Struct_0.fields@, i);
}

/// A variant field whose marker is malformed makes the whole tagged union
/// fail to parse, so no code is generated for it.
pub proof fn lemma_union_marker_rejected(input: Declaration, v: int, i: int, a: int)
    requires
        input.data is Enum,
        0 <= v < input.data->Enum_0@.len(),
        0 <= i < input.data->Enum_0@[v].fields.fields@.len(),
        first_marker_malformed(input.data->Enum_0@[v].fields.fields@[i].attrs@, a),
    ensures
        declaration_error(input) is Some,
{
    let vs = input.data->Enum_0@;
    lemma_marker_error(vs[v].fields.fields@[i].attrs@, a);
    lemma_fields_error(vs[v].fields.fields@, i);
    lemma_variants_error(vs, v);
}

} // verus!
