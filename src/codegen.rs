//! Rendering of the trait implementation: capability flags, resource
//! descriptor types, and the two update routines for records and tagged
//! unions.

use vstd::prelude::*;
use crate::dedup::{
    binding_view, bindings_of, collect_unique_types, distinct, enum_table, lemma_enum_table,
    lemma_struct_table, match_fields_to_types, slot_of, struct_table,
};
use crate::packer::{nested_group, nested_tuples, MAX_TUPLE_SIZE};
use crate::shape::{
    declaration_error, lemma_fields_parsed_as, lemma_variants_parsed_as, models, parsed_fields,
    parsed_variants, DeclData, Declaration, DeriveError, EnumVariant, FieldsType, ParsedField,
    TimeTrackingDerive, TimeTrackingEnum, TimeTrackingMetadata, TimeTrackingStruct,
    TimeTrackingType, VariantModel,
};
use crate::text::{
    concat, concat_strings, decimal, field_ident, field_name, join, join_strings, owned,
    push_decimal, resource_ident, resource_name, strs,
};

verus! {

/// One of the two update phases.
#[derive(Clone, Copy, Debug, PartialEq, Eq, Structural)]
pub enum UpdateType {
    Fixed,
    First,
}

/// The name of the phase's update routine.
pub open spec fn update_fn(u: UpdateType) -> Seq<char> {
    match u {
        UpdateType::First => "update_first"@,
        UpdateType::Fixed => "update_fixed"@,
    }
}

/// The phase's associated resource descriptor type.
pub open spec fn res_assoc(u: UpdateType) -> Seq<char> {
    match u {
        UpdateType::First => "TimeRes"@,
        UpdateType::Fixed => "TimeResFixed"@,
    }
}

/// The phase's descriptor type as named inside the impl.
pub open spec fn descriptor_item(u: UpdateType) -> Seq<char> {
    match u {
        UpdateType::First => "TimeRes<'w>"@,
        UpdateType::Fixed => "TimeResFixed<'w>"@,
    }
}

/// The phase's capability flag.
pub open spec fn flag_item(u: UpdateType) -> Seq<char> {
    match u {
        UpdateType::First => "NEEDS_FIRST_UPDATE"@,
        UpdateType::Fixed => "NEEDS_FIXED_UPDATE"@,
    }
}

/// `<ty as tp::TimeTracking>::item`
pub open spec fn qualified(ty: Seq<char>, tp: Seq<char>, item: Seq<char>) -> Seq<char> {
    "<"@ + ty + " as "@ + tp + "::TimeTracking>::"@ + item
}

/// The capability flag of a phase: the OR of every distinct type's own flag,
/// `false` when there is none.
pub open spec fn flag_expr(types: Seq<Seq<char>>, tp: Seq<char>, u: UpdateType) -> Seq<char> {
    if types.len() == 0 {
        "false"@
    } else {
        "("@ + join(types.map_values(|t: Seq<char>| qualified(t, tp, flag_item(u))), " || "@)
            + ")"@
    }
}

/// The resource descriptor type of a phase: the distinct types' own
/// descriptors, packed into groups.
pub open spec fn descriptor_type(types: Seq<Seq<char>>, tp: Seq<char>, u: UpdateType) -> Seq<
    char,
> {
    nested_group(
        types.map_values(|t: Seq<char>| qualified(t, tp, descriptor_item(u))),
        MAX_TUPLE_SIZE as nat,
    )
}

/// The bindings `resource_0 .. resource_<n-1>`.
pub open spec fn resource_idents(n: nat) -> Seq<Seq<char>> {
    Seq::new(n, |i: int| resource_ident(i as nat))
}

/// The pattern that destructures a descriptor value of `n` slots into one
/// binding per slot, packed exactly as the descriptor type is.
pub open spec fn resource_pattern(n: nat) -> Seq<char> {
    nested_group(resource_idents(n), MAX_TUPLE_SIZE as nat)
}

/// The constants and associated types of the impl.
pub open spec fn consts_and_types(types: Seq<Seq<char>>, tp: Seq<char>) -> Seq<char> {
    "const NEEDS_FIXED_UPDATE: bool = "@ + flag_expr(types, tp, UpdateType::Fixed)
        + "; const NEEDS_FIRST_UPDATE: bool = "@ + flag_expr(types, tp, UpdateType::First)
        + "; type TimeRes<'w> = "@ + descriptor_type(types, tp, UpdateType::First)
        + "; type TimeResFixed<'w> = "@ + descriptor_type(types, tp, UpdateType::Fixed) + ";"@
}

/// How a field is reached: its name, or its position when it has none.
pub open spec fn accessor(f: ParsedField) -> Seq<char> {
    match f.ident {
        Some(name) => name@,
        None => decimal(f.index_in_structure as nat),
    }
}

/// The statement that updates field `f` in phase `u`, passing the resource
/// of its type's slot in `t`. In a record the field is reached through
/// `self`; in a variant through its positional binding.
pub open spec fn dispatch(
    f: ParsedField,
    t: Seq<Seq<char>>,
    tp: Seq<char>,
    u: UpdateType,
    in_variant: bool,
) -> Seq<char> {
    let resource = resource_ident(slot_of(t, f.ty@) as nat);
    if in_variant {
        qualified(f.ty@, tp, update_fn(u)) + "("@ + field_ident(f.index_in_structure as nat)
            + ", &"@ + resource + "); "@
    } else {
        qualified(f.ty@, tp, update_fn(u)) + "(&mut self."@ + accessor(f) + ", &"@ + resource
            + ")"@
    }
}

/// The dispatch statements of the tracked fields among `fs`, in field order.
pub open spec fn dispatches(
    fs: Seq<ParsedField>,
    t: Seq<Seq<char>>,
    tp: Seq<char>,
    u: UpdateType,
    in_variant: bool,
) -> Seq<Seq<char>>
    decreases fs.len(),
{
    if fs.len() == 0 {
        Seq::empty()
    } else if fs.last().ignored {
        dispatches(fs.drop_last(), t, tp, u, in_variant)
    } else {
        dispatches(fs.drop_last(), t, tp, u, in_variant).push(
            dispatch(fs.last(), t, tp, u, in_variant),
        )
    }
}

/// The body of a record's update routine.
pub open spec fn struct_body(fs: Seq<ParsedField>, tp: Seq<char>, u: UpdateType) -> Seq<char> {
    join(dispatches(fs, struct_table(fs), tp, u, false), "; "@)
}

/// An update routine with the given resource pattern and body.
pub open spec fn function_text(
    pattern: Seq<char>,
    tp: Seq<char>,
    ep: Seq<char>,
    u: UpdateType,
    body: Seq<char>,
) -> Seq<char> {
    "fn "@ + update_fn(u) + "<'a: 'b, 'b>(&mut self, "@ + pattern + ": &'b <<Self as "@ + tp
        + "::TimeTracking>::"@ + res_assoc(u) + "<'a> as "@ + ep
        + "::system::SystemParam>::Item<'_, '_>) { "@ + body + " }"@
}

/// The whole impl around its constants, types and routines.
pub open spec fn impl_text(m: TimeTrackingMetadata, consts: Seq<char>, functions: Seq<char>) -> Seq<
    char,
> {
    "impl"@ + m.impl_generics@ + " "@ + m.bevy_time_path@ + "::TimeTracking for "@
        + m.type_ident@ + m.ty_generics@ + " "@ + m.where_clause@ + " { "@ + consts + " "@
        + functions + " }"@
}

/// The impl generated for a record.
pub open spec fn struct_impl(fs: Seq<ParsedField>, m: TimeTrackingMetadata) -> Seq<char> {
    let t = struct_table(fs);
    let tp = m.bevy_time_path@;
    let ep = m.bevy_ecs_path@;
    let pattern = resource_pattern(t.len());
    impl_text(
        m,
        consts_and_types(t, tp),
        function_text(pattern, tp, ep, UpdateType::First, struct_body(fs, tp, UpdateType::First))
            + " "@ + function_text(
            pattern,
            tp,
            ep,
            UpdateType::Fixed,
            struct_body(fs, tp, UpdateType::Fixed),
        ),
    )
}

/// The binding a variant's field is destructured into, for each field.
pub open spec fn destructure_parts(v: VariantModel) -> Seq<Seq<char>> {
    match v.variant_type {
        FieldsType::Named => v.fields.map_values(
            |f: ParsedField| accessor(f) + ": "@ + field_ident(f.index_in_structure as nat),
        ),
        _ => v.fields.map_values(|f: ParsedField| field_ident(f.index_in_structure as nat)),
    }
}

/// The pattern that destructures a variant's fields into positional bindings.
pub open spec fn destructure(v: VariantModel) -> Seq<char> {
    match v.variant_type {
        FieldsType::Unit => Seq::empty(),
        FieldsType::Unnamed => "("@ + join(destructure_parts(v), ", "@) + ")"@,
        FieldsType::Named => "{ "@ + join(destructure_parts(v), ", "@) + " }"@,
    }
}

/// The match arm of one variant: its pattern, then a statement for each
/// tracked field.
pub open spec fn enum_arm(
    name: Seq<char>,
    v: VariantModel,
    t: Seq<Seq<char>>,
    tp: Seq<char>,
    u: UpdateType,
) -> Seq<char> {
    name + "::"@ + v.ident + " "@ + destructure(v) + " => { "@ + concat(
        dispatches(v.fields, t, tp, u, true),
    ) + "} "@
}

/// The arms of all variants, in declaration order, in braces.
pub open spec fn enum_matches(
    name: Seq<char>,
    vs: Seq<VariantModel>,
    t: Seq<Seq<char>>,
    tp: Seq<char>,
    u: UpdateType,
) -> Seq<char> {
    "{ "@ + concat(vs.map_values(|v: VariantModel| enum_arm(name, v, t, tp, u))) + "}"@
}

/// The impl generated for a tagged union.
pub open spec fn enum_impl(vs: Seq<VariantModel>, m: TimeTrackingMetadata) -> Seq<char> {
    let t = enum_table(vs);
    let tp = m.bevy_time_path@;
    let ep = m.bevy_ecs_path@;
    let pattern = resource_pattern(t.len());
    impl_text(
        m,
        consts_and_types(t, tp),
        function_text(
            pattern,
            tp,
            ep,
            UpdateType::First,
            "match self "@ + enum_matches(m.type_ident@, vs, t, tp, UpdateType::First),
        ) + " "@ + function_text(
            pattern,
            tp,
            ep,
            UpdateType::Fixed,
            "match self "@ + enum_matches(m.type_ident@, vs, t, tp, UpdateType::Fixed),
        ),
    )
}

fn update_fn_name(u: UpdateType) -> (r: &'static str)
    ensures
        r@ == update_fn(u),
{
    match u {
        UpdateType::First => "update_first",
        UpdateType::Fixed => "update_fixed",
    }
}

fn res_assoc_name(u: UpdateType) -> (r: &'static str)
    ensures
        r@ == res_assoc(u),
{
    match u {
        UpdateType::First => "TimeRes",
        UpdateType::Fixed => "TimeResFixed",
    }
}

fn descriptor_item_name(u: UpdateType) -> (r: &'static str)
    ensures
        r@ == descriptor_item(u),
{
    match u {
        UpdateType::First => "TimeRes<'w>",
        UpdateType::Fixed => "TimeResFixed<'w>",
    }
}

fn flag_item_name(u: UpdateType) -> (r: &'static str)
    ensures
        r@ == flag_item(u),
{
    match u {
        UpdateType::First => "NEEDS_FIRST_UPDATE",
        UpdateType::Fixed => "NEEDS_FIXED_UPDATE",
    }
}

fn qualify(ty: &String, time_path: &String, item: &str) -> (r: String)
    ensures
        r@ == qualified(ty@, time_path@, item@),
{
    let mut out = owned("<");
    out.append(ty.as_str());
    out.append(" as ");
    out.append(time_path.as_str());
    out.append("::TimeTracking>::");
    out.append(item);
    out
}

/// Each type qualified with the given item.
fn qualify_all(types: &Vec<String>, time_path: &String, item: &str) -> (r: Vec<String>)
    ensures
        strs(r@) == strs(types@).map_values(|t: Seq<char>| qualified(t, time_path@, item@)),
{
    let mut out: Vec<String> = Vec::new();
    let mut i: usize = 0;
    while i < types.len()
        invariant
            i <= types@.len(),
            out@.len() == i,
            forall|j: int| 0 <= j < i ==> out@[j]@ == qualified(types@[j]@, time_path@, item@),
        decreases types@.len() - i,
    {
        out.push(qualify(&types[i], time_path, item));
        i = i + 1;
    }
    assert(strs(out@) =~= strs(types@).map_values(
        |t: Seq<char>| qualified(t, time_path@, item@),
    ));
    out
}

fn flag_expression(types: &Vec<String>, time_path: &String, u: UpdateType) -> (r: String)
    ensures
        r@ == flag_expr(strs(types@), time_path@, u),
{
    if types.len() == 0 {
        owned("false")
    } else {
        let parts = qualify_all(types, time_path, flag_item_name(u));
        let mut out = owned("(");
        out.append(join_strings(&parts, " || ").as_str());
        out.append(")");
        out
    }
}

/// The constants and associated types of the impl for the distinct `types`.
pub fn generate_constants_and_assoc_types(types: &Vec<String>, metadata: &TimeTrackingMetadata) -> (r:
    String)
    ensures
        r@ == consts_and_types(strs(types@), metadata.bevy_time_path@),
{
    let time_path = &metadata.bevy_time_path;
    let first_types = qualify_all(types, time_path, descriptor_item_name(UpdateType::First));
    let fixed_types = qualify_all(types, time_path, descriptor_item_name(UpdateType::Fixed));
    let mut out = owned("const NEEDS_FIXED_UPDATE: bool = ");
    out.append(flag_expression(types, time_path, UpdateType::Fixed).as_str());
    out.append("; const NEEDS_FIRST_UPDATE: bool = ");
    out.append(flag_expression(types, time_path, UpdateType::First).as_str());
    out.append("; type TimeRes<'w> = ");
    out.append(nested_tuples(&first_types, MAX_TUPLE_SIZE).as_str());
    out.append("; type TimeResFixed<'w> = ");
    out.append(nested_tuples(&fixed_types, MAX_TUPLE_SIZE).as_str());
    out.append(";");
    out
}

/// The pattern binding one resource per distinct type.
pub fn generate_resource_fields(types: &Vec<String>) -> (r: String)
    ensures
        r@ == resource_pattern(types@.len()),
{
    let mut names: Vec<String> = Vec::new();
    let mut i: usize = 0;
    while i < types.len()
        invariant
            i <= types@.len(),
            names@.len() == i,
            forall|j: int| 0 <= j < i ==> names@[j]@ == resource_ident(j as nat),
        decreases types@.len() - i,
    {
        names.push(resource_name(i));
        i = i + 1;
    }
    assert(strs(names@) =~= resource_idents(types@.len()));
    nested_tuples(&names, MAX_TUPLE_SIZE)
}

impl ParsedField {
    /// How the field is reached: its name, or its position when it has none.
    pub fn accessor(&self) -> (r: String)
        ensures
            r@ == accessor(*self),
    {
        match &self.ident {
            Some(name) => name.clone(),
            None => {
                let mut out = String::new();
                push_decimal(&mut out, self.index_in_structure);
                out
            },
        }
    }
}

fn function_code(
    pattern: &String,
    metadata: &TimeTrackingMetadata,
    u: UpdateType,
    body: &String,
) -> (r: String)
    ensures
        r@ == function_text(
            pattern@,
            metadata.bevy_time_path@,
            metadata.bevy_ecs_path@,
            u,
            body@,
        ),
{
    let mut out = owned("fn ");
    out.append(update_fn_name(u));
    out.append("<'a: 'b, 'b>(&mut self, ");
    out.append(pattern.as_str());
    out.append(": &'b <<Self as ");
    out.append(metadata.bevy_time_path.as_str());
    out.append("::TimeTracking>::");
    out.append(res_assoc_name(u));
    out.append("<'a> as ");
    out.append(metadata.bevy_ecs_path.as_str());
    out.append("::system::SystemParam>::Item<'_, '_>) { ");
    out.append(body.as_str());
    out.append(" }");
    out
}

fn impl_code(metadata: &TimeTrackingMetadata, consts: &String, functions: &String) -> (r: String)
    ensures
        r@ == impl_text(*metadata, consts@, functions@),
{
    let mut out = owned("impl");
    out.append(metadata.impl_generics.as_str());
    out.append(" ");
    out.append(metadata.bevy_time_path.as_str());
    out.append("::TimeTracking for ");
    out.append(metadata.type_ident.as_str());
    out.append(metadata.ty_generics.as_str());
    out.append(" ");
    out.append(metadata.where_clause.as_str());
    out.append(" { ");
    out.append(consts.as_str());
    out.append(" ");
    out.append(functions.as_str());
    out.append(" }");
    out
}

/// Relates the bindings of `fs` to their dispatch statements.
proof fn lemma_bindings_dispatch(
    fs: Seq<ParsedField>,
    t: Seq<Seq<char>>,
    tp: Seq<char>,
    u: UpdateType,
    in_variant: bool,
)
    ensures
        forall|k: int|
            0 <= k < bindings_of(fs, t).len() ==> {
                let b = #[trigger] bindings_of(fs, t)[k];
                &&& 0 <= b.1 < fs.len()
                &&& !fs[b.1].ignored
                &&& b.0 == slot_of(t, fs[b.1].ty@)
            },
        bindings_of(fs, t).map_values(|b: (int, int)| dispatch(fs[b.1], t, tp, u, in_variant))
            == dispatches(fs, t, tp, u, in_variant),
    decreases fs.len(),
{
    if fs.len() > 0 {
        let p = fs.drop_last();
        lemma_bindings_dispatch(p, t, tp, u, in_variant);
        let bp = bindings_of(p, t);
        assert(bp.map_values(|b: (int, int)| dispatch(fs[b.1], t, tp, u, in_variant)) =~= bp.map_values(
            |b: (int, int)| dispatch(p[b.1], t, tp, u, in_variant),
        )) by {
            assert forall|k: int| 0 <= k < bp.len() implies fs[bp[k].1] == p[bp[k].1] by {
                let b = bp[k];
            }
        }
        if !fs.last().ignored {
            assert(bindings_of(fs, t).map_values(
                |b: (int, int)| dispatch(fs[b.1], t, tp, u, in_variant),
            ) =~= bp.map_values(|b: (int, int)| dispatch(fs[b.1], t, tp, u, in_variant)).push(
                dispatch(fs.last(), t, tp, u, in_variant),
            ));
        }
    }
}

/// The dispatch statements of the tracked fields, in field order.
fn dispatch_statements(
    fields: &Vec<ParsedField>,
    types: &Vec<String>,
    time_path: &String,
    u: UpdateType,
    in_variant: bool,
) -> (r: Vec<String>)
    requires
        distinct(strs(types@)),
        forall|i: int|
            0 <= i < fields@.len() && !fields@[i].ignored ==> strs(types@).contains(
                #[trigger] fields@[i].ty@,
            ),
    ensures
        strs(r@) == dispatches(fields@, strs(types@), time_path@, u, in_variant),
{
    let bindings = match_fields_to_types(fields, types);
    let ghost bv = binding_view(bindings@);
    let ghost t = strs(types@);
    let ghost fs = fields@;
    proof {
        lemma_bindings_dispatch(fs, t, time_path@, u, in_variant);
    }
    let mut stmts: Vec<String> = Vec::new();
    let mut k: usize = 0;
    while k < bindings.len()
        invariant
            k <= bindings@.len(),
            bv == binding_view(bindings@),
            bv == bindings_of(fs, t),
            t == strs(types@),
            fs == fields@,
            forall|j: int|
                0 <= j < fs.len() && !fs[j].ignored ==> t.contains(#[trigger] fs[j].ty@),
            forall|j: int|
                0 <= j < bindings@.len() ==> bindings@[j].0 < types@.len() && bindings@[j].1
                    < fs.len(),
            forall|j: int|
                0 <= j < bv.len() ==> {
                    let b = #[trigger] bv[j];
                    &&& 0 <= b.1 < fs.len()
                    &&& !fs[b.1].ignored
                    &&& b.0 == slot_of(t, fs[b.1].ty@)
                },
            stmts@.len() == k,
            forall|j: int|
                0 <= j < k ==> stmts@[j]@ == dispatch(fs[bv[j].1], t, time_path@, u, in_variant),
        decreases bindings@.len() - k,
    {
        let (slot, index) = bindings[k];
        let field = &fields[index];
        proof {
            assert(bv[k as int] == (slot as int, index as int));
            assert(t.contains(fs[index as int].ty@));
            let w = choose|w: int| 0 <= w < t.len() && t[w] == fs[index as int].ty@;
            assert(t[slot as int] == fs[index as int].ty@);
        }
        let mut stmt = qualify(&types[slot], time_path, update_fn_name(u));
        if in_variant {
            stmt.append("(");
            stmt.append(field_name(field.index_in_structure).as_str());
            stmt.append(", &");
            stmt.append(resource_name(slot).as_str());
            stmt.append("); ");
        } else {
            stmt.append("(&mut self.");
            stmt.append(field.accessor().as_str());
            stmt.append(", &");
            stmt.append(resource_name(slot).as_str());
            stmt.append(")");
        }
        stmts.push(stmt);
        k = k + 1;
    }
    assert(strs(stmts@) =~= bv.map_values(
        |b: (int, int)| dispatch(fs[b.1], t, time_path@, u, in_variant),
    ));
    stmts
}

/// The impl for a record: one dispatch statement per tracked field and phase,
/// each passing the resource of its type's slot.
pub fn generate_struct_impl(data: &TimeTrackingStruct, metadata: &TimeTrackingMetadata) -> (r:
    String)
    ensures
        r@ == struct_impl(data.fields@, *metadata),
{
    let ghost fs = data.fields@;
    let mut unique_types: Vec<String> = Vec::new();
    assert(strs(unique_types@) =~= Seq::<Seq<char>>::empty());
    collect_unique_types(&data.fields, &mut unique_types);
    proof {
        lemma_struct_table(fs);
    }
    let time_path = &metadata.bevy_time_path;
    let time_res_fields = generate_resource_fields(&unique_types);
    let first_fields = dispatch_statements(
        &data.fields,
        &unique_types,
        time_path,
        UpdateType::First,
        false,
    );
    let fixed_fields = dispatch_statements(
        &data.fields,
        &unique_types,
        time_path,
        UpdateType::Fixed,
        false,
    );
    let first_body = join_strings(&first_fields, "; ");
    let fixed_body = join_strings(&fixed_fields, "; ");
    let mut functions = function_code(&time_res_fields, metadata, UpdateType::First, &first_body);
    functions.append(" ");
    functions.append(
        function_code(&time_res_fields, metadata, UpdateType::Fixed, &fixed_body).as_str(),
    );
    let bounds = generate_constants_and_assoc_types(&unique_types, metadata);
    impl_code(metadata, &bounds, &functions)
}

fn destructure_code(v: &EnumVariant) -> (r: String)
    ensures
        r@ == destructure(v.model()),
{
    let ghost expected = destructure_parts(v.model());
    let mut parts: Vec<String> = Vec::new();
    let mut i: usize = 0;
    while i < v.fields.len()
        invariant
            i <= v.fields@.len(),
            expected == destructure_parts(v.model()),
            parts@.len() == i,
            forall|j: int| 0 <= j < i ==> parts@[j]@ == expected[j],
        decreases v.fields@.len() - i,
    {
        let field = &v.fields[i];
        let binding = field_name(field.index_in_structure);
        match v.variant_type {
            FieldsType::Named => {
                let mut part = field.accessor();
                part.append(": ");
                part.append(binding.as_str());
                parts.push(part);
            },
            _ => {
                parts.push(binding);
            },
        }
        i = i + 1;
    }
    assert(strs(parts@) =~= expected);
    match v.variant_type {
        FieldsType::Unit => String::new(),
        FieldsType::Unnamed => {
            let mut out = owned("(");
            out.append(join_strings(&parts, ", ").as_str());
            out.append(")");
            out
        },
        FieldsType::Named => {
            let mut out = owned("{ ");
            out.append(join_strings(&parts, ", ").as_str());
            out.append(" }");
            out
        },
    }
}

fn enum_arm_code(
    name: &String,
    v: &EnumVariant,
    types: &Vec<String>,
    time_path: &String,
    u: UpdateType,
) -> (r: String)
    requires
        distinct(strs(types@)),
        forall|i: int|
            0 <= i < v.fields@.len() && !v.fields@[i].ignored ==> strs(types@).contains(
                #[trigger] v.fields@[i].ty@,
            ),
    ensures
        r@ == enum_arm(name@, v.model(), strs(types@), time_path@, u),
{
    let stmts = dispatch_statements(&v.fields, types, time_path, u, true);
    let mut out = name.clone();
    out.append("::");
    out.append(v.ident.as_str());
    out.append(" ");
    out.append(destructure_code(v).as_str());
    out.append(" => { ");
    out.append(concat_strings(&stmts).as_str());
    out.append("} ");
    out
}

/// The match arms of all variants for one phase. Each arm destructures its
/// variant into positional bindings `field_<i>` and dispatches every tracked
/// field with the resource of its type's slot in the shared table.
pub fn generate_enum_variants_matches(
    variants: &Vec<EnumVariant>,
    types: &Vec<String>,
    metadata: &TimeTrackingMetadata,
    update_type: UpdateType,
) -> (r: String)
    requires
        distinct(strs(types@)),
        forall|v: int, i: int|
            0 <= v < variants@.len() && 0 <= i < variants@[v].fields@.len()
                && !variants@[v].fields@[i].ignored ==> strs(types@).contains(
                #[trigger] variants@[v].fields@[i].ty@,
            ),
    ensures
        r@ == enum_matches(
            metadata.type_ident@,
            models(variants@),
            strs(types@),
            metadata.bevy_time_path@,
            update_type,
        ),
{
    let ghost t = strs(types@);
    let ghost name = metadata.type_ident@;
    let ghost tp = metadata.bevy_time_path@;
    let mut arms: Vec<String> = Vec::new();
    let mut i: usize = 0;
    while i < variants.len()
        invariant
            i <= variants@.len(),
            t == strs(types@),
            name == metadata.type_ident@,
            tp == metadata.bevy_time_path@,
            distinct(t),
            forall|v: int, f: int|
                0 <= v < variants@.len() && 0 <= f < variants@[v].fields@.len()
                    && !variants@[v].fields@[f].ignored ==> t.contains(
                    #[trigger] variants@[v].fields@[f].ty@,
                ),
            arms@.len() == i,
            forall|j: int|
                0 <= j < i ==> arms@[j]@ == enum_arm(name, variants@[j].model(), t, tp, update_type),
        decreases variants@.len() - i,
    {
        let variant = &variants[i];
        assert forall|f: int|
            0 <= f < variant.fields@.len() && !variant.fields@[f].ignored implies t.contains(
            #[trigger] variant.fields@[f].ty@,
        ) by {
            assert(variants@[i as int].fields@[f] == variant.fields@[f]);
        }
        let arm = enum_arm_code(
            &metadata.type_ident,
            variant,
            types,
            &metadata.bevy_time_path,
            update_type,
        );
        assert(arm@ == enum_arm(name, variants@[i as int].model(), t, tp, update_type));
        arms.push(arm);
        i = i + 1;
    }
    assert(strs(arms@) =~= models(variants@).map_values(
        |v: VariantModel| enum_arm(name, v, t, tp, update_type),
    ));
    let mut out = owned("{ ");
    out.append(concat_strings(&arms).as_str());
    out.append("}");
    out
}

/// The impl for a tagged union: one table of distinct types over all
/// variants, and a match over the variants in each routine.
pub fn generate_enum_impl(data: &TimeTrackingEnum, metadata: &TimeTrackingMetadata) -> (r: String)
    ensures
        r@ == enum_impl(models(data.variants@), *metadata),
{
    let ghost vs = data.variants@;
    let mut unique_types: Vec<String> = Vec::new();
    assert(strs(unique_types@) =~= Seq::<Seq<char>>::empty());
    let mut i: usize = 0;
    while i < data.variants.len()
        invariant
            i <= vs.len(),
            vs == data.variants@,
            strs(unique_types@) == enum_table(models(vs.take(i as int))),
            distinct(strs(unique_types@)),
        decreases vs.len() - i,
    {
        assert(models(vs.take(i + 1)).drop_last() =~= models(vs.take(i as int)));
        collect_unique_types(&data.variants[i].fields, &mut unique_types);
        i = i + 1;
    }
    assert(vs.take(i as int) =~= vs);
    proof {
        lemma_enum_table(models(vs));
        assert forall|v: int, f: int|
            0 <= v < vs.len() && 0 <= f < vs[v].fields@.len() && !vs[v].fields@[f].ignored
                implies strs(unique_types@).contains(#[trigger] vs[v].fields@[f].ty@) by {
            assert(models(vs)[v].fields == vs[v].fields@);
        }
    }
    let time_res_fields = generate_resource_fields(&unique_types);
    let mut first_body = owned("match self ");
    first_body.append(
        generate_enum_variants_matches(
            &data.variants,
            &unique_types,
            metadata,
            UpdateType::First,
        ).as_str(),
    );
    let mut fixed_body = owned("match self ");
    fixed_body.append(
        generate_enum_variants_matches(
            &data.variants,
            &unique_types,
            metadata,
            UpdateType::Fixed,
        ).as_str(),
    );
    let mut functions = function_code(&time_res_fields, metadata, UpdateType::First, &first_body);
    functions.append(" ");
    functions.append(
        function_code(&time_res_fields, metadata, UpdateType::Fixed, &fixed_body).as_str(),
    );
    let bounds = generate_constants_and_assoc_types(&unique_types, metadata);
    impl_code(metadata, &bounds, &functions)
}

/// The impl generated for a declaration that parses, with the given paths
/// of the time and ECS crates.
pub open spec fn derived_code(input: Declaration, tp: String, ep: String) -> Seq<char> {
    let m = TimeTrackingMetadata {
        type_ident: input.ident,
        impl_generics: input.impl_generics,
        ty_generics: input.ty_generics,
        where_clause: input.where_clause,
        bevy_time_path: tp,
        bevy_ecs_path: ep,
    };
    match input.data {
        DeclData::Struct(f) => struct_impl(parsed_fields(f.fields@), m),
        DeclData::Enum(vs) => enum_impl(parsed_variants(vs@), m),
        DeclData::Union => Seq::empty(),
    }
}

/// Generates the trait implementation for `input` as source text, or the
/// first error found while parsing it.
pub fn derive_time_tracking(input: &Declaration, bevy_time_path: String, bevy_ecs_path: String) -> (r:
    Result<String, DeriveError>)
    ensures
        match r {
            Ok(code) => declaration_error(*input) is None && code@ == derived_code(
                *input,
                bevy_time_path,
                bevy_ecs_path,
            ),
            Err(e) => declaration_error(*input) == Some(e),
        },
{
    let ghost tp = bevy_time_path;
    let ghost ep = bevy_ecs_path;
    let derive = match TimeTrackingDerive::from_input(input, bevy_time_path, bevy_ecs_path) {
        Ok(d) => d,
        Err(e) => {
            return Err(e);
        },
    };
    match &derive.ty {
        TimeTrackingType::Struct(data) => {
            proof {
                lemma_fields_parsed_as(data.fields@, input.data->Struct_0.fields@);
            }
            Ok(generate_struct_impl(data, &derive.metadata))
        },
        TimeTrackingType::TupleStruct(data) => {
            proof {
                lemma_fields_parsed_as(data.fields@, input.data->Struct_0.fields@);
            }
            Ok(generate_struct_impl(data, &derive.metadata))
        },
        TimeTrackingType::Enum(data) => {
            proof {
                lemma_variants_parsed_as(data.variants@, input.data->Enum_0@);
            }
            Ok(generate_enum_impl(data, &derive.metadata))
        },
    }
}

} // verus!
