use time_tracking::codegen::{
    derive_time_tracking, generate_constants_and_assoc_types, generate_resource_fields,
};
use time_tracking::dedup::{collect_unique_types, match_fields_to_types};
use time_tracking::packer::{nested_tuples, MAX_TUPLE_SIZE};
use time_tracking::shape::{
    AttrForm, Attribute, DeclData, Declaration, DeriveError, ErrorKind, FieldDecl, FieldsDecl,
    FieldsType, ParsedField, TimeTrackingDerive, TimeTrackingMetadata, TimeTrackingType,
    VariantDecl,
};

fn s(text: &str) -> String {
    text.to_string()
}

fn ignore_marker(span: usize) -> Attribute {
    Attribute { path: s("time_tracking"), form: AttrForm::List(vec![s("ignore")]), span }
}

fn named(name: &str, ty: &str, attrs: Vec<Attribute>) -> FieldDecl {
    FieldDecl { ident: Some(s(name)), ty: s(ty), attrs }
}

fn positional(ty: &str, attrs: Vec<Attribute>) -> FieldDecl {
    FieldDecl { ident: None, ty: s(ty), attrs }
}

fn declaration(name: &str, data: DeclData) -> Declaration {
    Declaration {
        ident: s(name),
        impl_generics: String::new(),
        ty_generics: String::new(),
        where_clause: String::new(),
        data,
        span: 7,
    }
}

fn record(name: &str, kind: FieldsType, fields: Vec<FieldDecl>) -> Declaration {
    declaration(name, DeclData::Struct(FieldsDecl { kind, fields }))
}

fn variant(name: &str, kind: FieldsType, fields: Vec<FieldDecl>) -> VariantDecl {
    VariantDecl { ident: s(name), fields: FieldsDecl { kind, fields } }
}

fn generate(d: &Declaration) -> Result<String, DeriveError> {
    derive_time_tracking(d, s("bevy_time"), s("bevy_ecs"))
}

fn parsed(ty: &str, ignored: bool, index: usize) -> ParsedField {
    ParsedField { ignored, index_in_structure: index, ident: None, ty: s(ty) }
}

fn metadata() -> TimeTrackingMetadata {
    TimeTrackingMetadata {
        type_ident: s("T"),
        impl_generics: String::new(),
        ty_generics: String::new(),
        where_clause: String::new(),
        bevy_time_path: s("p"),
        bevy_ecs_path: s("e"),
    }
}

#[test]
fn repeated_types_share_one_slot() {
    let fields = vec![parsed("A", false, 0), parsed("A", false, 1), parsed("B", false, 2), parsed("A", false, 3)];
    let mut table = Vec::new();
    collect_unique_types(&fields, &mut table);
    assert_eq!(table, vec![s("A"), s("B")]);
    let bindings = match_fields_to_types(&fields, &table);
    assert_eq!(bindings, vec![(0, 0), (0, 1), (1, 2), (0, 3)]);
}

#[test]
fn repeated_types_in_generated_record() {
    let d = record(
        "R",
        FieldsType::Named,
        vec![named("a", "A", vec![]), named("b", "A", vec![]), named("c", "B", vec![]), named("d", "A", vec![])],
    );
    let code = generate(&d).unwrap();
    assert!(code.contains("type TimeRes<'w> = (<A as bevy_time::TimeTracking>::TimeRes<'w>, <B as bevy_time::TimeTracking>::TimeRes<'w>);"));
    assert!(code.contains("(resource_0, resource_1): &'b"));
    assert!(code.contains("<A as bevy_time::TimeTracking>::update_first(&mut self.d, &resource_0)"));
    assert!(code.contains("<B as bevy_time::TimeTracking>::update_first(&mut self.c, &resource_1)"));
    assert!(!code.contains("resource_2"));
}

#[test]
fn ignored_fields_are_skipped_by_the_table() {
    let fields = vec![parsed("A", false, 0), parsed("C", true, 1), parsed("B", false, 2)];
    let mut table = Vec::new();
    collect_unique_types(&fields, &mut table);
    assert_eq!(table, vec![s("A"), s("B")]);
    assert_eq!(match_fields_to_types(&fields, &table), vec![(0, 0), (1, 2)]);
}

#[test]
fn ignored_field_leaves_the_impl_unchanged() {
    let with_ignored = record(
        "Test",
        FieldsType::Named,
        vec![
            named("a", "UpdatingTimer<Virtual>", vec![]),
            named("have_fun", "bool", vec![ignore_marker(3)]),
            named("b", "UpdatingTimer<Real>", vec![]),
        ],
    );
    let without = record(
        "Test",
        FieldsType::Named,
        vec![named("a", "UpdatingTimer<Virtual>", vec![]), named("b", "UpdatingTimer<Real>", vec![])],
    );
    let code = generate(&with_ignored).unwrap();
    assert_eq!(code, generate(&without).unwrap());
    assert!(!code.contains("bool as"));
    assert!(!code.contains("have_fun"));
}

#[test]
fn exact_impl_for_a_record() {
    let d = record(
        "Test",
        FieldsType::Named,
        vec![
            named("a", "UpdatingTimer<Virtual>", vec![]),
            named("b", "UpdatingTimer<Real>", vec![]),
            named("c", "UpdatingTimer<Virtual>", vec![]),
            named("have_fun", "bool", vec![ignore_marker(1)]),
        ],
    );
    let v = "<UpdatingTimer<Virtual> as bevy_time::TimeTracking>";
    let r = "<UpdatingTimer<Real> as bevy_time::TimeTracking>";
    let expected = format!(
        "impl bevy_time::TimeTracking for Test  {{ \
const NEEDS_FIXED_UPDATE: bool = ({v}::NEEDS_FIXED_UPDATE || {r}::NEEDS_FIXED_UPDATE); \
const NEEDS_FIRST_UPDATE: bool = ({v}::NEEDS_FIRST_UPDATE || {r}::NEEDS_FIRST_UPDATE); \
type TimeRes<'w> = ({v}::TimeRes<'w>, {r}::TimeRes<'w>); \
type TimeResFixed<'w> = ({v}::TimeResFixed<'w>, {r}::TimeResFixed<'w>); \
fn update_first<'a: 'b, 'b>(&mut self, (resource_0, resource_1): &'b <<Self as bevy_time::TimeTracking>::TimeRes<'a> as bevy_ecs::system::SystemParam>::Item<'_, '_>) {{ \
{v}::update_first(&mut self.a, &resource_0); {r}::update_first(&mut self.b, &resource_1); {v}::update_first(&mut self.c, &resource_0) }} \
fn update_fixed<'a: 'b, 'b>(&mut self, (resource_0, resource_1): &'b <<Self as bevy_time::TimeTracking>::TimeResFixed<'a> as bevy_ecs::system::SystemParam>::Item<'_, '_>) {{ \
{v}::update_fixed(&mut self.a, &resource_0); {r}::update_fixed(&mut self.b, &resource_1); {v}::update_fixed(&mut self.c, &resource_0) }} }}"
    );
    assert_eq!(generate(&d).unwrap(), expected);
}

#[test]
fn tuple_record_uses_positions() {
    let d = record("TestTuple", FieldsType::Unnamed, vec![positional("u64", vec![]), positional("u32", vec![])]);
    let code = generate(&d).unwrap();
    assert!(code.contains("<u64 as bevy_time::TimeTracking>::update_fixed(&mut self.0, &resource_0); <u32 as bevy_time::TimeTracking>::update_fixed(&mut self.1, &resource_1)"));
}

#[test]
fn generics_are_carried_into_the_impl() {
    let mut d = record("W", FieldsType::Named, vec![named("t", "T", vec![])]);
    d.impl_generics = s("<T: Clone>");
    d.ty_generics = s("<T>");
    d.where_clause = s("where T: Copy");
    let code = generate(&d).unwrap();
    assert!(code.starts_with("impl<T: Clone> bevy_time::TimeTracking for W<T> where T: Copy { "));
}

#[test]
fn unit_record_is_the_empty_case() {
    let d = record("Instance", FieldsType::Unit, vec![]);
    let expected = "impl bevy_time::TimeTracking for Instance  { \
const NEEDS_FIXED_UPDATE: bool = false; const NEEDS_FIRST_UPDATE: bool = false; \
type TimeRes<'w> = (); type TimeResFixed<'w> = (); \
fn update_first<'a: 'b, 'b>(&mut self, (): &'b <<Self as bevy_time::TimeTracking>::TimeRes<'a> as bevy_ecs::system::SystemParam>::Item<'_, '_>) {  } \
fn update_fixed<'a: 'b, 'b>(&mut self, (): &'b <<Self as bevy_time::TimeTracking>::TimeResFixed<'a> as bevy_ecs::system::SystemParam>::Item<'_, '_>) {  } }";
    assert_eq!(generate(&d).unwrap(), expected);
}

#[test]
fn all_ignored_record_is_the_empty_case() {
    let d = record("Only", FieldsType::Named, vec![named("x", "bool", vec![ignore_marker(0)])]);
    let empty = record("Only", FieldsType::Unit, vec![]);
    assert_eq!(generate(&d).unwrap(), generate(&empty).unwrap());
}

#[test]
fn union_of_unit_variants_is_the_empty_case() {
    let d = declaration("E", DeclData::Enum(vec![variant("A", FieldsType::Unit, vec![]), variant("B", FieldsType::Unit, vec![])]));
    let code = generate(&d).unwrap();
    assert!(code.contains("const NEEDS_FIXED_UPDATE: bool = false; const NEEDS_FIRST_UPDATE: bool = false; type TimeRes<'w> = (); type TimeResFixed<'w> = ();"));
    assert!(code.contains("{ match self { E::A  => { } E::B  => { } } }"));
}

fn names(n: usize, prefix: &str) -> Vec<String> {
    (0..n).map(|i| format!("{prefix}{i}")).collect()
}

#[test]
fn packing_zero_elements_gives_the_empty_group() {
    assert_eq!(nested_tuples(&Vec::new(), MAX_TUPLE_SIZE), "()");
}

#[test]
fn packing_small_lists_gives_one_group() {
    assert_eq!(nested_tuples(&names(1, "x"), MAX_TUPLE_SIZE), "(x0)");
    assert_eq!(nested_tuples(&names(3, "x"), MAX_TUPLE_SIZE), "(x0, x1, x2)");
    assert_eq!(nested_tuples(&names(15, "x"), MAX_TUPLE_SIZE), format!("({})", names(15, "x").join(", ")));
}

#[test]
fn packing_sixteen_elements_nests_the_last() {
    let expected = format!("({}, (x15))", names(15, "x").join(", "));
    assert_eq!(nested_tuples(&names(16, "x"), MAX_TUPLE_SIZE), expected);
}

#[test]
fn packing_seventeen_elements_nests_once() {
    let expected = format!("({}, (x15, x16))", names(15, "x").join(", "));
    assert_eq!(nested_tuples(&names(17, "x"), MAX_TUPLE_SIZE), expected);
}

#[test]
fn packing_thirty_two_elements_nests_twice() {
    let all = names(32, "x");
    let expected = format!("({}, ({}, (x30, x31)))", all[0..15].join(", "), all[15..30].join(", "));
    assert_eq!(nested_tuples(&all, MAX_TUPLE_SIZE), expected);
}

/// The largest number of direct elements of any group in `text`, whose
/// elements hold no commas or parentheses of their own.
fn widest_group(text: &str) -> usize {
    let mut stack: Vec<usize> = Vec::new();
    let mut widest = 0;
    let mut prev = ' ';
    for c in text.chars() {
        match c {
            '(' => stack.push(0),
            ')' => {
                let mut n = stack.pop().unwrap();
                if prev != '(' {
                    n += 1;
                }
                widest = widest.max(n);
            }
            ',' => *stack.last_mut().unwrap() += 1,
            _ => {}
        }
        prev = c;
    }
    widest
}

#[test]
fn no_group_is_wider_than_sixteen() {
    for n in 0..=50 {
        let text = nested_tuples(&names(n, "x"), MAX_TUPLE_SIZE);
        assert!(widest_group(&text) <= 16, "n = {n}: {text}");
    }
    assert_eq!(widest_group(&nested_tuples(&names(40, "x"), MAX_TUPLE_SIZE)), 16);
}

#[test]
fn small_width_nests_in_pairs() {
    assert_eq!(nested_tuples(&names(4, "x"), 2), "(x0, (x1, (x2, (x3))))");
    assert_eq!(nested_tuples(&names(5, "x"), 3), "(x0, x1, (x2, x3, (x4)))");
}

#[test]
fn pattern_and_descriptor_line_up_for_every_count() {
    let mut m = metadata();
    m.bevy_time_path = s("p");
    for n in 0..=33 {
        let types = names(n, "S");
        let pattern = generate_resource_fields(&types);
        let consts = generate_constants_and_assoc_types(&types, &m);
        let start = consts.find("type TimeRes<'w> = ").unwrap() + "type TimeRes<'w> = ".len();
        let end = consts.find("; type TimeResFixed").unwrap();
        let mut descriptor = consts[start..end].to_string();
        for i in (0..n).rev() {
            descriptor = descriptor.replace(&format!("<S{i} as p::TimeTracking>::TimeRes<'w>"), &format!("resource_{i}"));
        }
        assert_eq!(descriptor, pattern, "n = {n}");
    }
}

#[test]
fn dispatch_reads_the_binding_of_its_slot() {
    let fields: Vec<FieldDecl> = (0..20).map(|i| named(&format!("f{i}"), &format!("S{i}"), vec![])).collect();
    let code = generate(&record("Large", FieldsType::Named, fields)).unwrap();
    for i in 0..20 {
        assert!(code.contains(&format!("<S{i} as bevy_time::TimeTracking>::update_first(&mut self.f{i}, &resource_{i})")));
    }
    assert!(code.contains("resource_14, (resource_15, resource_16, resource_17, resource_18, resource_19)): &'b"));
}

#[test]
fn variants_sharing_a_field_name_get_positional_bindings() {
    let d = declaration(
        "E",
        DeclData::Enum(vec![
            variant("A", FieldsType::Named, vec![named("x", "u32", vec![])]),
            variant("B", FieldsType::Named, vec![named("x", "f64", vec![])]),
        ]),
    );
    let code = generate(&d).unwrap();
    assert!(code.contains("E::A { x: field_0 } => { <u32 as bevy_time::TimeTracking>::update_first(field_0, &resource_0); } "));
    assert!(code.contains("E::B { x: field_0 } => { <f64 as bevy_time::TimeTracking>::update_first(field_0, &resource_1); } "));
    assert!(!code.contains("(x,"));
}

#[test]
fn exact_arms_for_a_mixed_union() {
    let d = declaration(
        "TestEnum",
        DeclData::Enum(vec![
            variant("Hello", FieldsType::Unit, vec![]),
            variant("Variant", FieldsType::Named, vec![named("a", "u32", vec![]), named("b", "f64", vec![ignore_marker(2)])]),
            variant("Tuple", FieldsType::Unnamed, vec![positional("bool", vec![]), positional("bool", vec![ignore_marker(4)])]),
        ]),
    );
    let code = generate(&d).unwrap();
    let expected = "match self { TestEnum::Hello  => { } \
TestEnum::Variant { a: field_0, b: field_1 } => { <u32 as bevy_time::TimeTracking>::update_fixed(field_0, &resource_0); } \
TestEnum::Tuple (field_0, field_1) => { <bool as bevy_time::TimeTracking>::update_fixed(field_0, &resource_1); } }";
    assert!(code.contains(expected), "{code}");
    assert!(code.contains("(resource_0, resource_1): &'b <<Self as bevy_time::TimeTracking>::TimeResFixed<'a>"));
    assert!(code.contains("(resource_0, resource_1): &'b <<Self as bevy_time::TimeTracking>::TimeRes<'a>"));
    assert!(!code.contains("f64 as"));
}

#[test]
fn union_table_spans_all_variants() {
    let d = declaration(
        "E",
        DeclData::Enum(vec![
            variant("A", FieldsType::Unnamed, vec![positional("u32", vec![]), positional("u8", vec![])]),
            variant("B", FieldsType::Unnamed, vec![positional("u32", vec![])]),
        ]),
    );
    let code = generate(&d).unwrap();
    assert!(code.contains("E::B (field_0) => { <u32 as bevy_time::TimeTracking>::update_first(field_0, &resource_0); }"));
    assert!(code.contains("E::A (field_0, field_1) => { <u32 as bevy_time::TimeTracking>::update_first(field_0, &resource_0); <u8 as bevy_time::TimeTracking>::update_first(field_1, &resource_1); }"));
}

fn name_value_marker(span: usize) -> Attribute {
    Attribute { path: s("time_tracking"), form: AttrForm::NameValue, span }
}

fn valued_marker(span: usize) -> Attribute {
    Attribute { path: s("time_tracking"), form: AttrForm::List(vec![s("ignore"), s("="), s("1")]), span }
}

#[test]
fn name_value_marker_is_rejected() {
    let d = record("R", FieldsType::Named, vec![named("a", "A", vec![]), named("b", "B", vec![name_value_marker(42)])]);
    assert_eq!(generate(&d), Err(DeriveError { kind: ErrorKind::NameValueAttribute, span: 42 }));
    let e = declaration("E", DeclData::Enum(vec![variant("V", FieldsType::Unnamed, vec![positional("A", vec![name_value_marker(9)])])]));
    assert_eq!(generate(&e), Err(DeriveError { kind: ErrorKind::NameValueAttribute, span: 9 }));
}

#[test]
fn marker_with_a_value_is_rejected() {
    let d = record("R", FieldsType::Named, vec![named("a", "A", vec![valued_marker(5)])]);
    assert_eq!(generate(&d), Err(DeriveError { kind: ErrorKind::ExpectedIgnore, span: 5 }));
    let e = declaration("E", DeclData::Enum(vec![variant("V", FieldsType::Named, vec![named("a", "A", vec![valued_marker(6)])])]));
    assert_eq!(generate(&e), Err(DeriveError { kind: ErrorKind::ExpectedIgnore, span: 6 }));
}

#[test]
fn bare_marker_is_rejected() {
    let bare = Attribute { path: s("time_tracking"), form: AttrForm::Path, span: 11 };
    let d = record("R", FieldsType::Named, vec![named("a", "A", vec![bare])]);
    assert_eq!(generate(&d), Err(DeriveError { kind: ErrorKind::PathAttribute, span: 11 }));
}

#[test]
fn other_marker_arguments_are_rejected() {
    for tokens in [vec![], vec![s("skip")], vec![s("(ignore)")], vec![s("ignore"), s(",")]] {
        let attr = Attribute { path: s("time_tracking"), form: AttrForm::List(tokens), span: 3 };
        let d = record("R", FieldsType::Named, vec![named("a", "A", vec![attr])]);
        assert_eq!(generate(&d), Err(DeriveError { kind: ErrorKind::ExpectedIgnore, span: 3 }));
    }
}

#[test]
fn first_error_in_declaration_order_is_reported() {
    let d = declaration(
        "E",
        DeclData::Enum(vec![
            variant("A", FieldsType::Named, vec![named("a", "A", vec![]), named("b", "B", vec![valued_marker(20)])]),
            variant("B", FieldsType::Named, vec![named("c", "C", vec![name_value_marker(10)])]),
        ]),
    );
    assert_eq!(generate(&d), Err(DeriveError { kind: ErrorKind::ExpectedIgnore, span: 20 }));
}

#[test]
fn other_attributes_are_not_markers() {
    let doc = Attribute { path: s("doc"), form: AttrForm::NameValue, span: 1 };
    let other = Attribute { path: s("serde"), form: AttrForm::List(vec![s("skip")]), span: 2 };
    let d = record("R", FieldsType::Named, vec![named("a", "A", vec![doc, other])]);
    assert!(generate(&d).unwrap().contains("update_first(&mut self.a, &resource_0)"));
}

#[test]
fn first_marker_decides() {
    let d = record("R", FieldsType::Named, vec![named("a", "A", vec![ignore_marker(1), name_value_marker(2)])]);
    let code = generate(&d).unwrap();
    assert!(code.contains("const NEEDS_FIXED_UPDATE: bool = false;"));
}

#[test]
fn memory_union_is_rejected() {
    let d = declaration("U", DeclData::Union);
    let err = generate(&d).unwrap_err();
    assert_eq!(err, DeriveError { kind: ErrorKind::Union, span: 7 });
    assert_eq!(err.message(), "can't derive `TimeTracking` on a union");
}

#[test]
fn error_messages() {
    let m = |kind| DeriveError { kind, span: 0 }.message();
    assert_eq!(m(ErrorKind::PathAttribute), "`TimeTracking` doesn't support any path attributes");
    assert_eq!(m(ErrorKind::NameValueAttribute), "`TimeTracking` doesn't support any name value attributes");
    assert_eq!(m(ErrorKind::ExpectedIgnore), "expected `ignore`");
}

#[test]
fn parsing_records_positions_and_flags() {
    let d = record("R", FieldsType::Unnamed, vec![positional("A", vec![]), positional("B", vec![ignore_marker(0)])]);
    let parsed = TimeTrackingDerive::from_input(&d, s("t"), s("e")).unwrap();
    assert_eq!(parsed.metadata.type_ident, "R");
    assert_eq!(parsed.metadata.bevy_time_path, "t");
    match parsed.ty {
        TimeTrackingType::Struct(st) => {
            assert_eq!(st.struct_type, FieldsType::Unnamed);
            assert_eq!(st.fields.len(), 2);
            assert!(!st.fields[0].ignored);
            assert!(st.fields[1].ignored);
            assert_eq!(st.fields[1].index_in_structure, 1);
            assert_eq!(st.fields[1].accessor(), "1");
            assert_eq!(st.fields[0].ty, "A");
        }
        _ => panic!("expected a record"),
    }
}

#[test]
fn generation_is_deterministic() {
    let d = record("R", FieldsType::Named, vec![named("a", "A", vec![]), named("b", "B", vec![])]);
    assert_eq!(generate(&d).unwrap(), generate(&d).unwrap());
}
