//! The shape model of a declaration and the parser that builds it, including
//! validation of the per-field ignore marker.

use vstd::prelude::*;
use crate::text::owned;

verus! {

/// The name of the per-field marker attribute.
pub const TIME_TRACKING_ATTRIBUTE: &'static str = "time_tracking";

/// How the fields of a record or variant are accessed.
#[derive(Clone, Copy, Debug, PartialEq, Eq, Structural)]
pub enum FieldsType {
    Named,
    Unnamed,
    Unit,
}

/// The syntactic form of an attribute.
#[derive(Clone, Debug)]
pub enum AttrForm {
    /// `#[name]`
    Path,
    /// `#[name = value]`
    NameValue,
    /// `#[name(...)]`, with the text of each token tree between the parentheses.
    List(Vec<String>),
}

/// One attribute on a field; `span` is a handle on its source location.
#[derive(Clone, Debug)]
pub struct Attribute {
    pub path: String,
    pub form: AttrForm,
    pub span: usize,
}

/// A declared field: its name (none for a positional field), the text of its
/// type expression, and its attributes.
#[derive(Clone, Debug)]
pub struct FieldDecl {
    pub ident: Option<String>,
    pub ty: String,
    pub attrs: Vec<Attribute>,
}

/// The fields of a record or variant.
#[derive(Clone, Debug)]
pub struct FieldsDecl {
    pub kind: FieldsType,
    pub fields: Vec<FieldDecl>,
}

/// A declared variant of a tagged union.
#[derive(Clone, Debug)]
pub struct VariantDecl {
    pub ident: String,
    pub fields: FieldsDecl,
}

/// The body of a declaration.
#[derive(Clone, Debug)]
pub enum DeclData {
    Struct(FieldsDecl),
    Enum(Vec<VariantDecl>),
    /// A memory union, which is not supported.
    Union,
}

/// A declaration as written: its name, its generics split into the three
/// places they appear in an impl, its body, and a handle on its location.
#[derive(Clone, Debug)]
pub struct Declaration {
    pub ident: String,
    pub impl_generics: String,
    pub ty_generics: String,
    pub where_clause: String,
    pub data: DeclData,
    pub span: usize,
}

/// What went wrong while parsing a declaration.
#[derive(Clone, Copy, Debug, PartialEq, Eq, Structural)]
pub enum ErrorKind {
    /// The declaration is a memory union.
    Union,
    /// The marker is written as a bare path.
    PathAttribute,
    /// The marker is written in name-value form.
    NameValueAttribute,
    /// The marker's argument list is not exactly `ignore`.
    ExpectedIgnore,
}

/// A parse failure, anchored at a source location handle.
#[derive(Clone, Copy, Debug, PartialEq, Eq, Structural)]
pub struct DeriveError {
    pub kind: ErrorKind,
    pub span: usize,
}

impl DeriveError {
    /// The diagnostic message for this error.
    pub fn message(&self) -> (r: &'static str)
        ensures
            r@ == error_message(self.kind),
    {
        match self.kind {
            ErrorKind::Union => "can't derive `TimeTracking` on a union",
            ErrorKind::PathAttribute => "`TimeTracking` doesn't support any path attributes",
            ErrorKind::NameValueAttribute =>
                "`TimeTracking` doesn't support any name value attributes",
            ErrorKind::ExpectedIgnore => "expected `ignore`",
        }
    }
}

/// The diagnostic message for each kind of error.
pub open spec fn error_message(k: ErrorKind) -> Seq<char> {
    match k {
        ErrorKind::Union => "can't derive `TimeTracking` on a union"@,
        ErrorKind::PathAttribute => "`TimeTracking` doesn't support any path attributes"@,
        ErrorKind::NameValueAttribute =>
            "`TimeTracking` doesn't support any name value attributes"@,
        ErrorKind::ExpectedIgnore => "expected `ignore`"@,
    }
}

/// A parsed field. `index_in_structure` is the field's position within its
/// record or variant, which is also its accessor when it has no name.
#[derive(Clone, Debug)]
pub struct ParsedField {
    pub ignored: bool,
    pub index_in_structure: usize,
    pub ident: Option<String>,
    pub ty: String,
}

/// A parsed variant of a tagged union.
#[derive(Clone, Debug)]
pub struct EnumVariant {
    pub variant_type: FieldsType,
    pub ident: String,
    pub fields: Vec<ParsedField>,
}

/// A parsed record.
#[derive(Clone, Debug)]
pub struct TimeTrackingStruct {
    pub struct_type: FieldsType,
    pub fields: Vec<ParsedField>,
}

/// A parsed tagged union, its variants in declaration order.
#[derive(Clone, Debug)]
pub struct TimeTrackingEnum {
    pub variants: Vec<EnumVariant>,
}

/// The normalized shape of a declaration.
#[derive(Clone, Debug)]
pub enum TimeTrackingType {
    Struct(TimeTrackingStruct),
    TupleStruct(TimeTrackingStruct),
    Enum(TimeTrackingEnum),
}

/// What the generated impl needs to know beyond the shape: the type's name,
/// its generics, and the paths of the time and ECS crates.
#[derive(Clone, Debug)]
pub struct TimeTrackingMetadata {
    pub type_ident: String,
    pub impl_generics: String,
    pub ty_generics: String,
    pub where_clause: String,
    pub bevy_time_path: String,
    pub bevy_ecs_path: String,
}

/// A parsed declaration.
#[derive(Clone, Debug)]
pub struct TimeTrackingDerive {
    pub metadata: TimeTrackingMetadata,
    pub ty: TimeTrackingType,
}

/// A variant as the generator sees it: its access kind, name and fields.
pub struct VariantModel {
    pub variant_type: FieldsType,
    pub ident: Seq<char>,
    pub fields: Seq<ParsedField>,
}

impl EnumVariant {
    /// The variant with its strings and fields as plain values.
    pub open spec fn model(self) -> VariantModel {
        VariantModel { variant_type: self.variant_type, ident: self.ident@, fields: self.fields@ }
    }
}

/// The models of `vs`, in order.
pub open spec fn models(vs: Seq<EnumVariant>) -> Seq<VariantModel> {
    vs.map_values(|v: EnumVariant| v.model())
}

/// The marker's argument list is exactly the keyword `ignore`.
pub open spec fn is_ignore_keyword(tokens: Seq<String>) -> bool {
    tokens.len() == 1 && tokens[0]@ == "ignore"@
}

/// What the attributes of a field say: the first marker attribute decides,
/// and no marker means the field is tracked.
pub open spec fn marker_of(attrs: Seq<Attribute>) -> Result<bool, DeriveError>
    decreases attrs.len(),
{
    if attrs.len() == 0 {
        Ok(false)
    } else if attrs[0].path@ == "time_tracking"@ {
        match attrs[0].form {
            AttrForm::Path => Err(DeriveError { kind: ErrorKind::PathAttribute, span: attrs[0].span }),
            AttrForm::NameValue => Err(
                DeriveError { kind: ErrorKind::NameValueAttribute, span: attrs[0].span },
            ),
            AttrForm::List(tokens) => if is_ignore_keyword(tokens@) {
                Ok(true)
            } else {
                Err(DeriveError { kind: ErrorKind::ExpectedIgnore, span: attrs[0].span })
            },
        }
    } else {
        marker_of(attrs.drop_first())
    }
}

/// The first malformed marker among `fields`, in declaration order.
pub open spec fn fields_error(fields: Seq<FieldDecl>) -> Option<DeriveError>
    decreases fields.len(),
{
    if fields.len() == 0 {
        None
    } else {
        match marker_of(fields[0].attrs@) {
            Err(e) => Some(e),
            Ok(_) => fields_error(fields.drop_first()),
        }
    }
}

/// The first malformed marker among the fields of `variants`.
pub open spec fn variants_error(variants: Seq<VariantDecl>) -> Option<DeriveError>
    decreases variants.len(),
{
    if variants.len() == 0 {
        None
    } else {
        match fields_error(variants[0].fields.fields@) {
            Some(e) => Some(e),
            None => variants_error(variants.drop_first()),
        }
    }
}

/// Why `input` cannot be parsed, if it cannot.
pub open spec fn declaration_error(input: Declaration) -> Option<DeriveError> {
    match input.data {
        DeclData::Struct(f) => fields_error(f.fields@),
        DeclData::Enum(vs) => variants_error(vs@),
        DeclData::Union => Some(DeriveError { kind: ErrorKind::Union, span: input.span }),
    }
}

/// `p` is field `d`, at position `i`, parsed.
pub open spec fn parsed_as(p: ParsedField, d: FieldDecl, i: int) -> bool {
    &&& marker_of(d.attrs@) is Ok
    &&& p.ignored == marker_of(d.attrs@)->Ok_0
    &&& p.index_in_structure == i
    &&& p.ident == d.ident
    &&& p.ty == d.ty
}

/// `ps` are the fields `ds` parsed, in order.
pub open spec fn fields_parsed_as(ps: Seq<ParsedField>, ds: Seq<FieldDecl>) -> bool {
    &&& ps.len() == ds.len()
    &&& forall|i: int| 0 <= i < ds.len() ==> #[trigger] parsed_as(ps[i], ds[i], i)
}

/// `vs` are the variants `ds` parsed, in order.
pub open spec fn variants_parsed_as(vs: Seq<EnumVariant>, ds: Seq<VariantDecl>) -> bool {
    &&& vs.len() == ds.len()
    &&& forall|i: int|
        0 <= i < ds.len() ==> {
            &&& (#[trigger] vs[i]).ident == ds[i].ident
            &&& vs[i].variant_type == ds[i].fields.kind
            &&& fields_parsed_as(vs[i].fields@, ds[i].fields.fields@)
        }
}

/// The fields `ds`, parsed.
pub open spec fn parsed_fields(ds: Seq<FieldDecl>) -> Seq<ParsedField> {
    Seq::new(
        ds.len(),
        |i: int|
            ParsedField {
                ignored: marker_of(ds[i].attrs@)->Ok_0,
                index_in_structure: i as usize,
                ident: ds[i].ident,
                ty: ds[i].ty,
            },
    )
}

/// The variants `ds`, parsed.
pub open spec fn parsed_variants(ds: Seq<VariantDecl>) -> Seq<VariantModel> {
    Seq::new(
        ds.len(),
        |i: int|
            VariantModel {
                variant_type: ds[i].fields.kind,
                ident: ds[i].ident@,
                fields: parsed_fields(ds[i].fields.fields@),
            },
    )
}

/// Parsed fields are determined by their declarations.
pub proof fn lemma_fields_parsed_as(ps: Seq<ParsedField>, ds: Seq<FieldDecl>)
    requires
        fields_parsed_as(ps, ds),
    ensures
        ps == parsed_fields(ds),
{
    assert forall|i: int| 0 <= i < ds.len() implies ps[i] == parsed_fields(ds)[i] by {
        assert(parsed_as(ps[i], ds[i], i));
    }
    assert(ps =~= parsed_fields(ds));
}

/// Parsed variants are determined by their declarations.
pub proof fn lemma_variants_parsed_as(vs: Seq<EnumVariant>, ds: Seq<VariantDecl>)
    requires
        variants_parsed_as(vs, ds),
    ensures
        models(vs) == parsed_variants(ds),
{
    assert forall|i: int| 0 <= i < ds.len() implies models(vs)[i] == parsed_variants(ds)[i] by {
        assert(vs[i].ident == ds[i].ident);
        lemma_fields_parsed_as(vs[i].fields@, ds[i].fields.fields@);
    }
    assert(models(vs) =~= parsed_variants(ds));
}

fn clone_ident(ident: &Option<String>) -> (r: Option<String>)
    ensures
        r == *ident,
{
    match ident {
        Some(s) => Some(s.clone()),
        None => None,
    }
}

impl ParsedField {
    /// Whether a field is marked ignored: the first attribute named
    /// `time_tracking` decides, and only the form `#[time_tracking(ignore)]`
    /// is accepted.
    pub fn is_ignored(field: &FieldDecl) -> (r: Result<bool, DeriveError>)
        ensures
            r == marker_of(field.attrs@),
    {
        let marker = owned(TIME_TRACKING_ATTRIBUTE);
        let keyword = owned("ignore");
        proof {
            reveal_strlit("time_tracking");
        }
        let ghost attrs = field.attrs@;
        assert(attrs.skip(0) =~= attrs);
        let mut i: usize = 0;
        while i < field.attrs.len()
            invariant
                i <= attrs.len(),
                attrs == field.attrs@,
                marker@ == "time_tracking"@,
                keyword@ == "ignore"@,
                marker_of(attrs) == marker_of(attrs.skip(i as int)),
            decreases attrs.len() - i,
        {
            let attribute = &field.attrs[i];
            assert(attrs.skip(i as int)[0] == attrs[i as int]);
            assert(attrs.skip(i as int).drop_first() =~= attrs.skip(i + 1));
            if attribute.path == marker {
                match &attribute.form {
                    AttrForm::Path => {
                        return Err(DeriveError { kind: ErrorKind::PathAttribute, span: attribute.span });
                    },
                    AttrForm::NameValue => {
                        return Err(
                            DeriveError { kind: ErrorKind::NameValueAttribute, span: attribute.span },
                        );
                    },
                    AttrForm::List(tokens) => {
                        if tokens.len() == 1 && tokens[0] == keyword {
                            return Ok(true);
                        }
                        return Err(DeriveError { kind: ErrorKind::ExpectedIgnore, span: attribute.span });
                    },
                }
            }
            i = i + 1;
        }
        Ok(false)
    }

    /// Parses a record's or variant's fields, recording each field's position.
    /// Fails with the first malformed marker.
    pub fn parse_fields(fields: &FieldsDecl) -> (r: Result<(Vec<ParsedField>, FieldsType), DeriveError>)
        ensures
            match r {
                Ok((ps, kind)) => fields_error(fields.fields@) is None && kind == fields.kind
                    && fields_parsed_as(ps@, fields.fields@),
                Err(e) => fields_error(fields.fields@) == Some(e),
            },
    {
        let ghost ds = fields.fields@;
        assert(ds.skip(0) =~= ds);
        let mut parsed_fields: Vec<ParsedField> = Vec::new();
        let mut i: usize = 0;
        while i < fields.fields.len()
            invariant
                i <= ds.len(),
                ds == fields.fields@,
                fields_error(ds) == fields_error(ds.skip(i as int)),
                parsed_fields@.len() == i,
                forall|j: int| 0 <= j < i ==> #[trigger] parsed_as(parsed_fields@[j], ds[j], j),
            decreases ds.len() - i,
        {
            let field = &fields.fields[i];
            assert(ds.skip(i as int)[0] == ds[i as int]);
            assert(ds.skip(i as int).drop_first() =~= ds.skip(i + 1));
            let ignored = match ParsedField::is_ignored(field) {
                Ok(b) => b,
                Err(e) => {
                    return Err(e);
                },
            };
            parsed_fields.push(
                ParsedField {
                    ignored,
                    index_in_structure: i,
                    ident: clone_ident(&field.ident),
                    ty: field.ty.clone(),
                },
            );
            i = i + 1;
        }
        assert(ds.skip(i as int).len() == 0);
        Ok((parsed_fields, fields.kind))
    }
}

impl TimeTrackingStruct {
    /// Parses a record declaration.
    pub fn parse(data_struct: &FieldsDecl) -> (r: Result<TimeTrackingStruct, DeriveError>)
        ensures
            match r {
                Ok(s) => fields_error(data_struct.fields@) is None && s.struct_type
                    == data_struct.kind && fields_parsed_as(s.fields@, data_struct.fields@),
                Err(e) => fields_error(data_struct.fields@) == Some(e),
            },
    {
        match ParsedField::parse_fields(data_struct) {
            Ok((fields, struct_type)) => Ok(TimeTrackingStruct { struct_type, fields }),
            Err(e) => Err(e),
        }
    }
}

impl TimeTrackingEnum {
    /// Parses the variants of a tagged union, in declaration order.
    pub fn parse(variants: &Vec<VariantDecl>) -> (r: Result<TimeTrackingEnum, DeriveError>)
        ensures
            match r {
                Ok(en) => variants_error(variants@) is None && variants_parsed_as(
                    en.variants@,
                    variants@,
                ),
                Err(e) => variants_error(variants@) == Some(e),
            },
    {
        let ghost ds = variants@;
        assert(ds.skip(0) =~= ds);
        let mut parsed: Vec<EnumVariant> = Vec::new();
        let mut i: usize = 0;
        while i < variants.len()
            invariant
                i <= ds.len(),
                ds == variants@,
                variants_error(ds) == variants_error(ds.skip(i as int)),
                parsed@.len() == i,
                forall|j: int|
                    0 <= j < i ==> {
                        &&& (#[trigger] parsed@[j]).ident == ds[j].ident
                        &&& parsed@[j].variant_type == ds[j].fields.kind
                        &&& fields_parsed_as(parsed@[j].fields@, ds[j].fields.fields@)
                    },
            decreases ds.len() - i,
        {
            let variant = &variants[i];
            assert(ds.skip(i as int)[0] == ds[i as int]);
            assert(ds.skip(i as int).drop_first() =~= ds.skip(i + 1));
            let (fields, variant_type) = match ParsedField::parse_fields(&variant.fields) {
                Ok(p) => p,
                Err(e) => {
                    return Err(e);
                },
            };
            parsed.push(EnumVariant { variant_type, ident: variant.ident.clone(), fields });
            i = i + 1;
        }
        assert(ds.skip(i as int).len() == 0);
        Ok(TimeTrackingEnum { variants: parsed })
    }
}

impl TimeTrackingDerive {
    /// Parses a declaration into its shape, given the paths of the time and
    /// ECS crates. Fails on a memory union and on the first malformed marker.
    pub fn from_input(input: &Declaration, bevy_time_path: String, bevy_ecs_path: String) -> (r:
        Result<TimeTrackingDerive, DeriveError>)
        ensures
            match r {
                Ok(d) => {
                    &&& declaration_error(*input) is None
                    &&& d.metadata.type_ident == input.ident
                    &&& d.metadata.impl_generics == input.impl_generics
                    &&& d.metadata.ty_generics == input.ty_generics
                    &&& d.metadata.where_clause == input.where_clause
                    &&& d.metadata.bevy_time_path == bevy_time_path
                    &&& d.metadata.bevy_ecs_path == bevy_ecs_path
                    &&& match (input.data, d.ty) {
                        (DeclData::Struct(f), TimeTrackingType::Struct(s)) => s.struct_type
                            == f.kind && fields_parsed_as(s.fields@, f.fields@),
                        (DeclData::Enum(vs), TimeTrackingType::Enum(en)) => variants_parsed_as(
                            en.variants@,
                            vs@,
                        ),
                        _ => false,
                    }
                },
                Err(e) => declaration_error(*input) == Some(e),
            },
    {
        let metadata = TimeTrackingMetadata {
            type_ident: input.ident.clone(),
            impl_generics: input.impl_generics.clone(),
            ty_generics: input.ty_generics.clone(),
            where_clause: input.where_clause.clone(),
            bevy_time_path,
            bevy_ecs_path,
        };
        let ty = match &input.data {
            DeclData::Struct(data_struct) => match TimeTrackingStruct::parse(data_struct) {
                Ok(s) => TimeTrackingType::Struct(s),
                Err(e) => {
                    return Err(e);
                },
            },
            DeclData::Enum(data_enum) => match TimeTrackingEnum::parse(data_enum) {
                Ok(en) => TimeTrackingType::Enum(en),
                Err(e) => {
                    return Err(e);
                },
            },
            DeclData::Union => {
                return Err(DeriveError { kind: ErrorKind::Union, span: input.span });
            },
        };
        Ok(TimeTrackingDerive { metadata, ty })
    }
}

} // verus!
