//! What changes of a schema as a whole do to its columns, at every depth.
use vstd::prelude::*;

use crate::schema::{self, DataTypeView, FieldView, MetadataValueView, PrimitiveType};
use crate::schema_transform::{self, SpecialType};
use crate::table_features::ColumnMappingMode;

verus! {

/// The metadata of a field in data files: what it has, and where columns are mapped by identifier the
/// identifier also under the name that Parquet uses.
pub open spec fn file_metadata(f: FieldView, mode: ColumnMappingMode) -> Map<
    Seq<char>,
    MetadataValueView,
> {
    let id = "delta.columnMapping.id"@;
    if mode is Id && f.metadata.dom().contains(id) {
        f.metadata.insert("parquet.field.id"@, f.metadata[id])
    } else {
        f.metadata
    }
}

/// Whether a field is what data files hold of another: its physical name where it has one, and
/// otherwise its own; the same type but for the names inside it; nulls where it holds nulls.
pub open spec fn is_physical_field(f: FieldView, g: FieldView, mode: ColumnMappingMode) -> bool
    decreases f,
{
    let key = "delta.columnMapping.physicalName"@;
    &&& g.name == (if f.metadata.dom().contains(key) && f.metadata[key] is String {
        f.metadata[key]->String_0
    } else {
        f.name
    })
    &&& g.nullable == f.nullable
    &&& g.metadata == file_metadata(f, mode)
    &&& is_physical_type(f.data_type, g.data_type, mode)
}

/// Whether a type is what data files hold of another.
pub open spec fn is_physical_type(t: DataTypeView, u: DataTypeView, mode: ColumnMappingMode) -> bool
    decreases t,
{
    match t {
        DataTypeView::Primitive(_) => u == t,
        DataTypeView::Array(e, n) => match u {
            DataTypeView::Array(f, m) => n == m && is_physical_type(*e, *f, mode),
            _ => false,
        },
        DataTypeView::Mapping(k, v, n) => match u {
            DataTypeView::Mapping(l, w, m) => n == m && is_physical_type(*k, *l, mode)
                && is_physical_type(*v, *w, mode),
            _ => false,
        },
        DataTypeView::Struct(s) => match u {
            DataTypeView::Struct(r) => are_physical_fields(s, r, mode),
            _ => false,
        },
        DataTypeView::Variant(_) => u == t,
    }
}

/// Whether fields are what data files hold of others.
pub open spec fn are_physical_fields(
    s: Seq<FieldView>,
    r: Seq<FieldView>,
    mode: ColumnMappingMode,
) -> bool
    decreases s,
{
    &&& r.len() == s.len()
    &&& forall|i: int| 0 <= i < s.len() ==> is_physical_field(#[trigger] s[i], r[i], mode)
}

/// Data files hold the columns of the schema itself where columns are not mapped, and otherwise those
/// columns under their physical names.
pub proof fn physical_schemas_follow_the_schema(s: Seq<FieldView>, mode: ColumnMappingMode)
    ensures
        mode is NoMapping ==> schema_transform::physical_schema_of(s, mode) == s,
        !(mode is NoMapping) ==> are_physical_fields(
            s,
            schema_transform::physical_schema_of(s, mode),
            mode,
        ),
{
    if !(mode is NoMapping) {
        lemma_physical_fields(s, mode);
    }
}

proof fn lemma_physical_fields(s: Seq<FieldView>, mode: ColumnMappingMode)
    requires
        !(mode is NoMapping),
    ensures
        are_physical_fields(s, schema_transform::physical_fields(s, mode), mode),
    decreases s,
{
    let r = schema_transform::physical_fields(s, mode);
    assert forall|i: int| 0 <= i < s.len() implies is_physical_field(#[trigger] s[i], r[i], mode) by {
        lemma_physical_type(s[i].data_type, mode);
        assert(r[i].data_type == schema_transform::physical_type(s[i].data_type, mode));
    }
}

proof fn lemma_physical_type(t: DataTypeView, mode: ColumnMappingMode)
    requires
        !(mode is NoMapping),
    ensures
        is_physical_type(t, schema_transform::physical_type(t, mode), mode),
    decreases t,
{
    match t {
        DataTypeView::Primitive(_) => {},
        DataTypeView::Array(e, _) => {
            lemma_physical_type(*e, mode);
        },
        DataTypeView::Mapping(k, v, _) => {
            lemma_physical_type(*k, mode);
            lemma_physical_type(*v, mode);
        },
        DataTypeView::Struct(s) => {
            lemma_physical_fields(s, mode);
        },
        DataTypeView::Variant(_) => {},
    }
}

/// Whether a field has a physical name and an identifier, and so has every field inside it.
pub open spec fn is_fully_mapped(f: FieldView) -> bool
    decreases f,
{
    let name = "delta.columnMapping.physicalName"@;
    let id = "delta.columnMapping.id"@;
    &&& f.metadata.dom().contains(name) && f.metadata[name] is String
    &&& f.metadata.dom().contains(id) && f.metadata[id] is Number
    &&& is_fully_mapped_type(f.data_type)
}

/// Whether every field inside a type has a physical name and an identifier.
pub open spec fn is_fully_mapped_type(t: DataTypeView) -> bool
    decreases t,
{
    match t {
        DataTypeView::Primitive(_) => true,
        DataTypeView::Array(e, _) => is_fully_mapped_type(*e),
        DataTypeView::Mapping(k, v, _) => is_fully_mapped_type(*k) && is_fully_mapped_type(*v),
        DataTypeView::Struct(s) => are_fully_mapped(s),
        DataTypeView::Variant(_) => true,
    }
}

/// Whether all fields have physical names and identifiers, at every depth.
pub open spec fn are_fully_mapped(s: Seq<FieldView>) -> bool
    decreases s,
{
    forall|i: int| 0 <= i < s.len() ==> is_fully_mapped(#[trigger] s[i])
}

/// A schema can be mapped exactly where columns are not mapped, or every column, at every depth, has
/// a physical name and an identifier.
pub proof fn schemas_are_mapped_exactly_if_annotated(s: Seq<FieldView>, mode: ColumnMappingMode)
    ensures
        schema_transform::physical_schema_fault(s, mode) is None <==> mode is NoMapping
            || are_fully_mapped(s),
{
    lemma_fields_mapping_fault(s);
}

proof fn lemma_fields_mapping_fault(s: Seq<FieldView>)
    ensures
        schema_transform::fields_mapping_fault(s) is None <==> are_fully_mapped(s),
    decreases s,
{
    if s.len() > 0 {
        let front = s.drop_last();
        lemma_fields_mapping_fault(front);
        lemma_type_mapping_fault(s.last().data_type);
        assert(schema_transform::fields_mapping_fault(s) is None <==> are_fully_mapped(front)
            && is_fully_mapped(s.last()));
        if are_fully_mapped(front) && is_fully_mapped(s.last()) {
            assert forall|i: int| 0 <= i < s.len() implies is_fully_mapped(#[trigger] s[i]) by {
                if i < front.len() {
                    assert(front[i] == s[i]);
                }
            }
        }
        if are_fully_mapped(s) {
            assert(is_fully_mapped(s[s.len() - 1]));
            assert forall|i: int| 0 <= i < front.len() implies is_fully_mapped(#[trigger] front[i]) by {
                assert(front[i] == s[i]);
            }
        }
    }
}

proof fn lemma_type_mapping_fault(t: DataTypeView)
    ensures
        schema_transform::type_mapping_fault(t) is None <==> is_fully_mapped_type(t),
    decreases t,
{
    match t {
        DataTypeView::Primitive(_) => {},
        DataTypeView::Array(e, _) => {
            lemma_type_mapping_fault(*e);
        },
        DataTypeView::Mapping(k, v, _) => {
            lemma_type_mapping_fault(*k);
            lemma_type_mapping_fault(*v);
        },
        DataTypeView::Struct(s) => {
            lemma_fields_mapping_fault(s);
        },
        DataTypeView::Variant(_) => {},
    }
}

/// A path that leads to a column leads to one of its last name, through structs of the names before.
/// The physical path has as many parts: the names themselves where columns are not mapped, and the
/// physical name of each column on the way otherwise.
pub proof fn paths_lead_to_their_columns(
    s: Seq<FieldView>,
    path: Seq<Seq<char>>,
    mode: ColumnMappingMode,
)
    ensures
        schema_transform::walked(s, path, mode) matches Some((f, names)) ==> {
            &&& path.len() > 0 && names.len() == path.len()
            &&& f.name == path.last()
            &&& names.last() == schema_transform::physical_name_of(f, mode)
            &&& mode is NoMapping ==> names == path
            &&& exists|i: int| 0 <= i < s.len() && (#[trigger] s[i]).name == path[0] && names[0]
                == schema_transform::physical_name_of(s[i], mode)
        },
        path.len() == 1 ==> (schema_transform::walked(s, path, mode) is Some <==> exists|i: int|
            0 <= i < s.len() && (#[trigger] s[i]).name == path[0]),
    decreases path.len(),
{
    if path.len() > 0 {
        schema::lemma_field_position(s, path[0]);
        if let Some(p) = schema::field_position(s, path[0]) {
            assert(s[p].name == path[0]);
            if path.len() > 1 {
                if let DataTypeView::Struct(inner) = s[p].data_type {
                    paths_lead_to_their_columns(inner, path.skip(1), mode);
                    assert(path.skip(1).last() == path.last());
                    if let Some((_, names)) = schema_transform::walked(s, path, mode) {
                        if mode is NoMapping {
                            assert(names =~= path);
                        }
                    }
                }
            } else {
                if let Some((_, names)) = schema_transform::walked(s, path, mode) {
                    if mode is NoMapping {
                        assert(names =~= path);
                    }
                }
            }
        }
    }
}

/// Whether a type is another with nulls allowed everywhere inside it, and nothing else changed.
pub open spec fn is_nullable_type(t: DataTypeView, u: DataTypeView) -> bool
    decreases t,
{
    match t {
        DataTypeView::Primitive(_) => u == t,
        DataTypeView::Array(e, _) => match u {
            DataTypeView::Array(f, m) => m && is_nullable_type(*e, *f),
            _ => false,
        },
        DataTypeView::Mapping(k, v, _) => match u {
            DataTypeView::Mapping(l, w, m) => m && is_nullable_type(*k, *l) && is_nullable_type(
                *v,
                *w,
            ),
            _ => false,
        },
        DataTypeView::Struct(s) => match u {
            DataTypeView::Struct(r) => are_nullable_fields(s, r),
            _ => false,
        },
        DataTypeView::Variant(_) => u == t,
    }
}

/// Whether fields are others with nulls allowed everywhere, and nothing else changed.
pub open spec fn are_nullable_fields(s: Seq<FieldView>, r: Seq<FieldView>) -> bool
    decreases s,
{
    &&& r.len() == s.len()
    &&& forall|i: int|
        0 <= i < s.len() ==> r[i].nullable && r[i].name == (#[trigger] s[i]).name && r[i].metadata
            == s[i].metadata && is_nullable_type(s[i].data_type, r[i].data_type)
}

/// Making a schema nullable allows nulls everywhere and changes nothing else.
pub proof fn nullable_schemas_only_allow_nulls(s: Seq<FieldView>)
    ensures
        are_nullable_fields(s, schema_transform::nullable_fields(s)),
    decreases s,
{
    let r = schema_transform::nullable_fields(s);
    assert forall|i: int| 0 <= i < s.len() implies r[i].nullable && r[i].name == (
    #[trigger] s[i]).name && r[i].metadata == s[i].metadata && is_nullable_type(
        s[i].data_type,
        r[i].data_type,
    ) by {
        lemma_nullable_type(s[i].data_type);
        assert(r[i].data_type == schema_transform::nullable_type(s[i].data_type));
    }
}

proof fn lemma_nullable_type(t: DataTypeView)
    ensures
        is_nullable_type(t, schema_transform::nullable_type(t)),
    decreases t,
{
    match t {
        DataTypeView::Primitive(_) => {},
        DataTypeView::Array(e, _) => {
            lemma_nullable_type(*e);
        },
        DataTypeView::Mapping(k, v, _) => {
            lemma_nullable_type(*k);
            lemma_nullable_type(*v);
        },
        DataTypeView::Struct(s) => {
            nullable_schemas_only_allow_nulls(s);
        },
        DataTypeView::Variant(_) => {},
    }
}

/// Whether a type is another without the metadata of the fields inside it.
pub open spec fn is_stripped_type(t: DataTypeView, u: DataTypeView) -> bool
    decreases t,
{
    match t {
        DataTypeView::Primitive(_) => u == t,
        DataTypeView::Array(e, n) => match u {
            DataTypeView::Array(f, m) => n == m && is_stripped_type(*e, *f),
            _ => false,
        },
        DataTypeView::Mapping(k, v, n) => match u {
            DataTypeView::Mapping(l, w, m) => n == m && is_stripped_type(*k, *l) && is_stripped_type(
                *v,
                *w,
            ),
            _ => false,
        },
        DataTypeView::Struct(s) => match u {
            DataTypeView::Struct(r) => are_stripped_fields(s, r),
            _ => false,
        },
        DataTypeView::Variant(_) => u == t,
    }
}

/// Whether fields are others without their metadata.
pub open spec fn are_stripped_fields(s: Seq<FieldView>, r: Seq<FieldView>) -> bool
    decreases s,
{
    &&& r.len() == s.len()
    &&& forall|i: int|
        0 <= i < s.len() ==> r[i].name == (#[trigger] s[i]).name && r[i].nullable == s[i].nullable
            && r[i].metadata == Map::<Seq<char>, MetadataValueView>::empty() && is_stripped_type(
            s[i].data_type,
            r[i].data_type,
        )
}

/// Stripping a schema takes the metadata of its columns away, at every depth, and changes nothing
/// else.
pub proof fn stripped_schemas_only_lose_metadata(s: Seq<FieldView>)
    ensures
        are_stripped_fields(s, schema_transform::stripped_fields(s)),
    decreases s,
{
    let r = schema_transform::stripped_fields(s);
    assert forall|i: int| 0 <= i < s.len() implies r[i].name == (#[trigger] s[i]).name
        && r[i].nullable == s[i].nullable && r[i].metadata == Map::<
        Seq<char>,
        MetadataValueView,
    >::empty() && is_stripped_type(s[i].data_type, r[i].data_type) by {
        lemma_stripped_type(s[i].data_type);
        assert(r[i].data_type == schema_transform::stripped_type(s[i].data_type));
    }
}

proof fn lemma_stripped_type(t: DataTypeView)
    ensures
        is_stripped_type(t, schema_transform::stripped_type(t)),
    decreases t,
{
    match t {
        DataTypeView::Primitive(_) => {},
        DataTypeView::Array(e, _) => {
            lemma_stripped_type(*e);
        },
        DataTypeView::Mapping(k, v, _) => {
            lemma_stripped_type(*k);
            lemma_stripped_type(*v);
        },
        DataTypeView::Struct(s) => {
            stripped_schemas_only_lose_metadata(s);
        },
        DataTypeView::Variant(_) => {},
    }
}

/// A type holds a variant, or a timestamp without time zone, exactly where it is one or a part of it
/// holds one: the elements of an array, the keys or values of a map, a field of a struct. A schema
/// holds one exactly where a column does.
pub proof fn special_types_are_found_at_every_depth(
    kind: SpecialType,
    p: PrimitiveType,
    a: DataTypeView,
    b: DataTypeView,
    nulls: bool,
    s: Seq<FieldView>,
)
    ensures
        schema_transform::type_has(kind, DataTypeView::Primitive(p)) <==> kind is TimestampNtz
            && p is TimestampNtz,
        schema_transform::type_has(kind, DataTypeView::Variant(s)) <==> kind is Variant,
        schema_transform::type_has(kind, DataTypeView::Array(Box::new(a), nulls))
            <==> schema_transform::type_has(kind, a),
        schema_transform::type_has(kind, DataTypeView::Mapping(Box::new(a), Box::new(b), nulls))
            <==> schema_transform::type_has(kind, a) || schema_transform::type_has(kind, b),
        schema_transform::type_has(kind, DataTypeView::Struct(s)) <==> exists|i: int|
            0 <= i < s.len() && schema_transform::type_has(kind, (#[trigger] s[i]).data_type),
        schema_transform::fields_have(kind, s) <==> exists|i: int|
            0 <= i < s.len() && schema_transform::type_has(kind, (#[trigger] s[i]).data_type),
{
    assert(schema_transform::type_has(kind, DataTypeView::Struct(s))
        == schema_transform::fields_have(kind, s));
}

/// A schema has an invariant exactly where a column has one, or a type inside it does.
pub proof fn invariants_are_found_at_every_depth(
    a: DataTypeView,
    b: DataTypeView,
    p: PrimitiveType,
    nulls: bool,
    s: Seq<FieldView>,
)
    ensures
        schema_transform::has_invariants(s) <==> exists|i: int|
            0 <= i < s.len() && ((#[trigger] s[i]).metadata.dom().contains("delta.invariants"@)
                || schema_transform::type_has_invariants(s[i].data_type)),
        schema_transform::type_has_invariants(DataTypeView::Struct(s))
            <==> schema_transform::has_invariants(s),
        schema_transform::type_has_invariants(DataTypeView::Array(Box::new(a), nulls))
            <==> schema_transform::type_has_invariants(a),
        schema_transform::type_has_invariants(
            DataTypeView::Mapping(Box::new(a), Box::new(b), nulls),
        ) <==> schema_transform::type_has_invariants(a) || schema_transform::type_has_invariants(b),
        !schema_transform::type_has_invariants(DataTypeView::Primitive(p)),
{
}

} // verus!
