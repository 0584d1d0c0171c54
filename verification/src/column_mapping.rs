//! Giving columns identifiers and physical names.
use vstd::prelude::*;

use crate::bindings::{self, new_uuid_text};
use crate::error::{self, DeltaResult, Error, ErrorView};
use crate::schema::{
    self, clone_type, DataType, DataTypeView, FieldView, MetadataValue, MetadataValueView,
    StructField, StructType,
};
use crate::schema_transform::{self, COLUMN_MAPPING_ID_KEY, COLUMN_MAPPING_PHYSICAL_NAME_KEY};
use crate::string_map::StringMap;
use crate::table_features::{self, ColumnMappingMode};
use crate::table_properties::COLUMN_MAPPING_MODE;
use crate::text::{self, text2, text3};

verus! {

/// How many fields there are inside a type, at every depth.
pub open spec fn type_field_count(t: DataTypeView) -> nat
    decreases t,
{
    match t {
        DataTypeView::Primitive(_) => 0,
        DataTypeView::Array(e, _) => type_field_count(*e),
        DataTypeView::Mapping(k, v, _) => type_field_count(*k) + type_field_count(*v),
        DataTypeView::Struct(s) => field_count(s),
        DataTypeView::Variant(_) => 0,
    }
}

/// How many fields there are in a list and inside its fields, at every depth.
pub open spec fn field_count(s: Seq<FieldView>) -> nat
    decreases s,
{
    if s.len() == 0 {
        0
    } else {
        field_count(s.drop_last()) + 1 + type_field_count(s.last().data_type)
    }
}

/// The order of the keys of a map after one more entry.
pub open spec fn keys_with<V>(
    m: Map<Seq<char>, V>,
    keys: Seq<Seq<char>>,
    key: Seq<char>,
) -> Seq<Seq<char>> {
    if m.dom().contains(key) {
        keys
    } else {
        keys.push(key)
    }
}

/// A field with an identifier and a physical name, and with another type.
pub open spec fn annotated_field(
    f: FieldView,
    id: i64,
    name: Seq<char>,
    data_type: DataTypeView,
) -> FieldView {
    let with_id = f.metadata.insert(COLUMN_MAPPING_ID_KEY@, MetadataValueView::Number(id));
    let id_keys = keys_with(f.metadata, f.metadata_keys, COLUMN_MAPPING_ID_KEY@);
    FieldView {
        data_type,
        metadata: with_id.insert(
            COLUMN_MAPPING_PHYSICAL_NAME_KEY@,
            MetadataValueView::String(name),
        ),
        metadata_keys: keys_with(with_id, id_keys, COLUMN_MAPPING_PHYSICAL_NAME_KEY@),
        ..f
    }
}

/// A field with its identifier and physical name, and the fields inside it with theirs. The field
/// gets the identifier after `last`, those inside it the identifiers after that; the physical name
/// for an identifier is that at its distance from `base`.
pub open spec fn mapped_field(
    f: FieldView,
    last: int,
    base: int,
    names: Seq<Seq<char>>,
) -> FieldView
    decreases f,
{
    annotated_field(
        f,
        (last + 1) as i64,
        "col-"@ + names[last - base],
        mapped_type(f.data_type, last + 1, base, names),
    )
}

/// A type whose inner fields have identifiers and physical names.
pub open spec fn mapped_type(
    t: DataTypeView,
    last: int,
    base: int,
    names: Seq<Seq<char>>,
) -> DataTypeView
    decreases t,
{
    match t {
        DataTypeView::Primitive(_) => t,
        DataTypeView::Array(e, n) => DataTypeView::Array(
            Box::new(mapped_type(*e, last, base, names)),
            n,
        ),
        DataTypeView::Mapping(k, v, n) => DataTypeView::Mapping(
            Box::new(mapped_type(*k, last, base, names)),
            Box::new(mapped_type(*v, last + type_field_count(*k), base, names)),
            n,
        ),
        DataTypeView::Struct(s) => DataTypeView::Struct(mapped_fields(s, last, base, names)),
        DataTypeView::Variant(_) => t,
    }
}

/// Fields with identifiers and physical names.
pub open spec fn mapped_fields(
    s: Seq<FieldView>,
    last: int,
    base: int,
    names: Seq<Seq<char>>,
) -> Seq<FieldView>
    decreases s,
{
    if s.len() == 0 {
        Seq::empty()
    } else {
        mapped_fields(s.drop_last(), last, base, names).push(
            mapped_field(s.last(), last + field_count(s.drop_last()), base, names),
        )
    }
}

/// The identifier of a field.
pub open spec fn column_id(f: FieldView) -> int {
    match schema_transform::metadata_of(f, COLUMN_MAPPING_ID_KEY@) {
        Some(MetadataValueView::Number(n)) => n as int,
        _ => -1,
    }
}

/// The identifiers of the fields inside a type, each field before those inside it.
pub open spec fn type_column_ids(t: DataTypeView) -> Seq<int>
    decreases t,
{
    match t {
        DataTypeView::Primitive(_) => Seq::empty(),
        DataTypeView::Array(e, _) => type_column_ids(*e),
        DataTypeView::Mapping(k, v, _) => type_column_ids(*k) + type_column_ids(*v),
        DataTypeView::Struct(s) => column_ids(s),
        DataTypeView::Variant(_) => Seq::empty(),
    }
}

/// The identifiers of fields and of those inside them, each field before those inside it.
pub open spec fn column_ids(s: Seq<FieldView>) -> Seq<int>
    decreases s,
{
    if s.len() == 0 {
        Seq::empty()
    } else {
        column_ids(s.drop_last()).push(column_id(s.last())) + type_column_ids(s.last().data_type)
    }
}

/// The integers that follow a given one.
pub open spec fn following(last: int, n: nat) -> Seq<int> {
    Seq::new(n, |i: int| last + 1 + i)
}

/// The identifiers that fields get are consecutive: each field, at every depth, gets the next one,
/// so that no identifier is given twice and none that was given before comes again.
pub proof fn column_ids_are_consecutive(
    s: Seq<FieldView>,
    last: int,
    base: int,
    names: Seq<Seq<char>>,
)
    requires
        i64::MIN <= last,
        last + field_count(s) <= i64::MAX,
    ensures
        column_ids(mapped_fields(s, last, base, names)) == following(last, field_count(s)),
    decreases s,
{
    if s.len() > 0 {
        let front = s.drop_last();
        let f = s.last();
        let at = last + field_count(front);
        column_ids_are_consecutive(front, last, base, names);
        lemma_type_column_ids(f.data_type, at + 1, base, names);
        let all = mapped_fields(s, last, base, names);
        let new = mapped_field(f, at, base, names);
        lemma_annotation_keys_differ();
        assert(all.drop_last() =~= mapped_fields(front, last, base, names));
        assert(all.last() == new);
        assert(new.data_type == mapped_type(f.data_type, at + 1, base, names));
        assert(new.metadata.dom().contains(COLUMN_MAPPING_ID_KEY@));
        assert(column_id(new) == at + 1);
        assert(column_ids(all) =~= following(last, field_count(s)));
    } else {
        assert(column_ids(mapped_fields(s, last, base, names)) =~= following(last, 0));
    }
}

/// The identifiers of the fields inside a type are consecutive.
pub proof fn lemma_type_column_ids(t: DataTypeView, last: int, base: int, names: Seq<Seq<char>>)
    requires
        i64::MIN <= last,
        last + type_field_count(t) <= i64::MAX,
    ensures
        type_column_ids(mapped_type(t, last, base, names)) == following(last, type_field_count(t)),
    decreases t,
{
    match t {
        DataTypeView::Primitive(_) => {
            assert(following(last, 0) =~= Seq::empty());
        },
        DataTypeView::Array(e, _) => {
            lemma_type_column_ids(*e, last, base, names);
        },
        DataTypeView::Mapping(k, v, _) => {
            lemma_type_column_ids(*k, last, base, names);
            lemma_type_column_ids(*v, last + type_field_count(*k), base, names);
            assert(following(last, type_field_count(*k)) + following(
                last + type_field_count(*k),
                type_field_count(*v),
            ) =~= following(last, type_field_count(t)));
        },
        DataTypeView::Struct(s) => {
            column_ids_are_consecutive(s, last, base, names);
        },
        DataTypeView::Variant(_) => {
            assert(following(last, 0) =~= Seq::empty());
        },
    }
}

/// The two annotations have different keys.
pub proof fn lemma_annotation_keys_differ()
    ensures
        COLUMN_MAPPING_ID_KEY@ != COLUMN_MAPPING_PHYSICAL_NAME_KEY@,
{
    reveal_strlit("delta.columnMapping.id");
    reveal_strlit("delta.columnMapping.physicalName");
    assert(COLUMN_MAPPING_ID_KEY@.len() != COLUMN_MAPPING_PHYSICAL_NAME_KEY@.len());
}

/// Whether a field has an identifier or a physical name.
pub open spec fn is_annotated(f: FieldView) -> bool {
    f.metadata.dom().contains(COLUMN_MAPPING_ID_KEY@) || f.metadata.dom().contains(
        COLUMN_MAPPING_PHYSICAL_NAME_KEY@,
    )
}

/// The error for a field of a new table that has an identifier or a physical name.
pub open spec fn annotated_error(name: Seq<char>) -> ErrorView {
    ErrorView::Generic(
        "Field '"@ + name
            + "' already has column mapping metadata. Pre-existing column mapping metadata is not supported for CREATE TABLE."@,
    )
}

/// What is wrong with a field that is to get an identifier and a physical name: in a new table it
/// must have neither, and no struct inside it may hold a name twice.
pub open spec fn field_assign_fault(f: FieldView, fresh: bool) -> Option<ErrorView>
    decreases f,
{
    if fresh && is_annotated(f) {
        Some(annotated_error(f.name))
    } else {
        type_assign_fault(f.data_type, fresh)
    }
}

/// What is wrong with the fields inside a type that are to get identifiers and physical names.
pub open spec fn type_assign_fault(t: DataTypeView, fresh: bool) -> Option<ErrorView>
    decreases t,
{
    match t {
        DataTypeView::Primitive(_) => None,
        DataTypeView::Array(e, _) => type_assign_fault(*e, fresh),
        DataTypeView::Mapping(k, v, _) => match type_assign_fault(*k, fresh) {
            Some(e) => Some(e),
            None => type_assign_fault(*v, fresh),
        },
        DataTypeView::Struct(s) => match fields_assign_fault(s, fresh) {
            Some(e) => Some(e),
            None => match schema_transform::first_repeated(s) {
                Some(n) => Some(schema_transform::duplicate_field(n)),
                None => None,
            },
        },
        DataTypeView::Variant(_) => None,
    }
}

/// What is wrong with the first field of a list that cannot get an identifier.
pub open spec fn fields_assign_fault(s: Seq<FieldView>, fresh: bool) -> Option<ErrorView>
    decreases s,
{
    if s.len() == 0 {
        None
    } else {
        match fields_assign_fault(s.drop_last(), fresh) {
            Some(e) => Some(e),
            None => field_assign_fault(s.last(), fresh),
        }
    }
}

/// What is wrong among the first fields is wrong with all of them.
proof fn lemma_assign_fault(s: Seq<FieldView>, fresh: bool, n: int)
    requires
        0 <= n <= s.len(),
        fields_assign_fault(s.take(n), fresh) is Some,
    ensures
        fields_assign_fault(s, fresh) == fields_assign_fault(s.take(n), fresh),
    decreases s.len(),
{
    if n == s.len() {
        assert(s.take(n) =~= s);
    } else {
        assert(s.drop_last().take(n) =~= s.take(n));
        lemma_assign_fault(s.drop_last(), fresh, n);
    }
}

/// The first fields are no more than all of them.
proof fn lemma_field_count(s: Seq<FieldView>, n: int)
    requires
        0 <= n <= s.len(),
    ensures
        field_count(s.take(n)) <= field_count(s),
    decreases s.len(),
{
    if n == s.len() {
        assert(s.take(n) =~= s);
    } else {
        assert(s.drop_last().take(n) =~= s.take(n));
        lemma_field_count(s.drop_last(), n);
    }
}

/// Names do not change when fields get identifiers.
pub proof fn lemma_mapped_names(s: Seq<FieldView>, last: int, base: int, names: Seq<Seq<char>>)
    ensures
        schema::field_names(mapped_fields(s, last, base, names)) == schema::field_names(s),
        mapped_fields(s, last, base, names).len() == s.len(),
        schema_transform::first_repeated(mapped_fields(s, last, base, names)) == schema_transform::first_repeated(s),
    decreases s.len(),
{
    let m = mapped_fields(s, last, base, names);
    if s.len() > 0 {
        lemma_mapped_names(s.drop_last(), last, base, names);
        let front = mapped_fields(s.drop_last(), last, base, names);
        assert(m.drop_last() =~= front);
        let new = mapped_field(s.last(), last + field_count(s.drop_last()), base, names);
        assert(new.name == s.last().name);
        assert(schema::field_names(m) =~= schema::field_names(front).push(s.last().name));
        assert(schema::field_names(s) =~= schema::field_names(s.drop_last()).push(s.last().name));
        schema::lemma_field_position(front, s.last().name);
        schema::lemma_field_position(s.drop_last(), s.last().name);
        if let Some(i) = schema::field_position(front, s.last().name) {
            assert(schema::field_names(front)[i] == schema::field_names(s.drop_last())[i]);
        }
        if let Some(i) = schema::field_position(s.drop_last(), s.last().name) {
            assert(schema::field_names(front)[i] == schema::field_names(s.drop_last())[i]);
        }
    } else {
        assert(schema::field_names(m) =~= schema::field_names(s));
    }
}

/// Gives a field and those inside it identifiers and the given physical names.
pub(crate) fn assign_to_field(
    field: &StructField,
    max_id: &mut i64,
    base: i64,
    names: &Vec<String>,
    fresh: bool,
) -> (r: DeltaResult<StructField>)
    requires
        base <= *old(max_id),
        *old(max_id) + 1 + type_field_count(field@.data_type) <= i64::MAX,
        *old(max_id) - base + 1 + type_field_count(field@.data_type) <= names@.len(),
    ensures
        field_assign_fault(field@, fresh) is Some ==> error::failure(r) == field_assign_fault(
            field@,
            fresh,
        ),
        field_assign_fault(field@, fresh) is None ==> (r matches Ok(g) && g@ == mapped_field(
            field@,
            *old(max_id) as int,
            base as int,
            text::texts(names@),
        ) && *final(max_id) == *old(max_id) + 1 + type_field_count(field@.data_type)),
    decreases *field,
{
    if fresh && (field.metadata.contains_key(COLUMN_MAPPING_ID_KEY) || field.metadata.contains_key(
        COLUMN_MAPPING_PHYSICAL_NAME_KEY,
    )) {
        return Err(
            Error::Generic(
                text3(
                    "Field '",
                    field.name.as_str(),
                    "' already has column mapping metadata. Pre-existing column mapping metadata is not supported for CREATE TABLE.",
                ),
            ),
        );
    }
    let ghost last = *max_id as int;
    assert(*max_id - base < names.len());
    let position: usize = (*max_id as i128 - base as i128) as usize;
    *max_id = *max_id + 1;
    let mut metadata = field.metadata.clone();
    metadata.insert(COLUMN_MAPPING_ID_KEY.to_owned(), MetadataValue::Number(*max_id));
    let physical_name = text2("col-", names[position].as_str());
    assert(text::texts(names@)[last - base] == names@[position as int]@);
    metadata.insert(
        COLUMN_MAPPING_PHYSICAL_NAME_KEY.to_owned(),
        MetadataValue::String(physical_name),
    );
    let data_type = match assign_to_type(&field.data_type, max_id, base, names, fresh) {
        Ok(t) => t,
        Err(e) => {
            return Err(e);
        },
    };
    Ok(StructField { name: field.name.clone(), data_type, nullable: field.nullable, metadata })
}

/// Gives the fields inside a type identifiers and the given physical names.
fn assign_to_type(
    t: &DataType,
    max_id: &mut i64,
    base: i64,
    names: &Vec<String>,
    fresh: bool,
) -> (r: DeltaResult<DataType>)
    requires
        base <= *old(max_id),
        *old(max_id) + type_field_count(t@) <= i64::MAX,
        *old(max_id) - base + type_field_count(t@) <= names@.len(),
    ensures
        type_assign_fault(t@, fresh) is Some ==> error::failure(r) == type_assign_fault(t@, fresh),
        type_assign_fault(t@, fresh) is None ==> (r matches Ok(u) && u@ == mapped_type(
            t@,
            *old(max_id) as int,
            base as int,
            text::texts(names@),
        ) && *final(max_id) == *old(max_id) + type_field_count(t@)),
    decreases *t,
{
    match t {
        DataType::Primitive(p) => Ok(DataType::Primitive(*p)),
        DataType::Array(a) => match assign_to_type(&a.element_type, max_id, base, names, fresh) {
            Ok(element_type) => Ok(DataType::array(element_type, a.contains_null)),
            Err(e) => Err(e),
        },
        DataType::Mapping(m) => match assign_to_type(&m.key_type, max_id, base, names, fresh) {
            Ok(key_type) => match assign_to_type(&m.value_type, max_id, base, names, fresh) {
                Ok(value_type) => Ok(
                    DataType::mapping(key_type, value_type, m.value_contains_null),
                ),
                Err(e) => Err(e),
            },
            Err(e) => Err(e),
        },
        DataType::Struct(s) => {
            let ghost last = *max_id as int;
            let fields = match assign_to_fields(&s.fields, max_id, base, names, fresh) {
                Ok(fields) => fields,
                Err(e) => {
                    return Err(e);
                },
            };
            proof {
                lemma_mapped_names(s@, last, base as int, text::texts(names@));
            }
            match StructType::try_new(fields) {
                Ok(inner) => Ok(DataType::struct_of(inner)),
                Err(e) => Err(e),
            }
        },
        DataType::Variant(_) => Ok(clone_type(t)),
    }
}

/// Gives fields identifiers and the given physical names.
pub(crate) fn assign_to_fields(
    fields: &Vec<StructField>,
    max_id: &mut i64,
    base: i64,
    names: &Vec<String>,
    fresh: bool,
) -> (r: DeltaResult<Vec<StructField>>)
    requires
        base <= *old(max_id),
        *old(max_id) + field_count(schema::fields_view(fields@)) <= i64::MAX,
        *old(max_id) - base + field_count(schema::fields_view(fields@)) <= names@.len(),
    ensures
        fields_assign_fault(schema::fields_view(fields@), fresh) is Some ==> error::failure(r)
            == fields_assign_fault(schema::fields_view(fields@), fresh),
        fields_assign_fault(schema::fields_view(fields@), fresh) is None ==> (r matches Ok(g)
            && schema::fields_view(g@) == mapped_fields(
            schema::fields_view(fields@),
            *old(max_id) as int,
            base as int,
            text::texts(names@),
        ) && *final(max_id) == *old(max_id) + field_count(schema::fields_view(fields@))),
    decreases fields@,
{
    let ghost s = schema::fields_view(fields@);
    let ghost last = *max_id as int;
    let ghost n = text::texts(names@);
    let mut out: Vec<StructField> = Vec::new();
    let mut i: usize = 0;
    assert(s.take(0) =~= Seq::<FieldView>::empty());
    assert(schema::fields_view(out@) =~= Seq::<FieldView>::empty());
    while i < fields.len()
        invariant
            i <= fields@.len(),
            s == schema::fields_view(fields@),
            n == text::texts(names@),
            i64::MIN <= base <= last,
            last + field_count(s) <= i64::MAX,
            last - base + field_count(s) <= names@.len(),
            *max_id == last + field_count(s.take(i as int)),
            fields_assign_fault(s.take(i as int), fresh) is None,
            schema::fields_view(out@) == mapped_fields(s.take(i as int), last, base as int, n),
        decreases fields.len() - i,
    {
        let ghost before = schema::fields_view(out@);
        assert(s[i as int] == schema::field_view(fields@[i as int]));
        assert(s.take(i + 1).drop_last() =~= s.take(i as int));
        assert(s.take(i + 1).last() == s[i as int]);
        proof {
            lemma_field_count(s, i + 1);
        }
        assert(field_count(s.take(i + 1)) == field_count(s.take(i as int)) + 1 + type_field_count(
            s[i as int].data_type,
        ));
        match assign_to_field(&fields[i], max_id, base, names, fresh) {
            Ok(f) => {
                out.push(f);
                assert(schema::fields_view(out@) =~= before.push(f@));
            },
            Err(e) => {
                proof {
                    lemma_assign_fault(s, fresh, i + 1);
                }
                return Err(e);
            },
        }
        i += 1;
    }
    assert(s.take(i as int) =~= s);
    Ok(out)
}

/// Whether every text is a random UUID.
pub open spec fn all_uuids(names: Seq<Seq<char>>) -> bool {
    forall|i: int| 0 <= i < names.len() ==> bindings::is_uuid_text(#[trigger] names[i])
}

/// As many random UUIDs as are asked for.
pub fn random_names(n: usize) -> (r: Vec<String>)
    ensures
        r@.len() == n,
        all_uuids(text::texts(r@)),
{
    let mut r: Vec<String> = Vec::new();
    let mut i: usize = 0;
    while i < n
        invariant
            i <= n,
            r@.len() == i,
            forall|j: int| 0 <= j < i ==> bindings::is_uuid_text((#[trigger] r@[j])@),
        decreases n - i,
    {
        r.push(new_uuid_text());
        i += 1;
    }
    r
}

/// How many fields there are inside a type, at every depth.
pub fn count_type_fields(t: &DataType) -> (r: Option<usize>)
    ensures
        r matches Some(n) ==> n == type_field_count(t@),
        r is None ==> type_field_count(t@) > usize::MAX,
    decreases *t,
{
    match t {
        DataType::Primitive(_) => Some(0),
        DataType::Array(a) => count_type_fields(&a.element_type),
        DataType::Mapping(m) => match (
            count_type_fields(&m.key_type),
            count_type_fields(&m.value_type),
        ) {
            (Some(a), Some(b)) => a.checked_add(b),
            _ => None,
        },
        DataType::Struct(s) => count_fields(&s.fields),
        DataType::Variant(_) => Some(0),
    }
}

/// How many fields there are in a list and inside its fields, at every depth.
pub fn count_fields(fields: &Vec<StructField>) -> (r: Option<usize>)
    ensures
        r matches Some(n) ==> n == field_count(schema::fields_view(fields@)),
        r is None ==> field_count(schema::fields_view(fields@)) > usize::MAX,
    decreases fields@,
{
    let ghost s = schema::fields_view(fields@);
    let mut n: usize = 0;
    let mut i: usize = 0;
    assert(s.take(0) =~= Seq::<FieldView>::empty());
    while i < fields.len()
        invariant
            i <= fields@.len(),
            s == schema::fields_view(fields@),
            n == field_count(s.take(i as int)),
        decreases fields.len() - i,
    {
        assert(s[i as int] == schema::field_view(fields@[i as int]));
        assert(s.take(i + 1).drop_last() =~= s.take(i as int));
        assert(s.take(i + 1).last() == s[i as int]);
        proof {
            lemma_field_count(s, i + 1);
        }
        assert(field_count(s.take(i + 1)) == field_count(s.take(i as int)) + 1 + type_field_count(
            s[i as int].data_type,
        ));
        let inside: usize = match count_type_fields(&fields[i].data_type) {
            Some(k) => k,
            None => {
                return None;
            },
        };
        n = match n.checked_add(1) {
            Some(k) => match k.checked_add(inside) {
                Some(l) => l,
                None => {
                    return None;
                },
            },
            None => {
                return None;
            },
        };
        i += 1;
    }
    assert(s.take(i as int) =~= s);
    Some(n)
}

/// The mode that properties ask for, or the error where it is not known.
pub open spec fn requested_mode(properties: Map<Seq<char>, Seq<char>>) -> Result<
    ColumnMappingMode,
    ErrorView,
> {
    if properties.dom().contains(COLUMN_MAPPING_MODE@) {
        match table_features::mode_of_name(properties[COLUMN_MAPPING_MODE@]) {
            Some(mode) => Ok(mode),
            None => Err(
                ErrorView::InvalidColumnMappingMode(properties[COLUMN_MAPPING_MODE@]),
            ),
        }
    } else {
        Ok(ColumnMappingMode::NoMapping)
    }
}

/// The mode that properties ask for. Fails where it is not known.
pub fn get_column_mapping_mode_from_properties(properties: &StringMap<String>) -> (r: DeltaResult<
    ColumnMappingMode,
>)
    ensures
        error::outcome(r) == requested_mode(properties@),
{
    match properties.get(COLUMN_MAPPING_MODE) {
        Some(s) => match ColumnMappingMode::parse(s.as_str()) {
            Some(mode) => Ok(mode),
            None => Err(Error::InvalidColumnMappingMode(s.clone())),
        },
        None => Ok(ColumnMappingMode::NoMapping),
    }
}

} // verus!
