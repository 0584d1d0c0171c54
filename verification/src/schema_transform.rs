//! Questions about schemas and schemas derived from others.
use vstd::prelude::*;

use crate::error::{self, DeltaResult, Error, ErrorView};
use crate::expressions::{self, ColumnName};
use crate::schema::{
    self, clone_type, position_of, DataType, DataTypeView, FieldView, MetadataValue,
    MetadataValueView, PrimitiveType, StructField, StructType,
};
use crate::table_features::ColumnMappingMode;
use crate::text::{self, text2, text3, text5};

verus! {

/// The keys in the metadata of a field that have a meaning of their own.
#[derive(Debug, Clone, Copy, PartialEq, Eq, Structural)]
pub enum ColumnMetadataKey {
    /// The identifier of the column.
    ColumnMappingId,
    /// The name of the column in data files.
    ColumnMappingPhysicalName,
    /// The identifier of the column in Parquet files.
    ParquetFieldId,
    /// What kind of metadata column the field is.
    MetadataSpec,
    /// Conditions that every value has to meet.
    Invariants,
}

pub const COLUMN_MAPPING_ID_KEY: &'static str = "delta.columnMapping.id";

pub const COLUMN_MAPPING_PHYSICAL_NAME_KEY: &'static str = "delta.columnMapping.physicalName";

pub const PARQUET_FIELD_ID_KEY: &'static str = "parquet.field.id";

pub const INVARIANTS_KEY: &'static str = "delta.invariants";

/// The text of a metadata key.
pub open spec fn key_text(k: ColumnMetadataKey) -> Seq<char> {
    match k {
        ColumnMetadataKey::ColumnMappingId => COLUMN_MAPPING_ID_KEY@,
        ColumnMetadataKey::ColumnMappingPhysicalName => COLUMN_MAPPING_PHYSICAL_NAME_KEY@,
        ColumnMetadataKey::ParquetFieldId => PARQUET_FIELD_ID_KEY@,
        ColumnMetadataKey::MetadataSpec => "delta.metadataSpec"@,
        ColumnMetadataKey::Invariants => INVARIANTS_KEY@,
    }
}

impl ColumnMetadataKey {
    /// The text of the key.
    pub fn text(&self) -> (r: &'static str)
        ensures
            r@ == key_text(*self),
    {
        match self {
            ColumnMetadataKey::ColumnMappingId => COLUMN_MAPPING_ID_KEY,
            ColumnMetadataKey::ColumnMappingPhysicalName => COLUMN_MAPPING_PHYSICAL_NAME_KEY,
            ColumnMetadataKey::ParquetFieldId => PARQUET_FIELD_ID_KEY,
            ColumnMetadataKey::MetadataSpec => "delta.metadataSpec",
            ColumnMetadataKey::Invariants => INVARIANTS_KEY,
        }
    }
}

/// The value under a key of a field's metadata.
pub open spec fn metadata_of(f: FieldView, key: Seq<char>) -> Option<MetadataValueView> {
    if f.metadata.dom().contains(key) {
        Some(f.metadata[key])
    } else {
        None
    }
}

/// The value that a lookup returned.
pub open spec fn opt_metadata_value(v: Option<&MetadataValue>) -> Option<MetadataValueView> {
    match v {
        Some(v) => Some(v@),
        None => None,
    }
}

impl StructField {
    /// The value under a key of the field's metadata.
    pub fn get_config_value(&self, key: &ColumnMetadataKey) -> (r: Option<&MetadataValue>)
        ensures
            opt_metadata_value(r) == metadata_of(self@, key_text(*key)),
    {
        self.metadata.get(key.text())
    }
}

/// A kind of type that a table may only have together with a table feature.
#[derive(Debug, Clone, Copy, PartialEq, Eq, Structural)]
pub enum SpecialType {
    TimestampNtz,
    Variant,
}

/// Whether a type is of a kind or holds one of that kind.
pub open spec fn type_has(kind: SpecialType, t: DataTypeView) -> bool
    decreases t,
{
    match t {
        DataTypeView::Primitive(p) => kind is TimestampNtz && p is TimestampNtz,
        DataTypeView::Array(e, _) => type_has(kind, *e),
        DataTypeView::Mapping(k, v, _) => type_has(kind, *k) || type_has(kind, *v),
        DataTypeView::Struct(s) => fields_have(kind, s),
        DataTypeView::Variant(_) => kind is Variant,
    }
}

/// Whether one of the fields holds a type of a kind.
pub open spec fn fields_have(kind: SpecialType, s: Seq<FieldView>) -> bool
    decreases s,
{
    exists|i: int| 0 <= i < s.len() && type_has(kind, (#[trigger] s[i]).data_type)
}

fn type_holds(kind: SpecialType, t: &DataType) -> (r: bool)
    ensures
        r == type_has(kind, t@),
    decreases *t,
{
    match t {
        DataType::Primitive(p) => matches!(kind, SpecialType::TimestampNtz) && matches!(
            p,
            PrimitiveType::TimestampNtz
        ),
        DataType::Array(a) => type_holds(kind, &a.element_type),
        DataType::Mapping(m) => type_holds(kind, &m.key_type) || type_holds(kind, &m.value_type),
        DataType::Struct(s) => fields_hold(kind, &s.fields),
        DataType::Variant(_) => matches!(kind, SpecialType::Variant),
    }
}

fn fields_hold(kind: SpecialType, fields: &Vec<StructField>) -> (r: bool)
    ensures
        r == fields_have(kind, schema::fields_view(fields@)),
    decreases fields@,
{
    let ghost s = schema::fields_view(fields@);
    let mut i: usize = 0;
    while i < fields.len()
        invariant
            i <= fields@.len(),
            s == schema::fields_view(fields@),
            forall|j: int| 0 <= j < i ==> !type_has(kind, (#[trigger] s[j]).data_type),
        decreases fields.len() - i,
    {
        assert(s[i as int] == schema::field_view(fields@[i as int]));
        if type_holds(kind, &fields[i].data_type) {
            return true;
        }
        i += 1;
    }
    false
}

/// Whether a schema holds a timestamp without time zone anywhere.
pub fn schema_contains_timestamp_ntz(schema: &StructType) -> (r: bool)
    ensures
        r == fields_have(SpecialType::TimestampNtz, schema@),
{
    fields_hold(SpecialType::TimestampNtz, &schema.fields)
}

/// Whether a schema holds a variant anywhere.
pub fn schema_contains_variant_type(schema: &StructType) -> (r: bool)
    ensures
        r == fields_have(SpecialType::Variant, schema@),
{
    fields_hold(SpecialType::Variant, &schema.fields)
}

/// Whether a field inside a type has invariants.
pub open spec fn type_has_invariants(t: DataTypeView) -> bool
    decreases t,
{
    match t {
        DataTypeView::Primitive(_) => false,
        DataTypeView::Array(e, _) => type_has_invariants(*e),
        DataTypeView::Mapping(k, v, _) => type_has_invariants(*k) || type_has_invariants(*v),
        DataTypeView::Struct(s) => has_invariants(s),
        DataTypeView::Variant(_) => false,
    }
}

/// Whether one of the fields, or a field inside one of them, has invariants.
pub open spec fn has_invariants(s: Seq<FieldView>) -> bool
    decreases s,
{
    exists|i: int|
        0 <= i < s.len() && ((#[trigger] s[i]).metadata.dom().contains(INVARIANTS_KEY@)
            || type_has_invariants(s[i].data_type))
}

fn type_holds_invariants(t: &DataType) -> (r: bool)
    ensures
        r == type_has_invariants(t@),
    decreases *t,
{
    match t {
        DataType::Primitive(_) => false,
        DataType::Array(a) => type_holds_invariants(&a.element_type),
        DataType::Mapping(m) => type_holds_invariants(&m.key_type) || type_holds_invariants(
            &m.value_type,
        ),
        DataType::Struct(s) => fields_hold_invariants(&s.fields),
        DataType::Variant(_) => false,
    }
}

fn fields_hold_invariants(fields: &Vec<StructField>) -> (r: bool)
    ensures
        r == has_invariants(schema::fields_view(fields@)),
    decreases fields@,
{
    let ghost s = schema::fields_view(fields@);
    let mut i: usize = 0;
    while i < fields.len()
        invariant
            i <= fields@.len(),
            s == schema::fields_view(fields@),
            forall|j: int|
                0 <= j < i ==> !((#[trigger] s[j]).metadata.dom().contains(INVARIANTS_KEY@)
                    || type_has_invariants(s[j].data_type)),
        decreases fields.len() - i,
    {
        assert(s[i as int] == schema::field_view(fields@[i as int]));
        if fields[i].metadata.contains_key(INVARIANTS_KEY) || type_holds_invariants(
            &fields[i].data_type,
        ) {
            return true;
        }
        i += 1;
    }
    false
}

/// Whether a field of a schema, at any depth, has invariants.
pub fn schema_has_invariants(schema: &StructType) -> (r: bool)
    ensures
        r == has_invariants(schema@),
{
    fields_hold_invariants(&schema.fields)
}

/// A type whose fields have no metadata.
pub open spec fn stripped_type(t: DataTypeView) -> DataTypeView
    decreases t,
{
    match t {
        DataTypeView::Primitive(p) => t,
        DataTypeView::Array(e, n) => DataTypeView::Array(Box::new(stripped_type(*e)), n),
        DataTypeView::Mapping(k, v, n) => DataTypeView::Mapping(
            Box::new(stripped_type(*k)),
            Box::new(stripped_type(*v)),
            n,
        ),
        DataTypeView::Struct(s) => DataTypeView::Struct(stripped_fields(s)),
        DataTypeView::Variant(s) => t,
    }
}

/// Fields without their metadata, at every depth.
pub open spec fn stripped_fields(s: Seq<FieldView>) -> Seq<FieldView>
    decreases s,
{
    Seq::new(
        s.len(),
        |i: int|
            if 0 <= i < s.len() {
                schema::plain_field(s[i].name, stripped_type(s[i].data_type), s[i].nullable)
            } else {
                arbitrary()
            },
    )
}

fn strip_type(t: &DataType) -> (r: DataType)
    ensures
        r@ == stripped_type(t@),
    decreases *t,
{
    match t {
        DataType::Primitive(p) => DataType::Primitive(*p),
        DataType::Array(a) => DataType::array(strip_type(&a.element_type), a.contains_null),
        DataType::Mapping(m) => DataType::mapping(
            strip_type(&m.key_type),
            strip_type(&m.value_type),
            m.value_contains_null,
        ),
        DataType::Struct(s) => DataType::struct_of(StructType { fields: strip_fields(&s.fields) }),
        DataType::Variant(_) => clone_type(t),
    }
}

fn strip_fields(fields: &Vec<StructField>) -> (r: Vec<StructField>)
    ensures
        schema::fields_view(r@) == stripped_fields(schema::fields_view(fields@)),
    decreases fields@,
{
    let ghost s = schema::fields_view(fields@);
    let mut r: Vec<StructField> = Vec::new();
    let mut i: usize = 0;
    while i < fields.len()
        invariant
            i <= fields@.len(),
            r@.len() == i,
            s == schema::fields_view(fields@),
            forall|j: int| 0 <= j < i ==> schema::field_view(#[trigger] r@[j]) == stripped_fields(s)[j],
        decreases fields.len() - i,
    {
        assert(s[i as int] == schema::field_view(fields@[i as int]));
        r.push(
            StructField::new(
                fields[i].name.as_str(),
                strip_type(&fields[i].data_type),
                fields[i].nullable,
            ),
        );
        i += 1;
    }
    assert(schema::fields_view(r@) =~= stripped_fields(s));
    r
}

/// The schema without the metadata of its fields, at every depth.
pub fn strip_metadata(schema: &StructType) -> (r: StructType)
    ensures
        r@ == stripped_fields(schema@),
{
    StructType { fields: strip_fields(&schema.fields) }
}

/// A type in which everything may be null.
pub open spec fn nullable_type(t: DataTypeView) -> DataTypeView
    decreases t,
{
    match t {
        DataTypeView::Primitive(p) => t,
        DataTypeView::Array(e, _) => DataTypeView::Array(Box::new(nullable_type(*e)), true),
        DataTypeView::Mapping(k, v, _) => DataTypeView::Mapping(
            Box::new(nullable_type(*k)),
            Box::new(nullable_type(*v)),
            true,
        ),
        DataTypeView::Struct(s) => DataTypeView::Struct(nullable_fields(s)),
        DataTypeView::Variant(s) => t,
    }
}

/// Fields that may all be null, at every depth.
pub open spec fn nullable_fields(s: Seq<FieldView>) -> Seq<FieldView>
    decreases s,
{
    Seq::new(
        s.len(),
        |i: int|
            if 0 <= i < s.len() {
                FieldView { data_type: nullable_type(s[i].data_type), nullable: true, ..s[i] }
            } else {
                arbitrary()
            },
    )
}

fn make_type_nullable(t: &DataType) -> (r: DataType)
    ensures
        r@ == nullable_type(t@),
    decreases *t,
{
    match t {
        DataType::Primitive(p) => DataType::Primitive(*p),
        DataType::Array(a) => DataType::array(make_type_nullable(&a.element_type), true),
        DataType::Mapping(m) => DataType::mapping(
            make_type_nullable(&m.key_type),
            make_type_nullable(&m.value_type),
            true,
        ),
        DataType::Struct(s) => DataType::struct_of(
            StructType { fields: make_fields_nullable(&s.fields) },
        ),
        DataType::Variant(_) => clone_type(t),
    }
}

fn make_fields_nullable(fields: &Vec<StructField>) -> (r: Vec<StructField>)
    ensures
        schema::fields_view(r@) == nullable_fields(schema::fields_view(fields@)),
    decreases fields@,
{
    let ghost s = schema::fields_view(fields@);
    let mut r: Vec<StructField> = Vec::new();
    let mut i: usize = 0;
    while i < fields.len()
        invariant
            i <= fields@.len(),
            r@.len() == i,
            s == schema::fields_view(fields@),
            forall|j: int| 0 <= j < i ==> schema::field_view(#[trigger] r@[j]) == nullable_fields(s)[j],
        decreases fields.len() - i,
    {
        assert(s[i as int] == schema::field_view(fields@[i as int]));
        r.push(
            StructField {
                name: fields[i].name.clone(),
                data_type: make_type_nullable(&fields[i].data_type),
                nullable: true,
                metadata: fields[i].metadata.clone(),
            },
        );
        i += 1;
    }
    assert(schema::fields_view(r@) =~= nullable_fields(s));
    r
}

/// The schema in which everything may be null, at every depth.
pub fn make_nullable(schema: &StructType) -> (r: StructType)
    ensures
        r@ == nullable_fields(schema@),
{
    StructType { fields: make_fields_nullable(&schema.fields) }
}

/// The name of a field in data files.
pub open spec fn physical_name_of(f: FieldView, mode: ColumnMappingMode) -> Seq<char> {
    match metadata_of(f, COLUMN_MAPPING_PHYSICAL_NAME_KEY@) {
        Some(MetadataValueView::String(s)) => if mode is NoMapping {
            f.name
        } else {
            s
        },
        _ => f.name,
    }
}

impl StructField {
    /// The name of the field in data files: its physical name where columns are mapped and it has
    /// one, else its own name.
    pub fn physical_name(&self, mode: ColumnMappingMode) -> (r: &str)
        ensures
            r@ == physical_name_of(self@, mode),
    {
        match mode {
            ColumnMappingMode::NoMapping => self.name.as_str(),
            _ => match self.metadata.get(COLUMN_MAPPING_PHYSICAL_NAME_KEY) {
                Some(MetadataValue::String(s)) => s.as_str(),
                _ => self.name.as_str(),
            },
        }
    }
}

/// The error for a field without an annotation that column mapping needs.
pub open spec fn missing_annotation(name: Seq<char>, key: Seq<char>) -> ErrorView {
    ErrorView::InvalidColumnMappingMode(
        "Column mapping is enabled but field '"@ + name + "' lacks the "@ + key + " annotation"@,
    )
}

/// What is missing for a field to be mapped, not counting the fields inside it.
pub open spec fn annotation_fault(f: FieldView) -> Option<ErrorView> {
    if !(metadata_of(f, COLUMN_MAPPING_PHYSICAL_NAME_KEY@) matches Some(
        MetadataValueView::String(_),
    )) {
        Some(missing_annotation(f.name, COLUMN_MAPPING_PHYSICAL_NAME_KEY@))
    } else if !(metadata_of(f, COLUMN_MAPPING_ID_KEY@) matches Some(MetadataValueView::Number(_))) {
        Some(missing_annotation(f.name, COLUMN_MAPPING_ID_KEY@))
    } else {
        None
    }
}

/// The first thing that is missing for the fields inside a type to be mapped.
pub open spec fn type_mapping_fault(t: DataTypeView) -> Option<ErrorView>
    decreases t,
{
    match t {
        DataTypeView::Primitive(_) => None,
        DataTypeView::Array(e, _) => type_mapping_fault(*e),
        DataTypeView::Mapping(k, v, _) => match type_mapping_fault(*k) {
            Some(e) => Some(e),
            None => type_mapping_fault(*v),
        },
        DataTypeView::Struct(s) => fields_mapping_fault(s),
        DataTypeView::Variant(_) => None,
    }
}

/// The first thing that is missing for fields to be mapped.
pub open spec fn fields_mapping_fault(s: Seq<FieldView>) -> Option<ErrorView>
    decreases s,
{
    if s.len() == 0 {
        None
    } else {
        match fields_mapping_fault(s.drop_last()) {
            Some(e) => Some(e),
            None => match annotation_fault(s.last()) {
                Some(e) => Some(e),
                None => type_mapping_fault(s.last().data_type),
            },
        }
    }
}

/// What is missing among the first fields is missing of all of them.
proof fn lemma_mapping_fault(s: Seq<FieldView>, n: int)
    requires
        0 <= n <= s.len(),
        fields_mapping_fault(s.take(n)) is Some,
    ensures
        fields_mapping_fault(s) == fields_mapping_fault(s.take(n)),
    decreases s.len(),
{
    if n == s.len() {
        assert(s.take(n) =~= s);
    } else {
        assert(s.drop_last().take(n) =~= s.take(n));
        lemma_mapping_fault(s.drop_last(), n);
    }
}

/// The metadata of a field in data files: with the identifier as that of the Parquet column where
/// columns are mapped by identifier.
pub open spec fn physical_metadata(f: FieldView, mode: ColumnMappingMode) -> Map<
    Seq<char>,
    MetadataValueView,
> {
    if mode is Id && f.metadata.dom().contains(COLUMN_MAPPING_ID_KEY@) {
        f.metadata.insert(PARQUET_FIELD_ID_KEY@, f.metadata[COLUMN_MAPPING_ID_KEY@])
    } else {
        f.metadata
    }
}

/// The order of the keys in the metadata of a field in data files.
pub open spec fn physical_metadata_keys(f: FieldView, mode: ColumnMappingMode) -> Seq<Seq<char>> {
    if mode is Id && f.metadata.dom().contains(COLUMN_MAPPING_ID_KEY@)
        && !f.metadata.dom().contains(PARQUET_FIELD_ID_KEY@) {
        f.metadata_keys.push(PARQUET_FIELD_ID_KEY@)
    } else {
        f.metadata_keys
    }
}

/// A type in data files.
pub open spec fn physical_type(t: DataTypeView, mode: ColumnMappingMode) -> DataTypeView
    decreases t,
{
    match t {
        DataTypeView::Primitive(p) => t,
        DataTypeView::Array(e, n) => DataTypeView::Array(Box::new(physical_type(*e, mode)), n),
        DataTypeView::Mapping(k, v, n) => DataTypeView::Mapping(
            Box::new(physical_type(*k, mode)),
            Box::new(physical_type(*v, mode)),
            n,
        ),
        DataTypeView::Struct(s) => DataTypeView::Struct(physical_fields(s, mode)),
        DataTypeView::Variant(s) => t,
    }
}

/// Fields in data files.
pub open spec fn physical_fields(s: Seq<FieldView>, mode: ColumnMappingMode) -> Seq<FieldView>
    decreases s,
{
    Seq::new(
        s.len(),
        |i: int|
            if 0 <= i < s.len() {
                FieldView {
                    name: physical_name_of(s[i], mode),
                    data_type: physical_type(s[i].data_type, mode),
                    nullable: s[i].nullable,
                    metadata: physical_metadata(s[i], mode),
                    metadata_keys: physical_metadata_keys(s[i], mode),
                }
            } else {
                arbitrary()
            },
    )
}

/// The schema of data files: the schema itself where columns are not mapped.
pub open spec fn physical_schema_of(s: Seq<FieldView>, mode: ColumnMappingMode) -> Seq<FieldView> {
    if mode is NoMapping {
        s
    } else {
        physical_fields(s, mode)
    }
}

/// What stands in the way of a physical schema.
pub open spec fn physical_schema_fault(s: Seq<FieldView>, mode: ColumnMappingMode) -> Option<
    ErrorView,
> {
    if mode is NoMapping {
        None
    } else {
        fields_mapping_fault(s)
    }
}

/// Checks the annotations of one field.
fn check_annotations(f: &StructField) -> (r: DeltaResult<()>)
    ensures
        annotation_fault(f@) is None ==> r is Ok,
        annotation_fault(f@) is Some ==> error::failure(r) == annotation_fault(f@),
{
    let has_name = match f.metadata.get(COLUMN_MAPPING_PHYSICAL_NAME_KEY) {
        Some(MetadataValue::String(_)) => true,
        _ => false,
    };
    let has_id = match f.metadata.get(COLUMN_MAPPING_ID_KEY) {
        Some(MetadataValue::Number(_)) => true,
        _ => false,
    };
    if !has_name {
        return Err(
            Error::InvalidColumnMappingMode(
                text5(
                    "Column mapping is enabled but field '",
                    f.name.as_str(),
                    "' lacks the ",
                    COLUMN_MAPPING_PHYSICAL_NAME_KEY,
                    " annotation",
                ),
            ),
        );
    }
    if !has_id {
        return Err(
            Error::InvalidColumnMappingMode(
                text5(
                    "Column mapping is enabled but field '",
                    f.name.as_str(),
                    "' lacks the ",
                    COLUMN_MAPPING_ID_KEY,
                    " annotation",
                ),
            ),
        );
    }
    Ok(())
}

fn make_type_physical(t: &DataType, mode: ColumnMappingMode) -> (r: DeltaResult<DataType>)
    ensures
        type_mapping_fault(t@) is None ==> (r matches Ok(p) && p@ == physical_type(t@, mode)),
        type_mapping_fault(t@) is Some ==> error::failure(r) == type_mapping_fault(t@),
    decreases *t,
{
    match t {
        DataType::Primitive(p) => Ok(DataType::Primitive(*p)),
        DataType::Array(a) => match make_type_physical(&a.element_type, mode) {
            Ok(element_type) => Ok(DataType::array(element_type, a.contains_null)),
            Err(e) => Err(e),
        },
        DataType::Mapping(m) => match make_type_physical(&m.key_type, mode) {
            Ok(key_type) => match make_type_physical(&m.value_type, mode) {
                Ok(value_type) => Ok(
                    DataType::mapping(key_type, value_type, m.value_contains_null),
                ),
                Err(e) => Err(e),
            },
            Err(e) => Err(e),
        },
        DataType::Struct(s) => match make_fields_physical(&s.fields, mode) {
            Ok(fields) => Ok(DataType::struct_of(StructType { fields })),
            Err(e) => Err(e),
        },
        DataType::Variant(_) => Ok(clone_type(t)),
    }
}

fn make_fields_physical(fields: &Vec<StructField>, mode: ColumnMappingMode) -> (r: DeltaResult<
    Vec<StructField>,
>)
    ensures
        fields_mapping_fault(schema::fields_view(fields@)) is None ==> (r matches Ok(p) && schema::fields_view(p@)
            == physical_fields(schema::fields_view(fields@), mode)),
        fields_mapping_fault(schema::fields_view(fields@)) is Some ==> error::failure(r) == fields_mapping_fault(
            schema::fields_view(fields@),
        ),
    decreases fields@,
{
    let ghost s = schema::fields_view(fields@);
    let mut out: Vec<StructField> = Vec::new();
    let mut i: usize = 0;
    assert(s.take(0) =~= Seq::<FieldView>::empty());
    while i < fields.len()
        invariant
            i <= fields@.len(),
            out@.len() == i,
            s == schema::fields_view(fields@),
            fields_mapping_fault(s.take(i as int)) is None,
            forall|j: int|
                0 <= j < i ==> schema::field_view(#[trigger] out@[j]) == physical_fields(s, mode)[j],
        decreases fields.len() - i,
    {
        assert(s[i as int] == schema::field_view(fields@[i as int]));
        assert(s.take(i + 1).drop_last() =~= s.take(i as int));
        assert(s.take(i + 1).last() == s[i as int]);
        let f = &fields[i];
        match check_annotations(f) {
            Ok(_) => {},
            Err(e) => {
                proof {
                    lemma_mapping_fault(s, i + 1);
                }
                return Err(e);
            },
        }
        let data_type = match make_type_physical(&f.data_type, mode) {
            Ok(t) => t,
            Err(e) => {
                proof {
                    lemma_mapping_fault(s, i + 1);
                }
                return Err(e);
            },
        };
        let mut metadata = f.metadata.clone();
        if let ColumnMappingMode::Id = mode {
            if let Some(MetadataValue::Number(id)) = f.metadata.get(COLUMN_MAPPING_ID_KEY) {
                metadata.insert(PARQUET_FIELD_ID_KEY.to_owned(), MetadataValue::Number(*id));
            }
        }
        let name = f.physical_name(mode).to_owned();
        out.push(StructField { name, data_type, nullable: f.nullable, metadata });
        i += 1;
    }
    assert(s.take(i as int) =~= s);
    assert(schema::fields_view(out@) =~= physical_fields(s, mode));
    Ok(out)
}

impl StructType {
    /// The schema of data files: the schema itself where columns are not mapped, else with
    /// physical names. Fails where a field lacks an annotation that column mapping needs.
    pub fn make_physical(&self, mode: ColumnMappingMode) -> (r: DeltaResult<StructType>)
        ensures
            physical_schema_fault(self@, mode) is None ==> (r matches Ok(p) && p@
                == physical_schema_of(self@, mode)),
            physical_schema_fault(self@, mode) is Some ==> error::failure(r) == physical_schema_fault(
                self@,
                mode,
            ),
    {
        match mode {
            ColumnMappingMode::NoMapping => Ok(self.clone()),
            _ => match make_fields_physical(&self.fields, mode) {
                Ok(fields) => Ok(StructType { fields }),
                Err(e) => Err(e),
            },
        }
    }
}

/// The field at the end of a path and the physical names along it: none where a name is not found
/// or where the path goes through something that is not a struct.
pub open spec fn walked(
    s: Seq<FieldView>,
    path: Seq<Seq<char>>,
    mode: ColumnMappingMode,
) -> Option<(FieldView, Seq<Seq<char>>)>
    decreases path.len(),
{
    if path.len() == 0 {
        None
    } else {
        match schema::find_field(s, path[0]) {
            None => None,
            Some(f) => if path.len() == 1 {
                Some((f, seq![physical_name_of(f, mode)]))
            } else {
                match f.data_type {
                    DataTypeView::Struct(inner) => match walked(inner, path.skip(1), mode) {
                        Some((g, names)) => Some((g, seq![physical_name_of(f, mode)] + names)),
                        None => None,
                    },
                    _ => None,
                }
            },
        }
    }
}

/// The error for a column that is not in a schema.
pub open spec fn column_not_found(path: Seq<Seq<char>>) -> ErrorView {
    ErrorView::Generic("Column '"@ + expressions::column_text(path) + "' not found in schema"@)
}

/// The field at the end of a path and the physical names along it.
pub fn walk_column<'a>(schema: &'a StructType, path: &Vec<String>, mode: ColumnMappingMode) -> (r:
    Option<(&'a StructField, Vec<String>)>)
    ensures
        walked(schema@, text::texts(path@), mode) is None ==> r is None,
        walked(schema@, text::texts(path@), mode) matches Some((f, names)) ==> (r matches Some((g, n))
            && g@ == f && text::texts(n@) == names),
{
    if path.len() == 0 {
        return None;
    }
    let ghost all = text::texts(path@);
    let ghost whole = walked(schema@, all, mode);
    let mut names: Vec<String> = Vec::new();
    let mut here: &'a StructType = schema;
    let mut i: usize = 0;
    assert(all.skip(0) =~= all);
    assert(text::texts(names@) =~= Seq::<Seq<char>>::empty());
    while i < path.len()
        invariant
            i < path@.len(),
            all == text::texts(path@),
            whole == (match walked(here@, all.skip(i as int), mode) {
                Some((f, rest)) => Some((f, text::texts(names@) + rest)),
                None => None,
            }),
            whole == walked(schema@, all, mode),
        decreases path.len() - i,
    {
        let ghost before = text::texts(names@);
        assert(all.skip(i as int)[0] == path@[i as int]@);
        assert(all.skip(i as int).skip(1) =~= all.skip(i + 1));
        let f: &'a StructField = match here.field(path[i].as_str()) {
            Some(f) => f,
            None => {
                return None;
            },
        };
        let name = f.physical_name(mode).to_owned();
        names.push(name);
        assert(text::texts(names@) =~= before.push(name@));
        if i + 1 == path.len() {
            assert(text::texts(names@) =~= before + seq![name@]);
            return Some((f, names));
        }
        match &f.data_type {
            DataType::Struct(inner) => {
                proof {
                    if let Some((g, rest)) = walked(inner@, all.skip(i + 1), mode) {
                        assert(before + (seq![name@] + rest) =~= text::texts(names@) + rest);
                    }
                }
                here = inner;
            },
            _ => {
                return None;
            },
        }
        i += 1;
    }
    None
}

/// The physical name of a column at any depth, or the error where it is not in the schema.
pub open spec fn physical_column(
    s: Seq<FieldView>,
    path: Seq<Seq<char>>,
    mode: ColumnMappingMode,
) -> Result<Seq<Seq<char>>, ErrorView> {
    match walked(s, path, mode) {
        Some((_, names)) => Ok(names),
        None => Err(column_not_found(path)),
    }
}

/// The physical name of a column at any depth. Fails where the column is not in the schema.
pub fn get_any_level_column_physical_name(
    schema: &StructType,
    column: &ColumnName,
    mode: ColumnMappingMode,
) -> (r: DeltaResult<ColumnName>)
    ensures
        physical_column(schema@, column@, mode) matches Ok(p) ==> (r matches Ok(c) && c@ == p),
        physical_column(schema@, column@, mode) matches Err(e) ==> error::failure(r) == Some(e),
{
    match walk_column(schema, column.path(), mode) {
        Some((_, path)) => Ok(ColumnName { path }),
        None => {
            let name = column.to_string();
            Err(Error::Generic(text3("Column '", name.as_str(), "' not found in schema")))
        },
    }
}

/// The first name that occurs before in a list of fields.
pub open spec fn first_repeated(s: Seq<FieldView>) -> Option<Seq<char>>
    decreases s.len(),
{
    if s.len() == 0 {
        None
    } else {
        match first_repeated(s.drop_last()) {
            Some(n) => Some(n),
            None => if schema::field_position(s.drop_last(), s.last().name) is Some {
                Some(s.last().name)
            } else {
                None
            },
        }
    }
}

/// A name that repeats among the first fields is the first of all that repeat.
proof fn lemma_first_repeated(s: Seq<FieldView>, n: int)
    requires
        0 <= n <= s.len(),
        first_repeated(s.take(n)) is Some,
    ensures
        first_repeated(s) == first_repeated(s.take(n)),
    decreases s.len(),
{
    if n == s.len() {
        assert(s.take(n) =~= s);
    } else {
        assert(s.drop_last().take(n) =~= s.take(n));
        lemma_first_repeated(s.drop_last(), n);
    }
}

/// No name repeats exactly where all names are distinct.
pub proof fn lemma_repeated_iff_duplicates(s: Seq<FieldView>)
    ensures
        first_repeated(s) is None <==> schema::field_names(s).no_duplicates(),
    decreases s.len(),
{
    if s.len() > 0 {
        let front = s.drop_last();
        lemma_repeated_iff_duplicates(front);
        schema::lemma_field_position(front, s.last().name);
        assert(schema::field_names(front) =~= schema::field_names(s).drop_last());
        if first_repeated(s) is None {
            assert forall|a: int, b: int| 0 <= a < b < s.len() implies schema::field_names(s)[a]
                != schema::field_names(s)[b] by {
                if b < front.len() {
                    assert(schema::field_names(front)[a] != schema::field_names(front)[b]);
                } else {
                    assert(front[a].name != s.last().name);
                }
            }
        } else if first_repeated(front) is None {
            let i = schema::field_position(front, s.last().name)->0;
            assert(schema::field_names(s)[i] == schema::field_names(s)[s.len() - 1]);
        } else {
            assert(!schema::field_names(s).no_duplicates()) by {
                if schema::field_names(s).no_duplicates() {
                    assert forall|a: int, b: int|
                        0 <= a < front.len() && 0 <= b < front.len() && a != b implies schema::field_names(
                        front,
                    )[a] != schema::field_names(front)[b] by {
                        assert(schema::field_names(s)[a] != schema::field_names(s)[b]);
                    }
                }
            }
        }
    }
}

/// The error for a name that occurs twice in a struct.
pub open spec fn duplicate_field(name: Seq<char>) -> ErrorView {
    ErrorView::Schema("Duplicate field name: "@ + name)
}

impl StructType {
    /// A struct of the given fields. Fails where a name occurs twice.
    pub fn try_new(fields: Vec<StructField>) -> (r: DeltaResult<StructType>)
        ensures
            first_repeated(schema::fields_view(fields@)) is None ==> (r matches Ok(s) && s@ == schema::fields_view(
                fields@,
            )),
            first_repeated(schema::fields_view(fields@)) matches Some(n) ==> error::failure(r) == Some(
                duplicate_field(n),
            ),
    {
        let ghost s = schema::fields_view(fields@);
        let mut i: usize = 0;
        assert(s.take(0) =~= Seq::<FieldView>::empty());
        while i < fields.len()
            invariant
                i <= fields@.len(),
                s == schema::fields_view(fields@),
                first_repeated(s.take(i as int)) is None,
            decreases fields.len() - i,
        {
            assert(s[i as int] == schema::field_view(fields@[i as int]));
            assert(s.take(i + 1).drop_last() =~= s.take(i as int));
            assert(s.take(i + 1).last() == s[i as int]);
            proof {
                schema::lemma_field_position(s, s[i as int].name);
                schema::lemma_field_position(s.take(i as int), s[i as int].name);
            }
            if let Some(p) = position_of(&fields, fields[i].name.as_str()) {
                if p < i {
                    proof {
                        assert(s.take(i as int)[p as int].name == s[i as int].name);
                        lemma_first_repeated(s, i + 1);
                    }
                    return Err(
                        Error::Schema(text2("Duplicate field name: ", fields[i].name.as_str())),
                    );
                }
                assert(schema::field_position(s.take(i as int), s[i as int].name) is None) by {
                    if let Some(q) = schema::field_position(s.take(i as int), s[i as int].name) {
                        assert(s[q].name == s[i as int].name);
                    }
                }
            }
            i += 1;
        }
        assert(s.take(i as int) =~= s);
        Ok(StructType { fields })
    }
}

} // verus!
