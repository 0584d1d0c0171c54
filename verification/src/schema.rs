//! Table schemas: structs of named, typed fields.
use vstd::prelude::*;

use crate::string_map::{MapValue, StringMap};
use crate::text::same_text;

verus! {

/// The precision and scale of a decimal type.
#[derive(Debug, Clone, Copy, PartialEq, Eq, Structural)]
pub struct DecimalType {
    pub precision: u8,
    pub scale: u8,
}

/// A type without inner structure.
#[derive(Debug, Clone, Copy, PartialEq, Eq, Structural)]
pub enum PrimitiveType {
    String,
    Long,
    Integer,
    Short,
    Byte,
    Float,
    Double,
    Boolean,
    Binary,
    Date,
    Timestamp,
    TimestampNtz,
    Decimal(DecimalType),
}

/// The type of a field.
#[derive(Debug, PartialEq, Eq)]
pub enum DataType {
    Primitive(PrimitiveType),
    Array(Box<ArrayType>),
    Struct(Box<StructType>),
    Mapping(Box<MapType>),
    /// A semi-structured value, stored as the given struct.
    Variant(Box<StructType>),
}

/// A list type.
#[derive(Debug, PartialEq, Eq)]
pub struct ArrayType {
    pub element_type: DataType,
    pub contains_null: bool,
}

/// A map type.
#[derive(Debug, PartialEq, Eq)]
pub struct MapType {
    pub key_type: DataType,
    pub value_type: DataType,
    pub value_contains_null: bool,
}

/// A value in the metadata of a field.
#[derive(Debug, PartialEq, Eq)]
pub enum MetadataValue {
    Number(i64),
    String(String),
    Boolean(bool),
    /// Any other value, as its JSON text.
    Other(String),
}

/// A named field of a struct.
#[derive(Debug, PartialEq, Eq)]
pub struct StructField {
    pub name: String,
    pub data_type: DataType,
    pub nullable: bool,
    pub metadata: StringMap<MetadataValue>,
}

/// A struct: an ordered list of fields.
#[derive(Debug, PartialEq, Eq)]
pub struct StructType {
    pub fields: Vec<StructField>,
}

pub enum MetadataValueView {
    Number(i64),
    String(Seq<char>),
    Boolean(bool),
    Other(Seq<char>),
}

impl View for MetadataValue {
    type V = MetadataValueView;

    open spec fn view(&self) -> MetadataValueView {
        match *self {
            MetadataValue::Number(n) => MetadataValueView::Number(n),
            MetadataValue::String(s) => MetadataValueView::String(s@),
            MetadataValue::Boolean(b) => MetadataValueView::Boolean(b),
            MetadataValue::Other(s) => MetadataValueView::Other(s@),
        }
    }
}

impl MapValue for MetadataValue {
    fn same_value(&self, other: &MetadataValue) -> (r: bool) {
        match (self, other) {
            (MetadataValue::Number(a), MetadataValue::Number(b)) => *a == *b,
            (MetadataValue::String(a), MetadataValue::String(b)) => *a == *b,
            (MetadataValue::Boolean(a), MetadataValue::Boolean(b)) => *a == *b,
            (MetadataValue::Other(a), MetadataValue::Other(b)) => *a == *b,
            _ => false,
        }
    }

    fn copy_value(&self) -> (r: MetadataValue) {
        match self {
            MetadataValue::Number(n) => MetadataValue::Number(*n),
            MetadataValue::String(s) => MetadataValue::String(s.clone()),
            MetadataValue::Boolean(b) => MetadataValue::Boolean(*b),
            MetadataValue::Other(s) => MetadataValue::Other(s.clone()),
        }
    }
}

/// The mathematical value of a [`DataType`].
pub enum DataTypeView {
    Primitive(PrimitiveType),
    Array(Box<DataTypeView>, bool),
    Struct(Seq<FieldView>),
    Mapping(Box<DataTypeView>, Box<DataTypeView>, bool),
    Variant(Seq<FieldView>),
}

/// The mathematical value of a [`StructField`].
pub struct FieldView {
    pub name: Seq<char>,
    pub data_type: DataTypeView,
    pub nullable: bool,
    pub metadata: Map<Seq<char>, MetadataValueView>,
    /// The keys of the metadata in the order of their first insertion.
    pub metadata_keys: Seq<Seq<char>>,
}

pub open spec fn type_view(t: DataType) -> DataTypeView
    decreases t,
{
    match t {
        DataType::Primitive(p) => DataTypeView::Primitive(p),
        DataType::Array(a) => DataTypeView::Array(
            Box::new(type_view(a.element_type)),
            a.contains_null,
        ),
        DataType::Struct(s) => DataTypeView::Struct(fields_view(s.fields@)),
        DataType::Mapping(m) => DataTypeView::Mapping(
            Box::new(type_view(m.key_type)),
            Box::new(type_view(m.value_type)),
            m.value_contains_null,
        ),
        DataType::Variant(s) => DataTypeView::Variant(fields_view(s.fields@)),
    }
}

pub open spec fn field_view(f: StructField) -> FieldView
    decreases f,
{
    FieldView {
        name: f.name@,
        data_type: type_view(f.data_type),
        nullable: f.nullable,
        metadata: f.metadata@,
        metadata_keys: f.metadata.keys(),
    }
}

pub open spec fn fields_view(s: Seq<StructField>) -> Seq<FieldView>
    decreases s,
{
    Seq::new(
        s.len(),
        |i: int|
            if 0 <= i < s.len() {
                field_view(s[i])
            } else {
                arbitrary()
            },
    )
}

impl View for DataType {
    type V = DataTypeView;

    open spec fn view(&self) -> DataTypeView {
        type_view(*self)
    }
}

impl View for StructField {
    type V = FieldView;

    open spec fn view(&self) -> FieldView {
        field_view(*self)
    }
}

impl View for StructType {
    type V = Seq<FieldView>;

    open spec fn view(&self) -> Seq<FieldView> {
        fields_view(self.fields@)
    }
}

/// The type of a primitive.
pub open spec fn primitive(p: PrimitiveType) -> DataTypeView {
    DataTypeView::Primitive(p)
}

/// A field without metadata.
pub open spec fn plain_field(name: Seq<char>, t: DataTypeView, nullable: bool) -> FieldView {
    FieldView {
        name,
        data_type: t,
        nullable,
        metadata: Map::empty(),
        metadata_keys: Seq::empty(),
    }
}

/// A map from strings to strings.
pub open spec fn string_map_type(value_contains_null: bool) -> DataTypeView {
    DataTypeView::Mapping(
        Box::new(primitive(PrimitiveType::String)),
        Box::new(primitive(PrimitiveType::String)),
        value_contains_null,
    )
}

/// The names of a list of fields.
pub open spec fn field_names(fields: Seq<FieldView>) -> Seq<Seq<char>> {
    Seq::new(fields.len(), |i: int| fields[i].name)
}

/// Where the first field of a name stands.
pub open spec fn field_position(fields: Seq<FieldView>, name: Seq<char>) -> Option<int>
    decreases fields.len(),
{
    if fields.len() == 0 {
        None
    } else {
        match field_position(fields.drop_last(), name) {
            Some(i) => Some(i),
            None => if fields.last().name == name {
                Some(fields.len() - 1)
            } else {
                None
            },
        }
    }
}

/// The first field of a name.
pub open spec fn find_field(fields: Seq<FieldView>, name: Seq<char>) -> Option<FieldView> {
    match field_position(fields, name) {
        Some(i) => Some(fields[i]),
        None => None,
    }
}

/// The position that is found is that of the first field of the name.
pub proof fn lemma_field_position(fields: Seq<FieldView>, name: Seq<char>)
    ensures
        field_position(fields, name) matches Some(i) ==> 0 <= i < fields.len() && fields[i].name
            == name && forall|j: int| 0 <= j < i ==> fields[j].name != name,
        field_position(fields, name) is None ==> forall|j: int|
            0 <= j < fields.len() ==> fields[j].name != name,
    decreases fields.len(),
{
    if fields.len() > 0 {
        lemma_field_position(fields.drop_last(), name);
        assert forall|j: int| 0 <= j < fields.len() - 1 implies fields[j]
            == fields.drop_last()[j] by {}
    }
}

/// A position that holds the first field of a name is the position that is found.
pub proof fn lemma_field_position_is(fields: Seq<FieldView>, name: Seq<char>, i: int)
    requires
        0 <= i < fields.len(),
        fields[i].name == name,
        forall|j: int| 0 <= j < i ==> fields[j].name != name,
    ensures
        field_position(fields, name) == Some(i),
{
    lemma_field_position(fields, name);
}

/// The fields after one more field has come: it takes the place of a field of its name, or comes
/// last.
pub open spec fn with_field(fields: Seq<FieldView>, field: FieldView) -> Seq<FieldView> {
    match field_position(fields, field.name) {
        Some(i) => fields.update(i, field),
        None => fields.push(field),
    }
}

/// The fields that are left of a list when a later field takes the place of an earlier one of the
/// same name.
pub open spec fn keyed(fields: Seq<FieldView>) -> Seq<FieldView>
    decreases fields.len(),
{
    if fields.len() == 0 {
        Seq::empty()
    } else {
        with_field(keyed(fields.drop_last()), fields.last())
    }
}

/// Every field that is left comes from the list.
pub proof fn lemma_keyed_from(fields: Seq<FieldView>, f: FieldView)
    requires
        keyed(fields).contains(f),
    ensures
        fields.contains(f),
    decreases fields.len(),
{
    let all = keyed(fields);
    let i = choose|i: int| 0 <= i < all.len() && all[i] == f;
    if f == fields.last() {
        assert(fields[fields.len() - 1] == f);
    } else {
        let front = keyed(fields.drop_last());
        lemma_field_position(front, fields.last().name);
        assert(front[i] == f);
        lemma_keyed_from(fields.drop_last(), f);
        let j = choose|j: int| 0 <= j < fields.len() - 1 && fields.drop_last()[j] == f;
        assert(fields[j] == f);
    }
}

/// Where no name occurs twice, nothing is replaced.
pub proof fn lemma_keyed_distinct(fields: Seq<FieldView>)
    requires
        field_names(fields).no_duplicates(),
    ensures
        keyed(fields) == fields,
    decreases fields.len(),
{
    if fields.len() > 0 {
        let front = fields.drop_last();
        assert(field_names(front) =~= field_names(fields).drop_last());
        lemma_keyed_distinct(front);
        lemma_field_position(front, fields.last().name);
        if let Some(i) = field_position(front, fields.last().name) {
            assert(field_names(fields)[i] == field_names(fields)[fields.len() - 1]);
        }
        assert(front.push(fields.last()) =~= fields);
    } else {
        assert(fields =~= Seq::empty());
    }
}

/// A list in which later fields take the place of earlier ones holds no name twice.
pub proof fn lemma_keyed_no_duplicates(fields: Seq<FieldView>)
    ensures
        field_names(keyed(fields)).no_duplicates(),
    decreases fields.len(),
{
    if fields.len() > 0 {
        let front = keyed(fields.drop_last());
        let last = fields.last();
        lemma_keyed_no_duplicates(fields.drop_last());
        lemma_field_position(front, last.name);
        let all = with_field(front, last);
        match field_position(front, last.name) {
            Some(i) => {
                assert(field_names(all) =~= field_names(front));
            },
            None => {
                assert(field_names(all) =~= field_names(front).push(last.name));
                assert forall|a: int, b: int| 0 <= a < b < all.len() implies field_names(all)[a]
                    != field_names(all)[b] by {
                    if b < front.len() {
                        assert(field_names(front)[a] != field_names(front)[b]);
                    }
                }
            },
        }
    }
}

impl DataType {
    pub fn string() -> (r: DataType)
        ensures
            r@ == primitive(PrimitiveType::String),
    {
        DataType::Primitive(PrimitiveType::String)
    }

    pub fn long() -> (r: DataType)
        ensures
            r@ == primitive(PrimitiveType::Long),
    {
        DataType::Primitive(PrimitiveType::Long)
    }

    pub fn integer() -> (r: DataType)
        ensures
            r@ == primitive(PrimitiveType::Integer),
    {
        DataType::Primitive(PrimitiveType::Integer)
    }

    pub fn boolean() -> (r: DataType)
        ensures
            r@ == primitive(PrimitiveType::Boolean),
    {
        DataType::Primitive(PrimitiveType::Boolean)
    }

    /// A list type.
    pub fn array(element_type: DataType, contains_null: bool) -> (r: DataType)
        ensures
            r@ == DataTypeView::Array(Box::new(element_type@), contains_null),
    {
        DataType::Array(Box::new(ArrayType { element_type, contains_null }))
    }

    /// A map type.
    pub fn mapping(key_type: DataType, value_type: DataType, value_contains_null: bool) -> (r:
        DataType)
        ensures
            r@ == DataTypeView::Mapping(
                Box::new(key_type@),
                Box::new(value_type@),
                value_contains_null,
            ),
    {
        DataType::Mapping(Box::new(MapType { key_type, value_type, value_contains_null }))
    }

    /// A struct type.
    pub fn struct_of(s: StructType) -> (r: DataType)
        ensures
            r@ == DataTypeView::Struct(s@),
    {
        DataType::Struct(Box::new(s))
    }

    /// A struct type made of the given fields, taken as they are.
    pub fn struct_type_unchecked(fields: Vec<StructField>) -> (r: DataType)
        ensures
            r@ == DataTypeView::Struct(keyed(fields_view(fields@))),
    {
        DataType::struct_of(StructType::new_unchecked(fields))
    }

    /// The variant type as it is stored when nothing of it is shredded.
    pub fn unshredded_variant() -> (r: DataType)
        ensures
            r@ == DataTypeView::Variant(
                seq![
                    plain_field("metadata"@, primitive(PrimitiveType::Binary), false),
                    plain_field("value"@, primitive(PrimitiveType::Binary), false),
                ],
            ),
    {
        let r = DataType::Variant(
            Box::new(
                StructType {
                    fields: vec![
                        StructField::not_null(
                            "metadata",
                            DataType::Primitive(PrimitiveType::Binary),
                        ),
                        StructField::not_null(
                            "value",
                            DataType::Primitive(PrimitiveType::Binary),
                        ),
                    ],
                },
            ),
        );
        assert(r->Variant_0@ =~= seq![
            plain_field("metadata"@, primitive(PrimitiveType::Binary), false),
            plain_field("value"@, primitive(PrimitiveType::Binary), false),
        ]);
        r
    }
}

impl StructField {
    /// A field without metadata.
    pub fn new(name: &str, data_type: DataType, nullable: bool) -> (r: StructField)
        ensures
            r@ == plain_field(name@, data_type@, nullable),
    {
        StructField { name: name.to_owned(), data_type, nullable, metadata: StringMap::new() }
    }

    /// A field without metadata that may be null.
    pub fn nullable(name: &str, data_type: DataType) -> (r: StructField)
        ensures
            r@ == plain_field(name@, data_type@, true),
    {
        StructField::new(name, data_type, true)
    }

    /// A field without metadata that may not be null.
    pub fn not_null(name: &str, data_type: DataType) -> (r: StructField)
        ensures
            r@ == plain_field(name@, data_type@, false),
    {
        StructField::new(name, data_type, false)
    }

    pub fn name(&self) -> (r: &String)
        ensures
            r@ == self@.name,
    {
        &self.name
    }

    pub fn data_type(&self) -> (r: &DataType)
        ensures
            r@ == self@.data_type,
    {
        &self.data_type
    }

    pub fn is_nullable(&self) -> (r: bool)
        ensures
            r == self@.nullable,
    {
        self.nullable
    }
}

/// A copy of a data type.
pub fn clone_type(t: &DataType) -> (r: DataType)
    ensures
        r@ == t@,
    decreases *t,
{
    match t {
        DataType::Primitive(p) => DataType::Primitive(*p),
        DataType::Array(a) => DataType::Array(
            Box::new(
                ArrayType {
                    element_type: clone_type(&a.element_type),
                    contains_null: a.contains_null,
                },
            ),
        ),
        DataType::Struct(s) => DataType::Struct(
            Box::new(StructType { fields: clone_fields(&s.fields) }),
        ),
        DataType::Mapping(m) => DataType::Mapping(
            Box::new(
                MapType {
                    key_type: clone_type(&m.key_type),
                    value_type: clone_type(&m.value_type),
                    value_contains_null: m.value_contains_null,
                },
            ),
        ),
        DataType::Variant(s) => DataType::Variant(
            Box::new(StructType { fields: clone_fields(&s.fields) }),
        ),
    }
}

/// A copy of a field.
pub fn clone_field(f: &StructField) -> (r: StructField)
    ensures
        r@ == f@,
    decreases *f,
{
    StructField {
        name: f.name.clone(),
        data_type: clone_type(&f.data_type),
        nullable: f.nullable,
        metadata: f.metadata.clone(),
    }
}

/// A copy of a list of fields.
pub fn clone_fields(fields: &Vec<StructField>) -> (r: Vec<StructField>)
    ensures
        fields_view(r@) == fields_view(fields@),
    decreases fields@,
{
    let mut r: Vec<StructField> = Vec::new();
    let mut i: usize = 0;
    while i < fields.len()
        invariant
            i <= fields.len(),
            r@.len() == i,
            forall|j: int| 0 <= j < i ==> field_view(#[trigger] r@[j]) == field_view(fields@[j]),
        decreases fields.len() - i,
    {
        r.push(clone_field(&fields[i]));
        i += 1;
    }
    assert(fields_view(r@) =~= fields_view(fields@));
    r
}

impl Clone for DataType {
    fn clone(&self) -> (r: DataType)
        ensures
            r@ == self@,
    {
        clone_type(self)
    }
}

impl Clone for StructField {
    fn clone(&self) -> (r: StructField)
        ensures
            r@ == self@,
    {
        clone_field(self)
    }
}

impl Clone for StructType {
    fn clone(&self) -> (r: StructType)
        ensures
            r@ == self@,
    {
        StructType { fields: clone_fields(&self.fields) }
    }
}

/// The field that a lookup returned.
pub open spec fn opt_field(f: Option<&StructField>) -> Option<FieldView> {
    match f {
        Some(f) => Some(f@),
        None => None,
    }
}

impl StructType {
    /// A struct of the given fields, taken as they are. A later field takes the place of an
    /// earlier one of the same name.
    pub fn new_unchecked(fields: Vec<StructField>) -> (r: StructType)
        ensures
            r@ == keyed(fields_view(fields@)),
    {
        let mut kept: Vec<StructField> = Vec::new();
        let ghost all = fields_view(fields@);
        assert(fields_view(kept@) =~= keyed(all.take(0)));
        let mut i: usize = 0;
        while i < fields.len()
            invariant
                i <= fields.len(),
                all == fields_view(fields@),
                fields_view(kept@) == keyed(all.take(i as int)),
            decreases fields.len() - i,
        {
            let ghost before = fields_view(kept@);
            let ghost next = field_view(fields@[i as int]);
            proof {
                assert(all.take(i + 1).drop_last() =~= all.take(i as int));
                assert(all.take(i + 1).last() == next);
            }
            let copy = clone_field(&fields[i]);
            match position_of(&kept, fields[i].name.as_str()) {
                Some(p) => {
                    kept[p] = copy;
                    assert(fields_view(kept@) =~= before.update(p as int, next));
                },
                None => {
                    kept.push(copy);
                    assert(fields_view(kept@) =~= before.push(next));
                },
            }
            i += 1;
        }
        assert(all.take(i as int) =~= all);
        StructType { fields: kept }
    }

    /// The fields in order.
    pub fn fields(&self) -> (r: &Vec<StructField>)
        ensures
            fields_view(r@) == self@,
            r@.len() == self@.len(),
    {
        &self.fields
    }

    /// How many fields there are.
    pub fn num_fields(&self) -> (r: usize)
        ensures
            r == self@.len(),
    {
        self.fields.len()
    }

    /// The first field of a name.
    pub fn field(&self, name: &str) -> (r: Option<&StructField>)
        ensures
            opt_field(r) == find_field(self@, name@),
    {
        match position_of(&self.fields, name) {
            Some(i) => Some(&self.fields[i]),
            None => None,
        }
    }

    /// Whether there is a field of a name.
    pub fn contains(&self, name: &str) -> (r: bool)
        ensures
            r == (find_field(self@, name@) is Some),
    {
        position_of(&self.fields, name).is_some()
    }
}

/// Where the first field of a name stands.
pub fn position_of(fields: &Vec<StructField>, name: &str) -> (r: Option<usize>)
    ensures
        r matches Some(i) ==> i < fields@.len() && field_position(fields_view(fields@), name@)
            == Some(i as int),
        r is None ==> field_position(fields_view(fields@), name@) is None,
{
    let ghost all = fields_view(fields@);
    let mut i: usize = 0;
    while i < fields.len()
        invariant
            i <= fields.len(),
            all == fields_view(fields@),
            forall|j: int| 0 <= j < i ==> all[j].name != name@,
        decreases fields.len() - i,
    {
        if same_text(fields[i].name.as_str(), name) {
            assert(all[i as int].name == name@);
            proof {
                lemma_field_position_is(all, name@, i as int);
            }
            return Some(i);
        }
        assert(all[i as int].name != name@);
        i += 1;
    }
    proof {
        lemma_field_position(all, name@);
    }
    None
}

} // verus!
