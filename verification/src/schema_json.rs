//! The text of a schema: how it is stored in a table's metadata, and how types are shown.
use vstd::prelude::*;

use crate::bindings::{self, to_json_string};
use crate::schema::{
    self, DataType, DataTypeView, FieldView, MetadataValue, MetadataValueView, PrimitiveType,
    StructField, StructType,
};
use crate::string_map::StringMap;
use crate::text::{self, signed_text, text3, text5, unsigned_text};

verus! {

/// The name of a primitive type.
pub open spec fn primitive_name(p: PrimitiveType) -> Seq<char> {
    match p {
        PrimitiveType::String => "string"@,
        PrimitiveType::Long => "long"@,
        PrimitiveType::Integer => "integer"@,
        PrimitiveType::Short => "short"@,
        PrimitiveType::Byte => "byte"@,
        PrimitiveType::Float => "float"@,
        PrimitiveType::Double => "double"@,
        PrimitiveType::Boolean => "boolean"@,
        PrimitiveType::Binary => "binary"@,
        PrimitiveType::Date => "date"@,
        PrimitiveType::Timestamp => "timestamp"@,
        PrimitiveType::TimestampNtz => "timestamp_ntz"@,
        PrimitiveType::Decimal(d) => "decimal("@ + text::decimal(d.precision as nat) + ","@ + text::decimal(
            d.scale as nat,
        ) + ")"@,
    }
}

/// The JSON text of a flag.
pub open spec fn json_bool(b: bool) -> Seq<char> {
    if b {
        "true"@
    } else {
        "false"@
    }
}

/// The JSON text of a value in the metadata of a field.
pub open spec fn metadata_value_json(v: MetadataValueView) -> Seq<char> {
    match v {
        MetadataValueView::Number(n) => text::signed_decimal(n as int),
        MetadataValueView::String(s) => bindings::json_string(s),
        MetadataValueView::Boolean(b) => json_bool(b),
        MetadataValueView::Other(s) => s,
    }
}

/// The members of the JSON object for the metadata of a field.
pub open spec fn metadata_members_json(
    m: Map<Seq<char>, MetadataValueView>,
    keys: Seq<Seq<char>>,
) -> Seq<char>
    decreases keys.len(),
{
    if keys.len() == 0 {
        Seq::empty()
    } else {
        metadata_members_json(m, keys.drop_last()) + (if keys.len() > 1 {
            ","@
        } else {
            ""@
        }) + bindings::json_string(keys.last()) + ":"@ + metadata_value_json(m[keys.last()])
    }
}

/// The JSON text of a type.
pub open spec fn type_json(t: DataTypeView) -> Seq<char>
    decreases t,
{
    match t {
        DataTypeView::Primitive(p) => "\""@ + primitive_name(p) + "\""@,
        DataTypeView::Array(e, n) => "{\"type\":\"array\",\"elementType\":"@ + type_json(*e)
            + ",\"containsNull\":"@ + json_bool(n) + "}"@,
        DataTypeView::Struct(f) => "{\"type\":\"struct\",\"fields\":["@ + fields_json(f) + "]}"@,
        DataTypeView::Mapping(k, v, n) => "{\"type\":\"map\",\"keyType\":"@ + type_json(*k)
            + ",\"valueType\":"@ + type_json(*v) + ",\"valueContainsNull\":"@ + json_bool(n)
            + "}"@,
        DataTypeView::Variant(_) => "\"variant\""@,
    }
}

/// The JSON text of a field.
pub open spec fn field_json(f: FieldView) -> Seq<char>
    decreases f,
{
    "{\"name\":"@ + bindings::json_string(f.name) + ",\"type\":"@ + type_json(f.data_type)
        + ",\"nullable\":"@ + json_bool(f.nullable) + ",\"metadata\":{"@ + metadata_members_json(
        f.metadata,
        f.metadata_keys,
    ) + "}}"@
}

/// The elements of the JSON array for a list of fields.
pub open spec fn fields_json(s: Seq<FieldView>) -> Seq<char>
    decreases s,
{
    if s.len() == 0 {
        Seq::empty()
    } else {
        fields_json(s.drop_last()) + (if s.len() > 1 {
            ","@
        } else {
            ""@
        }) + field_json(s.last())
    }
}

/// The JSON text of a schema.
pub open spec fn schema_json(s: Seq<FieldView>) -> Seq<char> {
    "{\"type\":\"struct\",\"fields\":["@ + fields_json(s) + "]}"@
}

/// The JSON string of a text.
pub fn quoted(s: &str) -> (r: String)
    ensures
        r@ == bindings::json_string(s@),
{
    match to_json_string(s) {
        Ok(t) => t,
        Err(e) => e,
    }
}

/// The name of a primitive type.
pub fn primitive_text(p: PrimitiveType) -> (r: String)
    ensures
        r@ == primitive_name(p),
{
    match p {
        PrimitiveType::String => "string".to_owned(),
        PrimitiveType::Long => "long".to_owned(),
        PrimitiveType::Integer => "integer".to_owned(),
        PrimitiveType::Short => "short".to_owned(),
        PrimitiveType::Byte => "byte".to_owned(),
        PrimitiveType::Float => "float".to_owned(),
        PrimitiveType::Double => "double".to_owned(),
        PrimitiveType::Boolean => "boolean".to_owned(),
        PrimitiveType::Binary => "binary".to_owned(),
        PrimitiveType::Date => "date".to_owned(),
        PrimitiveType::Timestamp => "timestamp".to_owned(),
        PrimitiveType::TimestampNtz => "timestamp_ntz".to_owned(),
        PrimitiveType::Decimal(d) => {
            let precision = unsigned_text(d.precision as u64);
            let scale = unsigned_text(d.scale as u64);
            text5("decimal(", precision.as_str(), ",", scale.as_str(), ")")
        },
    }
}

fn bool_text(b: bool) -> (r: &'static str)
    ensures
        r@ == json_bool(b),
{
    if b {
        "true"
    } else {
        "false"
    }
}

fn metadata_value_text(v: &MetadataValue) -> (r: String)
    ensures
        r@ == metadata_value_json(v@),
{
    match v {
        MetadataValue::Number(n) => signed_text(*n),
        MetadataValue::String(s) => quoted(s.as_str()),
        MetadataValue::Boolean(b) => bool_text(*b).to_owned(),
        MetadataValue::Other(s) => s.clone(),
    }
}

fn metadata_members_text(m: &StringMap<MetadataValue>) -> (r: String)
    ensures
        r@ == metadata_members_json(m@, m.keys()),
{
    let n: usize = m.len();
    let ghost keys = m.keys();
    let mut r = String::new();
    let mut i: usize = 0;
    proof {
        reveal_strlit("");
        assert(keys.take(0) =~= Seq::<Seq<char>>::empty());
    }
    while i < n
        invariant
            i <= n == m.keys().len(),
            keys == m.keys(),
            ""@ == Seq::<char>::empty(),
            r@ == metadata_members_json(m@, keys.take(i as int)),
        decreases n - i,
    {
        assert(keys.take(i + 1).drop_last() =~= keys.take(i as int));
        assert(keys.take(i + 1).last() == keys[i as int]);
        let ghost before = r@;
        if i > 0 {
            r.append(",");
        } else {
            assert(before + ""@ =~= before);
        }
        let key = quoted(m.key_at(i).as_str());
        let value = metadata_value_text(m.value_at(i));
        r.append(key.as_str());
        r.append(":");
        r.append(value.as_str());
        i += 1;
    }
    assert(keys.take(i as int) =~= keys);
    r
}

/// Writes a type as JSON.
pub fn type_json_text(t: &DataType) -> (r: String)
    ensures
        r@ == type_json(t@),
    decreases *t,
{
    match t {
        DataType::Primitive(p) => {
            let name = primitive_text(*p);
            text3("\"", name.as_str(), "\"")
        },
        DataType::Array(a) => {
            let element = type_json_text(&a.element_type);
            text5(
                "{\"type\":\"array\",\"elementType\":",
                element.as_str(),
                ",\"containsNull\":",
                bool_text(a.contains_null),
                "}",
            )
        },
        DataType::Struct(s) => {
            let fields = fields_json_text(&s.fields);
            text3("{\"type\":\"struct\",\"fields\":[", fields.as_str(), "]}")
        },
        DataType::Mapping(m) => {
            let key = type_json_text(&m.key_type);
            let value = type_json_text(&m.value_type);
            let mut r = text5(
                "{\"type\":\"map\",\"keyType\":",
                key.as_str(),
                ",\"valueType\":",
                value.as_str(),
                ",\"valueContainsNull\":",
            );
            r.append(bool_text(m.value_contains_null));
            r.append("}");
            r
        },
        DataType::Variant(_) => "\"variant\"".to_owned(),
    }
}

fn field_json_text(f: &StructField) -> (r: String)
    ensures
        r@ == field_json(f@),
    decreases *f,
{
    let name = quoted(f.name.as_str());
    let data_type = type_json_text(&f.data_type);
    let members = metadata_members_text(&f.metadata);
    let mut r = text5("{\"name\":", name.as_str(), ",\"type\":", data_type.as_str(), ",\"nullable\":");
    r.append(bool_text(f.nullable));
    r.append(",\"metadata\":{");
    r.append(members.as_str());
    r.append("}}");
    r
}

fn fields_json_text(fields: &Vec<StructField>) -> (r: String)
    ensures
        r@ == fields_json(schema::fields_view(fields@)),
    decreases fields@,
{
    let ghost s = schema::fields_view(fields@);
    let mut r = String::new();
    let mut i: usize = 0;
    proof {
        reveal_strlit("");
        assert(s.take(0) =~= Seq::<FieldView>::empty());
    }
    while i < fields.len()
        invariant
            i <= fields@.len(),
            s == schema::fields_view(fields@),
            ""@ == Seq::<char>::empty(),
            r@ == fields_json(s.take(i as int)),
        decreases fields.len() - i,
    {
        assert(s.take(i + 1).drop_last() =~= s.take(i as int));
        assert(s.take(i + 1).last() == schema::field_view(fields@[i as int]));
        let ghost before = r@;
        if i > 0 {
            r.append(",");
        } else {
            assert(before + ""@ =~= before);
        }
        let one = field_json_text(&fields[i]);
        r.append(one.as_str());
        i += 1;
    }
    assert(s.take(i as int) =~= s);
    r
}

impl StructType {
    /// Writes the schema as JSON.
    pub fn to_json(&self) -> (r: String)
        ensures
            r@ == schema_json(self@),
    {
        let fields = fields_json_text(&self.fields);
        text3("{\"type\":\"struct\",\"fields\":[", fields.as_str(), "]}")
    }
}

/// How a type is shown in a message.
pub open spec fn type_text(t: DataTypeView) -> Seq<char>
    decreases t,
{
    match t {
        DataTypeView::Primitive(p) => primitive_name(p),
        DataTypeView::Array(e, _) => "array<"@ + type_text(*e) + ">"@,
        DataTypeView::Struct(f) => "struct<"@ + fields_text(f) + ">"@,
        DataTypeView::Mapping(k, v, _) => "map<"@ + type_text(*k) + ", "@ + type_text(*v) + ">"@,
        DataTypeView::Variant(_) => "variant"@,
    }
}

/// How the fields of a struct are shown in a message.
pub open spec fn fields_text(s: Seq<FieldView>) -> Seq<char>
    decreases s,
{
    if s.len() == 0 {
        Seq::empty()
    } else {
        fields_text(s.drop_last()) + (if s.len() > 1 {
            ", "@
        } else {
            ""@
        }) + s.last().name + ": "@ + type_text(s.last().data_type)
    }
}

impl DataType {
    /// How the type is shown in a message.
    pub fn to_string(&self) -> (r: String)
        ensures
            r@ == type_text(self@),
    {
        show_type(self)
    }
}

fn show_type(t: &DataType) -> (r: String)
    ensures
        r@ == type_text(t@),
    decreases *t,
{
    match t {
        DataType::Primitive(p) => primitive_text(*p),
        DataType::Array(a) => {
            let element = show_type(&a.element_type);
            text3("array<", element.as_str(), ">")
        },
        DataType::Struct(s) => {
            let fields = show_fields(&s.fields);
            text3("struct<", fields.as_str(), ">")
        },
        DataType::Mapping(m) => {
            let key = show_type(&m.key_type);
            let value = show_type(&m.value_type);
            text5("map<", key.as_str(), ", ", value.as_str(), ">")
        },
        DataType::Variant(_) => "variant".to_owned(),
    }
}

fn show_fields(fields: &Vec<StructField>) -> (r: String)
    ensures
        r@ == fields_text(schema::fields_view(fields@)),
    decreases fields@,
{
    let ghost s = schema::fields_view(fields@);
    let mut r = String::new();
    let mut i: usize = 0;
    proof {
        reveal_strlit("");
        assert(s.take(0) =~= Seq::<FieldView>::empty());
    }
    while i < fields.len()
        invariant
            i <= fields@.len(),
            s == schema::fields_view(fields@),
            ""@ == Seq::<char>::empty(),
            r@ == fields_text(s.take(i as int)),
        decreases fields.len() - i,
    {
        assert(s.take(i + 1).drop_last() =~= s.take(i as int));
        assert(s.take(i + 1).last() == schema::field_view(fields@[i as int]));
        let ghost before = r@;
        if i > 0 {
            r.append(", ");
        } else {
            assert(before + ""@ =~= before);
        }
        let shown = show_type(&fields[i].data_type);
        r.append(fields[i].name.as_str());
        r.append(": ");
        r.append(shown.as_str());
        i += 1;
    }
    assert(s.take(i as int) =~= s);
    r
}

} // verus!
