//! Literal values.
use vstd::prelude::*;

use crate::schema::{
    self, ArrayType, DataType, DataTypeView, FieldView, MapType, PrimitiveType, StructField,
};
use crate::string_map::StringMap;
use crate::table_features::{self, FeatureView, TableFeature};
use crate::text;

verus! {

/// A literal value of a known type.
#[derive(Debug, PartialEq, Eq)]
pub enum Scalar {
    /// A null of the given type.
    Null(DataType),
    Integer(i32),
    Long(i64),
    Boolean(bool),
    String(String),
    Struct(StructData),
    Array(ArrayData),
    Mapping(MapData),
}

/// The fields of a struct value, with one value for each.
#[derive(Debug, PartialEq, Eq)]
pub struct StructData {
    pub fields: Vec<StructField>,
    pub values: Vec<Scalar>,
}

/// The elements of a list value.
#[derive(Debug, PartialEq, Eq)]
pub struct ArrayData {
    pub array_type: ArrayType,
    pub elements: Vec<Scalar>,
}

/// The pairs of a map value.
#[derive(Debug, PartialEq, Eq)]
pub struct MapData {
    pub map_type: MapType,
    pub pairs: Vec<(Scalar, Scalar)>,
}

/// The mathematical value of a [`Scalar`].
pub enum ScalarView {
    Null(DataTypeView),
    Integer(i32),
    Long(i64),
    Boolean(bool),
    String(Seq<char>),
    Struct(Seq<FieldView>, Seq<ScalarView>),
    Array(DataTypeView, bool, Seq<ScalarView>),
    Mapping(DataTypeView, DataTypeView, bool, Seq<(ScalarView, ScalarView)>),
}

pub open spec fn scalar_view(s: Scalar) -> ScalarView
    decreases s,
{
    match s {
        Scalar::Null(t) => ScalarView::Null(t@),
        Scalar::Integer(n) => ScalarView::Integer(n),
        Scalar::Long(n) => ScalarView::Long(n),
        Scalar::Boolean(b) => ScalarView::Boolean(b),
        Scalar::String(s) => ScalarView::String(s@),
        Scalar::Struct(d) => ScalarView::Struct(schema::fields_view(d.fields@), scalars_view(d.values@)),
        Scalar::Array(d) => ScalarView::Array(
            d.array_type.element_type@,
            d.array_type.contains_null,
            scalars_view(d.elements@),
        ),
        Scalar::Mapping(d) => ScalarView::Mapping(
            d.map_type.key_type@,
            d.map_type.value_type@,
            d.map_type.value_contains_null,
            pairs_view(d.pairs@),
        ),
    }
}

pub open spec fn scalars_view(s: Seq<Scalar>) -> Seq<ScalarView>
    decreases s,
{
    Seq::new(
        s.len(),
        |i: int|
            if 0 <= i < s.len() {
                scalar_view(s[i])
            } else {
                arbitrary()
            },
    )
}

pub open spec fn pairs_view(s: Seq<(Scalar, Scalar)>) -> Seq<(ScalarView, ScalarView)>
    decreases s,
{
    Seq::new(
        s.len(),
        |i: int|
            if 0 <= i < s.len() {
                (scalar_view(s[i].0), scalar_view(s[i].1))
            } else {
                arbitrary()
            },
    )
}

impl View for Scalar {
    type V = ScalarView;

    open spec fn view(&self) -> ScalarView {
        scalar_view(*self)
    }
}

impl StructData {
    pub fn fields(&self) -> (r: &Vec<StructField>)
        ensures
            r@ == self.fields@,
    {
        &self.fields
    }

    pub fn values(&self) -> (r: &Vec<Scalar>)
        ensures
            r@ == self.values@,
    {
        &self.values
    }
}

impl MapData {
    pub fn pairs(&self) -> (r: &Vec<(Scalar, Scalar)>)
        ensures
            r@ == self.pairs@,
    {
        &self.pairs
    }
}

/// The value of an optional text.
pub open spec fn opt_string_scalar(s: Option<Seq<char>>) -> ScalarView {
    match s {
        Some(s) => ScalarView::String(s),
        None => ScalarView::Null(schema::primitive(PrimitiveType::String)),
    }
}

/// The value of an optional long.
pub open spec fn opt_long_scalar(n: Option<i64>) -> ScalarView {
    match n {
        Some(n) => ScalarView::Long(n),
        None => ScalarView::Null(schema::primitive(PrimitiveType::Long)),
    }
}

/// The value of an optional integer.
pub open spec fn opt_integer_scalar(n: Option<i32>) -> ScalarView {
    match n {
        Some(n) => ScalarView::Integer(n),
        None => ScalarView::Null(schema::primitive(PrimitiveType::Integer)),
    }
}

/// The value of an optional flag.
pub open spec fn opt_boolean_scalar(b: Option<bool>) -> ScalarView {
    match b {
        Some(b) => ScalarView::Boolean(b),
        None => ScalarView::Null(schema::primitive(PrimitiveType::Boolean)),
    }
}

/// The type of a list of texts without nulls.
pub open spec fn string_list_type() -> DataTypeView {
    DataTypeView::Array(Box::new(schema::primitive(PrimitiveType::String)), false)
}

/// The value of a list of texts.
pub open spec fn string_list_scalar(s: Seq<Seq<char>>) -> ScalarView {
    ScalarView::Array(
        schema::primitive(PrimitiveType::String),
        false,
        Seq::new(s.len(), |i: int| ScalarView::String(s[i])),
    )
}

/// The value of an optional list of features: their names.
pub open spec fn opt_features_scalar(
    f: Option<Seq<FeatureView>>,
) -> ScalarView {
    match f {
        Some(f) => string_list_scalar(Seq::new(f.len(), |i: int| table_features::feature_name(f[i]))),
        None => ScalarView::Null(string_list_type()),
    }
}

/// The value of a map of texts, in the order of its keys.
pub open spec fn string_map_scalar(
    m: Map<Seq<char>, Seq<char>>,
    keys: Seq<Seq<char>>,
) -> ScalarView {
    ScalarView::Mapping(
        schema::primitive(PrimitiveType::String),
        schema::primitive(PrimitiveType::String),
        false,
        Seq::new(
            keys.len(),
            |i: int| (ScalarView::String(keys[i]), ScalarView::String(m[keys[i]])),
        ),
    )
}

impl Scalar {
    pub fn opt_string(s: Option<String>) -> (r: Scalar)
        ensures
            r@ == opt_string_scalar(text::opt_text(s)),
    {
        match s {
            Some(s) => Scalar::String(s),
            None => Scalar::Null(DataType::string()),
        }
    }

    pub fn opt_long(n: Option<i64>) -> (r: Scalar)
        ensures
            r@ == opt_long_scalar(n),
    {
        match n {
            Some(n) => Scalar::Long(n),
            None => Scalar::Null(DataType::long()),
        }
    }

    pub fn opt_integer(n: Option<i32>) -> (r: Scalar)
        ensures
            r@ == opt_integer_scalar(n),
    {
        match n {
            Some(n) => Scalar::Integer(n),
            None => Scalar::Null(DataType::integer()),
        }
    }

    pub fn opt_boolean(b: Option<bool>) -> (r: Scalar)
        ensures
            r@ == opt_boolean_scalar(b),
    {
        match b {
            Some(b) => Scalar::Boolean(b),
            None => Scalar::Null(DataType::boolean()),
        }
    }

    /// A list of texts.
    pub fn string_list(list: &Vec<String>) -> (r: Scalar)
        ensures
            r@ == string_list_scalar(text::texts(list@)),
    {
        let mut elements: Vec<Scalar> = Vec::new();
        let mut i: usize = 0;
        while i < list.len()
            invariant
                i <= list@.len(),
                elements@.len() == i,
                forall|j: int|
                    0 <= j < i ==> scalar_view(#[trigger] elements@[j]) == ScalarView::String(
                        list@[j]@,
                    ),
            decreases list.len() - i,
        {
            elements.push(Scalar::String(list[i].clone()));
            i += 1;
        }
        assert(scalars_view(elements@) =~= Seq::new(
            text::texts(list@).len(),
            |i: int| ScalarView::String(text::texts(list@)[i]),
        ));
        Scalar::Array(
            ArrayData {
                array_type: ArrayType { element_type: DataType::string(), contains_null: false },
                elements,
            },
        )
    }

    /// An optional list of features, by their names.
    pub fn opt_features(list: &Option<Vec<TableFeature>>) -> (r: Scalar)
        ensures
            r@ == opt_features_scalar(table_features::opt_features(*list)),
    {
        match list {
            None => Scalar::Null(DataType::array(DataType::string(), false)),
            Some(list) => {
                let mut names: Vec<String> = Vec::new();
                let mut i: usize = 0;
                while i < list.len()
                    invariant
                        i <= list@.len(),
                        names@.len() == i,
                        forall|j: int|
                            0 <= j < i ==> (#[trigger] names@[j])@ == table_features::feature_name(list@[j]@),
                    decreases list.len() - i,
                {
                    names.push(list[i].name().to_owned());
                    i += 1;
                }
                assert(text::texts(names@) =~= Seq::new(
                    table_features::features_view(list@).len(),
                    |i: int| table_features::feature_name(table_features::features_view(list@)[i]),
                ));
                Scalar::string_list(&names)
            },
        }
    }

    /// A map of texts.
    pub fn string_map(map: &StringMap<String>) -> (r: Scalar)
        ensures
            r@ == string_map_scalar(map@, map.keys()),
    {
        let mut pairs: Vec<(Scalar, Scalar)> = Vec::new();
        let n: usize = map.len();
        let mut i: usize = 0;
        while i < n
            invariant
                i <= n == map.keys().len(),
                pairs@.len() == i,
                forall|j: int|
                    0 <= j < i ==> scalar_view((#[trigger] pairs@[j]).0) == ScalarView::String(
                        map.keys()[j],
                    ) && scalar_view(pairs@[j].1) == ScalarView::String(map@[map.keys()[j]]),
            decreases n - i,
        {
            let key = map.key_at(i);
            let value = map.value_at(i);
            pairs.push((Scalar::String(key.clone()), Scalar::String(value.clone())));
            i += 1;
        }
        assert(pairs_view(pairs@) =~= Seq::new(
            map.keys().len(),
            |i: int|
                (ScalarView::String(map.keys()[i]), ScalarView::String(map@[map.keys()[i]])),
        ));
        Scalar::Mapping(
            MapData {
                map_type: MapType {
                    key_type: DataType::string(),
                    value_type: DataType::string(),
                    value_contains_null: false,
                },
                pairs,
            },
        )
    }
}

} // verus!
