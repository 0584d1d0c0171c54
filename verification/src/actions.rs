//! The actions of the log.
use vstd::prelude::*;

use crate::schema_json;
use crate::action_schemas;
use crate::bindings::{self, join_url, new_uuid_text};
use crate::error::{self, DeltaResult, Error, ErrorView};
use crate::path::{self, FileMeta, FileMetaView};
use crate::scalars::{self, Scalar, ScalarView, StructData};
use crate::schema::{self, DataType, FieldView, StructType};
use crate::string_map::{MapValue, StringMap};
use crate::table_features::{
    self, clone_features, contains_feature, FeatureType, FeatureView, IntoTableFeature,
    TableFeature, TABLE_FEATURES_MIN_READER_VERSION, TABLE_FEATURES_MIN_WRITER_VERSION,
};
use crate::table_properties::{self, TableProperties};
use crate::text::{self, clone_opt, clone_texts, signed_text, starts_with, text2, text3};

verus! {

/// The version of this library.
pub const KERNEL_VERSION: &'static str = "0.1.0";

/// What a commit is said to do when nothing else is said.
pub const UNKNOWN_OPERATION: &'static str = "UNKNOWN";

/// Domains with this prefix belong to the system.
pub const INTERNAL_DOMAIN_PREFIX: &'static str = "delta.";

/// A field whose metadata has this key is a metadata column.
pub const METADATA_SPEC_KEY: &'static str = "delta.metadataSpec";

/// How the data files of a table are encoded.
#[derive(Debug, PartialEq, Eq)]
pub struct Format {
    /// The name of the encoding.
    pub provider: String,
    /// Options of the encoding.
    pub options: StringMap<String>,
}

/// The mathematical value of a [`Format`].
pub struct FormatView {
    pub provider: Seq<char>,
    pub options: Map<Seq<char>, Seq<char>>,
    /// The keys of the options in the order of their first insertion.
    pub option_keys: Seq<Seq<char>>,
}

impl View for Format {
    type V = FormatView;

    open spec fn view(&self) -> FormatView {
        FormatView {
            provider: self.provider@,
            options: self.options@,
            option_keys: self.options.keys(),
        }
    }
}

/// Parquet files, without options.
pub open spec fn parquet_format() -> FormatView {
    FormatView { provider: "parquet"@, options: Map::empty(), option_keys: Seq::empty() }
}

impl Default for Format {
    fn default() -> (r: Format)
        ensures
            r@ == parquet_format(),
    {
        Format { provider: "parquet".to_owned(), options: StringMap::new() }
    }
}

impl Clone for Format {
    fn clone(&self) -> (r: Format)
        ensures
            r@ == self@,
    {
        Format { provider: self.provider.clone(), options: self.options.clone() }
    }
}

impl Scalar {
    /// The value of a format: a struct of the name and the options.
    pub fn try_from(format: Format) -> (r: DeltaResult<Scalar>)
        ensures
            r matches Ok(s) && s@ == ScalarView::Struct(
                action_schemas::format_fields(),
                seq![
                    ScalarView::String(format@.provider),
                    scalars::string_map_scalar(format@.options, format@.option_keys),
                ],
            ),
    {
        let options = Scalar::string_map(&format.options);
        let values = vec![Scalar::String(format.provider), options];
        assert(scalars::scalars_view(values@) =~= seq![
            ScalarView::String(format@.provider),
            scalars::string_map_scalar(format@.options, format@.option_keys),
        ]);
        Ok(Scalar::Struct(StructData { fields: Format::to_schema().fields, values }))
    }
}

/// The metadata of a table.
#[derive(Debug, PartialEq, Eq)]
pub struct Metadata {
    /// The identifier of the table.
    pub id: String,
    /// The name that the user gave the table.
    pub name: Option<String>,
    /// The description that the user gave the table.
    pub description: Option<String>,
    /// How the data files are encoded.
    pub format: Format,
    /// The schema, as JSON.
    pub schema_string: String,
    /// The columns by which the data is partitioned.
    pub partition_columns: Vec<String>,
    /// When this metadata was created, in milliseconds since the Unix epoch.
    pub created_time: Option<i64>,
    /// The properties of the table.
    pub configuration: StringMap<String>,
}

/// The mathematical value of [`Metadata`].
pub struct MetadataView {
    pub id: Seq<char>,
    pub name: Option<Seq<char>>,
    pub description: Option<Seq<char>>,
    pub format: FormatView,
    pub schema_string: Seq<char>,
    pub partition_columns: Seq<Seq<char>>,
    pub created_time: Option<i64>,
    pub configuration: Map<Seq<char>, Seq<char>>,
    /// The keys of the configuration in the order of their first insertion.
    pub configuration_keys: Seq<Seq<char>>,
}

impl View for Metadata {
    type V = MetadataView;

    open spec fn view(&self) -> MetadataView {
        MetadataView {
            id: self.id@,
            name: text::opt_text(self.name),
            description: text::opt_text(self.description),
            format: self.format@,
            schema_string: self.schema_string@,
            partition_columns: text::texts(self.partition_columns@),
            created_time: self.created_time,
            configuration: self.configuration@,
            configuration_keys: self.configuration.keys(),
        }
    }
}

impl Clone for Metadata {
    fn clone(&self) -> (r: Metadata)
        ensures
            r@ == self@,
    {
        Metadata {
            id: self.id.clone(),
            name: clone_opt(&self.name),
            description: clone_opt(&self.description),
            format: self.format.clone(),
            schema_string: self.schema_string.clone(),
            partition_columns: clone_texts(&self.partition_columns),
            created_time: self.created_time,
            configuration: self.configuration.clone(),
        }
    }
}

/// Whether a field is a metadata column.
pub open spec fn is_metadata_column(f: FieldView) -> bool {
    f.metadata.dom().contains(METADATA_SPEC_KEY@)
}

/// The first metadata column among fields.
pub open spec fn first_metadata_column(s: Seq<FieldView>) -> Option<FieldView>
    decreases s.len(),
{
    if s.len() == 0 {
        None
    } else {
        match first_metadata_column(s.drop_last()) {
            Some(f) => Some(f),
            None => if is_metadata_column(s.last()) {
                Some(s.last())
            } else {
                None
            },
        }
    }
}

/// A metadata column at the beginning of the fields is the first of all of them.
proof fn lemma_first_metadata_column(s: Seq<FieldView>, n: int)
    requires
        0 <= n <= s.len(),
        first_metadata_column(s.take(n)) is Some,
    ensures
        first_metadata_column(s) == first_metadata_column(s.take(n)),
    decreases s.len(),
{
    if n == s.len() {
        assert(s.take(n) =~= s);
    } else {
        assert(s.drop_last().take(n) =~= s.take(n));
        lemma_first_metadata_column(s.drop_last(), n);
    }
}

/// The error for a schema with a metadata column.
pub open spec fn metadata_column_error(f: FieldView) -> ErrorView {
    ErrorView::Schema(
        "Table schema must not contain metadata columns. Found metadata column: '"@ + f.name
            + "'"@,
    )
}

/// The metadata of a new table with the given identifier.
pub open spec fn new_metadata(
    id: Seq<char>,
    name: Option<Seq<char>>,
    description: Option<Seq<char>>,
    schema: Seq<FieldView>,
    partition_columns: Seq<Seq<char>>,
    created_time: i64,
    configuration: Map<Seq<char>, Seq<char>>,
    configuration_keys: Seq<Seq<char>>,
) -> MetadataView {
    MetadataView {
        id,
        name,
        description,
        format: parquet_format(),
        schema_string: schema_json::schema_json(schema),
        partition_columns,
        created_time: Some(created_time),
        configuration,
        configuration_keys,
    }
}

/// The values of a row that holds metadata, one for each leaf column.
pub open spec fn metadata_row(m: MetadataView) -> Seq<ScalarView> {
    seq![
        ScalarView::String(m.id),
        scalars::opt_string_scalar(m.name),
        scalars::opt_string_scalar(m.description),
        ScalarView::String(m.format.provider),
        scalars::string_map_scalar(m.format.options, m.format.option_keys),
        ScalarView::String(m.schema_string),
        scalars::string_list_scalar(m.partition_columns),
        scalars::opt_long_scalar(m.created_time),
        scalars::string_map_scalar(m.configuration, m.configuration_keys),
    ]
}

impl Metadata {
    /// The metadata of a new table with the given identifier. Fails where the schema has a metadata
    /// column.
    pub fn with_id(
        id: String,
        name: Option<String>,
        description: Option<String>,
        schema: &StructType,
        partition_columns: Vec<String>,
        created_time: i64,
        configuration: StringMap<String>,
    ) -> (r: DeltaResult<Metadata>)
        ensures
            first_metadata_column(schema@) matches Some(f) ==> error::failure(r) == Some(
                metadata_column_error(f),
            ),
            first_metadata_column(schema@) is None ==> (r matches Ok(m) && m@ == new_metadata(
                id@,
                text::opt_text(name),
                text::opt_text(description),
                schema@,
                text::texts(partition_columns@),
                created_time,
                configuration@,
                configuration.keys(),
            )),
    {
        let fields = &schema.fields;
        let mut i: usize = 0;
        assert(schema@.take(0) =~= Seq::<FieldView>::empty());
        while i < fields.len()
            invariant
                i <= fields@.len(),
                schema@ == schema::fields_view(fields@),
                first_metadata_column(schema@.take(i as int)) is None,
            decreases fields.len() - i,
        {
            assert(schema@.take(i + 1).drop_last() =~= schema@.take(i as int));
            assert(schema@.take(i + 1).last() == schema::field_view(fields@[i as int]));
            if fields[i].metadata.contains_key(METADATA_SPEC_KEY) {
                proof {
                    lemma_first_metadata_column(schema@, i + 1);
                }
                return Err(
                    Error::Schema(
                        text3(
                            "Table schema must not contain metadata columns. Found metadata column: '",
                            fields[i].name.as_str(),
                            "'",
                        ),
                    ),
                );
            }
            i += 1;
        }
        assert(schema@.take(i as int) =~= schema@);
        Ok(
            Metadata {
                id,
                name,
                description,
                format: Format::default(),
                schema_string: schema.to_json(),
                partition_columns,
                created_time: Some(created_time),
                configuration,
            },
        )
    }

    /// The metadata of a new table with a random identifier. Fails where the schema has a metadata
    /// column.
    pub fn try_new(
        name: Option<String>,
        description: Option<String>,
        schema: &StructType,
        partition_columns: Vec<String>,
        created_time: i64,
        configuration: StringMap<String>,
    ) -> (r: DeltaResult<Metadata>)
        ensures
            first_metadata_column(schema@) matches Some(f) ==> error::failure(r) == Some(
                metadata_column_error(f),
            ),
            first_metadata_column(schema@) is None ==> (r matches Ok(m) && bindings::is_uuid_text(m@.id)
                && m@ == new_metadata(
                m@.id,
                text::opt_text(name),
                text::opt_text(description),
                schema@,
                text::texts(partition_columns@),
                created_time,
                configuration@,
                configuration.keys(),
            )),
    {
        Metadata::with_id(
            new_uuid_text(),
            name,
            description,
            schema,
            partition_columns,
            created_time,
            configuration,
        )
    }

    /// The metadata with the given content, as it is.
    pub fn new_unchecked(
        id: String,
        name: Option<String>,
        description: Option<String>,
        format: Format,
        schema_string: String,
        partition_columns: Vec<String>,
        created_time: Option<i64>,
        configuration: StringMap<String>,
    ) -> (r: Metadata)
        ensures
            r@ == (MetadataView {
                id: id@,
                name: text::opt_text(name),
                description: text::opt_text(description),
                format: format@,
                schema_string: schema_string@,
                partition_columns: text::texts(partition_columns@),
                created_time,
                configuration: configuration@,
                configuration_keys: configuration.keys(),
            }),
    {
        Metadata {
            id,
            name,
            description,
            format,
            schema_string,
            partition_columns,
            created_time,
            configuration,
        }
    }

    /// The metadata with another schema.
    pub fn with_schema(self, schema: &StructType) -> (r: DeltaResult<Metadata>)
        ensures
            r matches Ok(m) && m@ == (MetadataView { schema_string: schema_json::schema_json(schema@), ..self@ }),
    {
        let schema_string = schema.to_json();
        Ok(Metadata { schema_string, ..self })
    }

    /// The metadata with another configuration.
    pub fn with_configuration(self, configuration: StringMap<String>) -> (r: Metadata)
        ensures
            r@ == (MetadataView {
                configuration: configuration@,
                configuration_keys: configuration.keys(),
                ..self@
            }),
    {
        Metadata { configuration, ..self }
    }

    pub fn id(&self) -> (r: &str)
        ensures
            r@ == self@.id,
    {
        self.id.as_str()
    }

    /// The name that the user gave the table.
    pub fn name(&self) -> (r: Option<&String>)
        ensures
            r is Some <==> self@.name is Some,
            r matches Some(n) ==> self@.name == Some(n@),
    {
        self.name.as_ref()
    }

    /// The description that the user gave the table.
    pub fn description(&self) -> (r: Option<&String>)
        ensures
            r is Some <==> self@.description is Some,
            r matches Some(d) ==> self@.description == Some(d@),
    {
        self.description.as_ref()
    }

    pub fn created_time(&self) -> (r: Option<i64>)
        ensures
            r == self@.created_time,
    {
        self.created_time
    }

    pub fn configuration(&self) -> (r: &StringMap<String>)
        ensures
            r@ == self@.configuration,
            r.keys() == self@.configuration_keys,
    {
        &self.configuration
    }

    pub fn schema_string(&self) -> (r: &String)
        ensures
            r@ == self@.schema_string,
    {
        &self.schema_string
    }

    pub fn partition_columns(&self) -> (r: &Vec<String>)
        ensures
            text::texts(r@) == self@.partition_columns,
    {
        &self.partition_columns
    }

    /// The properties that the configuration holds.
    pub fn parse_table_properties(&self) -> (r: TableProperties)
        ensures
            r@ == table_properties::properties_of(self@.configuration),
    {
        TableProperties::from(&self.configuration)
    }

    /// The values of a row that holds the metadata, one for each leaf column.
    pub fn row_values(&self) -> (r: Vec<Scalar>)
        ensures
            scalars::scalars_view(r@) == metadata_row(self@),
    {
        let r = vec![
            Scalar::String(self.id.clone()),
            Scalar::opt_string(clone_opt(&self.name)),
            Scalar::opt_string(clone_opt(&self.description)),
            Scalar::String(self.format.provider.clone()),
            Scalar::string_map(&self.format.options),
            Scalar::String(self.schema_string.clone()),
            Scalar::string_list(&self.partition_columns),
            Scalar::opt_long(self.created_time),
            Scalar::string_map(&self.configuration),
        ];
        assert(scalars::scalars_view(r@) =~= metadata_row(self@));
        r
    }
}

/// The protocol of a table.
#[derive(Debug, PartialEq, Eq)]
pub struct Protocol {
    /// The smallest reader version that can read the table.
    pub min_reader_version: i32,
    /// The smallest writer version that can write the table.
    pub min_writer_version: i32,
    /// The features that a reader must understand.
    pub reader_features: Option<Vec<TableFeature>>,
    /// The features that a writer must understand.
    pub writer_features: Option<Vec<TableFeature>>,
}

/// The mathematical value of a [`Protocol`].
pub struct ProtocolView {
    pub min_reader_version: i32,
    pub min_writer_version: i32,
    pub reader_features: Option<Seq<FeatureView>>,
    pub writer_features: Option<Seq<FeatureView>>,
}

impl View for Protocol {
    type V = ProtocolView;

    open spec fn view(&self) -> ProtocolView {
        ProtocolView {
            min_reader_version: self.min_reader_version,
            min_writer_version: self.min_writer_version,
            reader_features: table_features::opt_features(self.reader_features),
            writer_features: table_features::opt_features(self.writer_features),
        }
    }
}

impl Clone for Protocol {
    fn clone(&self) -> (r: Protocol)
        ensures
            r@ == self@,
    {
        Protocol {
            min_reader_version: self.min_reader_version,
            min_writer_version: self.min_writer_version,
            reader_features: match &self.reader_features {
                Some(f) => Some(clone_features(f)),
                None => None,
            },
            writer_features: match &self.writer_features {
                Some(f) => Some(clone_features(f)),
                None => None,
            },
        }
    }
}

/// The features that a list of values stands for.
pub open spec fn as_features<T: IntoTableFeature>(s: Seq<T>) -> Seq<FeatureView> {
    Seq::new(s.len(), |i: int| s[i].as_feature())
}

/// The features that an optional list of values stands for.
pub open spec fn as_opt_features<T: IntoTableFeature>(s: Option<Vec<T>>) -> Option<
    Seq<FeatureView>,
> {
    match s {
        Some(v) => Some(as_features(v@)),
        None => None,
    }
}

/// Turns a list of features or feature names into features. A name that is not recognised becomes
/// an unknown feature.
pub fn parse_features<T: IntoTableFeature>(features: Option<Vec<T>>) -> (r: Option<
    Vec<TableFeature>,
>)
    ensures
        table_features::opt_features(r) == as_opt_features(features),
{
    match features {
        None => None,
        Some(list) => {
            let mut r: Vec<TableFeature> = Vec::new();
            let ghost all = list@;
            for f in it: list
                invariant
                    it.seq() == all,
                    r@.len() == it.index(),
                    forall|j: int| 0 <= j < it.index() ==> (#[trigger] r@[j])@ == all[j].as_feature(),
            {
                r.push(f.into_table_feature());
            }
            assert(table_features::features_view(r@) =~= as_features(all));
            Some(r)
        },
    }
}

/// Whether the features of a reader list are for readers and are all in the writer list.
pub open spec fn reader_list_valid(r: Seq<FeatureView>, w: Seq<FeatureView>) -> bool {
    forall|i: int|
        0 <= i < r.len() ==> table_features::feature_type_of(#[trigger] r[i]) != FeatureType::WriterOnly
            && w.contains(r[i])
}

/// Whether the features of a writer list that are for readers are all in the reader list.
pub open spec fn writer_list_valid(r: Seq<FeatureView>, w: Seq<FeatureView>) -> bool {
    forall|i: int|
        0 <= i < w.len() ==> (table_features::feature_type_of(#[trigger] w[i]) == FeatureType::ReaderWriter
            ==> r.contains(w[i]))
}

/// Whether a writer list holds no feature for readers, but for column mapping with a reader
/// version that includes it.
pub open spec fn legacy_writer_list_valid(reader_version: i32, w: Seq<FeatureView>) -> bool {
    forall|i: int|
        0 <= i < w.len() ==> (table_features::feature_type_of(#[trigger] w[i]) == FeatureType::ReaderWriter
            ==> reader_version == 2 && w[i] == FeatureView::ColumnMapping)
}

/// What is wrong with a protocol.
pub open spec fn protocol_fault(p: ProtocolView) -> Option<ErrorView> {
    if p.min_reader_version == 3 && p.reader_features is None {
        Some(
            ErrorView::InvalidProtocol(
                "Reader features must be present when minimum reader version = 3"@,
            ),
        )
    } else if p.min_reader_version != 3 && p.reader_features is Some {
        Some(
            ErrorView::InvalidProtocol(
                "Reader features must not be present when minimum reader version != 3"@,
            ),
        )
    } else if p.min_writer_version == 7 && p.writer_features is None {
        Some(
            ErrorView::InvalidProtocol(
                "Writer features must be present when minimum writer version = 7"@,
            ),
        )
    } else if p.min_writer_version != 7 && p.writer_features is Some {
        Some(
            ErrorView::InvalidProtocol(
                "Writer features must not be present when minimum writer version != 7"@,
            ),
        )
    } else {
        match (p.reader_features, p.writer_features) {
            (Some(r), Some(w)) => if !reader_list_valid(r, w) {
                Some(
                    ErrorView::InvalidProtocol(
                        "Reader features must contain only ReaderWriter features that are also listed in writer features"@,
                    ),
                )
            } else if !writer_list_valid(r, w) {
                Some(
                    ErrorView::InvalidProtocol(
                        "Writer features must be Writer-only or also listed in reader features"@,
                    ),
                )
            } else {
                None
            },
            (None, None) => None,
            (None, Some(w)) => if !legacy_writer_list_valid(p.min_reader_version, w) {
                Some(
                    ErrorView::InvalidProtocol(
                        "Writer features must be Writer-only or also listed in reader features"@,
                    ),
                )
            } else {
                None
            },
            (Some(_), None) => Some(
                ErrorView::InvalidProtocol("Reader features should be present in writer features"@),
            ),
        }
    }
}

/// Checks a reader list against a writer list.
fn check_reader_list(r: &Vec<TableFeature>, w: &Vec<TableFeature>) -> (ok: bool)
    ensures
        ok == reader_list_valid(table_features::features_view(r@), table_features::features_view(w@)),
{
    let ghost rv = table_features::features_view(r@);
    let ghost wv = table_features::features_view(w@);
    let mut i: usize = 0;
    while i < r.len()
        invariant
            i <= r@.len(),
            rv == table_features::features_view(r@),
            wv == table_features::features_view(w@),
            forall|j: int|
                0 <= j < i ==> table_features::feature_type_of(#[trigger] rv[j]) != FeatureType::WriterOnly
                    && wv.contains(rv[j]),
        decreases r.len() - i,
    {
        assert(rv[i as int] == r@[i as int]@);
        let listed: bool = contains_feature(w, &r[i]);
        if r[i].feature_type() == FeatureType::WriterOnly || !listed {
            return false;
        }
        i += 1;
    }
    true
}

/// Checks a writer list against a reader list.
fn check_writer_list(r: &Vec<TableFeature>, w: &Vec<TableFeature>) -> (ok: bool)
    ensures
        ok == writer_list_valid(table_features::features_view(r@), table_features::features_view(w@)),
{
    let ghost rv = table_features::features_view(r@);
    let ghost wv = table_features::features_view(w@);
    let mut i: usize = 0;
    while i < w.len()
        invariant
            i <= w@.len(),
            rv == table_features::features_view(r@),
            wv == table_features::features_view(w@),
            forall|j: int|
                0 <= j < i ==> (table_features::feature_type_of(#[trigger] wv[j]) == FeatureType::ReaderWriter
                    ==> rv.contains(wv[j])),
        decreases w.len() - i,
    {
        assert(wv[i as int] == w@[i as int]@);
        if w[i].feature_type() == FeatureType::ReaderWriter && !contains_feature(r, &w[i]) {
            return false;
        }
        i += 1;
    }
    true
}

/// Checks a writer list without a reader list.
fn check_legacy_writer_list(reader_version: i32, w: &Vec<TableFeature>) -> (ok: bool)
    ensures
        ok == legacy_writer_list_valid(reader_version, table_features::features_view(w@)),
{
    let ghost wv = table_features::features_view(w@);
    let mut i: usize = 0;
    while i < w.len()
        invariant
            i <= w@.len(),
            wv == table_features::features_view(w@),
            forall|j: int|
                0 <= j < i ==> (table_features::feature_type_of(#[trigger] wv[j]) == FeatureType::ReaderWriter
                    ==> reader_version == 2 && wv[j] == FeatureView::ColumnMapping),
        decreases w.len() - i,
    {
        assert(wv[i as int] == w@[i as int]@);
        if w[i].feature_type() == FeatureType::ReaderWriter {
            let implied: bool = match &w[i] {
                TableFeature::ColumnMapping => reader_version == 2,
                _ => false,
            };
            if !implied {
                return false;
            }
        }
        i += 1;
    }
    true
}

/// The values of a row that holds a protocol.
pub open spec fn protocol_row(p: ProtocolView) -> Seq<ScalarView> {
    seq![
        ScalarView::Integer(p.min_reader_version),
        ScalarView::Integer(p.min_writer_version),
        scalars::opt_features_scalar(p.reader_features),
        scalars::opt_features_scalar(p.writer_features),
    ]
}

impl Protocol {
    /// A protocol with the given versions and feature lists. Fails where a list is present without
    /// the version that calls for it or absent with it, or where the lists contradict each other.
    pub fn try_new<R: IntoTableFeature, W: IntoTableFeature>(
        min_reader_version: i32,
        min_writer_version: i32,
        reader_features: Option<Vec<R>>,
        writer_features: Option<Vec<W>>,
    ) -> (r: DeltaResult<Protocol>)
        ensures
            ({
                let p = ProtocolView {
                    min_reader_version,
                    min_writer_version,
                    reader_features: as_opt_features(reader_features),
                    writer_features: as_opt_features(writer_features),
                };
                &&& protocol_fault(p) is None ==> (r matches Ok(q) && q@ == p)
                &&& protocol_fault(p) is Some ==> error::failure(r) == protocol_fault(p)
            }),
    {
        let reader_features = parse_features(reader_features);
        let writer_features = parse_features(writer_features);
        if min_reader_version == TABLE_FEATURES_MIN_READER_VERSION {
            if reader_features.is_none() {
                return Err(
                    Error::invalid_protocol(
                        "Reader features must be present when minimum reader version = 3",
                    ),
                );
            }
        } else if reader_features.is_some() {
            return Err(
                Error::invalid_protocol(
                    "Reader features must not be present when minimum reader version != 3",
                ),
            );
        }
        if min_writer_version == TABLE_FEATURES_MIN_WRITER_VERSION {
            if writer_features.is_none() {
                return Err(
                    Error::invalid_protocol(
                        "Writer features must be present when minimum writer version = 7",
                    ),
                );
            }
        } else if writer_features.is_some() {
            return Err(
                Error::invalid_protocol(
                    "Writer features must not be present when minimum writer version != 7",
                ),
            );
        }
        match (&reader_features, &writer_features) {
            (Some(r), Some(w)) => {
                if !check_reader_list(r, w) {
                    return Err(
                        Error::invalid_protocol(
                            "Reader features must contain only ReaderWriter features that are also listed in writer features",
                        ),
                    );
                }
                if !check_writer_list(r, w) {
                    return Err(
                        Error::invalid_protocol(
                            "Writer features must be Writer-only or also listed in reader features",
                        ),
                    );
                }
            },
            (None, None) => {},
            (None, Some(w)) => {
                if !check_legacy_writer_list(min_reader_version, w) {
                    return Err(
                        Error::invalid_protocol(
                            "Writer features must be Writer-only or also listed in reader features",
                        ),
                    );
                }
            },
            (Some(_), None) => {
                return Err(
                    Error::invalid_protocol("Reader features should be present in writer features"),
                );
            },
        }
        Ok(Protocol { min_reader_version, min_writer_version, reader_features, writer_features })
    }

    /// A protocol that lists its features by name.
    pub fn try_new_modern<R: IntoTableFeature, W: IntoTableFeature>(
        reader_features: Vec<R>,
        writer_features: Vec<W>,
    ) -> (r: DeltaResult<Protocol>)
        ensures
            ({
                let p = ProtocolView {
                    min_reader_version: 3,
                    min_writer_version: 7,
                    reader_features: Some(as_features(reader_features@)),
                    writer_features: Some(as_features(writer_features@)),
                };
                &&& protocol_fault(p) is None ==> (r matches Ok(q) && q@ == p)
                &&& protocol_fault(p) is Some ==> error::failure(r) == protocol_fault(p)
            }),
    {
        Protocol::try_new(
            TABLE_FEATURES_MIN_READER_VERSION,
            TABLE_FEATURES_MIN_WRITER_VERSION,
            Some(reader_features),
            Some(writer_features),
        )
    }

    /// A protocol whose versions alone say what it asks for.
    pub fn try_new_legacy(min_reader_version: i32, min_writer_version: i32) -> (r: DeltaResult<
        Protocol,
    >)
        ensures
            ({
                let p = ProtocolView {
                    min_reader_version,
                    min_writer_version,
                    reader_features: None,
                    writer_features: None,
                };
                &&& protocol_fault(p) is None ==> (r matches Ok(q) && q@ == p)
                &&& protocol_fault(p) is Some ==> error::failure(r) == protocol_fault(p)
            }),
    {
        let no_reader_features: Option<Vec<TableFeature>> = None;
        let no_writer_features: Option<Vec<TableFeature>> = None;
        Protocol::try_new(
            min_reader_version,
            min_writer_version,
            no_reader_features,
            no_writer_features,
        )
    }

    /// A protocol with the given content, as it is.
    pub fn new_unchecked(
        min_reader_version: i32,
        min_writer_version: i32,
        reader_features: Option<Vec<TableFeature>>,
        writer_features: Option<Vec<TableFeature>>,
    ) -> (r: Protocol)
        ensures
            r@ == (ProtocolView {
                min_reader_version,
                min_writer_version,
                reader_features: table_features::opt_features(reader_features),
                writer_features: table_features::opt_features(writer_features),
            }),
    {
        Protocol { min_reader_version, min_writer_version, reader_features, writer_features }
    }

    pub fn min_reader_version(&self) -> (r: i32)
        ensures
            r == self@.min_reader_version,
    {
        self.min_reader_version
    }

    /// The features that readers must understand, where the protocol lists features.
    pub fn reader_features(&self) -> (r: Option<&Vec<TableFeature>>)
        ensures
            r is Some <==> self@.reader_features is Some,
            r matches Some(f) ==> self@.reader_features == Some(table_features::features_view(f@)),
    {
        self.reader_features.as_ref()
    }

    /// The features that writers must understand, where the protocol lists features.
    pub fn writer_features(&self) -> (r: Option<&Vec<TableFeature>>)
        ensures
            r is Some <==> self@.writer_features is Some,
            r matches Some(f) ==> self@.writer_features == Some(table_features::features_view(f@)),
    {
        self.writer_features.as_ref()
    }

    pub fn min_writer_version(&self) -> (r: i32)
        ensures
            r == self@.min_writer_version,
    {
        self.min_writer_version
    }

    /// Whether the protocol lists a feature. Every reader feature is a writer feature, so the
    /// writer features alone decide.
    pub fn has_table_feature(&self, feature: &TableFeature) -> (r: bool)
        ensures
            r == (self@.writer_features matches Some(w) && w.contains(feature@)),
    {
        match &self.writer_features {
            Some(w) => contains_feature(w, feature),
            None => false,
        }
    }

    /// The values of a row that holds the protocol.
    pub fn row_values(&self) -> (r: Vec<Scalar>)
        ensures
            scalars::scalars_view(r@) == protocol_row(self@),
    {
        let r = vec![
            Scalar::Integer(self.min_reader_version),
            Scalar::Integer(self.min_writer_version),
            Scalar::opt_features(&self.reader_features),
            Scalar::opt_features(&self.writer_features),
        ];
        assert(scalars::scalars_view(r@) =~= protocol_row(self@));
        r
    }
}

/// In a valid protocol every reader feature is also a writer feature, and every writer feature
/// that readers must understand is also a reader feature, where there is a reader list.
pub proof fn reader_features_are_writer_features(p: ProtocolView, f: FeatureView)
    requires
        protocol_fault(p) is None,
        p.reader_features is Some,
    ensures
        p.writer_features is Some,
        p.reader_features->0.contains(f) ==> p.writer_features->0.contains(f),
        p.writer_features->0.contains(f) && table_features::feature_type_of(f) == FeatureType::ReaderWriter
            ==> p.reader_features->0.contains(f),
{
    let r = p.reader_features->0;
    let w = p.writer_features->0;
    if r.contains(f) {
        let i = choose|i: int| 0 <= i < r.len() && r[i] == f;
        assert(w.contains(r[i]));
    }
    if w.contains(f) {
        let i = choose|i: int| 0 <= i < w.len() && w[i] == f;
        assert(w[i] == f);
    }
}

/// The metadata of the first row that holds any.
pub open spec fn first_metadata_row(rows: Seq<Option<Metadata>>, i: int) -> Option<MetadataView>
    decreases rows.len() - i,
{
    if i >= rows.len() {
        None
    } else {
        match rows[i] {
            Some(m) => Some(m@),
            None => first_metadata_row(rows, i + 1),
        }
    }
}

impl Metadata {
    /// The metadata of the first row that holds any.
    pub fn try_new_from_data(rows: Vec<Option<Metadata>>) -> (r: DeltaResult<Option<Metadata>>)
        ensures
            r is Ok,
            first_metadata_row(rows@, 0) is None ==> (r matches Ok(None)),
            first_metadata_row(rows@, 0) matches Some(m) ==> (r matches Ok(Some(n)) && n@ == m),
    {
        let ghost all = rows@;
        let n: usize = rows.len();
        for row in it: rows
            invariant
                it.seq() == all,
                all.len() == n,
                first_metadata_row(all, 0) == first_metadata_row(all, it.index()),
        {
            assert(row == all[it.index()]);
            if let Some(m) = row {
                return Ok(Some(m));
            }
        }
        Ok(None)
    }
}

/// A row of the log as far as protocol actions are concerned.
#[derive(Debug, PartialEq, Eq)]
pub struct ProtocolRow {
    /// Absent where the row holds no protocol action.
    pub min_reader_version: Option<i32>,
    pub min_writer_version: i32,
    pub reader_features: Option<Vec<String>>,
    pub writer_features: Option<Vec<String>>,
}

/// The first row that holds a protocol action.
pub open spec fn first_protocol_row(rows: Seq<ProtocolRow>, i: int) -> Option<ProtocolRow>
    decreases rows.len() - i,
{
    if i >= rows.len() {
        None
    } else if rows[i].min_reader_version is Some {
        Some(rows[i])
    } else {
        first_protocol_row(rows, i + 1)
    }
}

/// The protocol of a row.
pub open spec fn row_protocol(row: ProtocolRow) -> ProtocolView {
    ProtocolView {
        min_reader_version: row.min_reader_version->0,
        min_writer_version: row.min_writer_version,
        reader_features: as_opt_features(row.reader_features),
        writer_features: as_opt_features(row.writer_features),
    }
}

impl Protocol {
    /// The protocol of the first row that holds one. Fails where that protocol is not valid.
    pub fn try_new_from_data(rows: Vec<ProtocolRow>) -> (r: DeltaResult<Option<Protocol>>)
        ensures
            first_protocol_row(rows@, 0) is None ==> r == Ok::<Option<Protocol>, Error>(None),
            first_protocol_row(rows@, 0) matches Some(row) ==> {
                &&& protocol_fault(row_protocol(row)) is None ==> (r matches Ok(Some(p)) && p@
                    == row_protocol(row))
                &&& protocol_fault(row_protocol(row)) is Some ==> error::failure(r) == protocol_fault(
                    row_protocol(row),
                )
            },
    {
        let ghost all = rows@;
        for row in it: rows
            invariant
                it.seq() == all,
                first_protocol_row(all, 0) == first_protocol_row(all, it.index()),
        {
            if let Some(version) = row.min_reader_version {
                return match Protocol::try_new(
                    version,
                    row.min_writer_version,
                    row.reader_features,
                    row.writer_features,
                ) {
                    Ok(p) => Ok(Some(p)),
                    Err(e) => Err(e),
                };
            }
        }
        Ok(None)
    }
}

/// What a commit says of itself.
#[derive(Debug, PartialEq, Eq)]
pub struct CommitInfo {
    /// When the commit was made, in milliseconds since the Unix epoch.
    pub timestamp: Option<i64>,
    /// When the commit was made, in milliseconds since the Unix epoch, later than every earlier
    /// commit of the table.
    pub in_commit_timestamp: Option<i64>,
    /// What the commit does.
    pub operation: Option<String>,
    /// More about what the commit does.
    pub operation_parameters: Option<StringMap<String>>,
    /// The version of the library that wrote the commit.
    pub kernel_version: Option<String>,
    /// Whether the commit is a blind append.
    pub is_blind_append: Option<bool>,
    /// What the engine says of itself.
    pub engine_info: Option<String>,
    /// The identifier of the transaction.
    pub txn_id: Option<String>,
}

/// The mathematical value of a [`CommitInfo`].
pub struct CommitInfoView {
    pub timestamp: Option<i64>,
    pub in_commit_timestamp: Option<i64>,
    pub operation: Option<Seq<char>>,
    pub operation_parameters: Option<Map<Seq<char>, Seq<char>>>,
    pub kernel_version: Option<Seq<char>>,
    pub is_blind_append: Option<bool>,
    pub engine_info: Option<Seq<char>>,
    pub txn_id: Option<Seq<char>>,
}

impl View for CommitInfo {
    type V = CommitInfoView;

    open spec fn view(&self) -> CommitInfoView {
        CommitInfoView {
            timestamp: self.timestamp,
            in_commit_timestamp: self.in_commit_timestamp,
            operation: text::opt_text(self.operation),
            operation_parameters: match self.operation_parameters {
                Some(m) => Some(m@),
                None => None,
            },
            kernel_version: text::opt_text(self.kernel_version),
            is_blind_append: self.is_blind_append,
            engine_info: text::opt_text(self.engine_info),
            txn_id: text::opt_text(self.txn_id),
        }
    }
}

/// What a commit says of itself, given the identifier of its transaction.
pub open spec fn commit_info_of(
    timestamp: i64,
    in_commit_timestamp: Option<i64>,
    operation: Option<Seq<char>>,
    engine_info: Option<Seq<char>>,
    is_blind_append: bool,
    txn_id: Seq<char>,
) -> CommitInfoView {
    CommitInfoView {
        timestamp: Some(timestamp),
        in_commit_timestamp,
        operation: Some(
            match operation {
                Some(s) => s,
                None => UNKNOWN_OPERATION@,
            },
        ),
        operation_parameters: Some(Map::empty()),
        kernel_version: Some("v"@ + KERNEL_VERSION@),
        is_blind_append: if is_blind_append {
            Some(true)
        } else {
            None
        },
        engine_info,
        txn_id: Some(txn_id),
    }
}

impl CommitInfo {
    /// What a commit says of itself, given the identifier of its transaction.
    pub fn with_txn_id(
        timestamp: i64,
        in_commit_timestamp: Option<i64>,
        operation: Option<String>,
        engine_info: Option<String>,
        is_blind_append: bool,
        txn_id: String,
    ) -> (r: CommitInfo)
        ensures
            r@ == commit_info_of(
                timestamp,
                in_commit_timestamp,
                text::opt_text(operation),
                text::opt_text(engine_info),
                is_blind_append,
                txn_id@,
            ),
            r.parameter_keys() == Seq::<Seq<char>>::empty(),
    {
        CommitInfo {
            timestamp: Some(timestamp),
            in_commit_timestamp,
            operation: match operation {
                Some(s) => Some(s),
                None => Some(UNKNOWN_OPERATION.to_owned()),
            },
            operation_parameters: Some(StringMap::new()),
            kernel_version: Some(text2("v", KERNEL_VERSION)),
            is_blind_append: if is_blind_append {
                Some(true)
            } else {
                None
            },
            engine_info,
            txn_id: Some(txn_id),
        }
    }

    /// What a commit says of itself, with a random transaction identifier.
    pub fn new(
        timestamp: i64,
        in_commit_timestamp: Option<i64>,
        operation: Option<String>,
        engine_info: Option<String>,
        is_blind_append: bool,
    ) -> (r: CommitInfo)
        ensures
            r@.txn_id matches Some(id) && bindings::is_uuid_text(id) && r@ == commit_info_of(
                timestamp,
                in_commit_timestamp,
                text::opt_text(operation),
                text::opt_text(engine_info),
                is_blind_append,
                id,
            ),
    {
        CommitInfo::with_txn_id(
            timestamp,
            in_commit_timestamp,
            operation,
            engine_info,
            is_blind_append,
            new_uuid_text(),
        )
    }
}

/// The values of a row that holds a commit info. The parameters of the operation come in the order
/// of the given keys.
pub open spec fn commit_info_row(c: CommitInfoView, keys: Seq<Seq<char>>) -> Seq<ScalarView> {
    seq![
        scalars::opt_long_scalar(c.timestamp),
        scalars::opt_long_scalar(c.in_commit_timestamp),
        scalars::opt_string_scalar(c.operation),
        match c.operation_parameters {
            Some(m) => scalars::string_map_scalar(m, keys),
            None => ScalarView::Null(schema::string_map_type(false)),
        },
        scalars::opt_string_scalar(c.kernel_version),
        scalars::opt_boolean_scalar(c.is_blind_append),
        scalars::opt_string_scalar(c.engine_info),
        scalars::opt_string_scalar(c.txn_id),
    ]
}

impl CommitInfo {
    /// The names of the parameters of the operation, in order.
    pub open spec fn parameter_keys(&self) -> Seq<Seq<char>> {
        match self.operation_parameters {
            Some(m) => m.keys(),
            None => Seq::empty(),
        }
    }

    /// The values of a row that holds the commit info.
    pub fn row_values(&self) -> (r: Vec<Scalar>)
        ensures
            scalars::scalars_view(r@) == commit_info_row(self@, self.parameter_keys()),
    {
        let parameters = match &self.operation_parameters {
            Some(m) => Scalar::string_map(m),
            None => Scalar::Null(DataType::mapping(DataType::string(), DataType::string(), false)),
        };
        let r = vec![
            Scalar::opt_long(self.timestamp),
            Scalar::opt_long(self.in_commit_timestamp),
            Scalar::opt_string(clone_opt(&self.operation)),
            parameters,
            Scalar::opt_string(clone_opt(&self.kernel_version)),
            Scalar::opt_boolean(self.is_blind_append),
            Scalar::opt_string(clone_opt(&self.engine_info)),
            Scalar::opt_string(clone_opt(&self.txn_id)),
        ];
        assert(scalars::scalars_view(r@) =~= commit_info_row(self@, self.parameter_keys()));
        r
    }
}

/// Where a deletion vector is stored.
#[derive(Debug, Clone, Copy, PartialEq, Eq, Structural)]
pub enum DeletionVectorStorageType {
    /// In a file relative to the table.
    PersistedRelative,
    /// In the log itself.
    Inline,
    /// In a file with an absolute path.
    PersistedAbsolute,
}

/// The letter of a storage type.
pub open spec fn storage_type_text(t: DeletionVectorStorageType) -> Seq<char> {
    match t {
        DeletionVectorStorageType::PersistedRelative => "u"@,
        DeletionVectorStorageType::Inline => "i"@,
        DeletionVectorStorageType::PersistedAbsolute => "p"@,
    }
}

impl DeletionVectorStorageType {
    /// The letter of the storage type.
    pub fn letter(&self) -> (r: &'static str)
        ensures
            r@ == storage_type_text(*self),
    {
        match self {
            DeletionVectorStorageType::PersistedRelative => "u",
            DeletionVectorStorageType::Inline => "i",
            DeletionVectorStorageType::PersistedAbsolute => "p",
        }
    }
}

/// Which rows of a file are deleted.
#[derive(Debug, PartialEq, Eq)]
pub struct DeletionVectorDescriptor {
    pub storage_type: DeletionVectorStorageType,
    pub path_or_inline_dv: String,
    pub offset: Option<i32>,
    pub size_in_bytes: i32,
    pub cardinality: i64,
}

/// The mathematical value of a [`DeletionVectorDescriptor`].
pub struct DvView {
    pub storage_type: DeletionVectorStorageType,
    pub path_or_inline_dv: Seq<char>,
    pub offset: Option<i32>,
    pub size_in_bytes: i32,
    pub cardinality: i64,
}

impl View for DeletionVectorDescriptor {
    type V = DvView;

    open spec fn view(&self) -> DvView {
        DvView {
            storage_type: self.storage_type,
            path_or_inline_dv: self.path_or_inline_dv@,
            offset: self.offset,
            size_in_bytes: self.size_in_bytes,
            cardinality: self.cardinality,
        }
    }
}

impl MapValue for DeletionVectorDescriptor {
    fn same_value(&self, other: &DeletionVectorDescriptor) -> (r: bool) {
        let same_offset: bool = match (self.offset, other.offset) {
            (Some(a), Some(b)) => a == b,
            (None, None) => true,
            _ => false,
        };
        self.storage_type == other.storage_type && self.path_or_inline_dv == other.path_or_inline_dv
            && same_offset && self.size_in_bytes == other.size_in_bytes && self.cardinality
            == other.cardinality
    }

    fn copy_value(&self) -> (r: DeletionVectorDescriptor) {
        DeletionVectorDescriptor {
            storage_type: self.storage_type,
            path_or_inline_dv: self.path_or_inline_dv.clone(),
            offset: self.offset,
            size_in_bytes: self.size_in_bytes,
            cardinality: self.cardinality,
        }
    }
}

/// What tells a deletion vector from every other: storage letter and place, and the offset where
/// there is one.
pub open spec fn dv_id(d: DvView) -> Seq<char> {
    match d.offset {
        Some(n) => storage_type_text(d.storage_type) + d.path_or_inline_dv + "@"@
            + text::signed_decimal(n as int),
        None => storage_type_text(d.storage_type) + d.path_or_inline_dv,
    }
}

impl DeletionVectorDescriptor {
    /// What tells the deletion vector from every other.
    pub fn unique_id(&self) -> (r: String)
        ensures
            r@ == dv_id(self@),
    {
        let mut r = text2(self.storage_type.letter(), self.path_or_inline_dv.as_str());
        if let Some(n) = self.offset {
            let digits = signed_text(n as i64);
            r.append("@");
            r.append(digits.as_str());
        }
        r
    }
}

/// A text that may be null.
#[derive(Debug, PartialEq, Eq)]
pub struct NullableText {
    pub value: Option<String>,
}

impl View for NullableText {
    type V = Option<Seq<char>>;

    open spec fn view(&self) -> Option<Seq<char>> {
        text::opt_text(self.value)
    }
}

impl MapValue for NullableText {
    fn same_value(&self, other: &NullableText) -> (r: bool) {
        match (&self.value, &other.value) {
            (Some(a), Some(b)) => *a == *b,
            (None, None) => true,
            _ => false,
        }
    }

    fn copy_value(&self) -> (r: NullableText) {
        NullableText { value: clone_opt(&self.value) }
    }
}

/// The addition of a data file to a table.
#[derive(Debug, PartialEq, Eq)]
pub struct Add {
    /// The path of the file, relative to the table or absolute, as a URI.
    pub path: String,
    /// The values of the partition columns. A column without a value is null.
    pub partition_values: StringMap<String>,
    /// The size in bytes.
    pub size: i64,
    /// When the file was created, in milliseconds since the Unix epoch.
    pub modification_time: i64,
    /// Whether the file changes the data of the table.
    pub data_change: bool,
    /// Statistics on the data of the file, as JSON.
    pub stats: Option<String>,
    /// More about the file.
    pub tags: Option<StringMap<NullableText>>,
    /// Which rows of the file are deleted.
    pub deletion_vector: Option<DeletionVectorDescriptor>,
    /// The row identifier of the first row.
    pub base_row_id: Option<i64>,
    /// The version in which the file was first added.
    pub default_row_commit_version: Option<i64>,
    /// The name of the clustering implementation.
    pub clustering_provider: Option<String>,
}

impl Add {
    /// What tells the deletion vector of the file from every other, where there is one.
    pub fn dv_unique_id(&self) -> (r: Option<String>)
        ensures
            text::opt_text(r) == (match self.deletion_vector {
                Some(d) => Some(dv_id(d@)),
                None => None,
            }),
    {
        match &self.deletion_vector {
            Some(d) => Some(d.unique_id()),
            None => None,
        }
    }
}

/// The removal of a data file from a table.
#[derive(Debug, PartialEq, Eq)]
pub struct Remove {
    /// The path of the file, relative to the table or absolute, as a URI.
    pub path: String,
    /// When the file was removed, in milliseconds since the Unix epoch.
    pub deletion_timestamp: Option<i64>,
    /// Whether the removal changes the data of the table.
    pub data_change: bool,
    /// Whether partition values, size and tags are present.
    pub extended_file_metadata: Option<bool>,
    /// The values of the partition columns.
    pub partition_values: Option<StringMap<String>>,
    /// The size in bytes.
    pub size: Option<i64>,
    /// Statistics on the data of the file, as JSON.
    pub stats: Option<String>,
    /// More about the file.
    pub tags: Option<StringMap<String>>,
    /// Which rows of the file were deleted.
    pub deletion_vector: Option<DeletionVectorDescriptor>,
    /// The row identifier of the first row.
    pub base_row_id: Option<i64>,
    /// The version in which the file was first added.
    pub default_row_commit_version: Option<i64>,
}

/// A file that holds the changes that a commit made to the data.
#[derive(Debug, PartialEq, Eq)]
pub struct Cdc {
    /// The path of the file, relative to the table or absolute, as a URI.
    pub path: String,
    /// The values of the partition columns. A column without a value is null.
    pub partition_values: StringMap<String>,
    /// The size in bytes.
    pub size: i64,
    /// Always false: the file does not change the data of the table.
    pub data_change: bool,
    /// More about the file.
    pub tags: Option<StringMap<String>>,
}

/// The last transaction of an application.
#[derive(Debug, PartialEq, Eq)]
pub struct SetTransaction {
    /// The identifier of the application.
    pub app_id: String,
    /// What the application calls the transaction.
    pub version: i64,
    /// When the action was created, in milliseconds since the Unix epoch.
    pub last_updated: Option<i64>,
}

/// The mathematical value of a [`SetTransaction`].
pub struct SetTransactionView {
    pub app_id: Seq<char>,
    pub version: i64,
    pub last_updated: Option<i64>,
}

impl View for SetTransaction {
    type V = SetTransactionView;

    open spec fn view(&self) -> SetTransactionView {
        SetTransactionView {
            app_id: self.app_id@,
            version: self.version,
            last_updated: self.last_updated,
        }
    }
}

/// The values of a row that holds the progress of an application.
pub open spec fn set_transaction_row(t: SetTransactionView) -> Seq<ScalarView> {
    seq![
        ScalarView::String(t.app_id),
        ScalarView::Long(t.version),
        scalars::opt_long_scalar(t.last_updated),
    ]
}

impl SetTransaction {
    pub fn new(app_id: String, version: i64, last_updated: Option<i64>) -> (r: SetTransaction)
        ensures
            r@ == (SetTransactionView { app_id: app_id@, version, last_updated }),
    {
        SetTransaction { app_id, version, last_updated }
    }

    /// The values of a row that holds the action.
    pub fn row_values(&self) -> (r: Vec<Scalar>)
        ensures
            scalars::scalars_view(r@) == set_transaction_row(self@),
    {
        let r = vec![
            Scalar::String(self.app_id.clone()),
            Scalar::Long(self.version),
            Scalar::opt_long(self.last_updated),
        ];
        assert(scalars::scalars_view(r@) =~= set_transaction_row(self@));
        r
    }
}

impl Clone for SetTransaction {
    fn clone(&self) -> (r: SetTransaction)
        ensures
            r@ == self@,
    {
        SetTransaction {
            app_id: self.app_id.clone(),
            version: self.version,
            last_updated: self.last_updated,
        }
    }
}

/// A reference to a file that holds some of the file actions of a checkpoint.
#[derive(Debug, PartialEq, Eq)]
pub struct Sidecar {
    /// The name of the file in the sidecar directory, or an absolute path, as a URI.
    pub path: String,
    /// The size in bytes.
    pub size_in_bytes: i64,
    /// When the file was created, in milliseconds since the Unix epoch.
    pub modification_time: i64,
    /// More about the file.
    pub tags: Option<StringMap<String>>,
}

/// The mathematical value of a [`Sidecar`], as far as its file is concerned.
pub struct SidecarView {
    pub path: Seq<char>,
    pub size_in_bytes: i64,
    pub modification_time: i64,
}

impl View for Sidecar {
    type V = SidecarView;

    open spec fn view(&self) -> SidecarView {
        SidecarView {
            path: self.path@,
            size_in_bytes: self.size_in_bytes,
            modification_time: self.modification_time,
        }
    }
}

/// The file that a sidecar action refers to, given its URL.
pub open spec fn sidecar_file_at(s: SidecarView, location: Seq<char>) -> Result<
    FileMetaView,
    ErrorView,
> {
    if s.size_in_bytes < 0 {
        Err(
            ErrorView::Generic(
                "Failed to convert sidecar size "@ + text::signed_decimal(s.size_in_bytes as int)
                    + " to usize"@,
            ),
        )
    } else {
        Ok(
            FileMetaView {
                location,
                last_modified: s.modification_time,
                size: s.size_in_bytes as u64,
            },
        )
    }
}

/// The file that a sidecar action refers to.
pub open spec fn sidecar_file(s: SidecarView, log_root: Seq<char>) -> Result<
    FileMetaView,
    ErrorView,
> {
    match bindings::joined_url(log_root, "_sidecars/"@) {
        Err(e) => Err(ErrorView::InvalidUrl(e)),
        Ok(dir) => match bindings::joined_url(dir, s.path) {
            Err(e) => Err(ErrorView::InvalidUrl(e)),
            Ok(location) => sidecar_file_at(s, location),
        },
    }
}

/// What becomes of a list when each element is turned into a file, or the first error.
pub open spec fn sidecar_files(s: Seq<SidecarView>, log_root: Seq<char>) -> Result<
    Seq<FileMetaView>,
    ErrorView,
>
    decreases s.len(),
{
    if s.len() == 0 {
        Ok(Seq::empty())
    } else {
        match sidecar_files(s.drop_last(), log_root) {
            Err(e) => Err(e),
            Ok(done) => match sidecar_file(s.last(), log_root) {
                Err(e) => Err(e),
                Ok(f) => Ok(done.push(f)),
            },
        }
    }
}

/// An error among the first sidecars is the error of all of them.
proof fn lemma_sidecar_error(s: Seq<SidecarView>, log_root: Seq<char>, n: int)
    requires
        0 <= n <= s.len(),
        sidecar_files(s.take(n), log_root) is Err,
    ensures
        sidecar_files(s, log_root) == sidecar_files(s.take(n), log_root),
    decreases s.len(),
{
    if n == s.len() {
        assert(s.take(n) =~= s);
    } else {
        assert(s.drop_last().take(n) =~= s.take(n));
        lemma_sidecar_error(s.drop_last(), log_root, n);
    }
}

/// The values of a list of sidecars.
pub open spec fn sidecars_view(s: Seq<Sidecar>) -> Seq<SidecarView> {
    Seq::new(s.len(), |i: int| s[i]@)
}

impl Sidecar {
    /// The file that the action refers to, given its URL. Fails where the size is negative.
    pub fn filemeta_at(&self, location: String) -> (r: DeltaResult<FileMeta>)
        ensures
            sidecar_file_at(self@, location@) matches Ok(f) ==> (r matches Ok(g) && g@ == f),
            sidecar_file_at(self@, location@) matches Err(e) ==> error::failure(r) == Some(e),
    {
        if self.size_in_bytes < 0 {
            let size = signed_text(self.size_in_bytes);
            return Err(
                Error::Generic(
                    text3("Failed to convert sidecar size ", size.as_str(), " to usize"),
                ),
            );
        }
        Ok(
            FileMeta {
                location,
                last_modified: self.modification_time,
                size: self.size_in_bytes as u64,
            },
        )
    }

    /// The file that the action refers to: its path is read relative to the sidecar directory of
    /// the log. Fails where that is not a URL or where the size is negative.
    pub fn to_filemeta(&self, log_root: &str) -> (r: DeltaResult<FileMeta>)
        ensures
            sidecar_file(self@, log_root@) matches Ok(f) ==> (r matches Ok(g) && g@ == f),
            sidecar_file(self@, log_root@) matches Err(e) ==> error::failure(r) == Some(e),
    {
        let dir = match join_url(log_root, "_sidecars/") {
            Ok(dir) => dir,
            Err(e) => {
                return Err(Error::InvalidUrl(e));
            },
        };
        match join_url(dir.as_str(), self.path.as_str()) {
            Ok(location) => self.filemeta_at(location),
            Err(e) => Err(Error::InvalidUrl(e)),
        }
    }

    /// The files that a list of actions refers to, or the first error.
    pub fn to_filemetas(sidecars: &Vec<Sidecar>, log_root: &str) -> (r: DeltaResult<Vec<FileMeta>>)
        ensures
            sidecar_files(sidecars_view(sidecars@), log_root@) matches Ok(f) ==> (r matches Ok(g)
                && path::files_view(g@) == f),
            sidecar_files(sidecars_view(sidecars@), log_root@) matches Err(e) ==> error::failure(r)
                == Some(e),
    {
        let ghost s = sidecars_view(sidecars@);
        let mut files: Vec<FileMeta> = Vec::new();
        let mut i: usize = 0;
        assert(s.take(0) =~= Seq::<SidecarView>::empty());
        assert(path::files_view(files@) =~= Seq::<FileMetaView>::empty());
        while i < sidecars.len()
            invariant
                i <= sidecars@.len(),
                s == sidecars_view(sidecars@),
                sidecar_files(s.take(i as int), log_root@) == Ok::<Seq<FileMetaView>, ErrorView>(
                    path::files_view(files@),
                ),
            decreases sidecars.len() - i,
        {
            let ghost done = path::files_view(files@);
            assert(s.take(i + 1).drop_last() =~= s.take(i as int));
            assert(s.take(i + 1).last() == sidecars@[i as int]@);
            match sidecars[i].to_filemeta(log_root) {
                Ok(f) => {
                    files.push(f);
                    assert(path::files_view(files@) =~= done.push(f@));
                },
                Err(e) => {
                    proof {
                        lemma_sidecar_error(s, log_root@, i + 1);
                    }
                    return Err(e);
                },
            }
            i += 1;
        }
        assert(s.take(i as int) =~= s);
        Ok(files)
    }
}

/// What a checkpoint says of itself.
#[derive(Debug, PartialEq, Eq)]
pub struct CheckpointMetadata {
    /// The version of the checkpoint.
    pub version: i64,
    /// More about the checkpoint.
    pub tags: Option<StringMap<String>>,
}

/// The configuration of a named domain of a table's metadata.
#[derive(Debug, PartialEq, Eq)]
pub struct DomainMetadata {
    pub domain: String,
    pub configuration: String,
    pub removed: bool,
}

/// The mathematical value of a [`DomainMetadata`].
pub struct DomainMetadataView {
    pub domain: Seq<char>,
    pub configuration: Seq<char>,
    pub removed: bool,
}

impl View for DomainMetadata {
    type V = DomainMetadataView;

    open spec fn view(&self) -> DomainMetadataView {
        DomainMetadataView {
            domain: self.domain@,
            configuration: self.configuration@,
            removed: self.removed,
        }
    }
}

/// The values of a list of domain metadata actions.
pub open spec fn domains_view(s: Seq<DomainMetadata>) -> Seq<DomainMetadataView> {
    Seq::new(s.len(), |i: int| s[i]@)
}

/// The values of a row that holds domain metadata.
pub open spec fn domain_metadata_row(d: DomainMetadataView) -> Seq<ScalarView> {
    seq![
        ScalarView::String(d.domain),
        ScalarView::String(d.configuration),
        ScalarView::Boolean(d.removed),
    ]
}

impl DomainMetadata {
    /// Sets the configuration of a domain.
    pub fn new(domain: String, configuration: String) -> (r: DomainMetadata)
        ensures
            r@ == (DomainMetadataView {
                domain: domain@,
                configuration: configuration@,
                removed: false,
            }),
    {
        DomainMetadata { domain, configuration, removed: false }
    }

    /// Removes a domain.
    pub fn remove(domain: String, configuration: String) -> (r: DomainMetadata)
        ensures
            r@ == (DomainMetadataView {
                domain: domain@,
                configuration: configuration@,
                removed: true,
            }),
    {
        DomainMetadata { domain, configuration, removed: true }
    }

    /// Whether the domain belongs to the system.
    pub fn is_internal(&self) -> (r: bool)
        ensures
            r == text::has_prefix(self@.domain, INTERNAL_DOMAIN_PREFIX@),
    {
        starts_with(self.domain.as_str(), INTERNAL_DOMAIN_PREFIX)
    }

    pub fn domain(&self) -> (r: &str)
        ensures
            r@ == self@.domain,
    {
        self.domain.as_str()
    }

    pub fn configuration(&self) -> (r: &str)
        ensures
            r@ == self@.configuration,
    {
        self.configuration.as_str()
    }

    /// Whether the action removes the domain.
    pub fn is_removed(&self) -> (r: bool)
        ensures
            r == self@.removed,
    {
        self.removed
    }

    /// The values of a row that holds the action.
    pub fn row_values(&self) -> (r: Vec<Scalar>)
        ensures
            scalars::scalars_view(r@) == domain_metadata_row(self@),
    {
        let r = vec![
            Scalar::String(self.domain.clone()),
            Scalar::String(self.configuration.clone()),
            Scalar::Boolean(self.removed),
        ];
        assert(scalars::scalars_view(r@) =~= domain_metadata_row(self@));
        r
    }
}

impl Clone for DomainMetadata {
    fn clone(&self) -> (r: DomainMetadata)
        ensures
            r@ == self@,
    {
        DomainMetadata {
            domain: self.domain.clone(),
            configuration: self.configuration.clone(),
            removed: self.removed,
        }
    }
}

/// The metadata of a list of rows are those of the first row that holds any.
pub proof fn metadata_come_from_the_first_row(rows: Seq<Option<Metadata>>, i: int)
    requires
        0 <= i <= rows.len(),
    ensures
        first_metadata_row(rows, i) is None <==> forall|k: int|
            i <= k < rows.len() ==> (#[trigger] rows[k]) is None,
        first_metadata_row(rows, i) matches Some(m) ==> exists|k: int|
            i <= k < rows.len() && (#[trigger] rows[k]) is Some && rows[k]->0@ == m && forall|j: int|
                i <= j < k ==> (#[trigger] rows[j]) is None,
    decreases rows.len() - i,
{
    if i < rows.len() {
        if rows[i] is None {
            metadata_come_from_the_first_row(rows, i + 1);
            if first_metadata_row(rows, i) is Some {
                let m = first_metadata_row(rows, i)->0;
                let k = choose|k: int|
                    i + 1 <= k < rows.len() && (#[trigger] rows[k]) is Some && rows[k]->0@ == m
                        && forall|j: int| i + 1 <= j < k ==> (#[trigger] rows[j]) is None;
                assert(rows[k] is Some);
            }
        } else {
            assert(rows[i] is Some);
        }
    }
}

/// The protocol of a list of rows is that of the first row that holds one.
pub proof fn protocols_come_from_the_first_row(rows: Seq<ProtocolRow>, i: int)
    requires
        0 <= i <= rows.len(),
    ensures
        first_protocol_row(rows, i) is None <==> forall|k: int|
            i <= k < rows.len() ==> (#[trigger] rows[k]).min_reader_version is None,
        first_protocol_row(rows, i) matches Some(row) ==> exists|k: int|
            i <= k < rows.len() && #[trigger] rows[k] == row && row.min_reader_version is Some
                && forall|j: int| i <= j < k ==> (#[trigger] rows[j]).min_reader_version is None,
    decreases rows.len() - i,
{
    if i < rows.len() {
        if rows[i].min_reader_version is None {
            protocols_come_from_the_first_row(rows, i + 1);
            if first_protocol_row(rows, i) is Some {
                let row = first_protocol_row(rows, i)->0;
                let k = choose|k: int|
                    i + 1 <= k < rows.len() && #[trigger] rows[k] == row
                        && row.min_reader_version is Some && forall|j: int|
                        i + 1 <= j < k ==> (#[trigger] rows[j]).min_reader_version is None;
                assert(rows[k] == row);
            }
        } else {
            assert(rows[i].min_reader_version is Some);
        }
    }
}

/// The protocol of a row has the versions of the row, and lists for readers and for writers the features
/// that the row names for them.
pub proof fn protocols_are_those_of_their_rows(row: ProtocolRow)
    ensures
        ({
            let p = row_protocol(row);
            &&& row.min_reader_version matches Some(v) ==> p.min_reader_version == v
            &&& p.min_writer_version == row.min_writer_version
            &&& p.reader_features is Some <==> row.reader_features is Some
            &&& p.writer_features is Some <==> row.writer_features is Some
            &&& row.reader_features matches Some(r) ==> p.reader_features->0.len() == r@.len()
                && forall|i: int|
                0 <= i < r@.len() ==> #[trigger] p.reader_features->0[i] == r@[i].as_feature()
            &&& row.writer_features matches Some(w) ==> p.writer_features->0.len() == w@.len()
                && forall|i: int|
                0 <= i < w@.len() ==> #[trigger] p.writer_features->0[i] == w@[i].as_feature()
        }),
{
}

} // verus!
