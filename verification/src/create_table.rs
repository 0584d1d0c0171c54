//! What a new table is made of: the checks on its properties and layout, and the features that they
//! bring with them.
use vstd::pervasive::unreached;
use vstd::prelude::*;

use crate::actions::{self, DomainMetadata, DomainMetadataView, ProtocolView};
use crate::column_mapping::{
    self, assign_to_fields, count_fields, get_column_mapping_mode_from_properties, random_names,
};
use crate::data_layout::{
    self, create_clustering_domain_metadata, validate_clustering_columns,
    validate_partition_columns, DataLayout, LayoutView,
};
use crate::error::{self, DeltaResult, Error, ErrorView};
use crate::expressions::{self, clone_columns, ColumnName};
use crate::log_validation;
use crate::schema::{FieldView, StructType};
use crate::schema_transform::{
    self, get_any_level_column_physical_name, schema_contains_timestamp_ntz,
    schema_contains_variant_type, SpecialType,
};
use crate::string_map::StringMap;
use crate::table_features::{
    self, contains_feature, ColumnMappingMode, EnablementCheck, FeatureType, FeatureView,
    TableFeature, SET_TABLE_FEATURE_SUPPORTED_PREFIX, SET_TABLE_FEATURE_SUPPORTED_VALUE,
};
use crate::table_properties::{
    self, TableProperties, APPEND_ONLY, CHECKPOINT_WRITE_STATS_AS_JSON,
    CHECKPOINT_WRITE_STATS_AS_STRUCT, COLUMN_MAPPING_MAX_COLUMN_ID, COLUMN_MAPPING_MODE,
    DELTA_PROPERTY_PREFIX, ENABLE_CHANGE_DATA_FEED, ENABLE_DELETION_VECTORS,
    ENABLE_IN_COMMIT_TIMESTAMPS, ENABLE_TYPE_WIDENING, SET_TRANSACTION_RETENTION_DURATION,
};
use crate::text::{self, same_text, signed_text, starts_with, strip_prefix, text2, text3, text5};

verus! {

/// The features that a property can ask for when a table is created.
pub open spec fn allowed_features() -> Seq<FeatureView> {
    seq![
        FeatureView::DomainMetadata,
        FeatureView::ColumnMapping,
        FeatureView::InCommitTimestamp,
        FeatureView::VacuumProtocolCheck,
        FeatureView::CatalogManaged,
        FeatureView::DeletionVectors,
        FeatureView::V2Checkpoint,
        FeatureView::AppendOnly,
        FeatureView::ChangeDataFeed,
        FeatureView::TypeWidening,
    ]
}

/// The features that a property can ask for when a table is created.
pub fn allowed_delta_features() -> (r: Vec<TableFeature>)
    ensures
        table_features::features_view(r@) == allowed_features(),
{
    let r = vec![
        TableFeature::DomainMetadata,
        TableFeature::ColumnMapping,
        TableFeature::InCommitTimestamp,
        TableFeature::VacuumProtocolCheck,
        TableFeature::CatalogManaged,
        TableFeature::DeletionVectors,
        TableFeature::V2Checkpoint,
        TableFeature::AppendOnly,
        TableFeature::ChangeDataFeed,
        TableFeature::TypeWidening,
    ];
    assert(table_features::features_view(r@) =~= allowed_features());
    r
}

/// Whether a property of the `delta.` family can be set when a table is created.
pub open spec fn property_allowed(key: Seq<char>) -> bool {
    ||| key == COLUMN_MAPPING_MODE@
    ||| key == ENABLE_IN_COMMIT_TIMESTAMPS@
    ||| key == CHECKPOINT_WRITE_STATS_AS_JSON@
    ||| key == CHECKPOINT_WRITE_STATS_AS_STRUCT@
    ||| key == ENABLE_DELETION_VECTORS@
    ||| key == ENABLE_CHANGE_DATA_FEED@
    ||| key == ENABLE_TYPE_WIDENING@
    ||| key == APPEND_ONLY@
    ||| key == SET_TRANSACTION_RETENTION_DURATION@
}

/// Whether a property of the `delta.` family can be set when a table is created.
fn is_allowed_property(key: &str) -> (r: bool)
    ensures
        r == property_allowed(key@),
{
    same_text(key, COLUMN_MAPPING_MODE) || same_text(key, ENABLE_IN_COMMIT_TIMESTAMPS)
        || same_text(key, CHECKPOINT_WRITE_STATS_AS_JSON) || same_text(
        key,
        CHECKPOINT_WRITE_STATS_AS_STRUCT,
    ) || same_text(key, ENABLE_DELETION_VECTORS) || same_text(key, ENABLE_CHANGE_DATA_FEED)
        || same_text(key, ENABLE_TYPE_WIDENING) || same_text(key, APPEND_ONLY) || same_text(
        key,
        SET_TRANSACTION_RETENTION_DURATION,
    )
}

/// What was found of the table that is to be created.
#[derive(Debug, PartialEq, Eq)]
pub enum LogListing {
    /// The log directory could not be listed.
    Failed(Error),
    /// The listing has no entry.
    Empty,
    /// The first entry of the listing could not be read.
    FirstFailed(Error),
    /// The listing has an entry.
    HasFiles,
}

/// Why a table cannot be created at a path.
pub open spec fn existence_fault(listing: LogListing, path: Seq<char>) -> Option<ErrorView> {
    match listing {
        LogListing::Failed(e) => if e@ is FileNotFound {
            None
        } else {
            Some(e@)
        },
        LogListing::Empty => None,
        LogListing::FirstFailed(e) => if e@ is FileNotFound {
            None
        } else {
            Some(e@)
        },
        LogListing::HasFiles => Some(
            ErrorView::Generic("Table already exists at path: "@ + path),
        ),
    }
}

/// Checks that there is no table at a path: its log directory is missing or empty. Any other error
/// of the listing is passed on.
pub fn ensure_table_does_not_exist(listing: &LogListing, table_path: &str) -> (r: DeltaResult<()>)
    ensures
        existence_fault(*listing, table_path@) is None ==> r is Ok,
        existence_fault(*listing, table_path@) is Some ==> error::failure(r) == existence_fault(
            *listing,
            table_path@,
        ),
{
    match listing {
        LogListing::Failed(Error::FileNotFound(_)) => Ok(()),
        LogListing::Failed(e) => Err(e.clone()),
        LogListing::Empty => Ok(()),
        LogListing::FirstFailed(Error::FileNotFound(_)) => Ok(()),
        LogListing::FirstFailed(e) => Err(e.clone()),
        LogListing::HasFiles => Err(
            Error::Generic(text2("Table already exists at path: ", table_path)),
        ),
    }
}

/// The properties of a new table and the features that its protocol will list.
#[derive(Debug, PartialEq, Eq)]
pub struct ValidatedTableProperties {
    /// The properties, without those that only name features.
    pub properties: StringMap<String>,
    pub reader_features: Vec<TableFeature>,
    pub writer_features: Vec<TableFeature>,
}

/// The mathematical value of [`ValidatedTableProperties`].
pub struct ValidatedView {
    pub properties: Map<Seq<char>, Seq<char>>,
    /// The names of the properties in the order of their first insertion.
    pub keys: Seq<Seq<char>>,
    pub reader: Seq<FeatureView>,
    pub writer: Seq<FeatureView>,
}

impl View for ValidatedTableProperties {
    type V = ValidatedView;

    open spec fn view(&self) -> ValidatedView {
        ValidatedView {
            properties: self.properties@,
            keys: self.properties.keys(),
            reader: table_features::features_view(self.reader_features@),
            writer: table_features::features_view(self.writer_features@),
        }
    }
}

/// A list with a feature, which comes last unless it is there already.
pub open spec fn with_listed(s: Seq<FeatureView>, f: FeatureView) -> Seq<FeatureView> {
    if s.contains(f) {
        s
    } else {
        s.push(f)
    }
}

/// The reader list with a feature: only features that readers must understand are added.
pub open spec fn reader_with(reader: Seq<FeatureView>, f: FeatureView) -> Seq<FeatureView> {
    if table_features::feature_type_of(f) is ReaderWriter {
        with_listed(reader, f)
    } else {
        reader
    }
}

/// The properties and features of a new table with one more feature.
pub open spec fn with_feature(v: ValidatedView, f: FeatureView) -> ValidatedView {
    ValidatedView {
        reader: reader_with(v.reader, f),
        writer: with_listed(v.writer, f),
        ..v
    }
}

/// Appends a feature to a list unless it is there already.
fn push_new(list: &mut Vec<TableFeature>, feature: &TableFeature)
    ensures
        table_features::features_view(final(list)@) == with_listed(table_features::features_view(old(list)@), feature@),
{
    let ghost before = table_features::features_view(list@);
    if !contains_feature(list, feature) {
        let f = feature.clone();
        list.push(f);
        assert(table_features::features_view(list@) =~= before.push(f@));
    }
}

/// Adds a feature to the lists of a protocol: to the list for writers, and to that for readers if
/// readers must understand it. A feature that is listed already is not listed again.
pub fn add_feature_to_lists(
    feature: &TableFeature,
    reader_features: &mut Vec<TableFeature>,
    writer_features: &mut Vec<TableFeature>,
)
    ensures
        table_features::features_view(final(reader_features)@) == reader_with(
            table_features::features_view(old(reader_features)@),
            feature@,
        ),
        table_features::features_view(final(writer_features)@) == with_listed(
            table_features::features_view(old(writer_features)@),
            feature@,
        ),
{
    match feature.feature_type() {
        FeatureType::ReaderWriter => {
            push_new(reader_features, feature);
            push_new(writer_features, feature);
        },
        _ => {
            push_new(writer_features, feature);
        },
    }
}

/// Adding a feature twice is the same as adding it once.
pub proof fn adding_a_feature_is_idempotent(v: ValidatedView, f: FeatureView)
    ensures
        with_feature(with_feature(v, f), f) == with_feature(v, f),
{
    assert(v.writer.push(f).last() == f);
    assert(v.reader.push(f).last() == f);
}

/// Whether the lists of a protocol agree: each feature of the reader list is one that readers must
/// understand and is in the writer list too, and each such feature of the writer list is in the
/// reader list.
pub open spec fn lists_agree(v: ValidatedView) -> bool {
    actions::reader_list_valid(v.reader, v.writer) && actions::writer_list_valid(v.reader, v.writer)
}

/// Lists that agree still agree when a feature is added, so that they always make up a valid
/// protocol.
pub proof fn added_features_keep_lists_in_agreement(v: ValidatedView, f: FeatureView)
    requires
        lists_agree(v),
    ensures
        lists_agree(with_feature(v, f)),
        actions::protocol_fault(protocol_of(with_feature(v, f))) is None,
{
    let w = with_feature(v, f);
    assert(w.writer.contains(f)) by {
        if !v.writer.contains(f) {
            assert(w.writer[w.writer.len() - 1] == f);
        }
    }
    assert forall|g: FeatureView| v.writer.contains(g) implies w.writer.contains(g) by {
        let i = choose|i: int| 0 <= i < v.writer.len() && v.writer[i] == g;
        assert(w.writer[i] == g);
    }
    assert forall|g: FeatureView| v.reader.contains(g) implies w.reader.contains(g) by {
        let i = choose|i: int| 0 <= i < v.reader.len() && v.reader[i] == g;
        assert(w.reader[i] == g);
    }
    assert forall|i: int| 0 <= i < w.reader.len() implies table_features::feature_type_of(#[trigger] w.reader[i])
        != FeatureType::WriterOnly && w.writer.contains(w.reader[i]) by {
        if i < v.reader.len() {
            assert(w.reader[i] == v.reader[i]);
        }
    }
    assert forall|i: int|
        0 <= i < w.writer.len() && table_features::feature_type_of(#[trigger] w.writer[i])
            == FeatureType::ReaderWriter implies w.reader.contains(w.writer[i]) by {
        if i < v.writer.len() {
            assert(w.writer[i] == v.writer[i]);
        } else if table_features::feature_type_of(f) == FeatureType::ReaderWriter && !v.reader.contains(f) {
            assert(w.reader[w.reader.len() - 1] == f);
        }
    }
}

/// The protocol that the lists of a new table make up.
pub open spec fn protocol_of(v: ValidatedView) -> ProtocolView {
    ProtocolView {
        min_reader_version: 3,
        min_writer_version: 7,
        reader_features: Some(v.reader),
        writer_features: Some(v.writer),
    }
}

/// Whether a property only names a feature.
pub open spec fn is_signal(key: Seq<char>) -> bool {
    text::has_prefix(key, SET_TABLE_FEATURE_SUPPORTED_PREFIX@)
}

/// The name of the feature that a property names.
pub open spec fn signal_name(key: Seq<char>) -> Seq<char> {
    key.skip(SET_TABLE_FEATURE_SUPPORTED_PREFIX@.len() as int)
}

/// What is wrong with a property, as far as it names a feature.
pub open spec fn signal_fault(key: Seq<char>, value: Seq<char>) -> Option<ErrorView> {
    if !is_signal(key) {
        None
    } else if value != SET_TABLE_FEATURE_SUPPORTED_VALUE@ {
        Some(
            ErrorView::Generic(
                "Invalid value '"@ + value + "' for '"@ + key
                    + "'. Only 'supported' is allowed."@,
            ),
        )
    } else if !allowed_features().contains(table_features::feature_of_name(signal_name(key))) {
        Some(
            ErrorView::Generic(
                "Enabling feature '"@ + signal_name(key) + "' via '"@ + key
                    + "' is not supported during CREATE TABLE"@,
            ),
        )
    } else {
        None
    }
}

/// What is wrong with a property that does not name a feature.
pub open spec fn property_fault(key: Seq<char>) -> Option<ErrorView> {
    if !is_signal(key) && text::has_prefix(key, DELTA_PROPERTY_PREFIX@) && !property_allowed(key) {
        Some(
            ErrorView::Generic(
                "Setting delta property '"@ + key + "' is not supported during CREATE TABLE"@,
            ),
        )
    } else {
        None
    }
}

/// What is wrong with the properties of a new table: with one that names a feature, or else with
/// another one.
pub open spec fn properties_fault(m: Map<Seq<char>, Seq<char>>, keys: Seq<Seq<char>>) -> Option<
    ErrorView,
> {
    match log_validation::first_fault(|i: int| signal_fault(keys[i], m[keys[i]]), 0, keys.len() as int) {
        Some(e) => Some(e),
        None => log_validation::first_fault(|i: int| property_fault(keys[i]), 0, keys.len() as int),
    }
}

/// The properties that do not name features, and the features that the others name.
pub open spec fn extracted(m: Map<Seq<char>, Seq<char>>, keys: Seq<Seq<char>>) -> ValidatedView
    decreases keys.len(),
{
    if keys.len() == 0 {
        ValidatedView {
            properties: Map::empty(),
            keys: Seq::empty(),
            reader: Seq::empty(),
            writer: Seq::empty(),
        }
    } else {
        let front = extracted(m, keys.drop_last());
        let key = keys.last();
        if is_signal(key) {
            with_feature(front, table_features::feature_of_name(signal_name(key)))
        } else {
            ValidatedView {
                properties: front.properties.insert(key, m[key]),
                keys: front.keys.push(key),
                ..front
            }
        }
    }
}

/// The properties that are kept are those that do not name features.
proof fn lemma_extracted_keys(m: Map<Seq<char>, Seq<char>>, keys: Seq<Seq<char>>)
    ensures
        forall|k: Seq<char>|
            #[trigger] extracted(m, keys).properties.dom().contains(k) <==> keys.contains(k)
                && !is_signal(k),
        forall|k: Seq<char>|
            extracted(m, keys).properties.dom().contains(k) ==> #[trigger] extracted(
                m,
                keys,
            ).properties[k] == m[k],
        lists_agree(extracted(m, keys)),
    decreases keys.len(),
{
    if keys.len() > 0 {
        let front = keys.drop_last();
        lemma_extracted_keys(m, front);
        if is_signal(keys.last()) {
            added_features_keep_lists_in_agreement(
                extracted(m, front),
                table_features::feature_of_name(signal_name(keys.last())),
            );
        }
        assert forall|k: Seq<char>| #[trigger]
            extracted(m, keys).properties.dom().contains(k) <==> keys.contains(k)
                && !is_signal(k) by {
            if keys.contains(k) {
                let i = choose|i: int| 0 <= i < keys.len() && keys[i] == k;
                if i < front.len() {
                    assert(front[i] == k);
                }
            }
            if front.contains(k) {
                let i = choose|i: int| 0 <= i < front.len() && front[i] == k;
                assert(keys[i] == k);
            }
            if k == keys.last() {
                assert(keys[keys.len() - 1] == k);
            }
        }
    }
}

/// The properties of a new table that are kept are those that do not name features, with their
/// values, and the features that the others name make up a valid protocol.
pub proof fn extracted_properties_and_features(m: Map<Seq<char>, Seq<char>>, keys: Seq<Seq<char>>)
    ensures
        forall|k: Seq<char>|
            #[trigger] extracted(m, keys).properties.dom().contains(k) <==> keys.contains(k)
                && !is_signal(k),
        forall|k: Seq<char>|
            extracted(m, keys).properties.dom().contains(k) ==> #[trigger] extracted(
                m,
                keys,
            ).properties[k] == m[k],
        actions::protocol_fault(protocol_of(extracted(m, keys))) is None,
{
    lemma_extracted_keys(m, keys);
}

/// Checks the properties of a new table and takes out those that name features. Fails where a
/// feature is named that cannot be asked for, or where a property of the `delta.` family is set
/// that cannot be set.
pub fn validate_extract_table_features_and_properties(properties: StringMap<String>) -> (r:
    DeltaResult<ValidatedTableProperties>)
    ensures
        properties_fault(properties@, properties.keys()) is Some ==> error::failure(r)
            == properties_fault(properties@, properties.keys()),
        properties_fault(properties@, properties.keys()) is None ==> (r matches Ok(v) && v@
            == extracted(properties@, properties.keys())),
{
    let n: usize = properties.len();
    let ghost m = properties@;
    let ghost keys = properties.keys();
    let ghost signals = |i: int| signal_fault(keys[i], m[keys[i]]);
    let ghost others = |i: int| property_fault(keys[i]);
    let allowed = allowed_delta_features();
    let mut v = ValidatedTableProperties {
        properties: StringMap::new(),
        reader_features: Vec::new(),
        writer_features: Vec::new(),
    };
    let mut i: usize = 0;
    assert(keys.take(0) =~= Seq::<Seq<char>>::empty());
    assert(v@.reader =~= Seq::<FeatureView>::empty());
    assert(v@.writer =~= Seq::<FeatureView>::empty());
    assert(v@ == extracted(m, keys.take(0)));
    while i < n
        invariant
            i <= n == keys.len(),
            m == properties@,
            keys == properties.keys(),
            keys.no_duplicates(),
            table_features::features_view(allowed@) == allowed_features(),
            signals == |i: int| signal_fault(keys[i], m[keys[i]]),
            log_validation::first_fault(signals, 0, keys.len() as int) == log_validation::first_fault(
                signals,
                i as int,
                keys.len() as int,
            ),
            v@ == extracted(m, keys.take(i as int)),
        decreases n - i,
    {
        let ghost before = v@;
        assert(signals(i as int) == signal_fault(keys[i as int], m[keys[i as int]]));
        assert(keys.take(i + 1).drop_last() =~= keys.take(i as int));
        assert(keys.take(i + 1).last() == keys[i as int]);
        let key = properties.key_at(i);
        let value = properties.value_at(i);
        match strip_prefix(key.as_str(), SET_TABLE_FEATURE_SUPPORTED_PREFIX) {
            Some(name) => {
                if !same_text(value.as_str(), SET_TABLE_FEATURE_SUPPORTED_VALUE) {
                    return Err(
                        Error::Generic(
                            text5(
                                "Invalid value '",
                                value.as_str(),
                                "' for '",
                                key.as_str(),
                                "'. Only 'supported' is allowed.",
                            ),
                        ),
                    );
                }
                let feature = TableFeature::parse(name);
                if !contains_feature(&allowed, &feature) {
                    return Err(
                        Error::Generic(
                            text5(
                                "Enabling feature '",
                                name,
                                "' via '",
                                key.as_str(),
                                "' is not supported during CREATE TABLE",
                            ),
                        ),
                    );
                }
                add_feature_to_lists(&feature, &mut v.reader_features, &mut v.writer_features);
                assert(v@ == with_feature(before, feature@));
            },
            None => {
                proof {
                    lemma_extracted_keys(m, keys.take(i as int));
                    if keys.take(i as int).contains(key@) {
                        let j = choose|j: int|
                            0 <= j < i && keys.take(i as int)[j] == key@;
                        assert(keys[j] == keys[i as int]);
                    }
                }
                v.properties.insert(key.clone(), value.clone());
                assert(v@ == extracted(m, keys.take(i + 1)));
            },
        }
        i += 1;
    }
    assert(keys.take(i as int) =~= keys);
    let mut j: usize = 0;
    while j < n
        invariant
            j <= n == keys.len(),
            m == properties@,
            keys == properties.keys(),
            others == |i: int| property_fault(keys[i]),
            log_validation::first_fault(|i: int| signal_fault(keys[i], m[keys[i]]), 0, keys.len() as int) is None,
            log_validation::first_fault(others, 0, keys.len() as int) == log_validation::first_fault(
                others,
                j as int,
                keys.len() as int,
            ),
        decreases n - j,
    {
        assert(others(j as int) == property_fault(keys[j as int]));
        let key = properties.key_at(j);
        if !starts_with(key.as_str(), SET_TABLE_FEATURE_SUPPORTED_PREFIX) && starts_with(
            key.as_str(),
            DELTA_PROPERTY_PREFIX,
        ) && !is_allowed_property(key.as_str()) {
            return Err(
                Error::Generic(
                    text3(
                        "Setting delta property '",
                        key.as_str(),
                        "' is not supported during CREATE TABLE",
                    ),
                ),
            );
        }
        j += 1;
    }
    Ok(v)
}

/// The properties and features of a new table after the types in its schema have brought theirs.
pub open spec fn with_variant_feature(v: ValidatedView, s: Seq<FieldView>) -> ValidatedView {
    if schema_transform::fields_have(SpecialType::Variant, s) {
        with_feature(v, FeatureView::VariantType)
    } else {
        v
    }
}

/// Adds the feature for variants if the schema has one anywhere.
pub fn maybe_enable_variant_type(schema: &StructType, validated: &mut ValidatedTableProperties)
    ensures
        final(validated)@ == with_variant_feature(old(validated)@, schema@),
{
    if schema_contains_variant_type(schema) {
        add_feature_to_lists(
            &TableFeature::VariantType,
            &mut validated.reader_features,
            &mut validated.writer_features,
        );
    }
}

/// The properties and features of a new table after timestamps without time zone have brought
/// theirs.
pub open spec fn with_timestamp_ntz_feature(v: ValidatedView, s: Seq<FieldView>) -> ValidatedView {
    if schema_transform::fields_have(SpecialType::TimestampNtz, s) {
        with_feature(v, FeatureView::TimestampWithoutTimezone)
    } else {
        v
    }
}

/// Adds the feature for timestamps without time zone if the schema has one anywhere.
pub fn maybe_enable_timestamp_ntz(schema: &StructType, validated: &mut ValidatedTableProperties)
    ensures
        final(validated)@ == with_timestamp_ntz_feature(old(validated)@, schema@),
{
    if schema_contains_timestamp_ntz(schema) {
        add_feature_to_lists(
            &TableFeature::TimestampWithoutTimezone,
            &mut validated.reader_features,
            &mut validated.writer_features,
        );
    }
}

/// Whether the properties of a table enable a feature that has to be enabled.
pub open spec fn enabled_by_properties(f: FeatureView, m: Map<Seq<char>, Seq<char>>) -> bool {
    match table_features::enablement_of(f) {
        EnablementCheck::EnabledIf(check) => table_features::property_enables(check, table_properties::properties_of(m)),
        EnablementCheck::AlwaysIfSupported => false,
    }
}

/// The properties and features of a new table with those features of a list that the properties
/// enable.
pub open spec fn with_enabled_features(v: ValidatedView, s: Seq<FeatureView>) -> ValidatedView
    decreases s.len(),
{
    if s.len() == 0 {
        v
    } else {
        let front = with_enabled_features(v, s.drop_last());
        if enabled_by_properties(s.last(), v.properties) {
            with_feature(front, s.last())
        } else {
            front
        }
    }
}

/// Enabling features leaves the properties as they are.
proof fn lemma_enabled_features_keep_properties(v: ValidatedView, s: Seq<FeatureView>)
    ensures
        with_enabled_features(v, s).properties == v.properties,
        with_enabled_features(v, s).keys == v.keys,
    decreases s.len(),
{
    if s.len() > 0 {
        lemma_enabled_features_keep_properties(v, s.drop_last());
    }
}

/// Adds the features that can be asked for and that the properties enable.
pub fn maybe_auto_enable_property_driven_features(validated: &mut ValidatedTableProperties)
    ensures
        final(validated)@ == with_enabled_features(old(validated)@, allowed_features()),
{
    let table_properties = TableProperties::from(&validated.properties);
    let allowed = allowed_delta_features();
    let ghost v = validated@;
    let ghost s = allowed_features();
    let mut i: usize = 0;
    assert(s.take(0) =~= Seq::<FeatureView>::empty());
    while i < allowed.len()
        invariant
            i <= allowed@.len(),
            table_features::features_view(allowed@) == s,
            table_properties@ == table_properties::properties_of(v.properties),
            validated@ == with_enabled_features(v, s.take(i as int)),
        decreases allowed.len() - i,
    {
        assert(s[i as int] == allowed@[i as int]@);
        assert(s.take(i + 1).drop_last() =~= s.take(i as int));
        assert(s.take(i + 1).last() == s[i as int]);
        proof {
            lemma_enabled_features_keep_properties(v, s.take(i as int));
        }
        let enabled = match allowed[i].enablement_check() {
            EnablementCheck::EnabledIf(check) => check.passes(&table_properties),
            EnablementCheck::AlwaysIfSupported => false,
        };
        if enabled {
            add_feature_to_lists(
                &allowed[i],
                &mut validated.reader_features,
                &mut validated.writer_features,
            );
        }
        i += 1;
    }
    assert(s.take(i as int) =~= s);
}

/// The properties and features of a new table after a catalog-managed table has got in-commit
/// timestamps, or the error where a property rules them out.
pub open spec fn with_catalog_timestamps(v: ValidatedView) -> Result<ValidatedView, ErrorView> {
    if !v.writer.contains(FeatureView::CatalogManaged) {
        Ok(v)
    } else if v.properties.dom().contains(ENABLE_IN_COMMIT_TIMESTAMPS@)
        && v.properties[ENABLE_IN_COMMIT_TIMESTAMPS@] != "true"@ {
        Err(
            ErrorView::Generic(
                "Catalog-managed tables require 'delta.enableInCommitTimestamps=true', but it was explicitly set to '"@
                    + v.properties[ENABLE_IN_COMMIT_TIMESTAMPS@] + "'"@,
            ),
        )
    } else {
        let w = with_feature(v, FeatureView::InCommitTimestamp);
        if v.properties.dom().contains(ENABLE_IN_COMMIT_TIMESTAMPS@) {
            Ok(w)
        } else {
            Ok(
                ValidatedView {
                    properties: v.properties.insert(ENABLE_IN_COMMIT_TIMESTAMPS@, "true"@),
                    keys: v.keys.push(ENABLE_IN_COMMIT_TIMESTAMPS@),
                    ..w
                },
            )
        }
    }
}

/// Enables in-commit timestamps for a catalog-managed table. Fails where a property rules them out.
pub fn maybe_enable_ict_for_catalog_managed(validated: &mut ValidatedTableProperties) -> (r:
    DeltaResult<()>)
    ensures
        with_catalog_timestamps(old(validated)@) matches Ok(v) ==> r is Ok && final(validated)@
            == v,
        with_catalog_timestamps(old(validated)@) matches Err(e) ==> error::failure(r) == Some(e)
            && final(validated)@ == old(validated)@,
{
    if !contains_feature(&validated.writer_features, &TableFeature::CatalogManaged) {
        return Ok(());
    }
    let present = match validated.properties.get(ENABLE_IN_COMMIT_TIMESTAMPS) {
        Some(value) => {
            if !same_text(value.as_str(), "true") {
                return Err(
                    Error::Generic(
                        text3(
                            "Catalog-managed tables require 'delta.enableInCommitTimestamps=true', but it was explicitly set to '",
                            value.as_str(),
                            "'",
                        ),
                    ),
                );
            }
            true
        },
        None => false,
    };
    add_feature_to_lists(
        &TableFeature::InCommitTimestamp,
        &mut validated.reader_features,
        &mut validated.writer_features,
    );
    if !present {
        validated.properties.insert(ENABLE_IN_COMMIT_TIMESTAMPS.to_owned(), "true".to_owned());
    }
    Ok(())
}

/// A new catalog-managed table has in-commit timestamps, supported and enabled.
pub proof fn catalog_managed_tables_have_timestamps(v: ValidatedView)
    requires
        v.writer.contains(FeatureView::CatalogManaged),
    ensures
        with_catalog_timestamps(v) matches Ok(w) ==> w.writer.contains(
            FeatureView::InCommitTimestamp,
        ) && table_properties::properties_of(w.properties).enable_in_commit_timestamps == Some(true),
{
    if let Ok(w) = with_catalog_timestamps(v) {
        let f = FeatureView::InCommitTimestamp;
        if !v.writer.contains(f) {
            assert(w.writer[w.writer.len() - 1] == f);
        }
        assert(w.properties[ENABLE_IN_COMMIT_TIMESTAMPS@] == "true"@);
    }
}

/// What comes of column mapping for a new table, given the physical names.
pub struct MappingOutcome {
    pub schema: Seq<FieldView>,
    pub mode: ColumnMappingMode,
    pub validated: ValidatedView,
}

/// The schema of a new table with identifiers and physical names where the properties ask for them,
/// and the properties and features that go with them.
pub open spec fn mapping_applied(
    s: Seq<FieldView>,
    v: ValidatedView,
    names: Seq<Seq<char>>,
) -> Result<MappingOutcome, ErrorView> {
    match column_mapping::requested_mode(v.properties) {
        Err(e) => Err(e),
        Ok(mode) => if mode is NoMapping {
            Ok(MappingOutcome { schema: s, mode, validated: v })
        } else {
            match column_mapping::fields_assign_fault(s, true) {
                Some(e) => Err(e),
                None => match schema_transform::first_repeated(s) {
                    Some(n) => Err(schema_transform::duplicate_field(n)),
                    None => {
                        let w = with_feature(v, FeatureView::ColumnMapping);
                        Ok(
                            MappingOutcome {
                                schema: column_mapping::mapped_fields(s, 0, 0, names),
                                mode,
                                validated: ValidatedView {
                                    properties: w.properties.insert(
                                        COLUMN_MAPPING_MAX_COLUMN_ID@,
                                        text::decimal(column_mapping::field_count(s)),
                                    ),
                                    keys: column_mapping::keys_with(
                                        w.properties,
                                        w.keys,
                                        COLUMN_MAPPING_MAX_COLUMN_ID@,
                                    ),
                                    ..w
                                },
                            },
                        )
                    },
                },
            }
        },
    }
}

/// What column mapping leaves of the properties and features of a new table where it fails: they
/// are as they were if the mode is not known, and have the feature otherwise.
pub open spec fn mapping_refused(v: ValidatedView) -> ValidatedView {
    if column_mapping::requested_mode(v.properties) is Err {
        v
    } else {
        with_feature(v, FeatureView::ColumnMapping)
    }
}

/// Gives the columns of a new table identifiers and the given physical names where the properties
/// ask for it. Fails where the mode is not known, where a column has one of them already, or where
/// a name occurs twice in a struct.
pub fn apply_column_mapping(
    schema: &StructType,
    validated: &mut ValidatedTableProperties,
    names: &Vec<String>,
) -> (r: DeltaResult<(StructType, ColumnMappingMode)>)
    requires
        column_mapping::field_count(schema@) <= i64::MAX,
        column_mapping::field_count(schema@) <= names@.len(),
    ensures
        mapping_applied(schema@, old(validated)@, text::texts(names@)) matches Ok(o) ==> (r matches Ok((
            s,
            mode,
        )) && s@ == o.schema && mode == o.mode && final(validated)@ == o.validated),
        mapping_applied(schema@, old(validated)@, text::texts(names@)) matches Err(e) ==> error::failure(r)
            == Some(e) && final(validated)@ == mapping_refused(old(validated)@),
{
    let mode = match get_column_mapping_mode_from_properties(&validated.properties) {
        Ok(mode) => mode,
        Err(e) => {
            return Err(e);
        },
    };
    if let ColumnMappingMode::NoMapping = mode {
        return Ok((schema.clone(), mode));
    }
    add_feature_to_lists(
        &TableFeature::ColumnMapping,
        &mut validated.reader_features,
        &mut validated.writer_features,
    );
    let mut max_id: i64 = 0;
    let fields = match assign_to_fields(&schema.fields, &mut max_id, 0, names, true) {
        Ok(fields) => fields,
        Err(e) => {
            return Err(e);
        },
    };
    proof {
        column_mapping::lemma_mapped_names(schema@, 0, 0, text::texts(names@));
    }
    let mapped = match StructType::try_new(fields) {
        Ok(s) => s,
        Err(e) => {
            return Err(e);
        },
    };
    let text = signed_text(max_id);
    validated.properties.insert(COLUMN_MAPPING_MAX_COLUMN_ID.to_owned(), text);
    Ok((mapped, mode))
}

/// Gives the columns of a new table identifiers and random physical names where the properties ask
/// for it. Fails where the mode is not known, where a column has one of them already, or where a
/// name occurs twice in a struct.
pub fn maybe_apply_column_mapping_for_table_create(
    schema: &StructType,
    validated: &mut ValidatedTableProperties,
) -> (r: DeltaResult<(StructType, ColumnMappingMode)>)
    requires
        column_mapping::field_count(schema@) <= i64::MAX,
        column_mapping::field_count(schema@) <= usize::MAX,
    ensures
        exists|names: Seq<Seq<char>>|
            #![trigger column_mapping::all_uuids(names)]
            column_mapping::all_uuids(names) && names.len() == column_mapping::field_count(schema@) && match mapping_applied(
                schema@,
                old(validated)@,
                names,
            ) {
                Ok(o) => r matches Ok((s, mode)) && s@ == o.schema && mode == o.mode
                    && final(validated)@ == o.validated,
                Err(e) => error::failure(r) == Some(e) && final(validated)@ == mapping_refused(
                    old(validated)@,
                ),
            },
{
    let n: usize = match count_fields(&schema.fields) {
        Some(n) => n,
        None => unreached(),
    };
    let names = random_names(n);
    let r = apply_column_mapping(schema, validated, &names);
    assert(column_mapping::all_uuids(text::texts(names@)));
    r
}

/// What comes of the layout of a new table.
#[derive(Debug, PartialEq, Eq)]
pub struct DataLayoutResult {
    /// The domain metadata that the layout needs.
    pub system_domain_metadata: Vec<DomainMetadata>,
    /// The physical names of the clustering columns, where there are any.
    pub clustering_columns: Option<Vec<ColumnName>>,
    /// The logical names of the partition columns, where there are any.
    pub partition_columns: Option<Vec<ColumnName>>,
}

/// The mathematical value of a [`DataLayoutResult`].
pub struct LayoutResultView {
    pub domains: Seq<DomainMetadataView>,
    pub clustering: Option<Seq<Seq<Seq<char>>>>,
    pub partition: Option<Seq<Seq<Seq<char>>>>,
}

impl View for DataLayoutResult {
    type V = LayoutResultView;

    open spec fn view(&self) -> LayoutResultView {
        LayoutResultView {
            domains: actions::domains_view(self.system_domain_metadata@),
            clustering: expressions::opt_columns(self.clustering_columns),
            partition: expressions::opt_columns(self.partition_columns),
        }
    }
}

/// The physical names of columns, or the error for the first that is not in the schema.
pub open spec fn physical_columns(
    s: Seq<FieldView>,
    columns: Seq<Seq<Seq<char>>>,
    mode: ColumnMappingMode,
) -> Result<Seq<Seq<Seq<char>>>, ErrorView>
    decreases columns.len(),
{
    if columns.len() == 0 {
        Ok(Seq::empty())
    } else {
        match physical_columns(s, columns.drop_last(), mode) {
            Err(e) => Err(e),
            Ok(front) => match schema_transform::physical_column(s, columns.last(), mode) {
                Err(e) => Err(e),
                Ok(p) => Ok(front.push(p)),
            },
        }
    }
}

/// An error among the first columns is the error of all of them.
proof fn lemma_physical_columns_error(
    s: Seq<FieldView>,
    columns: Seq<Seq<Seq<char>>>,
    mode: ColumnMappingMode,
    n: int,
)
    requires
        0 <= n <= columns.len(),
        physical_columns(s, columns.take(n), mode) is Err,
    ensures
        physical_columns(s, columns, mode) == physical_columns(s, columns.take(n), mode),
    decreases columns.len(),
{
    if n == columns.len() {
        assert(columns.take(n) =~= columns);
    } else {
        assert(columns.drop_last().take(n) =~= columns.take(n));
        lemma_physical_columns_error(s, columns.drop_last(), mode, n);
    }
}

/// The physical names of columns. Fails where one of them is not in the schema.
fn resolve_columns(schema: &StructType, columns: &Vec<ColumnName>, mode: ColumnMappingMode) -> (r:
    DeltaResult<Vec<ColumnName>>)
    ensures
        physical_columns(schema@, expressions::columns_view(columns@), mode) matches Ok(p) ==> (r matches Ok(q)
            && expressions::columns_view(q@) == p),
        physical_columns(schema@, expressions::columns_view(columns@), mode) matches Err(e) ==> error::failure(r)
            == Some(e),
{
    let ghost c = expressions::columns_view(columns@);
    let mut out: Vec<ColumnName> = Vec::new();
    let mut i: usize = 0;
    assert(c.take(0) =~= Seq::<Seq<Seq<char>>>::empty());
    assert(expressions::columns_view(out@) =~= Seq::<Seq<Seq<char>>>::empty());
    while i < columns.len()
        invariant
            i <= columns@.len(),
            c == expressions::columns_view(columns@),
            physical_columns(schema@, c.take(i as int), mode) == Ok::<
                Seq<Seq<Seq<char>>>,
                ErrorView,
            >(expressions::columns_view(out@)),
        decreases columns.len() - i,
    {
        let ghost before = expressions::columns_view(out@);
        assert(c[i as int] == columns@[i as int]@);
        assert(c.take(i + 1).drop_last() =~= c.take(i as int));
        assert(c.take(i + 1).last() == c[i as int]);
        match get_any_level_column_physical_name(schema, &columns[i], mode) {
            Ok(p) => {
                out.push(p);
                assert(expressions::columns_view(out@) =~= before.push(p@));
            },
            Err(e) => {
                proof {
                    lemma_physical_columns_error(schema@, c, mode, i + 1);
                }
                return Err(e);
            },
        }
        i += 1;
    }
    assert(c.take(i as int) =~= c);
    Ok(out)
}

/// The properties and features of a new table with the features for clustering.
pub open spec fn with_clustering_features(v: ValidatedView) -> ValidatedView {
    with_feature(with_feature(v, FeatureView::DomainMetadata), FeatureView::ClusteredTable)
}

/// What comes of the layout of a new table, and its properties and features with it.
pub open spec fn layout_applied(
    layout: LayoutView,
    s: Seq<FieldView>,
    mode: ColumnMappingMode,
    v: ValidatedView,
) -> Result<(LayoutResultView, ValidatedView), ErrorView> {
    match layout {
        LayoutView::Unorganized => Ok(
            (
                LayoutResultView { domains: Seq::empty(), clustering: None, partition: None },
                v,
            ),
        ),
        LayoutView::Clustered { columns } => match data_layout::clustering_fault(s, columns) {
            Some(e) => Err(e),
            None => match physical_columns(s, columns, mode) {
                Err(e) => Err(e),
                Ok(physical) => Ok(
                    (
                        LayoutResultView {
                            domains: seq![data_layout::clustering_domain(physical)],
                            clustering: Some(physical),
                            partition: None,
                        },
                        with_clustering_features(v),
                    ),
                ),
            },
        },
        LayoutView::Partitioned { columns } => match data_layout::partition_fault(s, columns) {
            Some(e) => Err(e),
            None => Ok(
                (
                    LayoutResultView {
                        domains: Seq::empty(),
                        clustering: None,
                        partition: Some(columns),
                    },
                    v,
                ),
            ),
        },
    }
}

/// Applies the layout of a new table: checks its columns, and for clustering resolves their
/// physical names, adds the features that clustering needs and makes its domain metadata.
pub fn apply_data_layout(
    data_layout: &DataLayout,
    effective_schema: &StructType,
    column_mapping_mode: ColumnMappingMode,
    validated: &mut ValidatedTableProperties,
) -> (r: DeltaResult<DataLayoutResult>)
    ensures
        layout_applied(
            data_layout@,
            effective_schema@,
            column_mapping_mode,
            old(validated)@,
        ) matches Ok((l, v)) ==> (r matches Ok(m) && m@ == l && final(validated)@ == v),
        layout_applied(
            data_layout@,
            effective_schema@,
            column_mapping_mode,
            old(validated)@,
        ) matches Err(e) ==> error::failure(r) == Some(e) && final(validated)@ == old(validated)@,
{
    let none: Vec<DomainMetadata> = Vec::new();
    assert(actions::domains_view(none@) =~= Seq::<DomainMetadataView>::empty());
    match data_layout {
        DataLayout::Unorganized => Ok(
            DataLayoutResult {
                system_domain_metadata: none,
                clustering_columns: None,
                partition_columns: None,
            },
        ),
        DataLayout::Clustered { columns } => {
            match validate_clustering_columns(effective_schema, columns) {
                Ok(_) => {},
                Err(e) => {
                    return Err(e);
                },
            }
            let physical = match resolve_columns(effective_schema, columns, column_mapping_mode) {
                Ok(p) => p,
                Err(e) => {
                    return Err(e);
                },
            };
            add_feature_to_lists(
                &TableFeature::DomainMetadata,
                &mut validated.reader_features,
                &mut validated.writer_features,
            );
            add_feature_to_lists(
                &TableFeature::ClusteredTable,
                &mut validated.reader_features,
                &mut validated.writer_features,
            );
            let domain = create_clustering_domain_metadata(&physical);
            let ghost d = domain@;
            let domains = vec![domain];
            assert(actions::domains_view(domains@) =~= seq![d]);
            Ok(
                DataLayoutResult {
                    system_domain_metadata: domains,
                    clustering_columns: Some(physical),
                    partition_columns: None,
                },
            )
        },
        DataLayout::Partitioned { columns } => {
            match validate_partition_columns(effective_schema, columns) {
                Ok(_) => {},
                Err(e) => {
                    return Err(e);
                },
            }
            Ok(
                DataLayoutResult {
                    system_domain_metadata: none,
                    clustering_columns: None,
                    partition_columns: Some(clone_columns(columns)),
                },
            )
        },
    }
}

/// Sets up clustering by logical column names: checks the columns, adds the features that
/// clustering needs and makes its domain metadata. Where a column is refused, no feature is added.
pub fn apply_clustering_for_table_create(
    logical_schema: &StructType,
    logical_columns: &Vec<ColumnName>,
    reader_features: &mut Vec<TableFeature>,
    writer_features: &mut Vec<TableFeature>,
) -> (r: DeltaResult<DomainMetadata>)
    ensures
        data_layout::clustering_fault(logical_schema@, expressions::columns_view(logical_columns@)) is Some
            ==> error::failure(r) == data_layout::clustering_fault(
            logical_schema@,
            expressions::columns_view(logical_columns@),
        ) && table_features::features_view(final(reader_features)@) == table_features::features_view(
            old(reader_features)@,
        ) && table_features::features_view(final(writer_features)@) == table_features::features_view(
            old(writer_features)@,
        ),
        data_layout::clustering_fault(logical_schema@, expressions::columns_view(logical_columns@)) is None ==> (r matches Ok(
            d,
        ) && d@ == data_layout::clustering_domain(expressions::columns_view(logical_columns@)) && table_features::features_view(
            final(reader_features)@,
        ) == table_features::features_view(old(reader_features)@) && table_features::features_view(final(writer_features)@)
            == with_listed(
            with_listed(table_features::features_view(old(writer_features)@), FeatureView::DomainMetadata),
            FeatureView::ClusteredTable,
        )),
{
    match validate_clustering_columns(logical_schema, logical_columns) {
        Ok(_) => {},
        Err(e) => {
            return Err(e);
        },
    }
    add_feature_to_lists(&TableFeature::DomainMetadata, reader_features, writer_features);
    add_feature_to_lists(&TableFeature::ClusteredTable, reader_features, writer_features);
    Ok(create_clustering_domain_metadata(logical_columns))
}

} // verus!
