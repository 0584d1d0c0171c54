//! The configuration of a table at a version: what its protocol, metadata and schema say together.
use vstd::prelude::*;

use crate::actions::{Metadata, MetadataView, Protocol, ProtocolView};
use crate::error::{self, DeltaResult, Error, ErrorView};
use crate::expressions::{self, ColumnName};
use crate::log_segment;
use crate::log_validation;
use crate::schema::{self, FieldView, StructField, StructType};
use crate::schema_transform::{
    self, get_any_level_column_physical_name, schema_contains_timestamp_ntz,
    schema_contains_variant_type, schema_has_invariants, strip_metadata, SpecialType,
};
use crate::stats_schema::{
    self, expected_stats_schema, stats_column_names, StatsConfig, StatsConfigView,
};
use crate::table_features::{
    self, clone_features, contains_feature, ColumnMappingMode, EnablementCheck, FeatureRequirement,
    FeatureType, FeatureView, KernelSupport, Operation, RequirementView, TableFeature,
    MAX_VALID_READER_VERSION, MAX_VALID_WRITER_VERSION, MIN_VALID_RW_VERSION,
    TABLE_FEATURES_MIN_READER_VERSION, TABLE_FEATURES_MIN_WRITER_VERSION,
};
use crate::table_properties::{self, TableProperties, TablePropertiesView};
use crate::text::{self, contains_text, signed_text, text2, text3, text5};
use crate::Version;

verus! {

/// Whether in-commit timestamps are enabled, and since when.
#[derive(Debug, Clone, Copy, PartialEq, Eq)]
pub enum InCommitTimestampEnablement {
    NotEnabled,
    /// Enabled from a version and a timestamp on, or from the beginning where there is neither.
    Enabled { enablement: Option<(Version, i64)> },
}

/// The configuration of a table at a version.
#[derive(Debug, PartialEq, Eq)]
pub struct TableConfiguration {
    pub metadata: Metadata,
    pub protocol: Protocol,
    /// The schema with the names that the user sees.
    pub logical_schema: StructType,
    /// The schema with the names in data files.
    pub physical_schema: StructType,
    pub table_properties: TableProperties,
    pub column_mapping_mode: ColumnMappingMode,
    /// The URL of the table.
    pub table_root: String,
    pub version: Version,
}

/// The mathematical value of a [`TableConfiguration`].
pub struct ConfigView {
    pub metadata: MetadataView,
    pub protocol: ProtocolView,
    pub logical: Seq<FieldView>,
    pub physical: Seq<FieldView>,
    pub properties: TablePropertiesView,
    pub mode: ColumnMappingMode,
    pub table_root: Seq<char>,
    pub version: Version,
}

impl View for TableConfiguration {
    type V = ConfigView;

    open spec fn view(&self) -> ConfigView {
        ConfigView {
            metadata: self.metadata@,
            protocol: self.protocol@,
            logical: self.logical_schema@,
            physical: self.physical_schema@,
            properties: self.table_properties@,
            mode: self.column_mapping_mode,
            table_root: self.table_root@,
            version: self.version,
        }
    }
}

impl Clone for TableConfiguration {
    fn clone(&self) -> (r: TableConfiguration)
        ensures
            r@ == self@,
    {
        TableConfiguration {
            metadata: self.metadata.clone(),
            protocol: self.protocol.clone(),
            logical_schema: self.logical_schema.clone(),
            physical_schema: self.physical_schema.clone(),
            table_properties: self.table_properties.clone(),
            column_mapping_mode: self.column_mapping_mode,
            table_root: self.table_root.clone(),
            version: self.version,
        }
    }
}

/// Whether a protocol lists a feature for writers.
pub open spec fn writer_lists(p: ProtocolView, f: FeatureView) -> bool {
    p.writer_features matches Some(w) && w.contains(f)
}

/// Whether a protocol lists a feature for readers.
pub open spec fn reader_lists(p: ProtocolView, f: FeatureView) -> bool {
    p.reader_features matches Some(r) && r.contains(f)
}

/// Whether readers have to understand a feature: because their version includes it, or because
/// it is listed.
pub open spec fn reader_supports(p: ProtocolView, f: FeatureView) -> bool {
    if p.min_reader_version < TABLE_FEATURES_MIN_READER_VERSION {
        p.min_reader_version >= (match table_features::legacy_versions_of(f) {
            Some(v) => v.0,
            None => TABLE_FEATURES_MIN_READER_VERSION,
        })
    } else {
        reader_lists(p, f)
    }
}

/// Whether writers have to understand a feature: because their version includes it, or because it
/// is listed.
pub open spec fn writer_supports(p: ProtocolView, f: FeatureView) -> bool {
    if p.min_writer_version < TABLE_FEATURES_MIN_WRITER_VERSION {
        p.min_writer_version >= (match table_features::legacy_versions_of(f) {
            Some(v) => v.1,
            None => TABLE_FEATURES_MIN_WRITER_VERSION,
        })
    } else {
        writer_lists(p, f)
    }
}

/// Whether a protocol supports a feature.
pub open spec fn feature_supported(p: ProtocolView, f: FeatureView) -> bool {
    match table_features::feature_type_of(f) {
        FeatureType::WriterOnly => writer_supports(p, f),
        FeatureType::ReaderWriter => reader_supports(p, f) && writer_supports(p, f),
        FeatureType::Unknown => writer_lists(p, f),
    }
}

/// Whether a feature is enabled: the protocol supports it, and the properties enable it where that
/// is needed.
pub open spec fn feature_enabled(
    p: ProtocolView,
    properties: TablePropertiesView,
    f: FeatureView,
) -> bool {
    feature_supported(p, f) && match table_features::enablement_of(f) {
        EnablementCheck::AlwaysIfSupported => true,
        EnablementCheck::EnabledIf(check) => table_features::property_enables(check, properties),
    }
}

/// A feature that is enabled is supported.
pub proof fn enabled_features_are_supported(
    p: ProtocolView,
    properties: TablePropertiesView,
    f: FeatureView,
)
    ensures
        feature_enabled(p, properties, f) ==> feature_supported(p, f),
{
}

/// Row tracking is never enabled while it is suspended, though it can be supported.
pub proof fn suspended_row_tracking_is_not_enabled(p: ProtocolView, properties: TablePropertiesView)
    requires
        properties.row_tracking_suspended == Some(true),
    ensures
        !feature_enabled(p, properties, FeatureView::RowTracking),
{
}

/// How columns are mapped: as the properties say, where the protocol allows it.
pub open spec fn mapping_mode_of(
    p: ProtocolView,
    properties: TablePropertiesView,
) -> ColumnMappingMode {
    match properties.column_mapping_mode {
        Some(mode) => if p.min_reader_version == 2 || p.min_reader_version == 3 && writer_lists(
            p,
            FeatureView::ColumnMapping,
        ) {
            mode
        } else {
            ColumnMappingMode::NoMapping
        },
        None => ColumnMappingMode::NoMapping,
    }
}

/// How columns are mapped.
pub fn column_mapping_mode(protocol: &Protocol, properties: &TableProperties) -> (r:
    ColumnMappingMode)
    ensures
        r == mapping_mode_of(protocol@, properties@),
{
    match properties.column_mapping_mode {
        Some(mode) => if protocol.min_reader_version == 2 || protocol.min_reader_version == 3
            && protocol.has_table_feature(&TableFeature::ColumnMapping) {
            mode
        } else {
            ColumnMappingMode::NoMapping
        },
        None => ColumnMappingMode::NoMapping,
    }
}

/// The error for a type that needs a feature.
pub open spec fn missing_feature_error(kind: Seq<char>, feature: Seq<char>) -> ErrorView {
    ErrorView::Unsupported(
        "Table contains "@ + kind + " columns but does not have the required '"@ + feature
            + "' feature in reader and writer features"@,
    )
}

/// What is wrong with the types of a schema under a protocol.
pub open spec fn schema_feature_fault(p: ProtocolView, s: Seq<FieldView>) -> Option<ErrorView> {
    if schema_transform::fields_have(SpecialType::TimestampNtz, s) && !feature_supported(
        p,
        FeatureView::TimestampWithoutTimezone,
    ) {
        Some(missing_feature_error("TIMESTAMP_NTZ"@, "timestampNtz"@))
    } else if schema_transform::fields_have(SpecialType::Variant, s) && !feature_supported(
        p,
        FeatureView::VariantType,
    ) && !feature_supported(p, FeatureView::VariantTypePreview) {
        Some(missing_feature_error("VARIANT"@, "variantType"@))
    } else {
        None
    }
}

/// The configuration that metadata, schema and protocol make up.
pub open spec fn config_of(
    metadata: MetadataView,
    logical: Seq<FieldView>,
    protocol: ProtocolView,
    table_root: Seq<char>,
    version: Version,
) -> ConfigView {
    let properties = table_properties::properties_of(metadata.configuration);
    let mode = mapping_mode_of(protocol, properties);
    ConfigView {
        metadata,
        protocol,
        logical,
        physical: schema_transform::physical_schema_of(logical, mode),
        properties,
        mode,
        table_root,
        version,
    }
}

/// Why metadata, schema and protocol do not make up a configuration.
pub open spec fn config_fault(
    metadata: MetadataView,
    logical: Seq<FieldView>,
    protocol: ProtocolView,
) -> Option<ErrorView> {
    let mode = mapping_mode_of(protocol, table_properties::properties_of(metadata.configuration));
    match schema_transform::physical_schema_fault(logical, mode) {
        Some(e) => Some(e),
        None => schema_feature_fault(protocol, logical),
    }
}

/// Whether a configuration is one that metadata, schema and protocol make up without fault.
pub open spec fn config_valid(c: ConfigView) -> bool {
    config_fault(c.metadata, c.logical, c.protocol) is None && c == config_of(
        c.metadata,
        c.logical,
        c.protocol,
        c.table_root,
        c.version,
    )
}

/// The configuration after a commit that brought a new protocol or new metadata with their schema,
/// or neither.
pub open spec fn config_after(
    c: ConfigView,
    metadata: Option<(MetadataView, Seq<FieldView>)>,
    protocol: Option<ProtocolView>,
    version: Version,
) -> Result<ConfigView, ErrorView> {
    if metadata is None && protocol is None {
        Ok(ConfigView { version, ..c })
    } else {
        let m = match metadata {
            Some((m, _)) => m,
            None => c.metadata,
        };
        let s = match metadata {
            Some((_, s)) => s,
            None => c.logical,
        };
        let p = match protocol {
            Some(p) => p,
            None => c.protocol,
        };
        match config_fault(m, s, p) {
            Some(e) => Err(e),
            None => Ok(config_of(m, s, p, c.table_root, version)),
        }
    }
}

/// The configuration after a commit is valid where the one before it is, and is that of the version
/// of the commit.
pub proof fn configuration_stays_valid(
    c: ConfigView,
    metadata: Option<(MetadataView, Seq<FieldView>)>,
    protocol: Option<ProtocolView>,
    version: Version,
)
    requires
        config_valid(c),
    ensures
        config_after(c, metadata, protocol, version) matches Ok(d) ==> config_valid(d) && d.version
            == version && d.table_root == c.table_root,
{
}

/// The value of optional metadata with their schema.
pub open spec fn opt_metadata(m: Option<(Metadata, StructType)>) -> Option<
    (MetadataView, Seq<FieldView>),
> {
    match m {
        Some((m, s)) => Some((m@, s@)),
        None => None,
    }
}

/// The value of an optional protocol.
pub open spec fn opt_protocol(p: Option<Protocol>) -> Option<ProtocolView> {
    match p {
        Some(p) => Some(p@),
        None => None,
    }
}

impl TableConfiguration {
    /// The configuration that metadata, the schema that they hold and a protocol make up. Fails
    /// where a field lacks an annotation that column mapping needs, or where a type in the schema
    /// needs a feature that the protocol does not support.
    pub fn try_new(
        metadata: Metadata,
        logical_schema: StructType,
        protocol: Protocol,
        table_root: String,
        version: Version,
    ) -> (r: DeltaResult<TableConfiguration>)
        ensures
            config_fault(metadata@, logical_schema@, protocol@) is Some ==> error::failure(r)
                == config_fault(metadata@, logical_schema@, protocol@),
            config_fault(metadata@, logical_schema@, protocol@) is None ==> (r matches Ok(c) && c@
                == config_of(metadata@, logical_schema@, protocol@, table_root@, version)
                && config_valid(c@)),
    {
        let table_properties = metadata.parse_table_properties();
        let mode = column_mapping_mode(&protocol, &table_properties);
        let physical_schema = match logical_schema.make_physical(mode) {
            Ok(s) => s,
            Err(e) => {
                return Err(e);
            },
        };
        let config = TableConfiguration {
            metadata,
            protocol,
            logical_schema,
            physical_schema,
            table_properties,
            column_mapping_mode: mode,
            table_root,
            version,
        };
        if schema_contains_timestamp_ntz(&config.logical_schema) && !config.is_feature_supported(
            &TableFeature::TimestampWithoutTimezone,
        ) {
            return Err(
                Error::Unsupported(
                    text5(
                        "Table contains ",
                        "TIMESTAMP_NTZ",
                        " columns but does not have the required '",
                        "timestampNtz",
                        "' feature in reader and writer features",
                    ),
                ),
            );
        }
        if schema_contains_variant_type(&config.logical_schema) && !config.is_feature_supported(
            &TableFeature::VariantType,
        ) && !config.is_feature_supported(&TableFeature::VariantTypePreview) {
            return Err(
                Error::Unsupported(
                    text5(
                        "Table contains ",
                        "VARIANT",
                        " columns but does not have the required '",
                        "variantType",
                        "' feature in reader and writer features",
                    ),
                ),
            );
        }
        Ok(config)
    }

    /// The configuration with new metadata and their schema, a new protocol, or neither.
    pub fn try_new_from(
        table_configuration: &TableConfiguration,
        new_metadata: Option<(Metadata, StructType)>,
        new_protocol: Option<Protocol>,
        new_version: Version,
    ) -> (r: DeltaResult<TableConfiguration>)
        ensures
            config_after(
                table_configuration@,
                opt_metadata(new_metadata),
                opt_protocol(new_protocol),
                new_version,
            ) matches Ok(c) ==> (r matches Ok(d) && d@ == c),
            config_after(
                table_configuration@,
                opt_metadata(new_metadata),
                opt_protocol(new_protocol),
                new_version,
            ) matches Err(e) ==> error::failure(r) == Some(e),
    {
        if new_metadata.is_none() && new_protocol.is_none() {
            let mut config = table_configuration.clone();
            config.version = new_version;
            return Ok(config);
        }
        let (metadata, schema) = match new_metadata {
            Some((m, s)) => (m, s),
            None => (
                table_configuration.metadata.clone(),
                table_configuration.logical_schema.clone(),
            ),
        };
        let protocol = match new_protocol {
            Some(p) => p,
            None => table_configuration.protocol.clone(),
        };
        TableConfiguration::try_new(
            metadata,
            schema,
            protocol,
            table_configuration.table_root.clone(),
            new_version,
        )
    }

    /// The configuration right after a commit, which may have brought new metadata with their
    /// schema or a new protocol.
    pub fn new_post_commit(
        table_configuration: &TableConfiguration,
        new_version: Version,
        new_metadata: Option<(Metadata, StructType)>,
        new_protocol: Option<Protocol>,
    ) -> (r: DeltaResult<TableConfiguration>)
        ensures
            config_after(
                table_configuration@,
                opt_metadata(new_metadata),
                opt_protocol(new_protocol),
                new_version,
            ) matches Ok(c) ==> (r matches Ok(d) && d@ == c),
            config_after(
                table_configuration@,
                opt_metadata(new_metadata),
                opt_protocol(new_protocol),
                new_version,
            ) matches Err(e) ==> error::failure(r) == Some(e),
    {
        TableConfiguration::try_new_from(
            table_configuration,
            new_metadata,
            new_protocol,
            new_version,
        )
    }

    /// Whether the protocol uses a reader version that does not list features.
    fn is_legacy_reader_version(&self) -> (r: bool)
        ensures
            r == (self@.protocol.min_reader_version < TABLE_FEATURES_MIN_READER_VERSION),
    {
        self.protocol.min_reader_version < TABLE_FEATURES_MIN_READER_VERSION
    }

    /// Whether the protocol uses a writer version that does not list features.
    fn is_legacy_writer_version(&self) -> (r: bool)
        ensures
            r == (self@.protocol.min_writer_version < TABLE_FEATURES_MIN_WRITER_VERSION),
    {
        self.protocol.min_writer_version < TABLE_FEATURES_MIN_WRITER_VERSION
    }

    /// Whether a list of features is there and has a feature.
    fn has_feature(features: &Option<Vec<TableFeature>>, feature: &TableFeature) -> (r: bool)
        ensures
            r == (table_features::opt_features(*features) matches Some(l) && l.contains(feature@)),
    {
        match features {
            Some(list) => contains_feature(list, feature),
            None => false,
        }
    }

    /// Whether the protocol supports a feature, whatever the table properties say.
    pub fn is_feature_supported(&self, feature: &TableFeature) -> (r: bool)
        ensures
            r == feature_supported(self@.protocol, feature@),
    {
        let (min_reader_version, min_writer_version): (i32, i32) =
            match feature.min_legacy_version() {
            Some(v) => v,
            None => (TABLE_FEATURES_MIN_READER_VERSION, TABLE_FEATURES_MIN_WRITER_VERSION),
        };
        match feature.feature_type() {
            FeatureType::WriterOnly => {
                if self.is_legacy_writer_version() {
                    self.protocol.min_writer_version >= min_writer_version
                } else {
                    TableConfiguration::has_feature(&self.protocol.writer_features, feature)
                }
            },
            FeatureType::ReaderWriter => {
                let reader_supported = if self.is_legacy_reader_version() {
                    self.protocol.min_reader_version >= min_reader_version
                } else {
                    TableConfiguration::has_feature(&self.protocol.reader_features, feature)
                };
                let writer_supported = if self.is_legacy_writer_version() {
                    self.protocol.min_writer_version >= min_writer_version
                } else {
                    TableConfiguration::has_feature(&self.protocol.writer_features, feature)
                };
                reader_supported && writer_supported
            },
            FeatureType::Unknown => TableConfiguration::has_feature(
                &self.protocol.writer_features,
                feature,
            ),
        }
    }

    /// Whether a feature is supported and, where that is needed, enabled by the table properties.
    pub fn is_feature_enabled(&self, feature: &TableFeature) -> (r: bool)
        ensures
            r == feature_enabled(self@.protocol, self@.properties, feature@),
    {
        if !self.is_feature_supported(feature) {
            return false;
        }
        match feature.enablement_check() {
            EnablementCheck::AlwaysIfSupported => true,
            EnablementCheck::EnabledIf(check) => check.passes(&self.table_properties),
        }
    }

    /// Whether a catalog manages the table.
    pub fn is_catalog_managed(&self) -> (r: bool)
        ensures
            r == catalog_managed(self@.protocol),
    {
        self.is_feature_supported(&TableFeature::CatalogManaged) || self.is_feature_supported(
            &TableFeature::CatalogOwnedPreview,
        )
    }

    /// Whether row tracking is suspended.
    pub fn is_row_tracking_suspended(&self) -> (r: bool)
        ensures
            r == (self@.properties.row_tracking_suspended == Some(true)),
    {
        match self.table_properties.row_tracking_suspended {
            Some(b) => b,
            None => false,
        }
    }

    /// Whether commits carry what row tracking needs.
    pub fn should_write_row_tracking(&self) -> (r: bool)
        ensures
            r == writes_row_tracking(self@),
    {
        self.is_feature_supported(&TableFeature::RowTracking) && !self.is_row_tracking_suspended()
    }

    /// Whether in-commit timestamps are enabled, and since when. Fails where only one of the two
    /// properties that say so is there.
    pub fn in_commit_timestamp_enablement(&self) -> (r: DeltaResult<InCommitTimestampEnablement>)
        ensures
            error::outcome(r) == ict_enablement(self@),
    {
        if !self.is_feature_enabled(&TableFeature::InCommitTimestamp) {
            return Ok(InCommitTimestampEnablement::NotEnabled);
        }
        match (
            self.table_properties.in_commit_timestamp_enablement_version,
            self.table_properties.in_commit_timestamp_enablement_timestamp,
        ) {
            (Some(version), Some(timestamp)) => Ok(
                InCommitTimestampEnablement::Enabled { enablement: Some((version, timestamp)) },
            ),
            (Some(_), None) => Err(
                Error::generic("In-commit timestamp enabled, but enablement timestamp is missing"),
            ),
            (None, Some(_)) => Err(
                Error::generic("In-commit timestamp enabled, but enablement version is missing"),
            ),
            (None, None) => Ok(InCommitTimestampEnablement::Enabled { enablement: None }),
        }
    }
}

/// Whether a catalog manages a table with the given protocol.
pub open spec fn catalog_managed(p: ProtocolView) -> bool {
    feature_supported(p, FeatureView::CatalogManaged) || feature_supported(
        p,
        FeatureView::CatalogOwnedPreview,
    )
}

/// Whether commits carry what row tracking needs.
pub open spec fn writes_row_tracking(c: ConfigView) -> bool {
    feature_supported(c.protocol, FeatureView::RowTracking) && c.properties.row_tracking_suspended
        != Some(true)
}

/// Whether in-commit timestamps are enabled, and since when.
pub open spec fn ict_enablement(c: ConfigView) -> Result<InCommitTimestampEnablement, ErrorView> {
    if !feature_enabled(c.protocol, c.properties, FeatureView::InCommitTimestamp) {
        Ok(InCommitTimestampEnablement::NotEnabled)
    } else {
        match (
            c.properties.in_commit_timestamp_enablement_version,
            c.properties.in_commit_timestamp_enablement_timestamp,
        ) {
            (Some(version), Some(timestamp)) => Ok(
                InCommitTimestampEnablement::Enabled { enablement: Some((version, timestamp)) },
            ),
            (Some(_), None) => Err(
                ErrorView::Generic(
                    "In-commit timestamp enabled, but enablement timestamp is missing"@,
                ),
            ),
            (None, Some(_)) => Err(
                ErrorView::Generic(
                    "In-commit timestamp enabled, but enablement version is missing"@,
                ),
            ),
            (None, None) => Ok(InCommitTimestampEnablement::Enabled { enablement: None }),
        }
    }
}

/// What is wrong with a requirement of a feature.
pub open spec fn requirement_fault(
    c: ConfigView,
    f: FeatureView,
    requirement: RequirementView,
) -> Option<ErrorView> {
    match requirement {
        RequirementView::Supported(d) => if feature_supported(c.protocol, d) {
            None
        } else {
            Some(requirement_error(f, d, "' to be supported"@))
        },
        RequirementView::Enabled(d) => if feature_enabled(c.protocol, c.properties, d) {
            None
        } else {
            Some(requirement_error(f, d, "' to be enabled"@))
        },
        RequirementView::NotSupported(d) => if !feature_supported(c.protocol, d) {
            None
        } else {
            Some(requirement_error(f, d, "' to not be supported"@))
        },
        RequirementView::NotEnabled(d) => if !feature_enabled(c.protocol, c.properties, d) {
            None
        } else {
            Some(requirement_error(f, d, "' to not be enabled"@))
        },
    }
}

/// The error for a requirement that is not met.
pub open spec fn requirement_error(f: FeatureView, d: FeatureView, what: Seq<char>) -> ErrorView {
    ErrorView::InvalidProtocol(
        "Feature '"@ + table_features::feature_name(f) + "' requires '"@ + table_features::feature_name(d) + what,
    )
}

/// The first requirement of a feature that is not met.
pub open spec fn requirements_fault(c: ConfigView, f: FeatureView) -> Option<ErrorView> {
    let all = table_features::requirements_of(f);
    log_validation::first_fault(|i: int| requirement_fault(c, f, all[i]), 0, all.len() as int)
}

/// Why a feature stands in the way of an operation.
pub open spec fn feature_fault(c: ConfigView, f: FeatureView, operation: Operation) -> Option<
    ErrorView,
> {
    match table_features::kernel_support_of(f) {
        KernelSupport::Supported => requirements_fault(c, f),
        KernelSupport::NotSupported => Some(
            ErrorView::Unsupported("Feature '"@ + table_features::feature_name(f) + "' is not supported"@),
        ),
        KernelSupport::ReadOnly => if operation is Write {
            Some(
                ErrorView::Unsupported(
                    "Feature '"@ + table_features::feature_name(f) + "' is not supported for writes"@,
                ),
            )
        } else {
            requirements_fault(c, f)
        },
    }
}

/// The features that reader versions without a feature list can include.
pub open spec fn legacy_reader_features() -> Seq<FeatureView> {
    seq![FeatureView::ColumnMapping]
}

/// The features that writer versions without a feature list can include.
pub open spec fn legacy_writer_features() -> Seq<FeatureView> {
    seq![
        FeatureView::AppendOnly,
        FeatureView::Invariants,
        FeatureView::CheckConstraints,
        FeatureView::ChangeDataFeed,
        FeatureView::GeneratedColumns,
        FeatureView::ColumnMapping,
        FeatureView::IdentityColumns,
    ]
}

/// Those features that a reader version or a writer version includes.
pub open spec fn included_features(s: Seq<FeatureView>, version: i32, writer: bool) -> Seq<
    FeatureView,
>
    decreases s.len(),
{
    if s.len() == 0 {
        Seq::empty()
    } else {
        let front = included_features(s.drop_last(), version, writer);
        match table_features::legacy_versions_of(s.last()) {
            Some((r, w)) => if version >= (if writer {
                w
            } else {
                r
            }) {
                front.push(s.last())
            } else {
                front
            },
            None => front,
        }
    }
}

/// The features that a reader of a table has to understand.
pub open spec fn enabled_reader_features(p: ProtocolView) -> Seq<FeatureView> {
    if p.min_reader_version == TABLE_FEATURES_MIN_READER_VERSION {
        match p.reader_features {
            Some(r) => r,
            None => Seq::empty(),
        }
    } else if 1 <= p.min_reader_version <= 2 {
        included_features(legacy_reader_features(), p.min_reader_version, false)
    } else {
        Seq::empty()
    }
}

/// The features that a writer of a table has to understand.
pub open spec fn enabled_writer_features(p: ProtocolView) -> Seq<FeatureView> {
    if p.min_writer_version == TABLE_FEATURES_MIN_WRITER_VERSION {
        match p.writer_features {
            Some(w) => w,
            None => Seq::empty(),
        }
    } else if 1 <= p.min_writer_version <= 6 {
        included_features(legacy_writer_features(), p.min_writer_version, true)
    } else {
        Seq::empty()
    }
}

/// The first feature of a list that stands in the way of an operation.
pub open spec fn features_fault(c: ConfigView, s: Seq<FeatureView>, operation: Operation) -> Option<
    ErrorView,
> {
    log_validation::first_fault(|i: int| feature_fault(c, s[i], operation), 0, s.len() as int)
}

/// Why a table cannot be read.
pub open spec fn read_fault(c: ConfigView, operation: Operation) -> Option<ErrorView> {
    if c.protocol.min_reader_version < MIN_VALID_RW_VERSION {
        Some(
            ErrorView::InvalidProtocol(
                "min_reader_version must be >= 1, got "@ + text::signed_decimal(
                    c.protocol.min_reader_version as int,
                ),
            ),
        )
    } else if c.protocol.min_reader_version > MAX_VALID_READER_VERSION {
        Some(
            ErrorView::Unsupported(
                "Unsupported minimum reader version "@ + text::signed_decimal(
                    c.protocol.min_reader_version as int,
                ),
            ),
        )
    } else {
        features_fault(c, enabled_reader_features(c.protocol), operation)
    }
}

/// Why a table cannot be written.
pub open spec fn write_fault(c: ConfigView) -> Option<ErrorView> {
    if c.protocol.min_writer_version < MIN_VALID_RW_VERSION {
        Some(
            ErrorView::InvalidProtocol(
                "min_writer_version must be >= 1, got "@ + text::signed_decimal(
                    c.protocol.min_writer_version as int,
                ),
            ),
        )
    } else if c.protocol.min_writer_version > MAX_VALID_WRITER_VERSION {
        Some(
            ErrorView::Unsupported(
                "Unsupported minimum writer version "@ + text::signed_decimal(
                    c.protocol.min_writer_version as int,
                ),
            ),
        )
    } else if features_fault(c, enabled_writer_features(c.protocol), Operation::Write) is Some {
        features_fault(c, enabled_writer_features(c.protocol), Operation::Write)
    } else if feature_supported(c.protocol, FeatureView::Invariants) && schema_transform::has_invariants(c.logical) {
        Some(ErrorView::Unsupported("Column invariants are not yet supported"@))
    } else {
        None
    }
}

/// Why an operation is not supported on a table.
pub open spec fn operation_fault(c: ConfigView, operation: Operation) -> Option<ErrorView> {
    match operation {
        Operation::Write => write_fault(c),
        _ => read_fault(c, operation),
    }
}

/// A table that can be written has no unknown feature and none that is not supported, and all that
/// its features require is met.
pub proof fn writable_tables_have_supported_features(c: ConfigView, f: FeatureView)
    requires
        operation_fault(c, Operation::Write) is None,
        enabled_writer_features(c.protocol).contains(f),
    ensures
        table_features::kernel_support_of(f) is Supported,
        !(f is Unknown),
        requirements_fault(c, f) is None,
{
    let s = enabled_writer_features(c.protocol);
    let fault = |i: int| feature_fault(c, s[i], Operation::Write);
    log_validation::lemma_first_fault(fault, 0, s.len() as int);
    let i = choose|i: int| 0 <= i < s.len() && s[i] == f;
    assert(fault(i) is None);
}

/// The known features that a reader version or a writer version includes.
fn collect_included(list: &Vec<TableFeature>, version: i32, writer: bool) -> (r: Vec<TableFeature>)
    ensures
        table_features::features_view(r@) == included_features(table_features::features_view(list@), version, writer),
{
    let ghost s = table_features::features_view(list@);
    let mut r: Vec<TableFeature> = Vec::new();
    let mut i: usize = 0;
    assert(s.take(0) =~= Seq::<FeatureView>::empty());
    assert(table_features::features_view(r@) =~= Seq::<FeatureView>::empty());
    while i < list.len()
        invariant
            i <= list@.len(),
            s == table_features::features_view(list@),
            table_features::features_view(r@) == included_features(s.take(i as int), version, writer),
        decreases list.len() - i,
    {
        let ghost before = table_features::features_view(r@);
        assert(s[i as int] == list@[i as int]@);
        assert(s.take(i + 1).drop_last() =~= s.take(i as int));
        assert(s.take(i + 1).last() == s[i as int]);
        if let Some((reader, writer_version)) = list[i].min_legacy_version() {
            let needed: i32 = if writer {
                writer_version
            } else {
                reader
            };
            if version >= needed {
                let f = list[i].clone();
                r.push(f);
                assert(table_features::features_view(r@) =~= before.push(f@));
            }
        }
        i += 1;
    }
    assert(s.take(i as int) =~= s);
    r
}

/// A message that ends in a version.
fn version_message(what: &str, version: i32) -> (r: String)
    ensures
        r@ == what@ + text::signed_decimal(version as int),
{
    let digits = signed_text(version as i64);
    text2(what, digits.as_str())
}

impl TableConfiguration {
    /// Checks that what a feature requires of others is met.
    fn validate_feature_requirements(&self, feature: &TableFeature) -> (r: DeltaResult<()>)
        ensures
            requirements_fault(self@, feature@) is None ==> r is Ok,
            requirements_fault(self@, feature@) is Some ==> error::failure(r) == requirements_fault(
                self@,
                feature@,
            ),
    {
        let requirements = feature.feature_requirements();
        let ghost all = table_features::requirements_of(feature@);
        let ghost c = self@;
        let ghost f = feature@;
        let ghost fault = |i: int| requirement_fault(c, f, all[i]);
        let mut i: usize = 0;
        while i < requirements.len()
            invariant
                i <= requirements@.len(),
                table_features::requirements_view(requirements@) == all,
                c == self@,
                f == feature@,
                all == table_features::requirements_of(f),
                fault == |i: int| requirement_fault(c, f, all[i]),
                requirements_fault(c, f) == log_validation::first_fault(fault, i as int, all.len() as int),
            decreases requirements.len() - i,
        {
            assert(all[i as int] == requirements@[i as int]@);
            assert(fault(i as int) == requirement_fault(c, f, all[i as int]));
            let name = feature.name();
            match &requirements[i] {
                FeatureRequirement::Supported(d) => {
                    if !self.is_feature_supported(d) {
                        return Err(
                            Error::InvalidProtocol(
                                text5("Feature '", name, "' requires '", d.name(), "' to be supported"),
                            ),
                        );
                    }
                },
                FeatureRequirement::Enabled(d) => {
                    if !self.is_feature_enabled(d) {
                        return Err(
                            Error::InvalidProtocol(
                                text5("Feature '", name, "' requires '", d.name(), "' to be enabled"),
                            ),
                        );
                    }
                },
                FeatureRequirement::NotSupported(d) => {
                    if self.is_feature_supported(d) {
                        return Err(
                            Error::InvalidProtocol(
                                text5(
                                    "Feature '",
                                    name,
                                    "' requires '",
                                    d.name(),
                                    "' to not be supported",
                                ),
                            ),
                        );
                    }
                },
                FeatureRequirement::NotEnabled(d) => {
                    if self.is_feature_enabled(d) {
                        return Err(
                            Error::InvalidProtocol(
                                text5(
                                    "Feature '",
                                    name,
                                    "' requires '",
                                    d.name(),
                                    "' to not be enabled",
                                ),
                            ),
                        );
                    }
                },
            }
            i += 1;
        }
        Ok(())
    }

    /// Checks that a feature does not stand in the way of an operation.
    fn check_feature_support(&self, feature: &TableFeature, operation: Operation) -> (r:
        DeltaResult<()>)
        ensures
            feature_fault(self@, feature@, operation) is None ==> r is Ok,
            feature_fault(self@, feature@, operation) is Some ==> error::failure(r) == feature_fault(
                self@,
                feature@,
                operation,
            ),
    {
        match feature.kernel_support() {
            KernelSupport::Supported => {},
            KernelSupport::NotSupported => {
                return Err(
                    Error::Unsupported(
                        text3("Feature '", feature.name(), "' is not supported"),
                    ),
                );
            },
            KernelSupport::ReadOnly => {
                if let Operation::Write = operation {
                    return Err(
                        Error::Unsupported(
                            text3("Feature '", feature.name(), "' is not supported for writes"),
                        ),
                    );
                }
            },
        }
        self.validate_feature_requirements(feature)
    }

    /// The features that a reader has to understand: those that are listed, or those that the
    /// reader version includes.
    fn get_enabled_reader_features(&self) -> (r: Vec<TableFeature>)
        ensures
            table_features::features_view(r@) == enabled_reader_features(self@.protocol),
    {
        let version: i32 = self.protocol.min_reader_version;
        let none: Vec<TableFeature> = Vec::new();
        assert(table_features::features_view(none@) =~= Seq::<FeatureView>::empty());
        if version == TABLE_FEATURES_MIN_READER_VERSION {
            match &self.protocol.reader_features {
                Some(list) => clone_features(list),
                None => none,
            }
        } else if 1 <= version && version <= 2 {
            let list = vec![TableFeature::ColumnMapping];
            assert(table_features::features_view(list@) =~= legacy_reader_features());
            collect_included(&list, version, false)
        } else {
            none
        }
    }

    /// The features that a writer has to understand: those that are listed, or those that the
    /// writer version includes.
    fn get_enabled_writer_features(&self) -> (r: Vec<TableFeature>)
        ensures
            table_features::features_view(r@) == enabled_writer_features(self@.protocol),
    {
        let version: i32 = self.protocol.min_writer_version;
        let none: Vec<TableFeature> = Vec::new();
        assert(table_features::features_view(none@) =~= Seq::<FeatureView>::empty());
        if version == TABLE_FEATURES_MIN_WRITER_VERSION {
            match &self.protocol.writer_features {
                Some(list) => clone_features(list),
                None => none,
            }
        } else if 1 <= version && version <= 6 {
            let list = vec![
                TableFeature::AppendOnly,
                TableFeature::Invariants,
                TableFeature::CheckConstraints,
                TableFeature::ChangeDataFeed,
                TableFeature::GeneratedColumns,
                TableFeature::ColumnMapping,
                TableFeature::IdentityColumns,
            ];
            assert(table_features::features_view(list@) =~= legacy_writer_features());
            collect_included(&list, version, true)
        } else {
            none
        }
    }

    /// Checks that no feature of a list stands in the way of an operation.
    fn check_features(&self, list: &Vec<TableFeature>, operation: Operation) -> (r: DeltaResult<()>)
        ensures
            features_fault(self@, table_features::features_view(list@), operation) is None ==> r is Ok,
            features_fault(self@, table_features::features_view(list@), operation) is Some ==> error::failure(r)
                == features_fault(self@, table_features::features_view(list@), operation),
    {
        let ghost c = self@;
        let ghost s = table_features::features_view(list@);
        let ghost fault = |i: int| feature_fault(c, s[i], operation);
        let mut i: usize = 0;
        while i < list.len()
            invariant
                i <= list@.len(),
                c == self@,
                s == table_features::features_view(list@),
                fault == |i: int| feature_fault(c, s[i], operation),
                features_fault(c, s, operation) == log_validation::first_fault(fault, i as int, s.len() as int),
            decreases list.len() - i,
        {
            assert(s[i as int] == list@[i as int]@);
            assert(fault(i as int) == feature_fault(c, s[i as int], operation));
            match self.check_feature_support(&list[i], operation) {
                Ok(_) => {},
                Err(e) => {
                    return Err(e);
                },
            }
            i += 1;
        }
        Ok(())
    }

    /// Checks that an operation is supported on the table: that the version of its protocol is
    /// known, and that no feature stands in the way.
    pub fn ensure_operation_supported(&self, operation: Operation) -> (r: DeltaResult<()>)
        ensures
            operation_fault(self@, operation) is None ==> r is Ok,
            operation_fault(self@, operation) is Some ==> error::failure(r) == operation_fault(
                self@,
                operation,
            ),
    {
        match operation {
            Operation::Write => self.ensure_write_supported(),
            _ => self.ensure_read_supported(operation),
        }
    }

    fn ensure_read_supported(&self, operation: Operation) -> (r: DeltaResult<()>)
        ensures
            read_fault(self@, operation) is None ==> r is Ok,
            read_fault(self@, operation) is Some ==> error::failure(r) == read_fault(self@, operation),
    {
        let version: i32 = self.protocol.min_reader_version;
        if version < MIN_VALID_RW_VERSION {
            return Err(
                Error::InvalidProtocol(
                    version_message("min_reader_version must be >= 1, got ", version),
                ),
            );
        }
        if version > MAX_VALID_READER_VERSION {
            return Err(
                Error::Unsupported(version_message("Unsupported minimum reader version ", version)),
            );
        }
        let features = self.get_enabled_reader_features();
        self.check_features(&features, operation)
    }

    fn ensure_write_supported(&self) -> (r: DeltaResult<()>)
        ensures
            write_fault(self@) is None ==> r is Ok,
            write_fault(self@) is Some ==> error::failure(r) == write_fault(self@),
    {
        let version: i32 = self.protocol.min_writer_version;
        if version < MIN_VALID_RW_VERSION {
            return Err(
                Error::InvalidProtocol(
                    version_message("min_writer_version must be >= 1, got ", version),
                ),
            );
        }
        if version > MAX_VALID_WRITER_VERSION {
            return Err(
                Error::Unsupported(version_message("Unsupported minimum writer version ", version)),
            );
        }
        let features = self.get_enabled_writer_features();
        match self.check_features(&features, Operation::Write) {
            Ok(_) => {},
            Err(e) => {
                return Err(e);
            },
        }
        if self.is_feature_supported(&TableFeature::Invariants) && schema_has_invariants(
            &self.logical_schema,
        ) {
            return Err(Error::unsupported("Column invariants are not yet supported"));
        }
        Ok(())
    }
}

/// The fields of one list whose counterparts in another are not named in a third.
pub open spec fn fields_not_named(
    logical: Seq<FieldView>,
    kept: Seq<FieldView>,
    names: Seq<Seq<char>>,
) -> Seq<FieldView>
    decreases logical.len(),
{
    if logical.len() == 0 || kept.len() != logical.len() {
        Seq::empty()
    } else {
        let front = fields_not_named(logical.drop_last(), kept.drop_last(), names);
        if names.contains(logical.last().name) {
            front
        } else {
            front.push(kept.last())
        }
    }
}

/// The fields of one list whose counterparts in another are not named in a third.
fn drop_named(logical: &Vec<StructField>, kept: &Vec<StructField>, names: &Vec<String>) -> (r: Vec<
    StructField,
>)
    requires
        kept@.len() == logical@.len(),
    ensures
        schema::fields_view(r@) == fields_not_named(
            schema::fields_view(logical@),
            schema::fields_view(kept@),
            text::texts(names@),
        ),
{
    let ghost l = schema::fields_view(logical@);
    let ghost k = schema::fields_view(kept@);
    let ghost n = text::texts(names@);
    let mut out: Vec<StructField> = Vec::new();
    let mut i: usize = 0;
    assert(schema::fields_view(out@) =~= Seq::<FieldView>::empty());
    while i < logical.len()
        invariant
            i <= logical@.len(),
            kept@.len() == logical@.len(),
            l == schema::fields_view(logical@),
            k == schema::fields_view(kept@),
            n == text::texts(names@),
            schema::fields_view(out@) == fields_not_named(l.take(i as int), k.take(i as int), n),
        decreases logical.len() - i,
    {
        let ghost before = schema::fields_view(out@);
        assert(l[i as int] == schema::field_view(logical@[i as int]));
        assert(k[i as int] == schema::field_view(kept@[i as int]));
        assert(l.take(i + 1).drop_last() =~= l.take(i as int));
        assert(k.take(i + 1).drop_last() =~= k.take(i as int));
        if !contains_text(names, logical[i].name.as_str()) {
            let f = kept[i].clone();
            out.push(f);
            assert(schema::fields_view(out@) =~= before.push(f@));
        }
        i += 1;
    }
    assert(l.take(i as int) =~= l);
    assert(k.take(i as int) =~= k);
    out
}

/// The physical schema without the partition columns.
pub open spec fn physical_data_fields(c: ConfigView) -> Seq<FieldView> {
    schema::keyed(fields_not_named(c.logical, c.physical, c.metadata.partition_columns))
}

/// The logical schema without the partition columns.
pub open spec fn logical_data_fields(c: ConfigView) -> Seq<FieldView> {
    schema::keyed(fields_not_named(c.logical, c.logical, c.metadata.partition_columns))
}

/// The schema with which data files are written: with the partition columns only where they are
/// materialised.
pub open spec fn write_fields(c: ConfigView) -> Seq<FieldView> {
    if feature_enabled(c.protocol, c.properties, FeatureView::MaterializePartitionColumns) {
        c.physical
    } else {
        physical_data_fields(c)
    }
}

/// Every field that is left is a field whose counterpart is not named.
proof fn lemma_fields_not_named(
    logical: Seq<FieldView>,
    kept: Seq<FieldView>,
    names: Seq<Seq<char>>,
    f: FieldView,
)
    requires
        fields_not_named(logical, kept, names).contains(f),
    ensures
        exists|j: int|
            0 <= j < logical.len() && logical.len() == kept.len() && #[trigger] kept[j] == f
                && !names.contains(logical[j].name),
    decreases logical.len(),
{
    let all = fields_not_named(logical, kept, names);
    let last = logical.len() - 1;
    let front = fields_not_named(logical.drop_last(), kept.drop_last(), names);
    let i = choose|i: int| 0 <= i < all.len() && all[i] == f;
    if names.contains(logical.last().name) || i < front.len() {
        assert(front[i] == f);
        lemma_fields_not_named(logical.drop_last(), kept.drop_last(), names, f);
        let j = choose|j: int|
            0 <= j < logical.len() - 1 && #[trigger] kept.drop_last()[j] == f && !names.contains(
                logical.drop_last()[j].name,
            );
        assert(kept[j] == f && !names.contains(logical[j].name));
    } else {
        assert(kept[last] == f);
    }
}

/// Statistics are on data columns only: a partition column has none, whatever the table properties
/// list and whichever columns are required.
pub proof fn partition_columns_have_no_stats(
    c: ConfigView,
    required: Option<Seq<Seq<Seq<char>>>>,
    i: int,
    path: Seq<Seq<char>>,
)
    requires
        config_valid(c),
        schema::field_names(c.physical).no_duplicates(),
        0 <= i < c.logical.len(),
        c.metadata.partition_columns.contains(c.logical[i].name),
        stats_schema::stats_columns_of(physical_data_fields(c), stats_config_of(c), required).contains(path),
    ensures
        path.len() > 0,
        path[0] != c.physical[i].name,
{
    let data = physical_data_fields(c);
    let left = fields_not_named(c.logical, c.physical, c.metadata.partition_columns);
    stats_schema::required_columns_have_stats(data, stats_config_of(c), required, path);
    stats_schema::lemma_leaf_columns_start(data, Seq::empty(), path);
    let k = choose|k: int| 0 <= k < data.len() && (#[trigger] data[k]).name == path[0];
    schema::lemma_keyed_from(left, data[k]);
    lemma_fields_not_named(c.logical, c.physical, c.metadata.partition_columns, data[k]);
    let j = choose|j: int|
        0 <= j < c.logical.len() && #[trigger] c.physical[j] == data[k]
            && !c.metadata.partition_columns.contains(c.logical[j].name);
    assert(c.physical.len() == c.logical.len());
    assert(schema::field_names(c.physical)[i] == c.physical[i].name);
    assert(schema::field_names(c.physical)[j] == c.physical[j].name);
    assert(i != j);
}

/// The physical names of those columns of a list that are in a schema.
pub open spec fn resolved_columns(
    s: Seq<FieldView>,
    columns: Seq<Seq<Seq<char>>>,
    mode: ColumnMappingMode,
) -> Seq<Seq<Seq<char>>>
    decreases columns.len(),
{
    if columns.len() == 0 {
        Seq::empty()
    } else {
        let front = resolved_columns(s, columns.drop_last(), mode);
        match schema_transform::physical_column(s, columns.last(), mode) {
            Ok(p) => front.push(p),
            Err(_) => front,
        }
    }
}

/// The physical names of the columns that the table properties list for statistics.
pub open spec fn listed_stats_columns(c: ConfigView) -> Option<Seq<Seq<Seq<char>>>> {
    match c.properties.data_skipping_stats_columns {
        Some(columns) => Some(resolved_columns(logical_data_fields(c), columns, c.mode)),
        None => None,
    }
}

/// Which columns of a table have statistics.
pub open spec fn stats_config_of(c: ConfigView) -> StatsConfigView {
    StatsConfigView {
        columns: listed_stats_columns(c),
        num_indexed_cols: c.properties.data_skipping_num_indexed_cols,
    }
}

/// The fields for the parsed values of partition columns.
pub open spec fn partition_value_fields(
    s: Seq<FieldView>,
    names: Seq<Seq<char>>,
    mode: ColumnMappingMode,
) -> Seq<FieldView>
    decreases names.len(),
{
    if names.len() == 0 {
        Seq::empty()
    } else {
        let front = partition_value_fields(s, names.drop_last(), mode);
        match schema::find_field(s, names.last()) {
            Some(f) => front.push(schema::plain_field(schema_transform::physical_name_of(f, mode), f.data_type, f.nullable)),
            None => front,
        }
    }
}

impl TableConfiguration {
    /// The logical schema without the partition columns.
    pub fn logical_data_schema(&self) -> (r: StructType)
        ensures
            r@ == logical_data_fields(self@),
    {
        let fields = drop_named(
            &self.logical_schema.fields,
            &self.logical_schema.fields,
            &self.metadata.partition_columns,
        );
        StructType::new_unchecked(fields)
    }

    /// The physical schema without the partition columns.
    pub fn physical_data_schema_without_partition_columns(&self) -> (r: StructType)
        requires
            config_valid(self@),
        ensures
            r@ == physical_data_fields(self@),
    {
        assert(self@.physical.len() == self@.logical.len());
        let fields = drop_named(
            &self.logical_schema.fields,
            &self.physical_schema.fields,
            &self.metadata.partition_columns,
        );
        StructType::new_unchecked(fields)
    }

    /// The schema with which data files are written.
    pub fn physical_write_schema(&self) -> (r: StructType)
        requires
            config_valid(self@),
        ensures
            r@ == write_fields(self@),
    {
        if self.is_feature_enabled(&TableFeature::MaterializePartitionColumns) {
            self.physical_schema.clone()
        } else {
            self.physical_data_schema_without_partition_columns()
        }
    }

    /// The physical names of the columns that the table properties list for statistics. Columns
    /// that are not in the schema are passed over.
    pub fn required_physical_stats_columns(&self) -> (r: Option<Vec<ColumnName>>)
        ensures
            expressions::opt_columns(r) == listed_stats_columns(self@),
    {
        let columns = match &self.table_properties.data_skipping_stats_columns {
            Some(columns) => columns,
            None => {
                return None;
            },
        };
        let schema = self.logical_data_schema();
        let ghost all = expressions::columns_view(columns@);
        let mut out: Vec<ColumnName> = Vec::new();
        let mut i: usize = 0;
        assert(expressions::columns_view(out@) =~= Seq::<Seq<Seq<char>>>::empty());
        while i < columns.len()
            invariant
                i <= columns@.len(),
                all == expressions::columns_view(columns@),
                expressions::columns_view(out@) == resolved_columns(
                    schema@,
                    all.take(i as int),
                    self.column_mapping_mode,
                ),
            decreases columns.len() - i,
        {
            let ghost before = expressions::columns_view(out@);
            assert(all[i as int] == columns@[i as int]@);
            assert(all.take(i + 1).drop_last() =~= all.take(i as int));
            assert(all.take(i + 1).last() == all[i as int]);
            match get_any_level_column_physical_name(
                &schema,
                &columns[i],
                self.column_mapping_mode,
            ) {
                Ok(c) => {
                    out.push(c);
                    assert(expressions::columns_view(out@) =~= before.push(c@));
                },
                Err(_) => {},
            }
            i += 1;
        }
        assert(all.take(i as int) =~= all);
        Some(out)
    }

    /// The schema of the statistics on data files, with physical names and without metadata.
    pub fn build_expected_stats_schemas(
        &self,
        required_physical_columns: Option<&Vec<ColumnName>>,
        requested_physical_columns: Option<&Vec<ColumnName>>,
    ) -> (r: StructType)
        requires
            config_valid(self@),
        ensures
            r@ == schema_transform::stripped_fields(
                stats_schema::expected_stats_of(
                    physical_data_fields(self@),
                    stats_config_of(self@),
                    stats_schema::opt_columns_ref(required_physical_columns),
                    stats_schema::opt_columns_ref(requested_physical_columns),
                ),
            ),
    {
        let schema = self.physical_data_schema_without_partition_columns();
        let listed = self.required_physical_stats_columns();
        let config = StatsConfig {
            data_skipping_stats_columns: listed.as_ref(),
            data_skipping_num_indexed_cols: self.table_properties.data_skipping_num_indexed_cols,
        };
        assert(config@ == stats_config_of(self@));
        let stats = expected_stats_schema(
            &schema,
            &config,
            required_physical_columns,
            requested_physical_columns,
        );
        strip_metadata(&stats)
    }

    /// The physical names of the columns that have statistics. Partition columns are never among
    /// them: their values are not in the data files.
    pub fn physical_stats_column_names(&self, required_columns: Option<&Vec<ColumnName>>) -> (r:
        Vec<ColumnName>)
        requires
            config_valid(self@),
        ensures
            expressions::columns_view(r@) == stats_schema::stats_columns_of(
                physical_data_fields(self@),
                stats_config_of(self@),
                stats_schema::opt_columns_ref(required_columns),
            ),
    {
        let schema = self.physical_data_schema_without_partition_columns();
        let listed = self.required_physical_stats_columns();
        let config = StatsConfig {
            data_skipping_stats_columns: listed.as_ref(),
            data_skipping_num_indexed_cols: self.table_properties.data_skipping_num_indexed_cols,
        };
        assert(config@ == stats_config_of(self@));
        stats_column_names(&schema, &config, required_columns)
    }

    /// The schema of the parsed partition values, with physical names: none where the table has no
    /// partition columns. Partition columns that are not in the schema are passed over.
    pub fn build_partition_values_parsed_schema(&self) -> (r: Option<StructType>)
        ensures
            log_segment::opt_schema(r) == (if self@.metadata.partition_columns.len() == 0 {
                None
            } else {
                Some(
                    schema::keyed(
                        partition_value_fields(
                            self@.logical,
                            self@.metadata.partition_columns,
                            self@.mode,
                        ),
                    ),
                )
            }),
    {
        let names = &self.metadata.partition_columns;
        if names.len() == 0 {
            return None;
        }
        let ghost all = text::texts(names@);
        let mut fields: Vec<StructField> = Vec::new();
        let mut i: usize = 0;
        assert(schema::fields_view(fields@) =~= Seq::<FieldView>::empty());
        while i < names.len()
            invariant
                i <= names@.len(),
                all == text::texts(names@),
                schema::fields_view(fields@) == partition_value_fields(
                    self@.logical,
                    all.take(i as int),
                    self@.mode,
                ),
            decreases names.len() - i,
        {
            let ghost before = schema::fields_view(fields@);
            assert(all[i as int] == names@[i as int]@);
            assert(all.take(i + 1).drop_last() =~= all.take(i as int));
            assert(all.take(i + 1).last() == all[i as int]);
            if let Some(f) = self.logical_schema.field(names[i].as_str()) {
                let field = StructField::new(
                    f.physical_name(self.column_mapping_mode),
                    f.data_type.clone(),
                    f.nullable,
                );
                fields.push(field);
                assert(schema::fields_view(fields@) =~= before.push(field@));
            }
            i += 1;
        }
        assert(all.take(i as int) =~= all);
        Some(StructType::new_unchecked(fields))
    }

    pub fn metadata(&self) -> (r: &Metadata)
        ensures
            r@ == self@.metadata,
    {
        &self.metadata
    }

    pub fn protocol(&self) -> (r: &Protocol)
        ensures
            r@ == self@.protocol,
    {
        &self.protocol
    }

    /// The schema with the names that the user sees.
    pub fn logical_schema(&self) -> (r: &StructType)
        ensures
            r@ == self@.logical,
    {
        &self.logical_schema
    }

    /// The schema with the names in data files.
    pub fn physical_schema(&self) -> (r: &StructType)
        ensures
            r@ == self@.physical,
    {
        &self.physical_schema
    }

    pub fn table_properties(&self) -> (r: &TableProperties)
        ensures
            r@ == self@.properties,
    {
        &self.table_properties
    }

    pub fn column_mapping_mode(&self) -> (r: ColumnMappingMode)
        ensures
            r == self@.mode,
    {
        self.column_mapping_mode
    }

    pub fn partition_columns(&self) -> (r: &Vec<String>)
        ensures
            text::texts(r@) == self@.metadata.partition_columns,
    {
        &self.metadata.partition_columns
    }

    /// The URL of the table.
    pub fn table_root(&self) -> (r: &str)
        ensures
            r@ == self@.table_root,
    {
        self.table_root.as_str()
    }

    pub fn version(&self) -> (r: Version)
        ensures
            r == self@.version,
    {
        self.version
    }
}

} // verus!
